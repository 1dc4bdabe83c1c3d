use finch_gen::diag::{code_text, Diagnostic, DiagnosticCode, DiagnosticLevel};

#[test]
fn codes_are_stable() {
    assert_eq!(code_text(DiagnosticCode::NotPublic), "E0001");
    assert_eq!(code_text(DiagnosticCode::AsyncNotEnabled), "E0002");
    assert_eq!(code_text(DiagnosticCode::UnexpectedDeclaration), "E0003");
    assert_eq!(code_text(DiagnosticCode::UnsupportedType), "E0004");
    assert_eq!(code_text(DiagnosticCode::InvalidTargetType), "E0005");
    assert_eq!(code_text(DiagnosticCode::MissingGenericType), "E0006");
    assert_eq!(code_text(DiagnosticCode::MissingGenerics), "E0007");
}

#[test]
fn not_public_message() {
    let d = Diagnostic::new(DiagnosticCode::NotPublic, String::from("Hidden"));
    assert_eq!(d.level, DiagnosticLevel::Error);
    assert_eq!(
        d.message(),
        "finch-gen[E0001] struct not public but exported with #[finch_bindgen]"
    );
}

#[test]
fn async_message() {
    let d = Diagnostic::new(DiagnosticCode::AsyncNotEnabled, String::from("poll"));
    assert_eq!(
        d.message(),
        "finch-gen[E0002] found async function but the 'async' feature is not enabled"
    );
}

#[test]
fn unexpected_declaration_message() {
    let d = Diagnostic::new(DiagnosticCode::UnexpectedDeclaration, String::from("fn free()"));
    assert_eq!(
        d.message(),
        "finch-gen[E0003] unexpected type for #[finch_bindgen], expected struct or impl, got 'fn free()'"
    );
}

#[test]
fn unsupported_type_message() {
    let d = Diagnostic::new(DiagnosticCode::UnsupportedType, String::from("RawThing"));
    assert_eq!(d.message(), "finch-gen[E0004] unsupported type 'RawThing'");
}

#[test]
fn invalid_target_message() {
    let d = Diagnostic::new(DiagnosticCode::InvalidTargetType, String::from("&T"));
    assert_eq!(
        d.message(),
        "finch-gen[E0005] invalid type found: expected path, got '&T'"
    );
}

#[test]
fn generics_messages() {
    let d = Diagnostic::new(DiagnosticCode::MissingGenericType, String::from("Option"));
    assert_eq!(d.message(), "finch-gen[E0006] expected type for generics");
    let d = Diagnostic::new(DiagnosticCode::MissingGenerics, String::from("Option"));
    assert_eq!(d.message(), "finch-gen[E0007] expected generics for Option");
    let d = Diagnostic::new(DiagnosticCode::MissingGenerics, String::from("Result"));
    assert_eq!(d.message(), "finch-gen[E0007] expected generics for Result");
}

#[test]
fn reference_notes_point_to_the_code() {
    let d = Diagnostic::new(DiagnosticCode::NotPublic, String::from("Hidden"));
    assert_eq!(
        d.reference_note(),
        "go to https://finch-gen.github.io/docs/errors/E0001 for more information"
    );
    let d = Diagnostic::new(DiagnosticCode::UnsupportedType, String::from("x"));
    assert_eq!(
        d.reference_note(),
        "go to https://finch-gen.github.io/docs/errors/E0004 for more information"
    );
}

#[test]
fn remediation_hints() {
    let d = Diagnostic::new(DiagnosticCode::NotPublic, String::from("Hidden"));
    assert_eq!(d.remediation(), Some("add 'pub' here"));
    let d = Diagnostic::new(DiagnosticCode::AsyncNotEnabled, String::from("poll"));
    assert_eq!(
        d.remediation(),
        Some("enable the 'async' feature for finch-gen in your Cargo.toml")
    );
    let d = Diagnostic::new(DiagnosticCode::UnsupportedType, String::from("x"));
    assert_eq!(d.remediation(), None);
}
