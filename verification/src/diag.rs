//! Coded, user-facing diagnostics for synthesis-time policy violations. Every
//! violation carries a stable code, a message, a stable reference identifier
//! for documentation lookup and, where one exists, a remediation hint.

use vstd::prelude::*;
use vstd::string::StringExecFns;

verus! {

/// Severity of a synthesis-time diagnostic. Every current policy violation is
/// an error.
#[derive(PartialEq, Eq, Structural, Clone, Copy, Debug)]
pub enum DiagnosticLevel {
    Error,
}

/// The stable code of each policy violation.
#[derive(PartialEq, Eq, Structural, Clone, Copy, Debug)]
pub enum DiagnosticCode {
    /// An exported type is not publicly visible.
    NotPublic,
    /// A method is asynchronous but the asynchronous capability is not enabled.
    AsyncNotEnabled,
    /// The declaration handed to synthesis is neither a type nor a method block.
    UnexpectedDeclaration,
    /// A type has no lowering rule.
    UnsupportedType,
    /// A method block names something that is not a plain type.
    InvalidTargetType,
    /// The generic argument of an optional or fallible result is not a type.
    MissingGenericType,
    /// An optional or fallible result has no generic argument at all.
    MissingGenerics,
}

/// The stable code as text.
pub open spec fn spec_code_text(c: DiagnosticCode) -> Seq<char> {
    match c {
        DiagnosticCode::NotPublic => "E0001"@,
        DiagnosticCode::AsyncNotEnabled => "E0002"@,
        DiagnosticCode::UnexpectedDeclaration => "E0003"@,
        DiagnosticCode::UnsupportedType => "E0004"@,
        DiagnosticCode::InvalidTargetType => "E0005"@,
        DiagnosticCode::MissingGenericType => "E0006"@,
        DiagnosticCode::MissingGenerics => "E0007"@,
    }
}

/// The stable code as text.
pub fn code_text(c: DiagnosticCode) -> (r: &'static str)
    ensures
        r@ == spec_code_text(c),
{
    match c {
        DiagnosticCode::NotPublic => "E0001",
        DiagnosticCode::AsyncNotEnabled => "E0002",
        DiagnosticCode::UnexpectedDeclaration => "E0003",
        DiagnosticCode::UnsupportedType => "E0004",
        DiagnosticCode::InvalidTargetType => "E0005",
        DiagnosticCode::MissingGenericType => "E0006",
        DiagnosticCode::MissingGenerics => "E0007",
    }
}

/// The user-facing message of a diagnostic; the subject is the offending name
/// or type text where the message quotes one.
pub open spec fn spec_message(c: DiagnosticCode, subject: Seq<char>) -> Seq<char> {
    match c {
        DiagnosticCode::NotPublic => {
            "finch-gen[E0001] struct not public but exported with #[finch_bindgen]"@
        },
        DiagnosticCode::AsyncNotEnabled => {
            "finch-gen[E0002] found async function but the 'async' feature is not enabled"@
        },
        DiagnosticCode::UnexpectedDeclaration => {
            "finch-gen[E0003] unexpected type for #[finch_bindgen], expected struct or impl, got '"@
                + subject + "'"@
        },
        DiagnosticCode::UnsupportedType => {
            "finch-gen[E0004] unsupported type '"@ + subject + "'"@
        },
        DiagnosticCode::InvalidTargetType => {
            "finch-gen[E0005] invalid type found: expected path, got '"@ + subject + "'"@
        },
        DiagnosticCode::MissingGenericType => {
            "finch-gen[E0006] expected type for generics"@
        },
        DiagnosticCode::MissingGenerics => {
            "finch-gen[E0007] expected generics for "@ + subject
        },
    }
}

/// The stable reference identifier of a code: the address of its
/// documentation entry.
pub open spec fn spec_reference(c: DiagnosticCode) -> Seq<char> {
    "go to https://finch-gen.github.io/docs/errors/"@ + spec_code_text(c)
        + " for more information"@
}

/// The remediation hint of a code, where one exists.
pub open spec fn spec_remediation(c: DiagnosticCode) -> Option<Seq<char>> {
    match c {
        DiagnosticCode::NotPublic => Some("add 'pub' here"@),
        DiagnosticCode::AsyncNotEnabled => {
            Some("enable the 'async' feature for finch-gen in your Cargo.toml"@)
        },
        _ => None,
    }
}

/// One reported policy violation: its code, severity, and the offending name
/// or type text.
pub struct Diagnostic {
    pub code: DiagnosticCode,
    pub level: DiagnosticLevel,
    pub subject: String,
}

/// Mathematical model of a diagnostic.
pub struct DiagModel {
    pub code: DiagnosticCode,
    pub level: DiagnosticLevel,
    pub subject: Seq<char>,
}

impl View for Diagnostic {
    type V = DiagModel;

    open spec fn view(&self) -> DiagModel {
        DiagModel { code: self.code, level: self.level, subject: self.subject@ }
    }
}

impl Diagnostic {
    /// A new error diagnostic for the given code and subject.
    pub fn new(code: DiagnosticCode, subject: String) -> (d: Diagnostic)
        ensures
            d@ == (DiagModel { code, level: DiagnosticLevel::Error, subject: subject@ }),
    {
        Diagnostic { code, level: DiagnosticLevel::Error, subject }
    }

    /// The user-facing message.
    pub fn message(&self) -> (r: String)
        ensures
            r@ == spec_message(self.code, self.subject@),
    {
        match self.code {
            DiagnosticCode::NotPublic => {
                String::from_str(
                    "finch-gen[E0001] struct not public but exported with #[finch_bindgen]",
                )
            },
            DiagnosticCode::AsyncNotEnabled => {
                String::from_str(
                    "finch-gen[E0002] found async function but the 'async' feature is not enabled",
                )
            },
            DiagnosticCode::UnexpectedDeclaration => {
                let mut s = String::from_str(
                    "finch-gen[E0003] unexpected type for #[finch_bindgen], expected struct or impl, got '",
                );
                s.append(self.subject.as_str());
                s.append("'");
                assert(s@ =~= spec_message(self.code, self.subject@));
                s
            },
            DiagnosticCode::UnsupportedType => {
                let mut s = String::from_str("finch-gen[E0004] unsupported type '");
                s.append(self.subject.as_str());
                s.append("'");
                assert(s@ =~= spec_message(self.code, self.subject@));
                s
            },
            DiagnosticCode::InvalidTargetType => {
                let mut s = String::from_str(
                    "finch-gen[E0005] invalid type found: expected path, got '",
                );
                s.append(self.subject.as_str());
                s.append("'");
                assert(s@ =~= spec_message(self.code, self.subject@));
                s
            },
            DiagnosticCode::MissingGenericType => {
                String::from_str("finch-gen[E0006] expected type for generics")
            },
            DiagnosticCode::MissingGenerics => {
                let mut s = String::from_str("finch-gen[E0007] expected generics for ");
                s.append(self.subject.as_str());
                assert(s@ =~= spec_message(self.code, self.subject@));
                s
            },
        }
    }

    /// The stable reference identifier for documentation lookup.
    pub fn reference_note(&self) -> (r: String)
        ensures
            r@ == spec_reference(self.code),
    {
        let mut s = String::from_str("go to https://finch-gen.github.io/docs/errors/");
        s.append(code_text(self.code));
        s.append(" for more information");
        assert(s@ =~= spec_reference(self.code));
        s
    }

    /// The remediation hint, where the code has one.
    pub fn remediation(&self) -> (r: Option<&'static str>)
        ensures
            r is Some <==> spec_remediation(self.code) is Some,
            r matches Some(s) ==> spec_remediation(self.code) matches Some(t) && s@ == t,
    {
        match self.code {
            DiagnosticCode::NotPublic => Some("add 'pub' here"),
            DiagnosticCode::AsyncNotEnabled => {
                Some("enable the 'async' feature for finch-gen in your Cargo.toml")
            },
            _ => None,
        }
    }
}

} // verus!
