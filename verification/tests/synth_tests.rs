use finch_gen::decl::{
    Declaration, GenericSlot, ImplTarget, LogicalType, Method, MethodBlock, NamedField, Param,
    PrimitiveType, Receiver, StructFields, TypeDecl, UnnamedField,
};
use finch_gen::diag::DiagnosticCode;
use finch_gen::lowering::{lower_argument, lower_return, AbiType, LowerError};
use finch_gen::naming::{Category, ExportKind};
use finch_gen::synth::{synthesize, BridgeBody, ReceiverAbi};

fn counter_decls() -> Vec<Declaration> {
    vec![
        Declaration::TypeDef(TypeDecl {
            name: String::from("Counter"),
            visible: true,
            fields: StructFields::Named(vec![NamedField {
                name: String::from("value"),
                ty: LogicalType::Primitive(PrimitiveType::I32),
                public: true,
            }]),
        }),
        Declaration::Methods(MethodBlock {
            target: ImplTarget::Named(String::from("Counter")),
            methods: vec![
                Method {
                    name: String::from("increment"),
                    receiver: Receiver::ByRef,
                    params: Vec::new(),
                    ret: None,
                    is_async: false,
                    public: true,
                },
                Method {
                    name: String::from("finish"),
                    receiver: Receiver::Consuming,
                    params: Vec::new(),
                    ret: Some(LogicalType::Primitive(PrimitiveType::I32)),
                    is_async: false,
                    public: true,
                },
            ],
        }),
    ]
}

#[test]
fn counter_scenario() {
    let out = synthesize(String::from("demo"), false, &counter_decls());
    assert!(out.diagnostics.is_empty());
    let symbols: Vec<&str> = out.exports.iter().map(|e| e.symbol.as_str()).collect();
    assert_eq!(
        symbols,
        vec![
            "___finch_bindgen___demo___class___Counter___type",
            "___finch_bindgen___demo___class___Counter___drop",
            "___finch_bindgen___demo___class___Counter___getter___value",
            "___finch_bindgen___demo___class___Counter___setter___value",
            "___finch_bindgen___demo___builtin___FinchString___new",
            "___finch_bindgen___demo___builtin___FinchString___drop",
            "___finch_bindgen___demo___builtin___FinchCString___drop",
            "___finch_bindgen___demo___builtin___FinchRuntime___init",
            "___finch_bindgen___demo___class___Counter___method___increment",
            "___finch_bindgen___demo___class___Counter___method_consume___finish",
        ]
    );
    let getter = &out.exports[2];
    assert_eq!(getter.kind, ExportKind::Getter);
    assert_eq!(getter.receiver, ReceiverAbi::Borrowed);
    assert!(matches!(getter.ret, Some(AbiType::Primitive(PrimitiveType::I32))));
    let finish = &out.exports[9];
    assert_eq!(finish.kind, ExportKind::MethodConsume);
    assert_eq!(finish.receiver, ReceiverAbi::OwningPtr);
    assert!(matches!(finish.ret, Some(AbiType::Primitive(PrimitiveType::I32))));
    assert!(matches!(
        finish.body,
        BridgeBody::CallConsuming { blocking_async: false, .. }
    ));
}

#[test]
fn symbols_pairwise_distinct() {
    let out = synthesize(String::from("demo"), false, &counter_decls());
    for i in 0..out.exports.len() {
        for j in (i + 1)..out.exports.len() {
            assert_ne!(out.exports[i].symbol, out.exports[j].symbol);
        }
    }
}

#[test]
fn synthesis_is_deterministic() {
    let a = synthesize(String::from("demo"), false, &counter_decls());
    let b = synthesize(String::from("demo"), false, &counter_decls());
    assert_eq!(a.exports.len(), b.exports.len());
    for (x, y) in a.exports.iter().zip(b.exports.iter()) {
        assert_eq!(x.symbol, y.symbol);
    }
}

fn hidden_decls() -> Vec<Declaration> {
    vec![
        Declaration::TypeDef(TypeDecl {
            name: String::from("Hidden"),
            visible: false,
            fields: StructFields::Named(vec![NamedField {
                name: String::from("value"),
                ty: LogicalType::Primitive(PrimitiveType::I32),
                public: true,
            }]),
        }),
        Declaration::Methods(MethodBlock {
            target: ImplTarget::Named(String::from("Hidden")),
            methods: vec![Method {
                name: String::from("touch"),
                receiver: Receiver::ByRef,
                params: Vec::new(),
                ret: None,
                is_async: false,
                public: true,
            }],
        }),
        Declaration::Methods(MethodBlock {
            target: ImplTarget::Named(String::from("Hidden")),
            methods: vec![Method {
                name: String::from("again"),
                receiver: Receiver::Static,
                params: Vec::new(),
                ret: None,
                is_async: false,
                public: true,
            }],
        }),
    ]
}

#[test]
fn invisible_type_is_fully_suppressed() {
    let out = synthesize(String::from("demo"), false, &hidden_decls());
    assert!(out.exports.is_empty());
    // reported once, not re-reported per later method block
    assert_eq!(out.diagnostics.len(), 1);
    assert_eq!(out.diagnostics[0].code, DiagnosticCode::NotPublic);
    assert_eq!(out.diagnostics[0].subject, "Hidden");
}

fn async_decls() -> Vec<Declaration> {
    vec![
        Declaration::TypeDef(TypeDecl {
            name: String::from("Poller"),
            visible: true,
            fields: StructFields::Unit,
        }),
        Declaration::Methods(MethodBlock {
            target: ImplTarget::Named(String::from("Poller")),
            methods: vec![Method {
                name: String::from("wait"),
                receiver: Receiver::ByRef,
                params: Vec::new(),
                ret: None,
                is_async: true,
                public: true,
            }],
        }),
    ]
}

#[test]
fn async_without_capability_is_a_diagnostic() {
    let out = synthesize(String::from("demo"), false, &async_decls());
    assert_eq!(out.diagnostics.len(), 1);
    assert_eq!(out.diagnostics[0].code, DiagnosticCode::AsyncNotEnabled);
    assert!(!out
        .exports
        .iter()
        .any(|e| e.symbol.contains("___method___wait")));
}

#[test]
fn async_with_capability_blocks_synchronously() {
    let out = synthesize(String::from("demo"), true, &async_decls());
    assert!(out.diagnostics.is_empty());
    let wait = out
        .exports
        .iter()
        .find(|e| e.symbol.ends_with("___method___wait"))
        .unwrap();
    assert!(matches!(wait.body, BridgeBody::CallByRef { blocking_async: true, .. }));
}

#[test]
fn unsupported_field_type_is_per_member() {
    let decls = vec![Declaration::TypeDef(TypeDecl {
        name: String::from("Mixed"),
        visible: true,
        fields: StructFields::Named(vec![
            NamedField {
                name: String::from("raw"),
                ty: LogicalType::Unsupported(String::from("RawThing")),
                public: true,
            },
            NamedField {
                name: String::from("ok"),
                ty: LogicalType::Primitive(PrimitiveType::U8),
                public: true,
            },
        ]),
    })];
    let out = synthesize(String::from("demo"), false, &decls);
    assert_eq!(out.diagnostics.len(), 1);
    assert_eq!(out.diagnostics[0].code, DiagnosticCode::UnsupportedType);
    assert_eq!(out.diagnostics[0].subject, "RawThing");
    // the failing field is suppressed; the healthy one is still bridged
    assert!(!out.exports.iter().any(|e| e.symbol.ends_with("___getter___raw")));
    assert!(out.exports.iter().any(|e| e.symbol.ends_with("___getter___ok")));
}

#[test]
fn invalid_target_and_unexpected_declaration() {
    let decls = vec![
        Declaration::Methods(MethodBlock {
            target: ImplTarget::Invalid(String::from("&T")),
            methods: Vec::new(),
        }),
        Declaration::Other(String::from("fn free()")),
    ];
    let out = synthesize(String::from("demo"), false, &decls);
    assert!(out.exports.is_empty());
    assert_eq!(out.diagnostics.len(), 2);
    assert_eq!(out.diagnostics[0].code, DiagnosticCode::InvalidTargetType);
    assert_eq!(out.diagnostics[0].subject, "&T");
    assert_eq!(out.diagnostics[1].code, DiagnosticCode::UnexpectedDeclaration);
    assert_eq!(out.diagnostics[1].subject, "fn free()");
}

fn one_method_decls(param_ty: LogicalType) -> Vec<Declaration> {
    vec![
        Declaration::TypeDef(TypeDecl {
            name: String::from("Gadget"),
            visible: true,
            fields: StructFields::Unit,
        }),
        Declaration::Methods(MethodBlock {
            target: ImplTarget::Named(String::from("Gadget")),
            methods: vec![Method {
                name: String::from("feed"),
                receiver: Receiver::ByRef,
                params: vec![Param { name: String::from("x"), ty: param_ty }],
                ret: None,
                is_async: false,
                public: true,
            }],
        }),
    ]
}

#[test]
fn malformed_generics_diagnostics() {
    let out = synthesize(
        String::from("demo"),
        false,
        &one_method_decls(LogicalType::Optional(GenericSlot::NotAType)),
    );
    assert_eq!(out.diagnostics.len(), 1);
    assert_eq!(out.diagnostics[0].code, DiagnosticCode::MissingGenericType);
    let out = synthesize(
        String::from("demo"),
        false,
        &one_method_decls(LogicalType::Optional(GenericSlot::Missing)),
    );
    assert_eq!(out.diagnostics.len(), 1);
    assert_eq!(out.diagnostics[0].code, DiagnosticCode::MissingGenerics);
    assert_eq!(out.diagnostics[0].subject, "Option");
}

#[test]
fn fallible_result_has_no_argument_lowering() {
    let ty = LogicalType::FallibleResult(GenericSlot::Supplied(Box::new(
        LogicalType::OwnedString,
    )));
    match lower_argument(&ty) {
        Err(LowerError::Unsupported(text)) => assert_eq!(text, "Result<String>"),
        _ => panic!("a fallible result must be unsupported in argument position"),
    }
    match lower_return(&ty) {
        Ok(AbiType::ResultDescriptor(inner)) => {
            assert!(matches!(*inner, AbiType::StringDescriptor))
        }
        _ => panic!("a fallible result in return position lowers to the result descriptor"),
    }
}

#[test]
fn optional_type_lowering_is_recursive() {
    let ty = LogicalType::Optional(GenericSlot::Supplied(Box::new(LogicalType::Optional(
        GenericSlot::Supplied(Box::new(LogicalType::Primitive(PrimitiveType::Bool))),
    ))));
    match lower_return(&ty) {
        Ok(AbiType::OptionDescriptor(inner)) => match *inner {
            AbiType::OptionDescriptor(inner2) => {
                assert!(matches!(*inner2, AbiType::Primitive(PrimitiveType::Bool)))
            }
            _ => panic!("inner optional expected"),
        },
        _ => panic!("optional lowers to the optional descriptor"),
    }
}

#[test]
fn positional_fields_use_decimal_members() {
    let decls = vec![Declaration::TypeDef(TypeDecl {
        name: String::from("Pair"),
        visible: true,
        fields: StructFields::Unnamed(vec![
            UnnamedField { ty: LogicalType::Primitive(PrimitiveType::U32), public: true },
            UnnamedField { ty: LogicalType::Primitive(PrimitiveType::U32), public: true },
        ]),
    })];
    let out = synthesize(String::from("demo"), false, &decls);
    assert!(out
        .exports
        .iter()
        .any(|e| e.symbol == "___finch_bindgen___demo___class___Pair___getter___0"));
    assert!(out
        .exports
        .iter()
        .any(|e| e.symbol == "___finch_bindgen___demo___class___Pair___setter___1"));
}

#[test]
fn builtins_are_emitted_once_per_unit() {
    let decls = vec![
        Declaration::TypeDef(TypeDecl {
            name: String::from("A"),
            visible: true,
            fields: StructFields::Unit,
        }),
        Declaration::TypeDef(TypeDecl {
            name: String::from("B"),
            visible: true,
            fields: StructFields::Unit,
        }),
    ];
    let out = synthesize(String::from("demo"), false, &decls);
    let builtins = out
        .exports
        .iter()
        .filter(|e| e.category == Category::Builtin)
        .count();
    assert_eq!(builtins, 4);
}

#[test]
fn private_members_are_skipped_silently() {
    let decls = vec![
        Declaration::TypeDef(TypeDecl {
            name: String::from("Quiet"),
            visible: true,
            fields: StructFields::Named(vec![NamedField {
                name: String::from("secret"),
                ty: LogicalType::Primitive(PrimitiveType::I64),
                public: false,
            }]),
        }),
        Declaration::Methods(MethodBlock {
            target: ImplTarget::Named(String::from("Quiet")),
            methods: vec![Method {
                name: String::from("helper"),
                receiver: Receiver::ByRef,
                params: Vec::new(),
                ret: None,
                is_async: false,
                public: false,
            }],
        }),
    ];
    let out = synthesize(String::from("demo"), false, &decls);
    assert!(out.diagnostics.is_empty());
    assert!(!out.exports.iter().any(|e| e.symbol.contains("secret")));
    assert!(!out.exports.iter().any(|e| e.symbol.contains("helper")));
}

#[test]
fn handle_returning_method_uses_owning_pointer() {
    let decls = vec![
        Declaration::TypeDef(TypeDecl {
            name: String::from("Maker"),
            visible: true,
            fields: StructFields::Unit,
        }),
        Declaration::Methods(MethodBlock {
            target: ImplTarget::Named(String::from("Maker")),
            methods: vec![Method {
                name: String::from("make"),
                receiver: Receiver::Static,
                params: Vec::new(),
                ret: Some(LogicalType::OpaqueHandle(String::from("Maker"))),
                is_async: false,
                public: true,
            }],
        }),
    ];
    let out = synthesize(String::from("demo"), false, &decls);
    let make = out
        .exports
        .iter()
        .find(|e| e.symbol.ends_with("___static___make"))
        .unwrap();
    assert_eq!(make.receiver, ReceiverAbi::NoReceiver);
    assert!(matches!(make.ret, Some(AbiType::OwningPtr)));
}
