//! The declaration model: the input IR over which the bridge is synthesized.
//! Each declaration is a tagged variant, each logical type a member of a
//! closed set of kinds, fixed at declaration time and read-only during
//! synthesis.

use vstd::prelude::*;
use vstd::string::StringExecFns;

verus! {

/// The fixed-width primitive types, the only types guaranteed bit-compatible
/// across the boundary.
#[derive(PartialEq, Eq, Structural, Clone, Copy, Debug)]
pub enum PrimitiveType {
    Bool,
    Char,
    U8,
    U16,
    U32,
    U64,
    Usize,
    I8,
    I16,
    I32,
    I64,
    Isize,
    F32,
    F64,
}

/// The generic argument slot of an optional or fallible-result type. A slot
/// that is not a supplied type is a reported policy violation.
pub enum GenericSlot {
    /// A type argument is present.
    Supplied(Box<LogicalType>),
    /// The generic argument exists but is not a type.
    NotAType,
    /// There is no generic argument at all.
    Missing,
}

/// The closed set of logical types a declaration may use.
pub enum LogicalType {
    /// A fixed-width primitive; crosses the boundary unchanged.
    Primitive(PrimitiveType),
    /// Another exported type, crossed as an owning pointer; carries its name.
    OpaqueHandle(String),
    /// An owned string; crosses as the string descriptor.
    OwnedString,
    /// An optional value; crosses as the tagged optional descriptor.
    Optional(GenericSlot),
    /// A fallible result; crosses as the tagged result descriptor, the error
    /// rendered to text.
    FallibleResult(GenericSlot),
    /// Anything else; carries its source text for diagnostics.
    Unsupported(String),
}

/// The receiver kind of a method.
#[derive(PartialEq, Eq, Structural, Clone, Copy, Debug)]
pub enum Receiver {
    /// Borrows the receiver.
    ByRef,
    /// Consumes the receiver by value.
    Consuming,
    /// Has no receiver.
    Static,
}

/// One declared method parameter.
pub struct Param {
    pub name: String,
    pub ty: LogicalType,
}

/// One declared method.
pub struct Method {
    pub name: String,
    pub receiver: Receiver,
    pub params: Vec<Param>,
    pub ret: Option<LogicalType>,
    pub is_async: bool,
    pub public: bool,
}

/// One named field of an exported type.
pub struct NamedField {
    pub name: String,
    pub ty: LogicalType,
    pub public: bool,
}

/// One positional field of an exported type.
pub struct UnnamedField {
    pub ty: LogicalType,
    pub public: bool,
}

/// The fields of an exported type.
pub enum StructFields {
    Named(Vec<NamedField>),
    Unnamed(Vec<UnnamedField>),
    Unit,
}

/// One exported type declaration.
pub struct TypeDecl {
    pub name: String,
    pub visible: bool,
    pub fields: StructFields,
}

/// What a method block names as its subject.
pub enum ImplTarget {
    /// A plain type name.
    Named(String),
    /// Something else; carries its source text for diagnostics.
    Invalid(String),
}

/// One block of method declarations for an exported type.
pub struct MethodBlock {
    pub target: ImplTarget,
    pub methods: Vec<Method>,
}

/// One declaration handed to synthesis.
pub enum Declaration {
    /// An exported type.
    TypeDef(TypeDecl),
    /// A block of methods on an exported type.
    Methods(MethodBlock),
    /// Anything else; carries its source text for diagnostics.
    Other(String),
}

/// The source rendering of a primitive type.
pub open spec fn spec_primitive_text(p: PrimitiveType) -> Seq<char> {
    match p {
        PrimitiveType::Bool => "bool"@,
        PrimitiveType::Char => "char"@,
        PrimitiveType::U8 => "u8"@,
        PrimitiveType::U16 => "u16"@,
        PrimitiveType::U32 => "u32"@,
        PrimitiveType::U64 => "u64"@,
        PrimitiveType::Usize => "usize"@,
        PrimitiveType::I8 => "i8"@,
        PrimitiveType::I16 => "i16"@,
        PrimitiveType::I32 => "i32"@,
        PrimitiveType::I64 => "i64"@,
        PrimitiveType::Isize => "isize"@,
        PrimitiveType::F32 => "f32"@,
        PrimitiveType::F64 => "f64"@,
    }
}

/// The source rendering of a logical type, as quoted in diagnostics.
pub open spec fn spec_type_text(t: LogicalType) -> Seq<char>
    decreases t,
{
    match t {
        LogicalType::Primitive(p) => spec_primitive_text(p),
        LogicalType::OpaqueHandle(n) => n@,
        LogicalType::OwnedString => "String"@,
        LogicalType::Optional(slot) => match slot {
            GenericSlot::Supplied(inner) => "Option<"@ + spec_type_text(*inner) + ">"@,
            _ => "Option"@,
        },
        LogicalType::FallibleResult(slot) => match slot {
            GenericSlot::Supplied(inner) => "Result<"@ + spec_type_text(*inner) + ">"@,
            _ => "Result"@,
        },
        LogicalType::Unsupported(s) => s@,
    }
}

/// The source rendering of a primitive type.
pub fn primitive_text(p: PrimitiveType) -> (r: &'static str)
    ensures
        r@ == spec_primitive_text(p),
{
    match p {
        PrimitiveType::Bool => "bool",
        PrimitiveType::Char => "char",
        PrimitiveType::U8 => "u8",
        PrimitiveType::U16 => "u16",
        PrimitiveType::U32 => "u32",
        PrimitiveType::U64 => "u64",
        PrimitiveType::Usize => "usize",
        PrimitiveType::I8 => "i8",
        PrimitiveType::I16 => "i16",
        PrimitiveType::I32 => "i32",
        PrimitiveType::I64 => "i64",
        PrimitiveType::Isize => "isize",
        PrimitiveType::F32 => "f32",
        PrimitiveType::F64 => "f64",
    }
}

/// The source rendering of a logical type, as quoted in diagnostics.
pub fn type_text(t: &LogicalType) -> (r: String)
    ensures
        r@ == spec_type_text(*t),
    decreases *t,
{
    match t {
        LogicalType::Primitive(p) => String::from_str(primitive_text(*p)),
        LogicalType::OpaqueHandle(n) => n.clone(),
        LogicalType::OwnedString => String::from_str("String"),
        LogicalType::Optional(slot) => match slot {
            GenericSlot::Supplied(inner) => {
                let mut s = String::from_str("Option<");
                let it = type_text(&**inner);
                s.append(it.as_str());
                s.append(">");
                assert(s@ =~= spec_type_text(*t));
                s
            },
            _ => String::from_str("Option"),
        },
        LogicalType::FallibleResult(slot) => match slot {
            GenericSlot::Supplied(inner) => {
                let mut s = String::from_str("Result<");
                let it = type_text(&**inner);
                s.append(it.as_str());
                s.append(">");
                assert(s@ =~= spec_type_text(*t));
                s
            },
            _ => String::from_str("Result"),
        },
        LogicalType::Unsupported(s) => s.clone(),
    }
}

} // verus!
