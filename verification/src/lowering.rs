//! The type lowering table: for every logical type, the ABI representation
//! that crosses the boundary, with one rule for argument positions and one for
//! return positions. Primitives pass through unchanged; opaque handles cross
//! as owning pointers; owned strings, optionals and fallible results cross as
//! runtime descriptors; everything else is a reported policy violation.

use vstd::prelude::*;
use crate::decl::{GenericSlot, LogicalType, PrimitiveType, spec_type_text, type_text};
use crate::diag::DiagnosticCode;

verus! {

/// The closed set of ABI-safe representations.
pub enum AbiType {
    /// A fixed-width primitive, bit-compatible across the boundary.
    Primitive(PrimitiveType),
    /// An owning raw pointer to a boxed exported value.
    OwningPtr,
    /// The owned-string descriptor.
    StringDescriptor,
    /// The null-terminated string descriptor.
    CStringDescriptor,
    /// A borrowed pointer to raw bytes, paired with a length parameter.
    ConstBytePtr,
    /// The tagged optional descriptor over a lowered payload.
    OptionDescriptor(Box<AbiType>),
    /// The tagged result descriptor over a lowered success payload.
    ResultDescriptor(Box<AbiType>),
}

/// Why a type has no lowering: the diagnostic code and the quoted subject.
pub struct LowerErrModel {
    pub code: DiagnosticCode,
    pub subject: Seq<char>,
}

/// Why a type has no lowering, as returned by the lowering table.
pub enum LowerError {
    /// The type has no lowering rule at all, or stands in a position that has
    /// none; carries the quoted type text.
    Unsupported(String),
    /// The generic argument of the named container is not a type.
    MissingGenericType(String),
    /// The named container has no generic argument.
    MissingGenerics(String),
}

impl View for LowerError {
    type V = LowerErrModel;

    open spec fn view(&self) -> LowerErrModel {
        match self {
            LowerError::Unsupported(s) => {
                LowerErrModel { code: DiagnosticCode::UnsupportedType, subject: s@ }
            },
            LowerError::MissingGenericType(s) => {
                LowerErrModel { code: DiagnosticCode::MissingGenericType, subject: s@ }
            },
            LowerError::MissingGenerics(s) => {
                LowerErrModel { code: DiagnosticCode::MissingGenerics, subject: s@ }
            },
        }
    }
}

/// The model of a lowering result.
pub open spec fn lower_view(r: Result<AbiType, LowerError>) -> Result<AbiType, LowerErrModel> {
    match r {
        Ok(a) => Ok(a),
        Err(e) => Err(e@),
    }
}

/// The return-lowering rule: the ABI representation of a logical type in
/// return position, or the violation that forbids one.
pub open spec fn spec_lower_return(t: LogicalType) -> Result<AbiType, LowerErrModel>
    decreases t,
{
    match t {
        LogicalType::Primitive(p) => Ok(AbiType::Primitive(p)),
        LogicalType::OpaqueHandle(_) => Ok(AbiType::OwningPtr),
        LogicalType::OwnedString => Ok(AbiType::StringDescriptor),
        LogicalType::Optional(slot) => match slot {
            GenericSlot::Supplied(inner) => match spec_lower_return(*inner) {
                Ok(a) => Ok(AbiType::OptionDescriptor(Box::new(a))),
                Err(e) => Err(e),
            },
            GenericSlot::NotAType => {
                Err(LowerErrModel { code: DiagnosticCode::MissingGenericType, subject: "Option"@ })
            },
            GenericSlot::Missing => {
                Err(LowerErrModel { code: DiagnosticCode::MissingGenerics, subject: "Option"@ })
            },
        },
        LogicalType::FallibleResult(slot) => match slot {
            GenericSlot::Supplied(inner) => match spec_lower_return(*inner) {
                Ok(a) => Ok(AbiType::ResultDescriptor(Box::new(a))),
                Err(e) => Err(e),
            },
            GenericSlot::NotAType => {
                Err(LowerErrModel { code: DiagnosticCode::MissingGenericType, subject: "Result"@ })
            },
            GenericSlot::Missing => {
                Err(LowerErrModel { code: DiagnosticCode::MissingGenerics, subject: "Result"@ })
            },
        },
        LogicalType::Unsupported(s) => {
            Err(LowerErrModel { code: DiagnosticCode::UnsupportedType, subject: s@ })
        },
    }
}

/// The argument-lowering rule. It differs from the return rule in one point:
/// a fallible result carries an owned error rendering that only the callee can
/// produce, so it has no argument lowering and is unsupported there.
pub open spec fn spec_lower_argument(t: LogicalType) -> Result<AbiType, LowerErrModel>
    decreases t,
{
    match t {
        LogicalType::Primitive(p) => Ok(AbiType::Primitive(p)),
        LogicalType::OpaqueHandle(_) => Ok(AbiType::OwningPtr),
        LogicalType::OwnedString => Ok(AbiType::StringDescriptor),
        LogicalType::Optional(slot) => match slot {
            GenericSlot::Supplied(inner) => match spec_lower_argument(*inner) {
                Ok(a) => Ok(AbiType::OptionDescriptor(Box::new(a))),
                Err(e) => Err(e),
            },
            GenericSlot::NotAType => {
                Err(LowerErrModel { code: DiagnosticCode::MissingGenericType, subject: "Option"@ })
            },
            GenericSlot::Missing => {
                Err(LowerErrModel { code: DiagnosticCode::MissingGenerics, subject: "Option"@ })
            },
        },
        LogicalType::FallibleResult(_) => {
            Err(LowerErrModel { code: DiagnosticCode::UnsupportedType, subject: spec_type_text(t) })
        },
        LogicalType::Unsupported(s) => {
            Err(LowerErrModel { code: DiagnosticCode::UnsupportedType, subject: s@ })
        },
    }
}

/// Applies the return-lowering rule.
pub fn lower_return(t: &LogicalType) -> (r: Result<AbiType, LowerError>)
    ensures
        lower_view(r) == spec_lower_return(*t),
    decreases *t,
{
    match t {
        LogicalType::Primitive(p) => Ok(AbiType::Primitive(*p)),
        LogicalType::OpaqueHandle(_) => Ok(AbiType::OwningPtr),
        LogicalType::OwnedString => Ok(AbiType::StringDescriptor),
        LogicalType::Optional(slot) => match slot {
            GenericSlot::Supplied(inner) => match lower_return(&**inner) {
                Ok(a) => Ok(AbiType::OptionDescriptor(Box::new(a))),
                Err(e) => Err(e),
            },
            GenericSlot::NotAType => {
                Err(LowerError::MissingGenericType(String::from_str("Option")))
            },
            GenericSlot::Missing => Err(LowerError::MissingGenerics(String::from_str("Option"))),
        },
        LogicalType::FallibleResult(slot) => match slot {
            GenericSlot::Supplied(inner) => match lower_return(&**inner) {
                Ok(a) => Ok(AbiType::ResultDescriptor(Box::new(a))),
                Err(e) => Err(e),
            },
            GenericSlot::NotAType => {
                Err(LowerError::MissingGenericType(String::from_str("Result")))
            },
            GenericSlot::Missing => Err(LowerError::MissingGenerics(String::from_str("Result"))),
        },
        LogicalType::Unsupported(s) => Err(LowerError::Unsupported(s.clone())),
    }
}

/// Applies the argument-lowering rule.
pub fn lower_argument(t: &LogicalType) -> (r: Result<AbiType, LowerError>)
    ensures
        lower_view(r) == spec_lower_argument(*t),
    decreases *t,
{
    match t {
        LogicalType::Primitive(p) => Ok(AbiType::Primitive(*p)),
        LogicalType::OpaqueHandle(_) => Ok(AbiType::OwningPtr),
        LogicalType::OwnedString => Ok(AbiType::StringDescriptor),
        LogicalType::Optional(slot) => match slot {
            GenericSlot::Supplied(inner) => match lower_argument(&**inner) {
                Ok(a) => Ok(AbiType::OptionDescriptor(Box::new(a))),
                Err(e) => Err(e),
            },
            GenericSlot::NotAType => {
                Err(LowerError::MissingGenericType(String::from_str("Option")))
            },
            GenericSlot::Missing => Err(LowerError::MissingGenerics(String::from_str("Option"))),
        },
        LogicalType::FallibleResult(_) => Err(LowerError::Unsupported(type_text(t))),
        LogicalType::Unsupported(s) => Err(LowerError::Unsupported(s.clone())),
    }
}

/// Whatever the argument rule accepts, the return rule accepts as well, and
/// both agree on the representation: the argument rule only adds the
/// restriction on fallible results.
pub proof fn lemma_argument_rule_within_return_rule(t: LogicalType)
    requires
        spec_lower_argument(t) is Ok,
    ensures
        spec_lower_return(t) == spec_lower_argument(t),
    decreases t,
{
    match t {
        LogicalType::Optional(slot) => match slot {
            GenericSlot::Supplied(inner) => {
                lemma_argument_rule_within_return_rule(*inner);
            },
            _ => {},
        },
        _ => {},
    }
}

} // verus!
