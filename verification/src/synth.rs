//! The export synthesizer: walks the declaration model and emits one bridge
//! export per field accessor, per method and per destructor, applying the type
//! lowering table and the symbol naming scheme. A type that fails the
//! visibility precondition is tainted: it is reported once, recorded in shared
//! state, and every later method block that targets it is skipped silently.

use vstd::prelude::*;
use vstd::string::StringExecFns;
use crate::decl::{
    Declaration, ImplTarget, LogicalType, Method, MethodBlock, NamedField, Param, Receiver,
    StructFields, TypeDecl, UnnamedField,
};
use crate::diag::{DiagModel, Diagnostic, DiagnosticCode, DiagnosticLevel};
use crate::lowering::{
    AbiType, LowerErrModel, LowerError, lower_argument, lower_return, spec_lower_argument,
    spec_lower_return,
};
use crate::naming::{
    Category, ExportKind, decimal_string, spec_decimal, spec_symbol, symbol_name,
};

verus! {

/// How a generated function receives the bridged instance.
#[derive(PartialEq, Eq, Structural, Clone, Copy, Debug)]
pub enum ReceiverAbi {
    /// No receiver at all.
    NoReceiver,
    /// A borrowed reference to the instance.
    Borrowed,
    /// An owning raw pointer that the call consumes; the pointer is
    /// invalidated afterwards and no other export may be called on it.
    OwningPtr,
}

/// Which field an accessor export reads or writes.
pub enum FieldRef {
    Named(String),
    Positional(usize),
}

/// Model of a field reference.
pub enum FieldRefModel {
    Named(Seq<char>),
    Positional(usize),
}

/// The model of a field reference.
pub open spec fn field_ref_view(f: FieldRef) -> FieldRefModel {
    match f {
        FieldRef::Named(n) => FieldRefModel::Named(n@),
        FieldRef::Positional(i) => FieldRefModel::Positional(i),
    }
}

/// The body of a generated export: the call-through and ownership conversions
/// it performs around the lowered parameters and return value.
pub enum BridgeBody {
    /// Reads the field from the borrowed instance.
    GetField(FieldRef),
    /// Writes the field of the borrowed instance.
    SetField(FieldRef),
    /// Invokes the method on the dereferenced pointer.
    CallByRef { name: String, blocking_async: bool },
    /// Reconstructs the owned value from the pointer, exactly once, then
    /// invokes the method on it.
    CallConsuming { name: String, blocking_async: bool },
    /// Dispatches on the type, independent of any instance.
    CallStatic { name: String, blocking_async: bool },
    /// Consumes the owning pointer and drops the boxed value.
    DropBox,
    /// Introduces the bridged alias of the type.
    AliasType,
    /// Builds an owned-string descriptor from raw bytes and a length.
    StringNew,
    /// Releases an owned-string descriptor.
    StringDrop,
    /// Releases a null-terminated string descriptor.
    CStringDrop,
    /// Installs the process-wide panic/abort hook, idempotently. The first
    /// bridged call also installs it lazily, so callers need not invoke this
    /// export, though they may do so once at process start.
    InstallHook,
}

/// Model of an export body.
pub enum BodyModel {
    GetField(FieldRefModel),
    SetField(FieldRefModel),
    CallByRef { name: Seq<char>, blocking_async: bool },
    CallConsuming { name: Seq<char>, blocking_async: bool },
    CallStatic { name: Seq<char>, blocking_async: bool },
    DropBox,
    AliasType,
    StringNew,
    StringDrop,
    CStringDrop,
    InstallHook,
}

/// The model of an export body.
pub open spec fn body_view(b: BridgeBody) -> BodyModel {
    match b {
        BridgeBody::GetField(f) => BodyModel::GetField(field_ref_view(f)),
        BridgeBody::SetField(f) => BodyModel::SetField(field_ref_view(f)),
        BridgeBody::CallByRef { name, blocking_async } => {
            BodyModel::CallByRef { name: name@, blocking_async }
        },
        BridgeBody::CallConsuming { name, blocking_async } => {
            BodyModel::CallConsuming { name: name@, blocking_async }
        },
        BridgeBody::CallStatic { name, blocking_async } => {
            BodyModel::CallStatic { name: name@, blocking_async }
        },
        BridgeBody::DropBox => BodyModel::DropBox,
        BridgeBody::AliasType => BodyModel::AliasType,
        BridgeBody::StringNew => BodyModel::StringNew,
        BridgeBody::StringDrop => BodyModel::StringDrop,
        BridgeBody::CStringDrop => BodyModel::CStringDrop,
        BridgeBody::InstallHook => BodyModel::InstallHook,
    }
}

/// One generated export: a unique symbol name, the lowered parameter and
/// return representations, and the body that performs the call-through.
pub struct BridgeExport {
    pub symbol: String,
    pub category: Category,
    pub owner: String,
    pub kind: ExportKind,
    pub member: String,
    pub receiver: ReceiverAbi,
    pub params: Vec<AbiType>,
    pub ret: Option<AbiType>,
    pub body: BridgeBody,
}

/// Mathematical model of one generated export.
pub struct ExportModel {
    pub symbol: Seq<char>,
    pub category: Category,
    pub owner: Seq<char>,
    pub kind: ExportKind,
    pub member: Seq<char>,
    pub receiver: ReceiverAbi,
    pub params: Seq<AbiType>,
    pub ret: Option<AbiType>,
    pub body: BodyModel,
}

impl View for BridgeExport {
    type V = ExportModel;

    open spec fn view(&self) -> ExportModel {
        ExportModel {
            symbol: self.symbol@,
            category: self.category,
            owner: self.owner@,
            kind: self.kind,
            member: self.member@,
            receiver: self.receiver,
            params: self.params@,
            ret: self.ret,
            body: body_view(self.body),
        }
    }
}

/// Builds an export model whose symbol follows the naming scheme.
pub open spec fn mk_export(
    unit: Seq<char>,
    category: Category,
    owner: Seq<char>,
    kind: ExportKind,
    member: Seq<char>,
    receiver: ReceiverAbi,
    params: Seq<AbiType>,
    ret: Option<AbiType>,
    body: BodyModel,
) -> ExportModel {
    ExportModel {
        symbol: spec_symbol(unit, category, owner, kind, member),
        category,
        owner,
        kind,
        member,
        receiver,
        params,
        ret,
        body,
    }
}

/// The diagnostic that reports a lowering failure.
pub open spec fn lower_diag(e: LowerErrModel) -> DiagModel {
    DiagModel { code: e.code, level: DiagnosticLevel::Error, subject: e.subject }
}

/// An error diagnostic with the given code and subject.
pub open spec fn mk_diag(code: DiagnosticCode, subject: Seq<char>) -> DiagModel {
    DiagModel { code, level: DiagnosticLevel::Error, subject }
}

/// The models of a vector of exports.
pub open spec fn exports_view(v: Vec<BridgeExport>) -> Seq<ExportModel> {
    v@.map_values(|e: BridgeExport| e@)
}

/// The models of a vector of diagnostics.
pub open spec fn diags_view(v: Vec<Diagnostic>) -> Seq<DiagModel> {
    v@.map_values(|d: Diagnostic| d@)
}

/// The exports of one named field: a getter and a setter when the field is
/// externally visible and its type has an argument lowering (which subsumes
/// the return lowering the getter needs); nothing otherwise.
pub open spec fn named_field_exports_one(
    unit: Seq<char>,
    ty: Seq<char>,
    f: NamedField,
) -> Seq<ExportModel> {
    if f.public && spec_lower_argument(f.ty) is Ok {
        seq![
            mk_export(
                unit,
                Category::Class,
                ty,
                ExportKind::Getter,
                f.name@,
                ReceiverAbi::Borrowed,
                Seq::empty(),
                Some(spec_lower_return(f.ty)->Ok_0),
                BodyModel::GetField(FieldRefModel::Named(f.name@)),
            ),
            mk_export(
                unit,
                Category::Class,
                ty,
                ExportKind::Setter,
                f.name@,
                ReceiverAbi::Borrowed,
                seq![spec_lower_argument(f.ty)->Ok_0],
                None,
                BodyModel::SetField(FieldRefModel::Named(f.name@)),
            ),
        ]
    } else {
        Seq::empty()
    }
}

/// The diagnostic of one named field: its lowering failure, when the field is
/// externally visible and its type has none.
pub open spec fn named_field_diags_one(f: NamedField) -> Seq<DiagModel> {
    match spec_lower_argument(f.ty) {
        Ok(_) => Seq::empty(),
        Err(e) => if f.public {
            seq![lower_diag(e)]
        } else {
            Seq::empty()
        },
    }
}

/// The accessor exports of the named fields, in declaration order.
pub open spec fn named_field_exports(
    unit: Seq<char>,
    ty: Seq<char>,
    fields: Seq<NamedField>,
) -> Seq<ExportModel>
    decreases fields.len(),
{
    if fields.len() == 0 {
        Seq::empty()
    } else {
        named_field_exports(unit, ty, fields.drop_last())
            + named_field_exports_one(unit, ty, fields.last())
    }
}

/// The diagnostics of the named fields, in declaration order.
pub open spec fn named_field_diags(fields: Seq<NamedField>) -> Seq<DiagModel>
    decreases fields.len(),
{
    if fields.len() == 0 {
        Seq::empty()
    } else {
        named_field_diags(fields.drop_last()) + named_field_diags_one(fields.last())
    }
}

/// The exports of one positional field, named by its decimal position.
pub open spec fn unnamed_field_exports_one(
    unit: Seq<char>,
    ty: Seq<char>,
    f: UnnamedField,
    idx: usize,
) -> Seq<ExportModel> {
    if f.public && spec_lower_argument(f.ty) is Ok {
        seq![
            mk_export(
                unit,
                Category::Class,
                ty,
                ExportKind::Getter,
                spec_decimal(idx as nat),
                ReceiverAbi::Borrowed,
                Seq::empty(),
                Some(spec_lower_return(f.ty)->Ok_0),
                BodyModel::GetField(FieldRefModel::Positional(idx)),
            ),
            mk_export(
                unit,
                Category::Class,
                ty,
                ExportKind::Setter,
                spec_decimal(idx as nat),
                ReceiverAbi::Borrowed,
                seq![spec_lower_argument(f.ty)->Ok_0],
                None,
                BodyModel::SetField(FieldRefModel::Positional(idx)),
            ),
        ]
    } else {
        Seq::empty()
    }
}

/// The diagnostic of one positional field.
pub open spec fn unnamed_field_diags_one(f: UnnamedField) -> Seq<DiagModel> {
    match spec_lower_argument(f.ty) {
        Ok(_) => Seq::empty(),
        Err(e) => if f.public {
            seq![lower_diag(e)]
        } else {
            Seq::empty()
        },
    }
}

/// The accessor exports of the positional fields, in declaration order.
pub open spec fn unnamed_field_exports(
    unit: Seq<char>,
    ty: Seq<char>,
    fields: Seq<UnnamedField>,
) -> Seq<ExportModel>
    decreases fields.len(),
{
    if fields.len() == 0 {
        Seq::empty()
    } else {
        unnamed_field_exports(unit, ty, fields.drop_last())
            + unnamed_field_exports_one(unit, ty, fields.last(), (fields.len() - 1) as usize)
    }
}

/// The diagnostics of the positional fields, in declaration order.
pub open spec fn unnamed_field_diags(fields: Seq<UnnamedField>) -> Seq<DiagModel>
    decreases fields.len(),
{
    if fields.len() == 0 {
        Seq::empty()
    } else {
        unnamed_field_diags(fields.drop_last()) + unnamed_field_diags_one(fields.last())
    }
}

/// The accessor exports of a field list.
pub open spec fn fields_exports(
    unit: Seq<char>,
    ty: Seq<char>,
    fields: StructFields,
) -> Seq<ExportModel> {
    match fields {
        StructFields::Named(v) => named_field_exports(unit, ty, v@),
        StructFields::Unnamed(v) => unnamed_field_exports(unit, ty, v@),
        StructFields::Unit => Seq::empty(),
    }
}

/// The diagnostics of a field list.
pub open spec fn fields_diags(fields: StructFields) -> Seq<DiagModel> {
    match fields {
        StructFields::Named(v) => named_field_diags(v@),
        StructFields::Unnamed(v) => unnamed_field_diags(v@),
        StructFields::Unit => Seq::empty(),
    }
}

/// The bridged type alias export of a validated type.
pub open spec fn alias_export(unit: Seq<char>, ty: Seq<char>) -> ExportModel {
    mk_export(
        unit,
        Category::Class,
        ty,
        ExportKind::TypeAlias,
        ""@,
        ReceiverAbi::NoReceiver,
        Seq::empty(),
        None,
        BodyModel::AliasType,
    )
}

/// The destructor export of a validated type: consumes the owning pointer and
/// drops the boxed value.
pub open spec fn drop_export(unit: Seq<char>, ty: Seq<char>) -> ExportModel {
    mk_export(
        unit,
        Category::Class,
        ty,
        ExportKind::Drop,
        ""@,
        ReceiverAbi::NoReceiver,
        seq![AbiType::OwningPtr],
        None,
        BodyModel::DropBox,
    )
}

/// The builtin descriptor-library exports, emitted once per compilation unit:
/// the string constructor from raw parts and the two descriptor destructors.
pub open spec fn builtin_exports(unit: Seq<char>) -> Seq<ExportModel> {
    seq![
        mk_export(
            unit,
            Category::Builtin,
            "FinchString"@,
            ExportKind::BuiltinNew,
            ""@,
            ReceiverAbi::NoReceiver,
            seq![AbiType::ConstBytePtr, AbiType::Primitive(crate::decl::PrimitiveType::Usize)],
            Some(AbiType::StringDescriptor),
            BodyModel::StringNew,
        ),
        mk_export(
            unit,
            Category::Builtin,
            "FinchString"@,
            ExportKind::Drop,
            ""@,
            ReceiverAbi::NoReceiver,
            seq![AbiType::StringDescriptor],
            None,
            BodyModel::StringDrop,
        ),
        mk_export(
            unit,
            Category::Builtin,
            "FinchCString"@,
            ExportKind::Drop,
            ""@,
            ReceiverAbi::NoReceiver,
            seq![AbiType::CStringDescriptor],
            None,
            BodyModel::CStringDrop,
        ),
        mk_export(
            unit,
            Category::Builtin,
            "FinchRuntime"@,
            ExportKind::Init,
            ""@,
            ReceiverAbi::NoReceiver,
            Seq::empty(),
            None,
            BodyModel::InstallHook,
        ),
    ]
}

/// The export kind of a receiver kind.
pub open spec fn receiver_kind(r: Receiver) -> ExportKind {
    match r {
        Receiver::ByRef => ExportKind::Method,
        Receiver::Consuming => ExportKind::MethodConsume,
        Receiver::Static => ExportKind::Static,
    }
}

/// The ABI receiver of a receiver kind.
pub open spec fn receiver_abi(r: Receiver) -> ReceiverAbi {
    match r {
        Receiver::ByRef => ReceiverAbi::Borrowed,
        Receiver::Consuming => ReceiverAbi::OwningPtr,
        Receiver::Static => ReceiverAbi::NoReceiver,
    }
}

/// The body of a method export.
pub open spec fn method_body(m: Method) -> BodyModel {
    match m.receiver {
        Receiver::ByRef => BodyModel::CallByRef { name: m.name@, blocking_async: m.is_async },
        Receiver::Consuming => {
            BodyModel::CallConsuming { name: m.name@, blocking_async: m.is_async }
        },
        Receiver::Static => BodyModel::CallStatic { name: m.name@, blocking_async: m.is_async },
    }
}

/// Whether every parameter of the list has an argument lowering.
pub open spec fn params_lower_ok(ps: Seq<Param>) -> bool {
    forall|i: int| 0 <= i < ps.len() ==> spec_lower_argument(ps[i].ty) is Ok
}

/// The lowered parameter representations.
pub open spec fn lowered_params(ps: Seq<Param>) -> Seq<AbiType> {
    ps.map_values(|p: Param| spec_lower_argument(p.ty)->Ok_0)
}

/// The diagnostics of the parameters that have no argument lowering.
pub open spec fn param_diags(ps: Seq<Param>) -> Seq<DiagModel>
    decreases ps.len(),
{
    if ps.len() == 0 {
        Seq::empty()
    } else {
        param_diags(ps.drop_last()) + match spec_lower_argument(ps.last().ty) {
            Ok(_) => Seq::empty(),
            Err(e) => seq![lower_diag(e)],
        }
    }
}

/// The diagnostic of the return type, when it has no return lowering.
pub open spec fn ret_diags(r: Option<LogicalType>) -> Seq<DiagModel> {
    match r {
        Some(t) => match spec_lower_return(t) {
            Ok(_) => Seq::empty(),
            Err(e) => seq![lower_diag(e)],
        },
        None => Seq::empty(),
    }
}

/// The lowered return representation of an eligible method.
pub open spec fn ret_abi(r: Option<LogicalType>) -> Option<AbiType> {
    match r {
        Some(t) => Some(spec_lower_return(t)->Ok_0),
        None => None,
    }
}

/// Whether a method produces an export: it must be public, must not demand
/// the asynchronous capability while it is disabled, and every parameter and
/// the return type must have a lowering.
pub open spec fn method_eligible(async_enabled: bool, m: Method) -> bool {
    &&& m.public
    &&& (m.is_async ==> async_enabled)
    &&& params_lower_ok(m.params@)
    &&& ret_diags(m.ret).len() == 0
}

/// The export of an eligible method.
pub open spec fn method_export(unit: Seq<char>, ty: Seq<char>, m: Method) -> ExportModel {
    mk_export(
        unit,
        Category::Class,
        ty,
        receiver_kind(m.receiver),
        m.name@,
        receiver_abi(m.receiver),
        lowered_params(m.params@),
        ret_abi(m.ret),
        method_body(m),
    )
}

/// The diagnostics of one method: nothing for a private method; otherwise the
/// parameter failures, then the missing asynchronous capability, then the
/// return failure.
pub open spec fn method_diags(async_enabled: bool, m: Method) -> Seq<DiagModel> {
    if !m.public {
        Seq::empty()
    } else {
        param_diags(m.params@) + (if m.is_async && !async_enabled {
            seq![mk_diag(DiagnosticCode::AsyncNotEnabled, m.name@)]
        } else {
            Seq::empty()
        }) + ret_diags(m.ret)
    }
}

/// The exports of a method block, in declaration order.
pub open spec fn block_exports(
    unit: Seq<char>,
    async_enabled: bool,
    ty: Seq<char>,
    ms: Seq<Method>,
) -> Seq<ExportModel>
    decreases ms.len(),
{
    if ms.len() == 0 {
        Seq::empty()
    } else {
        block_exports(unit, async_enabled, ty, ms.drop_last()) + (if method_eligible(
            async_enabled,
            ms.last(),
        ) {
            seq![method_export(unit, ty, ms.last())]
        } else {
            Seq::empty()
        })
    }
}

/// The diagnostics of a method block, in declaration order.
pub open spec fn block_diags(async_enabled: bool, ms: Seq<Method>) -> Seq<DiagModel>
    decreases ms.len(),
{
    if ms.len() == 0 {
        Seq::empty()
    } else {
        block_diags(async_enabled, ms.drop_last()) + method_diags(async_enabled, ms.last())
    }
}

/// The cross-declaration state of a run: the tainted type names and whether
/// the builtin exports were already emitted.
pub struct SynthState {
    pub tainted: Seq<Seq<char>>,
    pub builtin_emitted: bool,
}

/// The state before any declaration was processed.
pub open spec fn initial_state() -> SynthState {
    SynthState { tainted: Seq::empty(), builtin_emitted: false }
}

/// The builtin exports owed after a successful declaration: they are emitted
/// with the first one, then never again.
pub open spec fn owed_builtins(unit: Seq<char>, st: SynthState) -> Seq<ExportModel> {
    if st.builtin_emitted {
        Seq::empty()
    } else {
        builtin_exports(unit)
    }
}

/// Processing one declaration: the next state, the exports and the
/// diagnostics it produces.
pub open spec fn spec_process(
    unit: Seq<char>,
    async_enabled: bool,
    st: SynthState,
    d: Declaration,
) -> (SynthState, Seq<ExportModel>, Seq<DiagModel>) {
    match d {
        Declaration::TypeDef(td) => {
            if !td.visible {
                (
                    SynthState { tainted: st.tainted.push(td.name@), builtin_emitted: st.builtin_emitted },
                    Seq::empty(),
                    seq![mk_diag(DiagnosticCode::NotPublic, td.name@)],
                )
            } else {
                (
                    SynthState { tainted: st.tainted, builtin_emitted: true },
                    seq![alias_export(unit, td.name@), drop_export(unit, td.name@)]
                        + fields_exports(unit, td.name@, td.fields) + owed_builtins(unit, st),
                    fields_diags(td.fields),
                )
            }
        },
        Declaration::Methods(b) => {
            match b.target {
                ImplTarget::Invalid(txt) => {
                    (st, Seq::empty(), seq![mk_diag(DiagnosticCode::InvalidTargetType, txt@)])
                },
                ImplTarget::Named(t) => {
                    if st.tainted.contains(t@) {
                        (st, Seq::empty(), Seq::empty())
                    } else {
                        (
                            SynthState { tainted: st.tainted, builtin_emitted: true },
                            block_exports(unit, async_enabled, t@, b.methods@)
                                + owed_builtins(unit, st),
                            block_diags(async_enabled, b.methods@),
                        )
                    }
                },
            }
        },
        Declaration::Other(txt) => {
            (st, Seq::empty(), seq![mk_diag(DiagnosticCode::UnexpectedDeclaration, txt@)])
        },
    }
}

/// Processing a declaration list from a given state, accumulating exports and
/// diagnostics in order.
pub open spec fn spec_run_from(
    unit: Seq<char>,
    async_enabled: bool,
    st: SynthState,
    decls: Seq<Declaration>,
) -> (SynthState, Seq<ExportModel>, Seq<DiagModel>)
    decreases decls.len(),
{
    if decls.len() == 0 {
        (st, Seq::empty(), Seq::empty())
    } else {
        let prev = spec_run_from(unit, async_enabled, st, decls.drop_last());
        let step = spec_process(unit, async_enabled, prev.0, decls.last());
        (step.0, prev.1 + step.1, prev.2 + step.2)
    }
}

/// Processing a whole declaration list from the initial state.
pub open spec fn spec_run(
    unit: Seq<char>,
    async_enabled: bool,
    decls: Seq<Declaration>,
) -> (SynthState, Seq<ExportModel>, Seq<DiagModel>) {
    spec_run_from(unit, async_enabled, initial_state(), decls)
}

/// The diagnostic that reports a lowering failure.
fn diag_of_lower_error(e: LowerError) -> (d: Diagnostic)
    ensures
        d@ == lower_diag(e@),
{
    match e {
        LowerError::Unsupported(s) => Diagnostic::new(DiagnosticCode::UnsupportedType, s),
        LowerError::MissingGenericType(s) => {
            Diagnostic::new(DiagnosticCode::MissingGenericType, s)
        },
        LowerError::MissingGenerics(s) => Diagnostic::new(DiagnosticCode::MissingGenerics, s),
    }
}

/// Builds one export, composing its symbol per the naming scheme.
fn make_export(
    unit: &str,
    category: Category,
    owner: &str,
    kind: ExportKind,
    member: &str,
    receiver: ReceiverAbi,
    params: Vec<AbiType>,
    ret: Option<AbiType>,
    body: BridgeBody,
) -> (e: BridgeExport)
    ensures
        e@ == mk_export(
            unit@,
            category,
            owner@,
            kind,
            member@,
            receiver,
            params@,
            ret,
            body_view(body),
        ),
{
    let symbol = symbol_name(unit, category, owner, kind, member);
    BridgeExport {
        symbol,
        category,
        owner: String::from_str(owner),
        kind,
        member: String::from_str(member),
        receiver,
        params,
        ret,
        body,
    }
}

/// The export kind of a receiver kind.
fn receiver_kind_exec(r: Receiver) -> (k: ExportKind)
    ensures
        k == receiver_kind(r),
{
    match r {
        Receiver::ByRef => ExportKind::Method,
        Receiver::Consuming => ExportKind::MethodConsume,
        Receiver::Static => ExportKind::Static,
    }
}

/// The ABI receiver of a receiver kind.
fn receiver_abi_exec(r: Receiver) -> (a: ReceiverAbi)
    ensures
        a == receiver_abi(r),
{
    match r {
        Receiver::ByRef => ReceiverAbi::Borrowed,
        Receiver::Consuming => ReceiverAbi::OwningPtr,
        Receiver::Static => ReceiverAbi::NoReceiver,
    }
}

/// Synthesizes the export of one method, or its diagnostics.
fn method_to_export(unit: &str, async_enabled: bool, ty: &str, m: &Method) -> (out: (
    Option<BridgeExport>,
    Vec<Diagnostic>,
))
    ensures
        diags_view(out.1) == method_diags(async_enabled, *m),
        method_eligible(async_enabled, *m) ==> (out.0 matches Some(e)
            && e@ == method_export(unit@, ty@, *m)),
        !method_eligible(async_enabled, *m) ==> out.0 is None,
{
    if !m.public {
        let diags: Vec<Diagnostic> = Vec::new();
        assert(diags_view(diags) =~= method_diags(async_enabled, *m));
        return (None, diags);
    }
    let mut diags: Vec<Diagnostic> = Vec::new();
    let mut abis: Vec<AbiType> = Vec::new();
    let mut params_ok = true;
    let mut i: usize = 0;
    while i < m.params.len()
        invariant
            0 <= i <= m.params@.len(),
            params_ok == params_lower_ok(m.params@.take(i as int)),
            params_ok ==> abis@ == lowered_params(m.params@.take(i as int)),
            diags_view(diags) == param_diags(m.params@.take(i as int)),
        decreases m.params@.len() - i,
    {
        let ghost prev = m.params@.take(i as int);
        let ghost cur = m.params@.take(i as int + 1);
        proof {
            assert(cur.drop_last() =~= prev);
            assert(cur.last() == m.params@[i as int]);
        }
        match lower_argument(&m.params[i].ty) {
            Ok(a) => {
                let ghost old_abis = abis@;
                abis.push(a);
                proof {
                    if params_lower_ok(cur) {
                        assert(params_lower_ok(prev)) by {
                            assert(forall|j: int| 0 <= j < prev.len() ==> prev[j] == cur[j]);
                        }
                        assert(lowered_params(cur) =~= lowered_params(prev).push(
                            spec_lower_argument(cur.last().ty)->Ok_0,
                        ));
                    }
                    assert(params_lower_ok(cur) == (params_lower_ok(prev)
                        && spec_lower_argument(m.params@[i as int].ty) is Ok)) by {
                        assert(forall|j: int| 0 <= j < prev.len() ==> prev[j] == cur[j]);
                        assert(cur[i as int] == m.params@[i as int]);
                    }
                    assert(diags_view(diags) =~= param_diags(cur));
                }
            },
            Err(e) => {
                params_ok = false;
                let ghost ev = e@;
                let d = diag_of_lower_error(e);
                diags.push(d);
                proof {
                    assert(!(spec_lower_argument(cur.last().ty) is Ok));
                    assert(!params_lower_ok(cur)) by {
                        assert(cur[i as int] == m.params@[i as int]);
                    }
                    assert(diags_view(diags) =~= param_diags(prev) + seq![lower_diag(ev)]);
                }
            },
        }
        i += 1;
    }
    proof {
        assert(m.params@.take(m.params@.len() as int) =~= m.params@);
    }
    let ghost after_params = param_diags(m.params@);
    let mut eligible = params_ok;
    if m.is_async && !async_enabled {
        let d = Diagnostic::new(DiagnosticCode::AsyncNotEnabled, m.name.clone());
        diags.push(d);
        eligible = false;
        proof {
            assert(diags_view(diags) =~= after_params + seq![
                mk_diag(DiagnosticCode::AsyncNotEnabled, m.name@),
            ]);
        }
    }
    let ghost after_async = diags_view(diags);
    let ret_val: Option<AbiType> = match &m.ret {
        Some(t) => {
            match lower_return(t) {
                Ok(a) => Some(a),
                Err(e) => {
                    let ghost ev = e@;
                    let d = diag_of_lower_error(e);
                    diags.push(d);
                    eligible = false;
                    proof {
                        assert(diags_view(diags) =~= after_async + seq![lower_diag(ev)]);
                    }
                    None
                },
            }
        },
        None => None,
    };
    proof {
        assert(diags_view(diags) =~= method_diags(async_enabled, *m));
    }
    if eligible {
        let body = match m.receiver {
            Receiver::ByRef => {
                BridgeBody::CallByRef { name: m.name.clone(), blocking_async: m.is_async }
            },
            Receiver::Consuming => {
                BridgeBody::CallConsuming { name: m.name.clone(), blocking_async: m.is_async }
            },
            Receiver::Static => {
                BridgeBody::CallStatic { name: m.name.clone(), blocking_async: m.is_async }
            },
        };
        let e = make_export(
            unit,
            Category::Class,
            ty,
            receiver_kind_exec(m.receiver),
            m.name.as_str(),
            receiver_abi_exec(m.receiver),
            abis,
            ret_val,
            body,
        );
        proof {
            assert(e@ == method_export(unit@, ty@, *m));
        }
        (Some(e), diags)
    } else {
        (None, diags)
    }
}

/// The synthesizer: the compilation-unit identity, the asynchronous
/// capability, and the cross-declaration state (the tainted-type set and the
/// builtin-emission flag) that every declaration of the unit shares.
///
/// Synthesis itself is single-threaded and sequential over declarations. A
/// host that feeds declarations from more than one thread must guard the
/// synthesizer with a lock, so that insert and lookup on the shared tainted
/// set stay safe.
pub struct Synthesizer {
    unit: String,
    async_enabled: bool,
    tainted: Vec<String>,
    builtin_emitted: bool,
}

impl Synthesizer {
    /// The compilation-unit identity every symbol is scoped by.
    pub closed spec fn unit_id(&self) -> Seq<char> {
        self.unit@
    }

    /// Whether the asynchronous capability is enabled.
    pub closed spec fn async_on(&self) -> bool {
        self.async_enabled
    }

    /// The cross-declaration state.
    pub closed spec fn state(&self) -> SynthState {
        SynthState { tainted: self.tainted.deep_view(), builtin_emitted: self.builtin_emitted }
    }

    /// A synthesizer for one compilation unit, before any declaration.
    pub fn new(unit: String, async_enabled: bool) -> (s: Synthesizer)
        ensures
            s.unit_id() == unit@,
            s.async_on() == async_enabled,
            s.state() == initial_state(),
    {
        let s = Synthesizer { unit, async_enabled, tainted: Vec::new(), builtin_emitted: false };
        proof {
            assert(s.tainted.deep_view() =~= Seq::<Seq<char>>::empty());
        }
        s
    }

    /// Whether the named type failed validation earlier.
    fn is_tainted(&self, name: &String) -> (r: bool)
        ensures
            r == self.state().tainted.contains(name@),
    {
        let ghost tv = self.tainted.deep_view();
        let mut i: usize = 0;
        while i < self.tainted.len()
            invariant
                0 <= i <= self.tainted@.len(),
                tv == self.tainted.deep_view(),
                tv.len() == self.tainted@.len(),
                forall|k: int| 0 <= k < i ==> tv[k] != name@,
            decreases self.tainted@.len() - i,
        {
            assert(tv[i as int] == self.tainted@[i as int]@);
            if self.tainted[i].eq(name) {
                return true;
            }
            i += 1;
        }
        false
    }

    /// Appends the builtin descriptor exports when they are still owed, and
    /// marks them emitted.
    fn push_builtins(&mut self, exports: &mut Vec<BridgeExport>)
        ensures
            final(self).unit_id() == old(self).unit_id(),
            final(self).async_on() == old(self).async_on(),
            final(self).state() == (SynthState {
                tainted: old(self).state().tainted,
                builtin_emitted: true,
            }),
            exports_view(*final(exports)) == exports_view(*old(exports)) + owed_builtins(
                old(self).unit_id(),
                old(self).state(),
            ),
    {
        if !self.builtin_emitted {
            let e1 = make_export(
                self.unit.as_str(),
                Category::Builtin,
                "FinchString",
                ExportKind::BuiltinNew,
                "",
                ReceiverAbi::NoReceiver,
                two_params(AbiType::ConstBytePtr, AbiType::Primitive(crate::decl::PrimitiveType::Usize)),
                Some(AbiType::StringDescriptor),
                BridgeBody::StringNew,
            );
            exports.push(e1);
            let e2 = make_export(
                self.unit.as_str(),
                Category::Builtin,
                "FinchString",
                ExportKind::Drop,
                "",
                ReceiverAbi::NoReceiver,
                one_param(AbiType::StringDescriptor),
                None,
                BridgeBody::StringDrop,
            );
            exports.push(e2);
            let e3 = make_export(
                self.unit.as_str(),
                Category::Builtin,
                "FinchCString",
                ExportKind::Drop,
                "",
                ReceiverAbi::NoReceiver,
                one_param(AbiType::CStringDescriptor),
                None,
                BridgeBody::CStringDrop,
            );
            exports.push(e3);
            let e4 = make_export(
                self.unit.as_str(),
                Category::Builtin,
                "FinchRuntime",
                ExportKind::Init,
                "",
                ReceiverAbi::NoReceiver,
                Vec::new(),
                None,
                BridgeBody::InstallHook,
            );
            exports.push(e4);
            self.builtin_emitted = true;
            proof {
                assert(exports_view(*exports) =~= exports_view(*old(exports)) + builtin_exports(
                    old(self).unit_id(),
                ));
            }
        } else {
            proof {
                assert(exports_view(*exports) =~= exports_view(*old(exports)) + owed_builtins(
                    old(self).unit_id(),
                    old(self).state(),
                ));
            }
        }
    }

    /// Processes one exported type declaration.
    fn process_struct(&mut self, td: &TypeDecl) -> (out: (Vec<BridgeExport>, Vec<Diagnostic>))
        ensures
            final(self).unit_id() == old(self).unit_id(),
            final(self).async_on() == old(self).async_on(),
            ({
                let step = spec_process(
                    old(self).unit_id(),
                    old(self).async_on(),
                    old(self).state(),
                    Declaration::TypeDef(*td),
                );
                &&& final(self).state() == step.0
                &&& exports_view(out.0) == step.1
                &&& diags_view(out.1) == step.2
            }),
    {
        if !td.visible {
            let ghost namev = td.name@;
            self.tainted.push(td.name.clone());
            let mut diags: Vec<Diagnostic> = Vec::new();
            diags.push(Diagnostic::new(DiagnosticCode::NotPublic, td.name.clone()));
            let exports: Vec<BridgeExport> = Vec::new();
            proof {
                assert(self.tainted.deep_view() =~= old(self).tainted.deep_view().push(namev));
                assert(exports_view(exports) =~= Seq::<ExportModel>::empty());
                assert(diags_view(diags) =~= seq![mk_diag(DiagnosticCode::NotPublic, namev)]);
            }
            return (exports, diags);
        }
        let ghost unit = self.unit@;
        let ghost ty = td.name@;
        let mut exports: Vec<BridgeExport> = Vec::new();
        let ea = make_export(
            self.unit.as_str(),
            Category::Class,
            td.name.as_str(),
            ExportKind::TypeAlias,
            "",
            ReceiverAbi::NoReceiver,
            Vec::new(),
            None,
            BridgeBody::AliasType,
        );
        exports.push(ea);
        let ed = make_export(
            self.unit.as_str(),
            Category::Class,
            td.name.as_str(),
            ExportKind::Drop,
            "",
            ReceiverAbi::NoReceiver,
            one_param(AbiType::OwningPtr),
            None,
            BridgeBody::DropBox,
        );
        exports.push(ed);
        proof {
            assert(exports_view(exports) =~= seq![alias_export(unit, ty), drop_export(unit, ty)]);
        }
        let ghost head = exports_view(exports);
        let mut diags: Vec<Diagnostic> = Vec::new();
        match &td.fields {
            StructFields::Named(fs) => {
                let mut i: usize = 0;
                while i < fs.len()
                    invariant
                        0 <= i <= fs@.len(),
                        self == old(self),
                        unit == self.unit@,
                        ty == td.name@,
                        head == seq![alias_export(unit, ty), drop_export(unit, ty)],
                        exports_view(exports) == head + named_field_exports(
                            unit,
                            ty,
                            fs@.take(i as int),
                        ),
                        diags_view(diags) == named_field_diags(fs@.take(i as int)),
                    decreases fs@.len() - i,
                {
                    let ghost prev = fs@.take(i as int);
                    let ghost cur = fs@.take(i as int + 1);
                    proof {
                        assert(cur.drop_last() =~= prev);
                        assert(cur.last() == fs@[i as int]);
                    }
                    let f = &fs[i];
                    if f.public {
                        let arg1 = lower_argument(&f.ty);
                        let arg2 = lower_argument(&f.ty);
                        match (arg1, arg2) {
                            (Ok(a1), Ok(a2)) => {
                                proof {
                                    crate::lowering::lemma_argument_rule_within_return_rule(f.ty);
                                }
                                let eg = make_export(
                                    self.unit.as_str(),
                                    Category::Class,
                                    td.name.as_str(),
                                    ExportKind::Getter,
                                    f.name.as_str(),
                                    ReceiverAbi::Borrowed,
                                    Vec::new(),
                                    Some(a2),
                                    BridgeBody::GetField(FieldRef::Named(f.name.clone())),
                                );
                                let ghost egv = eg@;
                                exports.push(eg);
                                let es = make_export(
                                    self.unit.as_str(),
                                    Category::Class,
                                    td.name.as_str(),
                                    ExportKind::Setter,
                                    f.name.as_str(),
                                    ReceiverAbi::Borrowed,
                                    one_param(a1),
                                    None,
                                    BridgeBody::SetField(FieldRef::Named(f.name.clone())),
                                );
                                let ghost esv = es@;
                                exports.push(es);
                                proof {
                                    let fv = fs@[i as int];
                                    assert(a1 == spec_lower_argument(fv.ty)->Ok_0);
                                    assert(a2 == spec_lower_return(fv.ty)->Ok_0);
                                    assert(egv == named_field_exports_one(unit, ty, fv)[0]);
                                    assert(esv == named_field_exports_one(unit, ty, fv)[1]);
                                    assert(exports_view(exports) =~= head + named_field_exports(
                                        unit,
                                        ty,
                                        prev,
                                    ) + named_field_exports_one(unit, ty, fv));
                                }
                            },
                            (Err(e), _) => {
                                let d = diag_of_lower_error(e);
                                diags.push(d);
                            },
                            (Ok(_), Err(_)) => {
                                proof {
                                    assert(false);
                                }
                            },
                        }
                    }
                    proof {
                        assert(exports_view(exports) =~= head + named_field_exports(unit, ty, cur));
                        assert(diags_view(diags) =~= named_field_diags(cur));
                    }
                    i += 1;
                }
                proof {
                    assert(fs@.take(fs@.len() as int) =~= fs@);
                }
            },
            StructFields::Unnamed(fs) => {
                let mut i: usize = 0;
                while i < fs.len()
                    invariant
                        0 <= i <= fs@.len(),
                        self == old(self),
                        unit == self.unit@,
                        ty == td.name@,
                        head == seq![alias_export(unit, ty), drop_export(unit, ty)],
                        exports_view(exports) == head + unnamed_field_exports(
                            unit,
                            ty,
                            fs@.take(i as int),
                        ),
                        diags_view(diags) == unnamed_field_diags(fs@.take(i as int)),
                    decreases fs@.len() - i,
                {
                    let ghost prev = fs@.take(i as int);
                    let ghost cur = fs@.take(i as int + 1);
                    proof {
                        assert(cur.drop_last() =~= prev);
                        assert(cur.last() == fs@[i as int]);
                    }
                    let f = &fs[i];
                    if f.public {
                        let arg1 = lower_argument(&f.ty);
                        let arg2 = lower_argument(&f.ty);
                        match (arg1, arg2) {
                            (Ok(a1), Ok(a2)) => {
                                proof {
                                    crate::lowering::lemma_argument_rule_within_return_rule(f.ty);
                                }
                                let member = decimal_string(i);
                                let eg = make_export(
                                    self.unit.as_str(),
                                    Category::Class,
                                    td.name.as_str(),
                                    ExportKind::Getter,
                                    member.as_str(),
                                    ReceiverAbi::Borrowed,
                                    Vec::new(),
                                    Some(a2),
                                    BridgeBody::GetField(FieldRef::Positional(i)),
                                );
                                let ghost egv = eg@;
                                exports.push(eg);
                                let es = make_export(
                                    self.unit.as_str(),
                                    Category::Class,
                                    td.name.as_str(),
                                    ExportKind::Setter,
                                    member.as_str(),
                                    ReceiverAbi::Borrowed,
                                    one_param(a1),
                                    None,
                                    BridgeBody::SetField(FieldRef::Positional(i)),
                                );
                                let ghost esv = es@;
                                exports.push(es);
                                proof {
                                    let fv = fs@[i as int];
                                    assert(a1 == spec_lower_argument(fv.ty)->Ok_0);
                                    assert(a2 == spec_lower_return(fv.ty)->Ok_0);
                                    assert(egv == unnamed_field_exports_one(unit, ty, fv, i)[0]);
                                    assert(esv == unnamed_field_exports_one(unit, ty, fv, i)[1]);
                                    assert(exports_view(exports) =~= head + unnamed_field_exports(
                                        unit,
                                        ty,
                                        prev,
                                    ) + unnamed_field_exports_one(unit, ty, fv, i));
                                }
                            },
                            (Err(e), _) => {
                                let d = diag_of_lower_error(e);
                                diags.push(d);
                            },
                            (Ok(_), Err(_)) => {
                                proof {
                                    assert(false);
                                }
                            },
                        }
                    }
                    proof {
                        assert(exports_view(exports) =~= head + unnamed_field_exports(
                            unit,
                            ty,
                            cur,
                        ));
                        assert(diags_view(diags) =~= unnamed_field_diags(cur));
                    }
                    i += 1;
                }
                proof {
                    assert(fs@.take(fs@.len() as int) =~= fs@);
                }
            },
            StructFields::Unit => {},
        }
        let ghost before_builtins = exports_view(exports);
        self.push_builtins(&mut exports);
        proof {
            assert(exports_view(exports) =~= ({
                let step = spec_process(
                    old(self).unit_id(),
                    old(self).async_on(),
                    old(self).state(),
                    Declaration::TypeDef(*td),
                );
                step.1
            }));
        }
        (exports, diags)
    }

    /// Processes one method block.
    fn process_block(&mut self, b: &MethodBlock) -> (out: (Vec<BridgeExport>, Vec<Diagnostic>))
        ensures
            final(self).unit_id() == old(self).unit_id(),
            final(self).async_on() == old(self).async_on(),
            ({
                let step = spec_process(
                    old(self).unit_id(),
                    old(self).async_on(),
                    old(self).state(),
                    Declaration::Methods(*b),
                );
                &&& final(self).state() == step.0
                &&& exports_view(out.0) == step.1
                &&& diags_view(out.1) == step.2
            }),
    {
        match &b.target {
            ImplTarget::Invalid(txt) => {
                let mut diags: Vec<Diagnostic> = Vec::new();
                diags.push(Diagnostic::new(DiagnosticCode::InvalidTargetType, txt.clone()));
                let exports: Vec<BridgeExport> = Vec::new();
                proof {
                    assert(exports_view(exports) =~= Seq::<ExportModel>::empty());
                    assert(diags_view(diags) =~= seq![
                        mk_diag(DiagnosticCode::InvalidTargetType, txt@),
                    ]);
                }
                (exports, diags)
            },
            ImplTarget::Named(t) => {
                if self.is_tainted(t) {
                    let exports: Vec<BridgeExport> = Vec::new();
                    let diags: Vec<Diagnostic> = Vec::new();
                    proof {
                        assert(exports_view(exports) =~= Seq::<ExportModel>::empty());
                        assert(diags_view(diags) =~= Seq::<DiagModel>::empty());
                    }
                    (exports, diags)
                } else {
                    let ghost unit = self.unit@;
                    let ghost ty = t@;
                    let mut exports: Vec<BridgeExport> = Vec::new();
                    let mut diags: Vec<Diagnostic> = Vec::new();
                    proof {
                        assert(exports_view(exports) =~= Seq::<ExportModel>::empty());
                        assert(diags_view(diags) =~= Seq::<DiagModel>::empty());
                    }
                    let mut i: usize = 0;
                    while i < b.methods.len()
                        invariant
                            0 <= i <= b.methods@.len(),
                            self == old(self),
                            unit == self.unit@,
                            ty == t@,
                            exports_view(exports) == block_exports(
                                unit,
                                self.async_enabled,
                                ty,
                                b.methods@.take(i as int),
                            ),
                            diags_view(diags) == block_diags(
                                self.async_enabled,
                                b.methods@.take(i as int),
                            ),
                        decreases b.methods@.len() - i,
                    {
                        let ghost prev = b.methods@.take(i as int);
                        let ghost cur = b.methods@.take(i as int + 1);
                        proof {
                            assert(cur.drop_last() =~= prev);
                            assert(cur.last() == b.methods@[i as int]);
                        }
                        let (oe, mut ds) = method_to_export(
                            self.unit.as_str(),
                            self.async_enabled,
                            t.as_str(),
                            &b.methods[i],
                        );
                        let ghost dsv = diags_view(ds);
                        match oe {
                            Some(e) => exports.push(e),
                            None => {},
                        }
                        diags.append(&mut ds);
                        proof {
                            assert(diags_view(diags) =~= block_diags(self.async_enabled, prev)
                                + dsv);
                            assert(exports_view(exports) =~= block_exports(
                                unit,
                                self.async_enabled,
                                ty,
                                cur,
                            ));
                        }
                        i += 1;
                    }
                    proof {
                        assert(b.methods@.take(b.methods@.len() as int) =~= b.methods@);
                    }
                    self.push_builtins(&mut exports);
                    proof {
                        assert(exports_view(exports) =~= ({
                            let step = spec_process(
                                old(self).unit_id(),
                                old(self).async_on(),
                                old(self).state(),
                                Declaration::Methods(*b),
                            );
                            step.1
                        }));
                    }
                    (exports, diags)
                }
            },
        }
    }

    /// Processes one declaration: returns the exports and diagnostics it
    /// produces and advances the cross-declaration state.
    pub fn process(&mut self, d: &Declaration) -> (out: (Vec<BridgeExport>, Vec<Diagnostic>))
        ensures
            final(self).unit_id() == old(self).unit_id(),
            final(self).async_on() == old(self).async_on(),
            ({
                let step = spec_process(
                    old(self).unit_id(),
                    old(self).async_on(),
                    old(self).state(),
                    *d,
                );
                &&& final(self).state() == step.0
                &&& exports_view(out.0) == step.1
                &&& diags_view(out.1) == step.2
            }),
    {
        match d {
            Declaration::TypeDef(td) => self.process_struct(td),
            Declaration::Methods(b) => self.process_block(b),
            Declaration::Other(txt) => {
                let mut diags: Vec<Diagnostic> = Vec::new();
                diags.push(Diagnostic::new(DiagnosticCode::UnexpectedDeclaration, txt.clone()));
                let exports: Vec<BridgeExport> = Vec::new();
                proof {
                    assert(exports_view(exports) =~= Seq::<ExportModel>::empty());
                    assert(diags_view(diags) =~= seq![
                        mk_diag(DiagnosticCode::UnexpectedDeclaration, txt@),
                    ]);
                }
                (exports, diags)
            },
        }
    }
}

/// Everything one run produces: the exports in emission order and the
/// collected diagnostics.
pub struct SynthesisOutput {
    pub exports: Vec<BridgeExport>,
    pub diagnostics: Vec<Diagnostic>,
}

/// Synthesizes the whole bridge of one compilation unit over a declaration
/// list: every export and every diagnostic, in declaration order.
pub fn synthesize(unit: String, async_enabled: bool, decls: &Vec<Declaration>) -> (out:
    SynthesisOutput)
    ensures
        exports_view(out.exports) == spec_run(unit@, async_enabled, decls@).1,
        diags_view(out.diagnostics) == spec_run(unit@, async_enabled, decls@).2,
{
    let ghost u = unit@;
    let mut syn = Synthesizer::new(unit, async_enabled);
    let mut exports: Vec<BridgeExport> = Vec::new();
    let mut diagnostics: Vec<Diagnostic> = Vec::new();
    proof {
        assert(exports_view(exports) =~= Seq::<ExportModel>::empty());
        assert(diags_view(diagnostics) =~= Seq::<DiagModel>::empty());
    }
    let mut i: usize = 0;
    while i < decls.len()
        invariant
            0 <= i <= decls@.len(),
            syn.unit_id() == u,
            syn.async_on() == async_enabled,
            syn.state() == spec_run_from(u, async_enabled, initial_state(), decls@.take(i as int)).0,
            exports_view(exports) == spec_run_from(
                u,
                async_enabled,
                initial_state(),
                decls@.take(i as int),
            ).1,
            diags_view(diagnostics) == spec_run_from(
                u,
                async_enabled,
                initial_state(),
                decls@.take(i as int),
            ).2,
        decreases decls@.len() - i,
    {
        let ghost prev = decls@.take(i as int);
        let ghost cur = decls@.take(i as int + 1);
        proof {
            assert(cur.drop_last() =~= prev);
            assert(cur.last() == decls@[i as int]);
        }
        let (mut es, mut ds) = syn.process(&decls[i]);
        let ghost esv = exports_view(es);
        let ghost dsv = diags_view(ds);
        exports.append(&mut es);
        diagnostics.append(&mut ds);
        proof {
            assert(exports_view(exports) =~= spec_run_from(u, async_enabled, initial_state(), prev).1
                + esv);
            assert(diags_view(diagnostics) =~= spec_run_from(u, async_enabled, initial_state(), prev).2
                + dsv);
        }
        i += 1;
    }
    proof {
        assert(decls@.take(decls@.len() as int) =~= decls@);
    }
    SynthesisOutput { exports, diagnostics }
}

/// A vector of one parameter representation.
fn one_param(a: AbiType) -> (v: Vec<AbiType>)
    ensures
        v@ == seq![a],
{
    let mut v: Vec<AbiType> = Vec::new();
    v.push(a);
    v
}

/// A vector of two parameter representations.
fn two_params(a: AbiType, b: AbiType) -> (v: Vec<AbiType>)
    ensures
        v@ == seq![a, b],
{
    let mut v: Vec<AbiType> = Vec::new();
    v.push(a);
    v.push(b);
    proof {
        assert(v@ =~= seq![a, b]);
    }
    v
}

} // verus!
