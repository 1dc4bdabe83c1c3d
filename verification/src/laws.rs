//! Laws of the whole synthesizer, proved over its model: a type that fails the
//! visibility precondition yields no bridge export at all, neither for itself
//! nor for any of its methods; the symbols generated for one type are pairwise
//! distinct; and re-running synthesis on an unchanged declaration set yields
//! identical exports.

use vstd::prelude::*;
use crate::decl::{Declaration, ImplTarget, Method, NamedField, StructFields, TypeDecl,
    UnnamedField};
use crate::naming::{
    Category, ExportKind, kind_has_member, lemma_decimal_injective, lemma_owner_distinct,
    lemma_symbol_distinct, spec_decimal, spec_symbol,
};
use crate::synth::{
    ExportModel, alias_export, block_exports, builtin_exports, drop_export, fields_exports,
    method_eligible, method_export, named_field_exports, named_field_exports_one, owed_builtins,
    spec_run, unnamed_field_exports, unnamed_field_exports_one,
};

verus! {

/// The name of the type a declaration defines, if it defines one.
pub open spec fn decl_type_name(d: Declaration) -> Option<Seq<char>> {
    match d {
        Declaration::TypeDef(td) => Some(td.name@),
        _ => None,
    }
}

/// Whether the declaration defines a visible type of the given name.
pub open spec fn defines_visible_type(d: Declaration, t: Seq<char>) -> bool {
    match d {
        Declaration::TypeDef(td) => td.name@ == t && td.visible,
        _ => false,
    }
}

/// Whether the declaration defines an externally invisible type of the given
/// name.
pub open spec fn defines_invisible_type(d: Declaration, t: Seq<char>) -> bool {
    match d {
        Declaration::TypeDef(td) => td.name@ == t && !td.visible,
        _ => false,
    }
}

/// The type a method block targets, if the declaration is a well-targeted
/// block.
pub open spec fn decl_block_target(d: Declaration) -> Option<Seq<char>> {
    match d {
        Declaration::Methods(b) => match b.target {
            ImplTarget::Named(t) => Some(t@),
            ImplTarget::Invalid(_) => None,
        },
        _ => None,
    }
}

/// The methods of a block declaration.
pub open spec fn decl_methods(d: Declaration) -> Seq<Method> {
    match d {
        Declaration::Methods(b) => b.methods@,
        _ => Seq::empty(),
    }
}

/// The named fields of one type declaration have pairwise distinct names.
pub open spec fn fields_wf(td: TypeDecl) -> bool {
    match td.fields {
        StructFields::Named(v) => forall|p: int, q: int|
            #![trigger v@[p], v@[q]]
            0 <= p < q < v@.len() ==> v@[p].name@ != v@[q].name@,
        _ => true,
    }
}

/// Field-name discipline of one declaration.
pub open spec fn decl_fields_wf(d: Declaration) -> bool {
    match d {
        Declaration::TypeDef(td) => fields_wf(td),
        _ => true,
    }
}

/// Each type name is declared at most once.
pub open spec fn types_unique(decls: Seq<Declaration>) -> bool {
    forall|i: int, j: int|
        #![trigger decl_type_name(decls[i]), decl_type_name(decls[j])]
        0 <= i < j < decls.len() && decl_type_name(decls[i]) is Some && decl_type_name(
            decls[j],
        ) is Some ==> decl_type_name(decls[i]) != decl_type_name(decls[j])
}

/// A method block comes after the declaration of the type it targets.
pub open spec fn types_precede_blocks(decls: Seq<Declaration>) -> bool {
    forall|j: int|
        0 <= j < decls.len() && #[trigger] decl_block_target(decls[j]) is Some ==> exists|i: int|
            0 <= i < j && decl_type_name(#[trigger] decls[i]) == decl_block_target(decls[j])
}

/// Two public methods on the same target never share a name, whether they
/// stand in one block or in two.
pub open spec fn methods_unique(decls: Seq<Declaration>) -> bool {
    forall|i: int, j: int, p: int, q: int|
        #![trigger decl_methods(decls[i])[p], decl_methods(decls[j])[q]]
        0 <= i < decls.len() && 0 <= j < decls.len() && decl_block_target(decls[i]) is Some
            && decl_block_target(decls[i]) == decl_block_target(decls[j]) && 0 <= p < decl_methods(
            decls[i],
        ).len() && 0 <= q < decl_methods(decls[j]).len() && (i != j || p != q) && decl_methods(
            decls[i],
        )[p].public && decl_methods(decls[j])[q].public ==> decl_methods(decls[i])[p].name@
            != decl_methods(decls[j])[q].name@
}

/// A well-formed declaration set: the input discipline under which the
/// collision-freedom and suppression laws hold.
pub open spec fn wf_decls(decls: Seq<Declaration>) -> bool {
    &&& types_unique(decls)
    &&& types_precede_blocks(decls)
    &&& methods_unique(decls)
    &&& forall|i: int| 0 <= i < decls.len() ==> decl_fields_wf(#[trigger] decls[i])
}

/// The kinds an exported type's own declaration produces.
pub open spec fn struct_kind(k: ExportKind) -> bool {
    k == ExportKind::TypeAlias || k == ExportKind::Drop || k == ExportKind::Getter || k
        == ExportKind::Setter
}

/// The kinds a method block produces.
pub open spec fn method_kind(k: ExportKind) -> bool {
    k == ExportKind::Method || k == ExportKind::MethodConsume || k == ExportKind::Static
}

/// Distinct naming tags: different kinds, or member exports of one kind with
/// different member names. The naming scheme maps distinct tags on one type to
/// distinct symbols.
pub open spec fn tag_distinct(a: ExportModel, b: ExportModel) -> bool {
    a.kind != b.kind || (kind_has_member(a.kind) && a.member != b.member)
}

/// The symbol of an export follows the naming scheme.
pub open spec fn symbol_wf(unit: Seq<char>, e: ExportModel) -> bool {
    e.symbol == spec_symbol(unit, e.category, e.owner, e.kind, e.member)
}

/// Shape and pairwise tag distinctness of the accessor exports of a named
/// field list.
proof fn lemma_named_fold(unit: Seq<char>, ty: Seq<char>, fields: Seq<NamedField>)
    requires
        forall|p: int, q: int|
            #![trigger fields[p], fields[q]]
            0 <= p < q < fields.len() ==> fields[p].name@ != fields[q].name@,
    ensures
        forall|k: int|
            #![trigger named_field_exports(unit, ty, fields)[k]]
            0 <= k < named_field_exports(unit, ty, fields).len() ==> {
                let e = named_field_exports(unit, ty, fields)[k];
                &&& symbol_wf(unit, e)
                &&& e.category == Category::Class
                &&& e.owner == ty
                &&& (e.kind == ExportKind::Getter || e.kind == ExportKind::Setter)
                &&& exists|p: int| 0 <= p < fields.len() && e.member == #[trigger] fields[p].name@
            },
        forall|k1: int, k2: int|
            #![trigger named_field_exports(unit, ty, fields)[k1], named_field_exports(unit, ty, fields)[k2]]
            0 <= k1 < k2 < named_field_exports(unit, ty, fields).len() ==> tag_distinct(
                named_field_exports(unit, ty, fields)[k1],
                named_field_exports(unit, ty, fields)[k2],
            ),
    decreases fields.len(),
{
    if fields.len() > 0 {
        let prefix = fields.drop_last();
        lemma_named_fold(unit, ty, prefix);
        let es = named_field_exports(unit, ty, fields);
        let prev = named_field_exports(unit, ty, prefix);
        let one = named_field_exports_one(unit, ty, fields.last());
        assert(es == prev + one);
        let last_idx: int = fields.len() - 1;
        assert(fields.last() == fields[last_idx]);
        assert forall|k: int| 0 <= k < es.len() implies {
            let e = #[trigger] es[k];
            &&& symbol_wf(unit, e)
            &&& e.category == Category::Class
            &&& e.owner == ty
            &&& (e.kind == ExportKind::Getter || e.kind == ExportKind::Setter)
            &&& exists|p: int| 0 <= p < fields.len() && e.member == #[trigger] fields[p].name@
        } by {
            if k < prev.len() {
                assert(es[k] == prev[k]);
                let p = choose|p: int|
                    0 <= p < prefix.len() && prev[k].member == #[trigger] prefix[p].name@;
                assert(fields[p] == prefix[p]);
                assert(es[k].member == fields[p].name@);
            } else {
                assert(es[k] == one[k - prev.len()]);
                assert(es[k].member == fields[last_idx].name@);
            }
        }
        assert forall|k1: int, k2: int| 0 <= k1 < k2 < es.len() implies tag_distinct(
            #[trigger] es[k1],
            #[trigger] es[k2],
        ) by {
            if k2 < prev.len() {
                assert(es[k1] == prev[k1]);
                assert(es[k2] == prev[k2]);
            } else if k1 >= prev.len() {
                assert(es[k1] == one[k1 - prev.len()]);
                assert(es[k2] == one[k2 - prev.len()]);
            } else {
                assert(es[k1] == prev[k1]);
                assert(es[k2] == one[k2 - prev.len()]);
                let p = choose|p: int|
                    0 <= p < prefix.len() && prev[k1].member == #[trigger] prefix[p].name@;
                assert(fields[p] == prefix[p]);
                assert(fields[p].name@ != fields[last_idx].name@);
                assert(es[k2].member == fields[last_idx].name@);
            }
        }
    }
}

/// Shape and pairwise tag distinctness of the accessor exports of a positional
/// field list: the decimal member names are distinct because decimal rendering
/// is injective.
proof fn lemma_unnamed_fold(unit: Seq<char>, ty: Seq<char>, fields: Seq<UnnamedField>)
    requires
        fields.len() <= usize::MAX,
    ensures
        forall|k: int|
            #![trigger unnamed_field_exports(unit, ty, fields)[k]]
            0 <= k < unnamed_field_exports(unit, ty, fields).len() ==> {
                let e = unnamed_field_exports(unit, ty, fields)[k];
                &&& symbol_wf(unit, e)
                &&& e.category == Category::Class
                &&& e.owner == ty
                &&& (e.kind == ExportKind::Getter || e.kind == ExportKind::Setter)
                &&& exists|p: int| 0 <= p < fields.len() && e.member == #[trigger] spec_decimal(p as nat)
            },
        forall|k1: int, k2: int|
            #![trigger unnamed_field_exports(unit, ty, fields)[k1], unnamed_field_exports(unit, ty, fields)[k2]]
            0 <= k1 < k2 < unnamed_field_exports(unit, ty, fields).len() ==> tag_distinct(
                unnamed_field_exports(unit, ty, fields)[k1],
                unnamed_field_exports(unit, ty, fields)[k2],
            ),
    decreases fields.len(),
{
    if fields.len() > 0 {
        let prefix = fields.drop_last();
        lemma_unnamed_fold(unit, ty, prefix);
        let es = unnamed_field_exports(unit, ty, fields);
        let prev = unnamed_field_exports(unit, ty, prefix);
        let last_idx: int = fields.len() - 1;
        let one = unnamed_field_exports_one(unit, ty, fields.last(), last_idx as usize);
        assert(es == prev + one);
        assert forall|k: int| 0 <= k < es.len() implies {
            let e = #[trigger] es[k];
            &&& symbol_wf(unit, e)
            &&& e.category == Category::Class
            &&& e.owner == ty
            &&& (e.kind == ExportKind::Getter || e.kind == ExportKind::Setter)
            &&& exists|p: int| 0 <= p < fields.len() && e.member == #[trigger] spec_decimal(p as nat)
        } by {
            if k < prev.len() {
                assert(es[k] == prev[k]);
                let p = choose|p: int|
                    0 <= p < prefix.len() && prev[k].member == #[trigger] spec_decimal(p as nat);
                assert(0 <= p < fields.len() && es[k].member == spec_decimal(p as nat));
            } else {
                assert(es[k] == one[k - prev.len()]);
                assert(es[k].member == spec_decimal(last_idx as nat));
            }
        }
        assert forall|k1: int, k2: int| 0 <= k1 < k2 < es.len() implies tag_distinct(
            #[trigger] es[k1],
            #[trigger] es[k2],
        ) by {
            if k2 < prev.len() {
                assert(es[k1] == prev[k1]);
                assert(es[k2] == prev[k2]);
            } else if k1 >= prev.len() {
                assert(es[k1] == one[k1 - prev.len()]);
                assert(es[k2] == one[k2 - prev.len()]);
            } else {
                assert(es[k1] == prev[k1]);
                assert(es[k2] == one[k2 - prev.len()]);
                let p = choose|p: int|
                    0 <= p < prefix.len() && prev[k1].member == #[trigger] spec_decimal(p as nat);
                lemma_decimal_injective(p as nat, last_idx as nat);
                assert(es[k2].member == spec_decimal(last_idx as nat));
            }
        }
    }
}

/// Shape and pairwise tag distinctness of the exports of one method block.
proof fn lemma_block_fold(unit: Seq<char>, ae: bool, ty: Seq<char>, ms: Seq<Method>)
    requires
        forall|p: int, q: int|
            #![trigger ms[p], ms[q]]
            0 <= p < q < ms.len() && ms[p].public && ms[q].public ==> ms[p].name@ != ms[q].name@,
    ensures
        forall|k: int|
            #![trigger block_exports(unit, ae, ty, ms)[k]]
            0 <= k < block_exports(unit, ae, ty, ms).len() ==> {
                let e = block_exports(unit, ae, ty, ms)[k];
                &&& symbol_wf(unit, e)
                &&& e.category == Category::Class
                &&& e.owner == ty
                &&& method_kind(e.kind)
                &&& exists|p: int|
                    0 <= p < ms.len() && #[trigger] ms[p].public && e.member == ms[p].name@
            },
        forall|k1: int, k2: int|
            #![trigger block_exports(unit, ae, ty, ms)[k1], block_exports(unit, ae, ty, ms)[k2]]
            0 <= k1 < k2 < block_exports(unit, ae, ty, ms).len() ==> tag_distinct(
                block_exports(unit, ae, ty, ms)[k1],
                block_exports(unit, ae, ty, ms)[k2],
            ),
    decreases ms.len(),
{
    if ms.len() > 0 {
        let prefix = ms.drop_last();
        lemma_block_fold(unit, ae, ty, prefix);
        let es = block_exports(unit, ae, ty, ms);
        let prev = block_exports(unit, ae, ty, prefix);
        let last_idx: int = ms.len() - 1;
        assert(ms.last() == ms[last_idx]);
        assert forall|k: int| 0 <= k < es.len() implies {
            let e = #[trigger] es[k];
            &&& symbol_wf(unit, e)
            &&& e.category == Category::Class
            &&& e.owner == ty
            &&& method_kind(e.kind)
            &&& exists|p: int|
                0 <= p < ms.len() && #[trigger] ms[p].public && e.member == ms[p].name@
        } by {
            if k < prev.len() {
                assert(es[k] == prev[k]);
                let p = choose|p: int|
                    0 <= p < prefix.len() && #[trigger] prefix[p].public && prev[k].member
                        == prefix[p].name@;
                assert(ms[p] == prefix[p]);
                assert(ms[p].public && es[k].member == ms[p].name@);
            } else {
                assert(method_eligible(ae, ms[last_idx]));
                assert(es[k] == method_export(unit, ty, ms[last_idx]));
                assert(ms[last_idx].public && es[k].member == ms[last_idx].name@);
            }
        }
        assert forall|k1: int, k2: int| 0 <= k1 < k2 < es.len() implies tag_distinct(
            #[trigger] es[k1],
            #[trigger] es[k2],
        ) by {
            if k2 < prev.len() {
                assert(es[k1] == prev[k1]);
                assert(es[k2] == prev[k2]);
            } else if k1 < prev.len() {
                assert(es[k1] == prev[k1]);
                assert(method_eligible(ae, ms[last_idx]));
                assert(es[k2] == method_export(unit, ty, ms[last_idx]));
                let p = choose|p: int|
                    0 <= p < prefix.len() && #[trigger] prefix[p].public && prev[k1].member
                        == prefix[p].name@;
                assert(ms[p] == prefix[p]);
                assert(ms[p].name@ != ms[last_idx].name@);
                assert(es[k2].member == ms[last_idx].name@);
            }
        }
    }
}

/// Membership in a pushed sequence.
proof fn lemma_push_contains<A>(s: Seq<A>, v: A, x: A)
    ensures
        s.push(v).contains(x) <==> (s.contains(x) || x == v),
{
    if s.push(v).contains(x) {
        let idx = choose|idx: int| 0 <= idx < s.push(v).len() && s.push(v)[idx] == x;
        if idx < s.len() {
            assert(s[idx] == x);
        }
    }
    if s.contains(x) {
        let idx = choose|idx: int| 0 <= idx < s.len() && s[idx] == x;
        assert(s.push(v)[idx] == x);
    }
    if x == v {
        assert(s.push(v)[s.len() as int] == x);
    }
}

/// Shape and pairwise tag distinctness of everything a visible type
/// declaration emits for itself: the alias, the destructor and the accessors.
proof fn lemma_struct_step(unit: Seq<char>, td: TypeDecl)
    requires
        td.visible,
        fields_wf(td),
    ensures
        ({
            let s = seq![alias_export(unit, td.name@), drop_export(unit, td.name@)]
                + fields_exports(unit, td.name@, td.fields);
            &&& forall|k: int|
                #![trigger s[k]]
                0 <= k < s.len() ==> {
                    &&& symbol_wf(unit, s[k])
                    &&& s[k].category == Category::Class
                    &&& s[k].owner == td.name@
                    &&& struct_kind(s[k].kind)
                }
            &&& forall|k1: int, k2: int|
                #![trigger s[k1], s[k2]]
                0 <= k1 < k2 < s.len() ==> tag_distinct(s[k1], s[k2])
        }),
{
    let ty = td.name@;
    let head = seq![alias_export(unit, ty), drop_export(unit, ty)];
    let fe = fields_exports(unit, ty, td.fields);
    let s = head + fe;
    match td.fields {
        StructFields::Named(v) => {
            lemma_named_fold(unit, ty, v@);
        },
        StructFields::Unnamed(v) => {
            vstd::std_specs::vec::axiom_spec_len(&v);
            lemma_unnamed_fold(unit, ty, v@);
        },
        StructFields::Unit => {},
    }
    assert forall|k: int| 0 <= k < s.len() implies {
        &&& symbol_wf(unit, #[trigger] s[k])
        &&& s[k].category == Category::Class
        &&& s[k].owner == ty
        &&& struct_kind(s[k].kind)
    } by {
        if k >= 2 {
            assert(s[k] == fe[k - 2]);
        }
    }
    assert forall|k1: int, k2: int| 0 <= k1 < k2 < s.len() implies tag_distinct(
        #[trigger] s[k1],
        #[trigger] s[k2],
    ) by {
        if k1 >= 2 {
            assert(s[k1] == fe[k1 - 2]);
            assert(s[k2] == fe[k2 - 2]);
        } else if k2 >= 2 {
            assert(s[k2] == fe[k2 - 2]);
        }
    }
}

/// Shape and pairwise symbol distinctness of the builtin exports: the
/// descriptor constructors and destructors and the process-initialization
/// export.
proof fn lemma_builtins(unit: Seq<char>)
    ensures
        builtin_exports(unit).len() == 4,
        forall|k: int|
            #![trigger builtin_exports(unit)[k]]
            0 <= k < 4 ==> symbol_wf(unit, builtin_exports(unit)[k]) && builtin_exports(unit)[
                k
            ].category == Category::Builtin,
        forall|k1: int, k2: int|
            #![trigger builtin_exports(unit)[k1], builtin_exports(unit)[k2]]
            0 <= k1 < k2 < 4 ==> builtin_exports(unit)[k1].symbol != builtin_exports(unit)[
                k2
            ].symbol,
{
    lemma_symbol_distinct(
        unit,
        Category::Builtin,
        "FinchString"@,
        ExportKind::BuiltinNew,
        ""@,
        ExportKind::Drop,
        ""@,
    );
    reveal_strlit("FinchString");
    reveal_strlit("FinchCString");
    reveal_strlit("FinchRuntime");
    assert("FinchString"@[5] == 'S');
    assert("FinchCString"@[5] == 'C');
    assert("FinchRuntime"@[5] == 'R');
    lemma_owner_distinct(
        unit,
        Category::Builtin,
        "FinchString"@,
        ExportKind::BuiltinNew,
        ""@,
        "FinchCString"@,
        ExportKind::Drop,
        ""@,
        5,
    );
    lemma_owner_distinct(
        unit,
        Category::Builtin,
        "FinchString"@,
        ExportKind::Drop,
        ""@,
        "FinchCString"@,
        ExportKind::Drop,
        ""@,
        5,
    );
    lemma_owner_distinct(
        unit,
        Category::Builtin,
        "FinchString"@,
        ExportKind::BuiltinNew,
        ""@,
        "FinchRuntime"@,
        ExportKind::Init,
        ""@,
        5,
    );
    lemma_owner_distinct(
        unit,
        Category::Builtin,
        "FinchString"@,
        ExportKind::Drop,
        ""@,
        "FinchRuntime"@,
        ExportKind::Init,
        ""@,
        5,
    );
    lemma_owner_distinct(
        unit,
        Category::Builtin,
        "FinchCString"@,
        ExportKind::Drop,
        ""@,
        "FinchRuntime"@,
        ExportKind::Init,
        ""@,
        5,
    );
}

/// Everything that holds of the exports of every run prefix: symbols follow
/// the naming scheme; every class export belongs to a visible type declared
/// before it; every method export names a public method of an earlier block on
/// its type; builtin exports appear only once; same-type class exports carry
/// distinct naming tags and builtin exports distinct symbols.
pub open spec fn exports_inv(unit: Seq<char>, ae: bool, decls: Seq<Declaration>, n: int) -> bool {
    let st = spec_run(unit, ae, decls.take(n)).0;
    let es = spec_run(unit, ae, decls.take(n)).1;
    &&& forall|k: int| #![trigger es[k]] 0 <= k < es.len() ==> symbol_wf(unit, es[k])
    &&& forall|k: int|
        #![trigger es[k]]
        0 <= k < es.len() && es[k].category == Category::Class ==> (struct_kind(es[k].kind)
            || method_kind(es[k].kind))
    &&& forall|k: int|
        #![trigger es[k]]
        0 <= k < es.len() && es[k].category == Category::Class ==> exists|i: int|
            0 <= i < n && #[trigger] defines_visible_type(decls[i], es[k].owner)
    &&& forall|k: int|
        #![trigger es[k]]
        0 <= k < es.len() && es[k].category == Category::Class && method_kind(es[k].kind)
            ==> exists|i: int, p: int|
            #![trigger decl_methods(decls[i])[p]]
            0 <= i < n && decl_block_target(decls[i]) == Some(es[k].owner) && 0 <= p
                < decl_methods(decls[i]).len() && decl_methods(decls[i])[p].public && es[k].member
                == decl_methods(decls[i])[p].name@
    &&& (!st.builtin_emitted ==> forall|k: int|
        #![trigger es[k]]
        0 <= k < es.len() ==> es[k].category != Category::Builtin)
    &&& forall|k1: int, k2: int|
        #![trigger es[k1], es[k2]]
        0 <= k1 < k2 < es.len() && es[k1].category == Category::Class && es[k2].category
            == Category::Class && es[k1].owner == es[k2].owner ==> tag_distinct(es[k1], es[k2])
    &&& forall|k1: int, k2: int|
        #![trigger es[k1], es[k2]]
        0 <= k1 < k2 < es.len() && es[k1].category == Category::Builtin && es[k2].category
            == Category::Builtin ==> es[k1].symbol != es[k2].symbol
}

/// The tainted set of a run prefix holds exactly the invisible type names
/// among its declarations.
pub open spec fn taint_inv(unit: Seq<char>, ae: bool, decls: Seq<Declaration>, n: int) -> bool {
    let st = spec_run(unit, ae, decls.take(n)).0;
    forall|t: Seq<char>|
        #[trigger] st.tainted.contains(t) <==> exists|i: int|
            0 <= i < n && #[trigger] defines_invisible_type(decls[i], t)
}

/// The run invariant.
pub open spec fn run_inv(unit: Seq<char>, ae: bool, decls: Seq<Declaration>, n: int) -> bool {
    exports_inv(unit, ae, decls, n) && taint_inv(unit, ae, decls, n)
}

/// A step that emits nothing and keeps the builtin flag preserves the export
/// facts.
proof fn lemma_carry_exports(unit: Seq<char>, ae: bool, decls: Seq<Declaration>, n: int)
    requires
        0 < n <= decls.len(),
        exports_inv(unit, ae, decls, n - 1),
        spec_run(unit, ae, decls.take(n)).0.builtin_emitted == spec_run(
            unit,
            ae,
            decls.take(n - 1),
        ).0.builtin_emitted,
        spec_run(unit, ae, decls.take(n)).1 == spec_run(unit, ae, decls.take(n - 1)).1,
    ensures
        exports_inv(unit, ae, decls, n),
{
    let st = spec_run(unit, ae, decls.take(n)).0;
    let es = spec_run(unit, ae, decls.take(n)).1;
    let es0 = spec_run(unit, ae, decls.take(n - 1)).1;
    assert forall|k: int| 0 <= k < es.len() implies {
        &&& symbol_wf(unit, #[trigger] es[k])
        &&& (es[k].category == Category::Class ==> (struct_kind(es[k].kind) || method_kind(
            es[k].kind,
        )))
    } by {
        assert(es[k] == es0[k]);
    }
    assert forall|k: int|
        0 <= k < es.len() && (#[trigger] es[k]).category == Category::Class implies exists|i: int|
        0 <= i < n && #[trigger] defines_visible_type(decls[i], es[k].owner) by {
        assert(es[k] == es0[k]);
        let i0 = choose|i: int|
            0 <= i < n - 1 && #[trigger] defines_visible_type(decls[i], es0[k].owner);
        assert(defines_visible_type(decls[i0], es[k].owner));
    }
    assert forall|k: int|
        0 <= k < es.len() && (#[trigger] es[k]).category == Category::Class && method_kind(
            es[k].kind,
        ) implies exists|i: int, p: int|
        #![trigger decl_methods(decls[i])[p]]
        0 <= i < n && decl_block_target(decls[i]) == Some(es[k].owner) && 0 <= p < decl_methods(
            decls[i],
        ).len() && decl_methods(decls[i])[p].public && es[k].member == decl_methods(decls[i])[
            p
        ].name@ by {
        assert(es[k] == es0[k]);
        let (i0, p0) = choose|i: int, p: int|
            #![trigger decl_methods(decls[i])[p]]
            0 <= i < n - 1 && decl_block_target(decls[i]) == Some(es0[k].owner) && 0 <= p
                < decl_methods(decls[i]).len() && decl_methods(decls[i])[p].public && es0[k].member
                == decl_methods(decls[i])[p].name@;
        assert(0 <= i0 < n && decl_block_target(decls[i0]) == Some(es[k].owner) && 0 <= p0
            < decl_methods(decls[i0]).len() && decl_methods(decls[i0])[p0].public && es[k].member
            == decl_methods(decls[i0])[p0].name@);
    }
    if !st.builtin_emitted {
        assert forall|k: int| 0 <= k < es.len() implies (#[trigger] es[k]).category
            != Category::Builtin by {
            assert(es[k] == es0[k]);
        }
    }
    assert forall|k1: int, k2: int| 0 <= k1 < k2 < es.len() implies {
        &&& ((#[trigger] es[k1]).category == Category::Class && (#[trigger] es[k2]).category
            == Category::Class && es[k1].owner == es[k2].owner ==> tag_distinct(es[k1], es[k2]))
        &&& (es[k1].category == Category::Builtin && es[k2].category == Category::Builtin ==> es[
            k1
        ].symbol != es[k2].symbol)
    } by {
        assert(es[k1] == es0[k1]);
        assert(es[k2] == es0[k2]);
    }
}

/// A step whose declaration defines no invisible type and keeps the tainted
/// set preserves the taint facts.
proof fn lemma_taint_carry(unit: Seq<char>, ae: bool, decls: Seq<Declaration>, n: int)
    requires
        0 < n <= decls.len(),
        taint_inv(unit, ae, decls, n - 1),
        spec_run(unit, ae, decls.take(n)).0.tainted == spec_run(
            unit,
            ae,
            decls.take(n - 1),
        ).0.tainted,
        forall|t: Seq<char>| !(#[trigger] defines_invisible_type(decls[n - 1], t)),
    ensures
        taint_inv(unit, ae, decls, n),
{
    let st = spec_run(unit, ae, decls.take(n)).0;
    assert forall|t: Seq<char>| #[trigger] st.tainted.contains(t) <==> exists|i: int|
        0 <= i < n && #[trigger] defines_invisible_type(decls[i], t) by {
        if st.tainted.contains(t) {
            let i0 = choose|i: int|
                0 <= i < n - 1 && #[trigger] defines_invisible_type(decls[i], t);
            assert(defines_invisible_type(decls[i0], t));
        }
        if exists|i: int| 0 <= i < n && #[trigger] defines_invisible_type(decls[i], t) {
            let i0 = choose|i: int| 0 <= i < n && #[trigger] defines_invisible_type(decls[i], t);
            assert(i0 != n - 1);
            assert(0 <= i0 < n - 1 && defines_invisible_type(decls[i0], t));
        }
    }
}

/// Processing an invisible type declaration: the name is tainted, reported
/// once, and nothing is emitted.
proof fn lemma_step_invisible(
    unit: Seq<char>,
    ae: bool,
    decls: Seq<Declaration>,
    n: int,
    td: TypeDecl,
)
    requires
        0 < n <= decls.len(),
        run_inv(unit, ae, decls, n - 1),
        decls[n - 1] == Declaration::TypeDef(td),
        !td.visible,
    ensures
        run_inv(unit, ae, decls, n),
{
    let dprev = decls.take(n - 1);
    let dcur = decls.take(n);
    assert(dcur.drop_last() =~= dprev);
    assert(dcur.last() == decls[n - 1]);
    let st0 = spec_run(unit, ae, dprev).0;
    let st = spec_run(unit, ae, dcur).0;
    let es = spec_run(unit, ae, dcur).1;
    let es0 = spec_run(unit, ae, dprev).1;
    assert(es =~= es0);
    assert(st.tainted == st0.tainted.push(td.name@));
    lemma_carry_exports(unit, ae, decls, n);
    assert forall|t: Seq<char>| #[trigger] st.tainted.contains(t) <==> exists|i: int|
        0 <= i < n && #[trigger] defines_invisible_type(decls[i], t) by {
        lemma_push_contains(st0.tainted, td.name@, t);
        if st.tainted.contains(t) {
            if st0.tainted.contains(t) {
                let i0 = choose|i: int|
                    0 <= i < n - 1 && #[trigger] defines_invisible_type(decls[i], t);
                assert(defines_invisible_type(decls[i0], t));
            } else {
                assert(t == td.name@);
                assert(defines_invisible_type(decls[n - 1], t));
            }
        }
        if exists|i: int| 0 <= i < n && #[trigger] defines_invisible_type(decls[i], t) {
            let i0 = choose|i: int| 0 <= i < n && #[trigger] defines_invisible_type(decls[i], t);
            if i0 == n - 1 {
                assert(t == td.name@);
            } else {
                assert(0 <= i0 < n - 1 && defines_invisible_type(decls[i0], t));
                assert(st0.tainted.contains(t));
            }
        }
    }
}

/// Processing a visible type declaration: the alias, destructor and accessor
/// exports are emitted, plus the builtin exports when they are still owed.
#[verifier::rlimit(100)]
proof fn lemma_step_visible(
    unit: Seq<char>,
    ae: bool,
    decls: Seq<Declaration>,
    n: int,
    td: TypeDecl,
)
    requires
        wf_decls(decls),
        0 < n <= decls.len(),
        run_inv(unit, ae, decls, n - 1),
        decls[n - 1] == Declaration::TypeDef(td),
        td.visible,
    ensures
        run_inv(unit, ae, decls, n),
{
    let dprev = decls.take(n - 1);
    let dcur = decls.take(n);
    assert(dcur.drop_last() =~= dprev);
    assert(dcur.last() == decls[n - 1]);
    let st0 = spec_run(unit, ae, dprev).0;
    let es0 = spec_run(unit, ae, dprev).1;
    let st = spec_run(unit, ae, dcur).0;
    let es = spec_run(unit, ae, dcur).1;
    let ty = td.name@;
    assert(decl_fields_wf(decls[n - 1]));
    lemma_struct_step(unit, td);
    let sc = seq![alias_export(unit, ty), drop_export(unit, ty)] + fields_exports(
        unit,
        ty,
        td.fields,
    );
    let ob = owed_builtins(unit, st0);
    assert(es == es0 + (sc + ob));
    lemma_builtins(unit);
    assert(st.tainted == st0.tainted);
    assert(st.builtin_emitted);
    assert(decl_type_name(decls[n - 1]) == Some(ty));
    assert(defines_visible_type(decls[n - 1], ty));
    // taint facts carry: a visible declaration taints nothing
    assert forall|t: Seq<char>| !(#[trigger] defines_invisible_type(decls[n - 1], t)) by {}
    lemma_taint_carry(unit, ae, decls, n);
    // export facts
    assert forall|k: int| 0 <= k < es.len() implies {
        &&& symbol_wf(unit, #[trigger] es[k])
        &&& (es[k].category == Category::Class ==> (struct_kind(es[k].kind) || method_kind(
            es[k].kind,
        )))
    } by {
        if k < es0.len() {
            assert(es[k] == es0[k]);
        } else {
            let j = k - es0.len();
            assert(es[k] == (sc + ob)[j]);
            if j < sc.len() {
                assert(es[k] == sc[j]);
            } else {
                assert(es[k] == ob[j - sc.len()]);
                assert(ob == builtin_exports(unit));
                assert(es[k] == builtin_exports(unit)[j - sc.len()]);
            }
        }
    }
    assert forall|k: int|
        0 <= k < es.len() && (#[trigger] es[k]).category == Category::Class implies exists|i: int|
        0 <= i < n && #[trigger] defines_visible_type(decls[i], es[k].owner) by {
        if k < es0.len() {
            assert(es[k] == es0[k]);
            let i0 = choose|i: int|
                0 <= i < n - 1 && #[trigger] defines_visible_type(decls[i], es0[k].owner);
            assert(defines_visible_type(decls[i0], es[k].owner));
        } else {
            let j = k - es0.len();
            assert(es[k] == (sc + ob)[j]);
            if j < sc.len() {
                assert(es[k] == sc[j]);
                assert(es[k].owner == ty);
                assert(defines_visible_type(decls[n - 1], es[k].owner));
            } else {
                assert(es[k] == ob[j - sc.len()]);
                assert(ob == builtin_exports(unit));
                assert(es[k] == builtin_exports(unit)[j - sc.len()]);
                assert(false);
            }
        }
    }
    assert forall|k: int|
        0 <= k < es.len() && (#[trigger] es[k]).category == Category::Class && method_kind(
            es[k].kind,
        ) implies exists|i: int, p: int|
        #![trigger decl_methods(decls[i])[p]]
        0 <= i < n && decl_block_target(decls[i]) == Some(es[k].owner) && 0 <= p < decl_methods(
            decls[i],
        ).len() && decl_methods(decls[i])[p].public && es[k].member == decl_methods(decls[i])[
            p
        ].name@ by {
        if k < es0.len() {
            assert(es[k] == es0[k]);
            let (i0, p0) = choose|i: int, p: int|
                #![trigger decl_methods(decls[i])[p]]
                0 <= i < n - 1 && decl_block_target(decls[i]) == Some(es0[k].owner) && 0 <= p
                    < decl_methods(decls[i]).len() && decl_methods(decls[i])[p].public
                    && es0[k].member == decl_methods(decls[i])[p].name@;
            assert(0 <= i0 < n && decl_block_target(decls[i0]) == Some(es[k].owner) && 0 <= p0
                < decl_methods(decls[i0]).len() && decl_methods(decls[i0])[p0].public
                && es[k].member == decl_methods(decls[i0])[p0].name@);
        } else {
            let j = k - es0.len();
            assert(es[k] == (sc + ob)[j]);
            if j < sc.len() {
                assert(es[k] == sc[j]);
                assert(struct_kind(es[k].kind));
                assert(false);
            } else {
                assert(es[k] == ob[j - sc.len()]);
                assert(ob == builtin_exports(unit));
                assert(es[k] == builtin_exports(unit)[j - sc.len()]);
                assert(false);
            }
        }
    }
    assert forall|k1: int, k2: int| 0 <= k1 < k2 < es.len() implies {
        &&& ((#[trigger] es[k1]).category == Category::Class && (#[trigger] es[k2]).category
            == Category::Class && es[k1].owner == es[k2].owner ==> tag_distinct(es[k1], es[k2]))
        &&& (es[k1].category == Category::Builtin && es[k2].category == Category::Builtin ==> es[
            k1
        ].symbol != es[k2].symbol)
    } by {
        if k2 < es0.len() {
            assert(es[k1] == es0[k1]);
            assert(es[k2] == es0[k2]);
        } else if k1 >= es0.len() {
            let j1 = k1 - es0.len();
            let j2 = k2 - es0.len();
            assert(es[k1] == (sc + ob)[j1]);
            assert(es[k2] == (sc + ob)[j2]);
            if j2 < sc.len() {
                assert(es[k1] == sc[j1]);
                assert(es[k2] == sc[j2]);
            } else if j1 >= sc.len() {
                assert(ob == builtin_exports(unit));
                assert(es[k1] == builtin_exports(unit)[j1 - sc.len()]);
                assert(es[k2] == builtin_exports(unit)[j2 - sc.len()]);
            } else {
                assert(es[k1] == sc[j1]);
                assert(ob == builtin_exports(unit));
                assert(es[k2] == builtin_exports(unit)[j2 - sc.len()]);
                assert(es[k1].category == Category::Class);
                assert(es[k2].category == Category::Builtin);
            }
        } else {
            assert(es[k1] == es0[k1]);
            let j2 = k2 - es0.len();
            assert(es[k2] == (sc + ob)[j2]);
            if j2 < sc.len() {
                assert(es[k2] == sc[j2]);
                // an older class export on this type would need an older
                // declaration of the same type name
                if es[k1].category == Category::Class && es[k2].category == Category::Class
                    && es[k1].owner == es[k2].owner {
                    assert(es[k2].owner == ty);
                    let i0 = choose|i: int|
                        0 <= i < n - 1 && #[trigger] defines_visible_type(decls[i], es0[k1].owner);
                    assert(decl_type_name(decls[i0]) == Some(ty));
                    assert(decl_type_name(decls[n - 1]) == Some(ty));
                    assert(false);
                }
            } else {
                assert(ob == builtin_exports(unit));
                assert(es[k2] == builtin_exports(unit)[j2 - sc.len()]);
                assert(es[k2].category == Category::Builtin);
                if es[k1].category == Category::Builtin {
                    assert(!st0.builtin_emitted);
                    assert(false);
                }
            }
        }
    }
}

/// The target type name of a method block.
pub open spec fn block_target_name(b: crate::decl::MethodBlock) -> Seq<char> {
    match b.target {
        ImplTarget::Named(t) => t@,
        ImplTarget::Invalid(_) => Seq::empty(),
    }
}

/// Processing a method block on a type that is not tainted: one export per
/// eligible public method, plus the builtin exports when they are still owed.
#[verifier::rlimit(100)]
proof fn lemma_step_block(
    unit: Seq<char>,
    ae: bool,
    decls: Seq<Declaration>,
    n: int,
    b: crate::decl::MethodBlock,
)
    requires
        wf_decls(decls),
        0 < n <= decls.len(),
        run_inv(unit, ae, decls, n - 1),
        decls[n - 1] == Declaration::Methods(b),
        b.target is Named,
        !spec_run(unit, ae, decls.take(n - 1)).0.tainted.contains(block_target_name(b)),
    ensures
        run_inv(unit, ae, decls, n),
{
    let dprev = decls.take(n - 1);
    let dcur = decls.take(n);
    assert(dcur.drop_last() =~= dprev);
    assert(dcur.last() == decls[n - 1]);
    let st0 = spec_run(unit, ae, dprev).0;
    let es0 = spec_run(unit, ae, dprev).1;
    let st = spec_run(unit, ae, dcur).0;
    let es = spec_run(unit, ae, dcur).1;
    let ty = block_target_name(b);
    assert(decl_block_target(decls[n - 1]) == Some(ty));
    assert(decl_methods(decls[n - 1]) == b.methods@);
    // public method names inside this block are pairwise distinct
    assert forall|p: int, q: int|
        #![trigger b.methods@[p], b.methods@[q]]
        0 <= p < q < b.methods@.len() && b.methods@[p].public && b.methods@[q].public implies b
        .methods@[p].name@ != b.methods@[q].name@ by {
        assert(decl_methods(decls[n - 1])[p] == b.methods@[p]);
        assert(decl_methods(decls[n - 1])[q] == b.methods@[q]);
    }
    lemma_block_fold(unit, ae, ty, b.methods@);
    let be = block_exports(unit, ae, ty, b.methods@);
    let ob = owed_builtins(unit, st0);
    assert(es == es0 + (be + ob));
    lemma_builtins(unit);
    assert(st.tainted == st0.tainted);
    assert(st.builtin_emitted);
    // the targeted type was declared earlier and is visible
    assert(decl_block_target(decls[n - 1]) is Some);
    let i1 = choose|i: int|
        0 <= i < n - 1 && decl_type_name(#[trigger] decls[i]) == decl_block_target(decls[n - 1]);
    assert(decl_type_name(decls[i1]) == Some(ty));
    if defines_invisible_type(decls[i1], ty) {
        assert(st0.tainted.contains(ty));
        assert(false);
    }
    assert(defines_visible_type(decls[i1], ty));
    // taint facts carry
    assert forall|t: Seq<char>| !(#[trigger] defines_invisible_type(decls[n - 1], t)) by {}
    lemma_taint_carry(unit, ae, decls, n);
    // export facts
    assert forall|k: int| 0 <= k < es.len() implies {
        &&& symbol_wf(unit, #[trigger] es[k])
        &&& (es[k].category == Category::Class ==> (struct_kind(es[k].kind) || method_kind(
            es[k].kind,
        )))
    } by {
        if k < es0.len() {
            assert(es[k] == es0[k]);
        } else {
            let j = k - es0.len();
            assert(es[k] == (be + ob)[j]);
            if j < be.len() {
                assert(es[k] == be[j]);
            } else {
                assert(es[k] == ob[j - be.len()]);
                assert(ob == builtin_exports(unit));
                assert(es[k] == builtin_exports(unit)[j - be.len()]);
            }
        }
    }
    assert forall|k: int|
        0 <= k < es.len() && (#[trigger] es[k]).category == Category::Class implies exists|i: int|
        0 <= i < n && #[trigger] defines_visible_type(decls[i], es[k].owner) by {
        if k < es0.len() {
            assert(es[k] == es0[k]);
            let i0 = choose|i: int|
                0 <= i < n - 1 && #[trigger] defines_visible_type(decls[i], es0[k].owner);
            assert(defines_visible_type(decls[i0], es[k].owner));
        } else {
            let j = k - es0.len();
            assert(es[k] == (be + ob)[j]);
            if j < be.len() {
                assert(es[k] == be[j]);
                assert(es[k].owner == ty);
                assert(defines_visible_type(decls[i1], es[k].owner));
            } else {
                assert(es[k] == ob[j - be.len()]);
                assert(ob == builtin_exports(unit));
                assert(es[k] == builtin_exports(unit)[j - be.len()]);
                assert(false);
            }
        }
    }
    assert forall|k: int|
        0 <= k < es.len() && (#[trigger] es[k]).category == Category::Class && method_kind(
            es[k].kind,
        ) implies exists|i: int, p: int|
        #![trigger decl_methods(decls[i])[p]]
        0 <= i < n && decl_block_target(decls[i]) == Some(es[k].owner) && 0 <= p < decl_methods(
            decls[i],
        ).len() && decl_methods(decls[i])[p].public && es[k].member == decl_methods(decls[i])[
            p
        ].name@ by {
        if k < es0.len() {
            assert(es[k] == es0[k]);
            let (i0, p0) = choose|i: int, p: int|
                #![trigger decl_methods(decls[i])[p]]
                0 <= i < n - 1 && decl_block_target(decls[i]) == Some(es0[k].owner) && 0 <= p
                    < decl_methods(decls[i]).len() && decl_methods(decls[i])[p].public
                    && es0[k].member == decl_methods(decls[i])[p].name@;
            assert(0 <= i0 < n && decl_block_target(decls[i0]) == Some(es[k].owner) && 0 <= p0
                < decl_methods(decls[i0]).len() && decl_methods(decls[i0])[p0].public
                && es[k].member == decl_methods(decls[i0])[p0].name@);
        } else {
            let j = k - es0.len();
            assert(es[k] == (be + ob)[j]);
            if j < be.len() {
                assert(es[k] == be[j]);
                let p0 = choose|p: int|
                    0 <= p < b.methods@.len() && #[trigger] b.methods@[p].public && es[k].member
                        == b.methods@[p].name@;
                assert(decl_methods(decls[n - 1])[p0] == b.methods@[p0]);
                assert(0 <= n - 1 < n && decl_block_target(decls[n - 1]) == Some(es[k].owner) && 0
                    <= p0 < decl_methods(decls[n - 1]).len() && decl_methods(decls[n - 1])[
                    p0
                ].public && es[k].member == decl_methods(decls[n - 1])[p0].name@);
            } else {
                assert(es[k] == ob[j - be.len()]);
                assert(ob == builtin_exports(unit));
                assert(es[k] == builtin_exports(unit)[j - be.len()]);
                assert(false);
            }
        }
    }
    lemma_step_block_pairs(unit, ae, decls, n, b);
}

/// The pairwise distinctness part of processing a method block.
#[verifier::rlimit(100)]
proof fn lemma_step_block_pairs(
    unit: Seq<char>,
    ae: bool,
    decls: Seq<Declaration>,
    n: int,
    b: crate::decl::MethodBlock,
)
    requires
        wf_decls(decls),
        0 < n <= decls.len(),
        run_inv(unit, ae, decls, n - 1),
        decls[n - 1] == Declaration::Methods(b),
        b.target is Named,
        !spec_run(unit, ae, decls.take(n - 1)).0.tainted.contains(block_target_name(b)),
    ensures
        ({
            let es = spec_run(unit, ae, decls.take(n)).1;
            forall|k1: int, k2: int|
                #![trigger es[k1], es[k2]]
                0 <= k1 < k2 < es.len() ==> {
                    &&& (es[k1].category == Category::Class && es[k2].category == Category::Class
                        && es[k1].owner == es[k2].owner ==> tag_distinct(es[k1], es[k2]))
                    &&& (es[k1].category == Category::Builtin && es[k2].category
                        == Category::Builtin ==> es[k1].symbol != es[k2].symbol)
                }
        }),
{
    let dprev = decls.take(n - 1);
    let dcur = decls.take(n);
    assert(dcur.drop_last() =~= dprev);
    assert(dcur.last() == decls[n - 1]);
    let st0 = spec_run(unit, ae, dprev).0;
    let es0 = spec_run(unit, ae, dprev).1;
    let es = spec_run(unit, ae, dcur).1;
    let ty = block_target_name(b);
    assert(decl_block_target(decls[n - 1]) == Some(ty));
    assert(decl_methods(decls[n - 1]) == b.methods@);
    assert forall|p: int, q: int|
        #![trigger b.methods@[p], b.methods@[q]]
        0 <= p < q < b.methods@.len() && b.methods@[p].public && b.methods@[q].public implies b
        .methods@[p].name@ != b.methods@[q].name@ by {
        assert(decl_methods(decls[n - 1])[p] == b.methods@[p]);
        assert(decl_methods(decls[n - 1])[q] == b.methods@[q]);
    }
    lemma_block_fold(unit, ae, ty, b.methods@);
    let be = block_exports(unit, ae, ty, b.methods@);
    let ob = owed_builtins(unit, st0);
    assert(es == es0 + (be + ob));
    lemma_builtins(unit);
    assert forall|k1: int, k2: int| 0 <= k1 < k2 < es.len() implies {
        &&& ((#[trigger] es[k1]).category == Category::Class && (#[trigger] es[k2]).category
            == Category::Class && es[k1].owner == es[k2].owner ==> tag_distinct(es[k1], es[k2]))
        &&& (es[k1].category == Category::Builtin && es[k2].category == Category::Builtin ==> es[
            k1
        ].symbol != es[k2].symbol)
    } by {
        if k2 < es0.len() {
            assert(es[k1] == es0[k1]);
            assert(es[k2] == es0[k2]);
        } else if k1 >= es0.len() {
            let j1 = k1 - es0.len();
            let j2 = k2 - es0.len();
            assert(es[k1] == (be + ob)[j1]);
            assert(es[k2] == (be + ob)[j2]);
            if j2 < be.len() {
                assert(es[k1] == be[j1]);
                assert(es[k2] == be[j2]);
            } else if j1 >= be.len() {
                assert(ob == builtin_exports(unit));
                assert(es[k1] == builtin_exports(unit)[j1 - be.len()]);
                assert(es[k2] == builtin_exports(unit)[j2 - be.len()]);
            } else {
                assert(es[k1] == be[j1]);
                assert(ob == builtin_exports(unit));
                assert(es[k2] == builtin_exports(unit)[j2 - be.len()]);
                assert(es[k1].category == Category::Class);
                assert(es[k2].category == Category::Builtin);
            }
        } else {
            assert(es[k1] == es0[k1]);
            let j2 = k2 - es0.len();
            assert(es[k2] == (be + ob)[j2]);
            if j2 < be.len() {
                assert(es[k2] == be[j2]);
                if es[k1].category == Category::Class && es[k2].category == Category::Class
                    && es[k1].owner == es[k2].owner {
                    assert(es[k2].owner == ty);
                    assert(method_kind(es[k2].kind));
                    if struct_kind(es[k1].kind) {
                        assert(es[k1].kind != es[k2].kind);
                    } else {
                        assert(method_kind(es[k1].kind));
                        let (i0, p0) = choose|i: int, p: int|
                            #![trigger decl_methods(decls[i])[p]]
                            0 <= i < n - 1 && decl_block_target(decls[i]) == Some(es0[k1].owner)
                                && 0 <= p < decl_methods(decls[i]).len() && decl_methods(decls[i])[
                                p
                            ].public && es0[k1].member == decl_methods(decls[i])[p].name@;
                        let q0 = choose|p: int|
                            0 <= p < b.methods@.len() && #[trigger] b.methods@[p].public && es[
                                k2
                            ].member == b.methods@[p].name@;
                        assert(decl_methods(decls[n - 1])[q0] == b.methods@[q0]);
                        assert(i0 != n - 1);
                        assert(decl_methods(decls[i0])[p0].name@ != decl_methods(decls[n - 1])[
                            q0
                        ].name@);
                        assert(es[k1].member != es[k2].member);
                        assert(kind_has_member(es[k1].kind));
                    }
                }
            } else {
                assert(ob == builtin_exports(unit));
                assert(es[k2] == builtin_exports(unit)[j2 - be.len()]);
                assert(es[k2].category == Category::Builtin);
                if es[k1].category == Category::Builtin {
                    assert(!st0.builtin_emitted);
                    assert(false);
                }
            }
        }
    }
}

/// The run invariant holds of every prefix of a well-formed declaration list.
proof fn lemma_run_inv(unit: Seq<char>, ae: bool, decls: Seq<Declaration>, n: int)
    requires
        wf_decls(decls),
        0 <= n <= decls.len(),
    ensures
        run_inv(unit, ae, decls, n),
    decreases n,
{
    let dcur = decls.take(n);
    if n == 0 {
        let st = spec_run(unit, ae, dcur).0;
        let es = spec_run(unit, ae, dcur).1;
        assert(dcur.len() == 0);
        assert(es.len() == 0);
        assert forall|t: Seq<char>| #[trigger] st.tainted.contains(t) <==> exists|i: int|
            0 <= i < n && #[trigger] defines_invisible_type(decls[i], t) by {
            if st.tainted.contains(t) {
                let idx = choose|idx: int| 0 <= idx < st.tainted.len() && st.tainted[idx] == t;
                assert(false);
            }
        }
    } else {
        lemma_run_inv(unit, ae, decls, n - 1);
        let dprev = decls.take(n - 1);
        assert(dcur.drop_last() =~= dprev);
        assert(dcur.last() == decls[n - 1]);
        let st0 = spec_run(unit, ae, dprev).0;
        let es0 = spec_run(unit, ae, dprev).1;
        let st = spec_run(unit, ae, dcur).0;
        let es = spec_run(unit, ae, dcur).1;
        match decls[n - 1] {
            Declaration::TypeDef(td) => {
                if !td.visible {
                    lemma_step_invisible(unit, ae, decls, n, td);
                } else {
                    lemma_step_visible(unit, ae, decls, n, td);
                }
            },
            Declaration::Methods(b) => {
                match b.target {
                    ImplTarget::Invalid(_) => {
                        assert(es =~= es0);
                        lemma_carry_exports(unit, ae, decls, n);
                        assert forall|t: Seq<char>| !(#[trigger] defines_invisible_type(
                            decls[n - 1],
                            t,
                        )) by {}
                        lemma_taint_carry(unit, ae, decls, n);
                    },
                    ImplTarget::Named(t) => {
                        if st0.tainted.contains(t@) {
                            assert(es =~= es0);
                            lemma_carry_exports(unit, ae, decls, n);
                            assert forall|tn: Seq<char>| !(#[trigger] defines_invisible_type(
                                decls[n - 1],
                                tn,
                            )) by {}
                            lemma_taint_carry(unit, ae, decls, n);
                        } else {
                            assert(block_target_name(b) == t@);
                            lemma_step_block(unit, ae, decls, n, b);
                        }
                    },
                }
            },
            Declaration::Other(_) => {
                assert(es =~= es0);
                lemma_carry_exports(unit, ae, decls, n);
                assert forall|t: Seq<char>| !(#[trigger] defines_invisible_type(
                    decls[n - 1],
                    t,
                )) by {}
                lemma_taint_carry(unit, ae, decls, n);
            },
        }
    }
}

/// For every exported type marked not externally visible, no bridge export is
/// produced for it or for any of its methods: suppression is exhaustive.
pub proof fn lemma_invisible_type_fully_suppressed(
    unit: Seq<char>,
    ae: bool,
    decls: Seq<Declaration>,
    t: Seq<char>,
)
    requires
        wf_decls(decls),
        exists|i: int| 0 <= i < decls.len() && #[trigger] defines_invisible_type(decls[i], t),
    ensures
        forall|k: int|
            #![trigger spec_run(unit, ae, decls).1[k]]
            0 <= k < spec_run(unit, ae, decls).1.len() && spec_run(unit, ae, decls).1[k].category
                == Category::Class ==> spec_run(unit, ae, decls).1[k].owner != t,
{
    let len: int = decls.len() as int;
    lemma_run_inv(unit, ae, decls, len);
    assert(decls.take(len) =~= decls);
    let es = spec_run(unit, ae, decls).1;
    let iv = choose|i: int| 0 <= i < decls.len() && #[trigger] defines_invisible_type(decls[i], t);
    assert(decl_type_name(decls[iv]) == Some(t));
    assert forall|k: int|
        0 <= k < es.len() && (#[trigger] es[k]).category == Category::Class implies es[k].owner
        != t by {
        if es[k].owner == t {
            assert(spec_run(unit, ae, decls.take(len)).1 == es);
            let j = choose|i: int|
                0 <= i < len && #[trigger] defines_visible_type(decls[i], es[k].owner);
            assert(decl_type_name(decls[j]) == Some(t));
            assert(j != iv);
            assert(false);
        }
    }
}

/// For every pair of exports generated on the same type by one run over a
/// well-formed declaration set, the symbol names are distinct.
pub proof fn lemma_same_type_symbols_distinct(
    unit: Seq<char>,
    ae: bool,
    decls: Seq<Declaration>,
    k1: int,
    k2: int,
)
    requires
        wf_decls(decls),
        0 <= k1 < k2 < spec_run(unit, ae, decls).1.len(),
        spec_run(unit, ae, decls).1[k1].category == Category::Class,
        spec_run(unit, ae, decls).1[k2].category == Category::Class,
        spec_run(unit, ae, decls).1[k1].owner == spec_run(unit, ae, decls).1[k2].owner,
    ensures
        spec_run(unit, ae, decls).1[k1].symbol != spec_run(unit, ae, decls).1[k2].symbol,
{
    let len: int = decls.len() as int;
    lemma_run_inv(unit, ae, decls, len);
    assert(decls.take(len) =~= decls);
    let es = spec_run(unit, ae, decls).1;
    assert(spec_run(unit, ae, decls.take(len)).1 == es);
    assert(tag_distinct(es[k1], es[k2]));
    assert(symbol_wf(unit, es[k1]));
    assert(symbol_wf(unit, es[k2]));
    lemma_symbol_distinct(
        unit,
        Category::Class,
        es[k1].owner,
        es[k1].kind,
        es[k1].member,
        es[k2].kind,
        es[k2].member,
    );
}

/// Synthesis is deterministic: two runs over the same compilation-unit
/// identity, capability setting and declaration list yield the same exports,
/// symbol for symbol.
pub proof fn lemma_synthesis_deterministic(
    unit: Seq<char>,
    ae: bool,
    decls: Seq<Declaration>,
    out1: Seq<ExportModel>,
    out2: Seq<ExportModel>,
)
    requires
        out1 == spec_run(unit, ae, decls).1,
        out2 == spec_run(unit, ae, decls).1,
    ensures
        out1 == out2,
        forall|k: int| 0 <= k < out1.len() ==> (#[trigger] out1[k]).symbol == out2[k].symbol,
{
}

} // verus!
