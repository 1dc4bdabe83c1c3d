//! Deterministic, collision-free naming of every generated export. A symbol is
//! composed from a fixed prefix, the identity of the compilation unit, the
//! category (class or builtin), the type name, the export kind and, for member
//! exports, the member name, all joined by a triple underscore. The scheme is
//! part of the wire contract: a caller-side binding generator must compose the
//! identical name to locate an export.

use vstd::prelude::*;
use vstd::string::StringExecFns;

verus! {

/// The kind of one generated export. The kind segment keeps exports of
/// different kinds on the same member name apart (an accessor and a method of
/// the same name, for example).
#[derive(PartialEq, Eq, Structural, Clone, Copy, Debug)]
pub enum ExportKind {
    /// Reads one field.
    Getter,
    /// Writes one field.
    Setter,
    /// Calls a method through a borrowed receiver.
    Method,
    /// Calls a method that consumes its receiver through an owning pointer.
    MethodConsume,
    /// Calls a method with no receiver.
    Static,
    /// Destroys an owned boxed value, or releases a builtin descriptor.
    Drop,
    /// Introduces the bridged alias of the type itself.
    TypeAlias,
    /// Constructs a builtin descriptor from raw parts.
    BuiltinNew,
    /// Installs the process-wide panic/abort hook, idempotently.
    Init,
}

/// Whether exports of this category belong to a bridged class or to the
/// builtin runtime descriptor library.
#[derive(PartialEq, Eq, Structural, Clone, Copy, Debug)]
pub enum Category {
    Class,
    Builtin,
}

/// The text of the kind segment.
pub open spec fn kind_text(k: ExportKind) -> Seq<char> {
    match k {
        ExportKind::Getter => "getter"@,
        ExportKind::Setter => "setter"@,
        ExportKind::Method => "method"@,
        ExportKind::MethodConsume => "method_consume"@,
        ExportKind::Static => "static"@,
        ExportKind::Drop => "drop"@,
        ExportKind::TypeAlias => "type"@,
        ExportKind::BuiltinNew => "new"@,
        ExportKind::Init => "init"@,
    }
}

/// Whether a member name follows the kind segment.
pub open spec fn kind_has_member(k: ExportKind) -> bool {
    match k {
        ExportKind::Getter
        | ExportKind::Setter
        | ExportKind::Method
        | ExportKind::MethodConsume
        | ExportKind::Static => true,
        ExportKind::Drop | ExportKind::TypeAlias | ExportKind::BuiltinNew | ExportKind::Init => {
            false
        },
    }
}

/// The text of the category segment.
pub open spec fn category_text(c: Category) -> Seq<char> {
    match c {
        Category::Class => "class"@,
        Category::Builtin => "builtin"@,
    }
}

/// Everything before the kind segment: the fixed prefix, the compilation-unit
/// identity, the category and the type name, each followed by the separator.
pub open spec fn symbol_prefix(unit: Seq<char>, cat: Category, owner: Seq<char>) -> Seq<char> {
    "___finch_bindgen___"@ + unit + "___"@ + category_text(cat) + "___"@ + owner + "___"@
}

/// The kind segment, followed by the member name for member exports.
pub open spec fn symbol_suffix(kind: ExportKind, member: Seq<char>) -> Seq<char> {
    if kind_has_member(kind) {
        kind_text(kind) + "___"@ + member
    } else {
        kind_text(kind)
    }
}

/// The full symbol name of one export.
pub open spec fn spec_symbol(
    unit: Seq<char>,
    cat: Category,
    owner: Seq<char>,
    kind: ExportKind,
    member: Seq<char>,
) -> Seq<char> {
    symbol_prefix(unit, cat, owner) + symbol_suffix(kind, member)
}

/// The kind segment as text.
pub fn kind_str(k: ExportKind) -> (r: &'static str)
    ensures
        r@ == kind_text(k),
{
    match k {
        ExportKind::Getter => "getter",
        ExportKind::Setter => "setter",
        ExportKind::Method => "method",
        ExportKind::MethodConsume => "method_consume",
        ExportKind::Static => "static",
        ExportKind::Drop => "drop",
        ExportKind::TypeAlias => "type",
        ExportKind::BuiltinNew => "new",
        ExportKind::Init => "init",
    }
}

/// Composes the symbol name of one export.
pub fn symbol_name(
    unit: &str,
    cat: Category,
    owner: &str,
    kind: ExportKind,
    member: &str,
) -> (r: String)
    ensures
        r@ == spec_symbol(unit@, cat, owner@, kind, member@),
{
    let mut s = String::new();
    s.append("___finch_bindgen___");
    s.append(unit);
    s.append("___");
    match cat {
        Category::Class => s.append("class"),
        Category::Builtin => s.append("builtin"),
    }
    s.append("___");
    s.append(owner);
    s.append("___");
    s.append(kind_str(kind));
    if kind_has_member_exec(kind) {
        s.append("___");
        s.append(member);
    }
    assert(s@ =~= spec_symbol(unit@, cat, owner@, kind, member@));
    s
}

/// Whether a member name follows the kind segment.
pub fn kind_has_member_exec(k: ExportKind) -> (r: bool)
    ensures
        r == kind_has_member(k),
{
    match k {
        ExportKind::Getter
        | ExportKind::Setter
        | ExportKind::Method
        | ExportKind::MethodConsume
        | ExportKind::Static => true,
        ExportKind::Drop | ExportKind::TypeAlias | ExportKind::BuiltinNew | ExportKind::Init => {
            false
        },
    }
}

/// The decimal digit character of one digit value.
pub open spec fn digit_char(d: int) -> char {
    if d == 0 {
        '0'
    } else if d == 1 {
        '1'
    } else if d == 2 {
        '2'
    } else if d == 3 {
        '3'
    } else if d == 4 {
        '4'
    } else if d == 5 {
        '5'
    } else if d == 6 {
        '6'
    } else if d == 7 {
        '7'
    } else if d == 8 {
        '8'
    } else {
        '9'
    }
}

/// The decimal rendering of a number, most significant digit first, without
/// leading zeroes. It names a positional field in a symbol.
pub open spec fn spec_decimal(n: nat) -> Seq<char>
    decreases n,
{
    if n < 10 {
        seq![digit_char(n as int)]
    } else {
        spec_decimal(n / 10) + seq![digit_char((n % 10) as int)]
    }
}

/// The digit as text.
fn digit_str(d: usize) -> (r: &'static str)
    requires
        d < 10,
    ensures
        r@ == seq![digit_char(d as int)],
{
    let r: &'static str = match d {
        0 => "0",
        1 => "1",
        2 => "2",
        3 => "3",
        4 => "4",
        5 => "5",
        6 => "6",
        7 => "7",
        8 => "8",
        _ => "9",
    };
    proof {
        reveal_strlit("0");
        reveal_strlit("1");
        reveal_strlit("2");
        reveal_strlit("3");
        reveal_strlit("4");
        reveal_strlit("5");
        reveal_strlit("6");
        reveal_strlit("7");
        reveal_strlit("8");
        reveal_strlit("9");
        assert(r@ =~= seq![digit_char(d as int)]);
    }
    r
}

/// Renders a number in decimal, for the member segment of a positional field.
pub fn decimal_string(n: usize) -> (r: String)
    ensures
        r@ == spec_decimal(n as nat),
    decreases n,
{
    if n < 10 {
        String::from_str(digit_str(n))
    } else {
        let mut s = decimal_string(n / 10);
        s.append(digit_str(n % 10));
        assert(s@ =~= spec_decimal(n as nat));
        s
    }
}

/// A decimal rendering is never empty.
pub proof fn lemma_decimal_len(n: nat)
    ensures
        spec_decimal(n).len() >= 1,
    decreases n,
{
    if n >= 10 {
        lemma_decimal_len(n / 10);
    }
}

/// Different numbers render to different decimal texts, so positional fields
/// receive pairwise different member names.
pub proof fn lemma_decimal_injective(a: nat, b: nat)
    requires
        a != b,
    ensures
        spec_decimal(a) != spec_decimal(b),
    decreases a + b,
{
    if spec_decimal(a) == spec_decimal(b) {
        let da = spec_decimal(a);
        let db = spec_decimal(b);
        if a < 10 && b < 10 {
            assert(da[0] == digit_char(a as int));
            assert(db[0] == digit_char(b as int));
            assert(false);
        } else if a < 10 {
            lemma_decimal_len(b / 10);
            assert(db.len() >= 2);
            assert(false);
        } else if b < 10 {
            lemma_decimal_len(a / 10);
            assert(da.len() >= 2);
            assert(false);
        } else {
            assert(da.last() == digit_char((a % 10) as int));
            assert(db.last() == digit_char((b % 10) as int));
            assert(a % 10 == b % 10);
            assert(da.drop_last() =~= spec_decimal(a / 10));
            assert(db.drop_last() =~= spec_decimal(b / 10));
            vstd::arithmetic::div_mod::lemma_fundamental_div_mod(a as int, 10);
            vstd::arithmetic::div_mod::lemma_fundamental_div_mod(b as int, 10);
            assert(a / 10 != b / 10);
            lemma_decimal_injective(a / 10, b / 10);
            assert(false);
        }
    }
}

/// Appending equal-length prefixes keeps sequences apart: if the two
/// concatenations agree, the tails agree.
proof fn lemma_concat_cancel_left(p: Seq<char>, a: Seq<char>, b: Seq<char>)
    requires
        p + a == p + b,
    ensures
        a == b,
{
    assert((p + a).len() == p.len() + a.len());
    assert((p + b).len() == p.len() + b.len());
    assert(a.len() == b.len());
    assert forall|i: int| 0 <= i < a.len() implies a[i] == b[i] by {
        assert((p + a)[p.len() + i] == a[i]);
        assert((p + b)[p.len() + i] == b[i]);
    }
    assert(a =~= b);
}

/// The head of a suffix spells the kind segment, and for member exports the
/// three separator characters follow it.
proof fn lemma_suffix_head(k: ExportKind, m: Seq<char>)
    ensures
        symbol_suffix(k, m).len() >= kind_text(k).len(),
        forall|i: int|
            0 <= i < kind_text(k).len() ==> #[trigger] symbol_suffix(k, m)[i] == kind_text(k)[i],
        kind_has_member(k) ==> forall|j: int|
            kind_text(k).len() <= j < kind_text(k).len() + 3
                ==> #[trigger] symbol_suffix(k, m)[j] == '_',
{
    reveal_strlit("___");
    if kind_has_member(k) {
        let kt = kind_text(k);
        let s = symbol_suffix(k, m);
        assert(s == kt + "___"@ + m);
        assert forall|i: int| 0 <= i < kt.len() implies #[trigger] s[i] == kt[i] by {
            assert((kt + "___"@ + m)[i] == (kt + "___"@)[i]);
        }
        assert forall|j: int| kt.len() <= j < kt.len() + 3 implies #[trigger] s[j] == '_' by {
            assert((kt + "___"@ + m)[j] == (kt + "___"@)[j]);
            assert((kt + "___"@)[j] == "___"@[j - kt.len()]);
        }
    }
}

/// Two suffixes with different kinds, or with the same member-carrying kind
/// but different members, are different.
proof fn lemma_suffix_distinct(k1: ExportKind, m1: Seq<char>, k2: ExportKind, m2: Seq<char>)
    requires
        k1 != k2 || (kind_has_member(k1) && m1 != m2),
    ensures
        symbol_suffix(k1, m1) != symbol_suffix(k2, m2),
{
    reveal_strlit("getter");
    reveal_strlit("setter");
    reveal_strlit("method");
    reveal_strlit("method_consume");
    reveal_strlit("static");
    reveal_strlit("drop");
    reveal_strlit("type");
    reveal_strlit("new");
    reveal_strlit("init");
    reveal_strlit("___");
    lemma_suffix_head(k1, m1);
    lemma_suffix_head(k2, m2);
    let s1 = symbol_suffix(k1, m1);
    let s2 = symbol_suffix(k2, m2);
    if k1 == k2 {
        // Same kind: the members differ, and they follow an identical prefix.
        if s1 == s2 {
            lemma_concat_cancel_left(kind_text(k1) + "___"@, m1, m2);
            assert(false);
        }
    } else if k1 == ExportKind::Method && k2 == ExportKind::MethodConsume {
        // The only pair of kind segments that agree on their first two
        // characters; they differ at the character after `method_`.
        if s1 == s2 {
            assert(s1[7] == '_');
            assert(s2[7] == kind_text(k2)[7]);
            assert(kind_text(k2)[7] == 'c');
            assert(false);
        }
    } else if k1 == ExportKind::MethodConsume && k2 == ExportKind::Method {
        if s1 == s2 {
            assert(s2[7] == '_');
            assert(s1[7] == kind_text(k1)[7]);
            assert(kind_text(k1)[7] == 'c');
            assert(false);
        }
    } else {
        // Every other pair of kind segments differs within the first two
        // characters, which the suffix always spells out.
        if s1 == s2 {
            assert(s1[0] == kind_text(k1)[0] && s1[1] == kind_text(k1)[1]);
            assert(s2[0] == kind_text(k2)[0] && s2[1] == kind_text(k2)[1]);
            assert(kind_text(k1)[0] != kind_text(k2)[0] || kind_text(k1)[1] != kind_text(k2)[1]);
            assert(false);
        }
    }
}

/// Collision freedom on one type: two exports generated for the same
/// compilation unit, category and type receive different symbol names whenever
/// their kinds differ or, for member exports of the same kind, their member
/// names differ.
pub proof fn lemma_symbol_distinct(
    unit: Seq<char>,
    cat: Category,
    owner: Seq<char>,
    k1: ExportKind,
    m1: Seq<char>,
    k2: ExportKind,
    m2: Seq<char>,
)
    requires
        k1 != k2 || (kind_has_member(k1) && m1 != m2),
    ensures
        spec_symbol(unit, cat, owner, k1, m1) != spec_symbol(unit, cat, owner, k2, m2),
{
    lemma_suffix_distinct(k1, m1, k2, m2);
    if spec_symbol(unit, cat, owner, k1, m1) == spec_symbol(unit, cat, owner, k2, m2) {
        lemma_concat_cancel_left(
            symbol_prefix(unit, cat, owner),
            symbol_suffix(k1, m1),
            symbol_suffix(k2, m2),
        );
        assert(false);
    }
}

/// Exports of the builtin descriptor library never collide with exports of a
/// bridged class in the same compilation unit: the category segment differs.
pub proof fn lemma_category_distinct(
    unit: Seq<char>,
    owner1: Seq<char>,
    k1: ExportKind,
    m1: Seq<char>,
    owner2: Seq<char>,
    k2: ExportKind,
    m2: Seq<char>,
)
    ensures
        spec_symbol(unit, Category::Class, owner1, k1, m1)
            != spec_symbol(unit, Category::Builtin, owner2, k2, m2),
{
    reveal_strlit("___finch_bindgen___");
    reveal_strlit("class");
    reveal_strlit("builtin");
    reveal_strlit("___");
    let n1 = spec_symbol(unit, Category::Class, owner1, k1, m1);
    let n2 = spec_symbol(unit, Category::Builtin, owner2, k2, m2);
    let at: int = ("___finch_bindgen___"@.len() + unit.len() + "___"@.len()) as int;
    if n1 == n2 {
        assert(n1[at] == 'c');
        assert(n2[at] == 'b');
        assert(false);
    }
}

/// Two exports in the same unit and category whose type names differ at some
/// character receive different symbol names, whatever their kinds and members.
pub proof fn lemma_owner_distinct(
    unit: Seq<char>,
    cat: Category,
    o1: Seq<char>,
    k1: ExportKind,
    m1: Seq<char>,
    o2: Seq<char>,
    k2: ExportKind,
    m2: Seq<char>,
    idx: int,
)
    requires
        0 <= idx < o1.len(),
        idx < o2.len(),
        o1[idx] != o2[idx],
    ensures
        spec_symbol(unit, cat, o1, k1, m1) != spec_symbol(unit, cat, o2, k2, m2),
{
    reveal_strlit("___finch_bindgen___");
    reveal_strlit("___");
    let base = "___finch_bindgen___"@ + unit + "___"@ + category_text(cat) + "___"@;
    let n1 = spec_symbol(unit, cat, o1, k1, m1);
    let n2 = spec_symbol(unit, cat, o2, k2, m2);
    let at: int = base.len() + idx;
    if n1 == n2 {
        assert(symbol_prefix(unit, cat, o1) == base + o1 + "___"@);
        assert(n1[at] == (base + o1 + "___"@)[at]);
        assert((base + o1 + "___"@)[at] == (base + o1)[at]);
        assert((base + o1)[at] == o1[idx]);
        assert(symbol_prefix(unit, cat, o2) == base + o2 + "___"@);
        assert(n2[at] == (base + o2 + "___"@)[at]);
        assert((base + o2 + "___"@)[at] == (base + o2)[at]);
        assert((base + o2)[at] == o2[idx]);
        assert(false);
    }
}

} // verus!
