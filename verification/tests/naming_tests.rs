use finch_gen::naming::{decimal_string, kind_str, symbol_name, Category, ExportKind};

#[test]
fn getter_symbol() {
    let s = symbol_name("demo", Category::Class, "Counter", ExportKind::Getter, "value");
    assert_eq!(s, "___finch_bindgen___demo___class___Counter___getter___value");
}

#[test]
fn setter_symbol() {
    let s = symbol_name("demo", Category::Class, "Counter", ExportKind::Setter, "value");
    assert_eq!(s, "___finch_bindgen___demo___class___Counter___setter___value");
}

#[test]
fn method_symbols() {
    let m = symbol_name("demo", Category::Class, "Counter", ExportKind::Method, "increment");
    assert_eq!(m, "___finch_bindgen___demo___class___Counter___method___increment");
    let c = symbol_name("demo", Category::Class, "Counter", ExportKind::MethodConsume, "finish");
    assert_eq!(c, "___finch_bindgen___demo___class___Counter___method_consume___finish");
    let st = symbol_name("demo", Category::Class, "Counter", ExportKind::Static, "make");
    assert_eq!(st, "___finch_bindgen___demo___class___Counter___static___make");
}

#[test]
fn memberless_symbols() {
    let d = symbol_name("demo", Category::Class, "Counter", ExportKind::Drop, "");
    assert_eq!(d, "___finch_bindgen___demo___class___Counter___drop");
    let t = symbol_name("demo", Category::Class, "Counter", ExportKind::TypeAlias, "");
    assert_eq!(t, "___finch_bindgen___demo___class___Counter___type");
}

#[test]
fn builtin_symbols() {
    let n = symbol_name("demo", Category::Builtin, "FinchString", ExportKind::BuiltinNew, "");
    assert_eq!(n, "___finch_bindgen___demo___builtin___FinchString___new");
    let d = symbol_name("demo", Category::Builtin, "FinchString", ExportKind::Drop, "");
    assert_eq!(d, "___finch_bindgen___demo___builtin___FinchString___drop");
    let c = symbol_name("demo", Category::Builtin, "FinchCString", ExportKind::Drop, "");
    assert_eq!(c, "___finch_bindgen___demo___builtin___FinchCString___drop");
    let i = symbol_name("demo", Category::Builtin, "FinchRuntime", ExportKind::Init, "");
    assert_eq!(i, "___finch_bindgen___demo___builtin___FinchRuntime___init");
}

#[test]
fn accessor_and_method_on_same_member_differ() {
    // The kind segment keeps an accessor apart from a method of the same name.
    let g = symbol_name("demo", Category::Class, "T", ExportKind::Getter, "value");
    let m = symbol_name("demo", Category::Class, "T", ExportKind::Method, "value");
    assert_ne!(g, m);
}

#[test]
fn symbol_generation_is_deterministic() {
    let a = symbol_name("unit_a", Category::Class, "Widget", ExportKind::Method, "poke");
    let b = symbol_name("unit_a", Category::Class, "Widget", ExportKind::Method, "poke");
    assert_eq!(a, b);
}

#[test]
fn different_units_give_different_symbols() {
    let a = symbol_name("unit_a", Category::Class, "Widget", ExportKind::Method, "poke");
    let b = symbol_name("unit_b", Category::Class, "Widget", ExportKind::Method, "poke");
    assert_ne!(a, b);
}

#[test]
fn decimal_rendering() {
    assert_eq!(decimal_string(0), "0");
    assert_eq!(decimal_string(7), "7");
    assert_eq!(decimal_string(10), "10");
    assert_eq!(decimal_string(12345), "12345");
}

#[test]
fn kind_segments() {
    assert_eq!(kind_str(ExportKind::Getter), "getter");
    assert_eq!(kind_str(ExportKind::Setter), "setter");
    assert_eq!(kind_str(ExportKind::Method), "method");
    assert_eq!(kind_str(ExportKind::MethodConsume), "method_consume");
    assert_eq!(kind_str(ExportKind::Static), "static");
    assert_eq!(kind_str(ExportKind::Drop), "drop");
    assert_eq!(kind_str(ExportKind::TypeAlias), "type");
    assert_eq!(kind_str(ExportKind::BuiltinNew), "new");
    assert_eq!(kind_str(ExportKind::Init), "init");
}
