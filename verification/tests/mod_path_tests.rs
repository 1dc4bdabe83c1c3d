use finch_gen::mod_path::ModulePath;

fn lib_path() -> ModulePath {
    ModulePath::from_path(vec![String::from("src"), String::from("lib.rs")])
}

#[test]
fn render_plain_path() {
    assert_eq!(lib_path().render(), "src/lib.rs");
}

#[test]
fn join_appends_a_segment() {
    let p = lib_path().base().join(String::from("util.rs"));
    assert_eq!(p.render(), "src/util.rs");
}

#[test]
fn join_mod_descends_into_inline_modules() {
    let p = lib_path().join_mod(String::from("outer")).join_mod(String::from("inner"));
    assert_eq!(p.render(), "src/lib.rs:outer/inner");
}

#[test]
fn base_drops_file_and_modules() {
    let p = lib_path().join_mod(String::from("outer")).base();
    assert_eq!(p.render(), "src");
}

#[test]
fn base_of_empty_path_stays_empty() {
    let p = ModulePath::from_path(Vec::new()).base();
    assert_eq!(p.render(), "");
}
