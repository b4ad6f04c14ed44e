use codemark::parser::profile::Profile;
use codemark::parser::registry::{GrammarEntry, LanguageRegistry, Manifest};

fn entry(dir: &str, name: &str, exts: &[&str]) -> GrammarEntry {
    GrammarEntry {
        file_name: dir.to_string(),
        manifest: Some(Manifest {
            name: name.to_string(),
            extensions: exts.iter().map(|e| e.to_string()).collect(),
            profile: Profile::default(),
        }),
        wasm_path: format!("/cache/{dir}/grammar.wasm"),
        wasm_exists: true,
    }
}

fn name_of(reg: &LanguageRegistry, key: &str) -> Option<String> {
    reg.from_name(key).map(|l| l.name().to_string())
}

fn ext_owner(reg: &LanguageRegistry, ext: &str) -> Option<String> {
    reg.from_extension(ext).map(|l| l.name().to_string())
}

#[test]
fn discover_skips_name_colliding_with_builtin() {
    let reg = LanguageRegistry::discover_from(vec![entry("rust", "Rust", &["rs"])]);
    assert!(reg.dynamic_language_names().is_empty());
    assert_eq!(ext_owner(&reg, "rs"), None);
}

#[test]
fn discover_skips_name_colliding_with_builtin_alias() {
    let reg = LanguageRegistry::discover_from(vec![entry("rs_grammar", "rs", &["myrs"])]);
    assert!(reg.dynamic_language_names().is_empty());
    assert_eq!(ext_owner(&reg, "myrs"), None);
}

#[test]
fn discover_skips_extension_owned_by_builtin() {
    let reg = LanguageRegistry::discover_from(vec![entry("rusty", "rusty", &["rs", "rusty"])]);
    assert_eq!(name_of(&reg, "rusty"), Some("rusty".to_string()));
    assert_eq!(ext_owner(&reg, "rs"), None);
    assert_eq!(ext_owner(&reg, "rusty"), Some("rusty".to_string()));
}

#[test]
fn duplicate_extension_resolves_deterministically_to_first_by_sorted_path() {
    // Entries come in sorted path order: "aaa" before "zzz".
    let reg = LanguageRegistry::discover_from(vec![
        entry("aaa", "aaa", &["foo"]),
        entry("zzz", "zzz", &["foo"]),
    ]);
    assert_eq!(name_of(&reg, "aaa"), Some("aaa".to_string()));
    assert_eq!(name_of(&reg, "zzz"), Some("zzz".to_string()));
    assert_eq!(ext_owner(&reg, "foo"), Some("aaa".to_string()));
}

#[test]
fn duplicate_name_keeps_first_by_sorted_path() {
    let reg = LanguageRegistry::discover_from(vec![
        entry("a_dir", "dup", &["aaa"]),
        entry("b_dir", "dup", &["bbb"]),
    ]);
    assert_eq!(name_of(&reg, "dup"), Some("dup".to_string()));
    assert_eq!(ext_owner(&reg, "aaa"), Some("dup".to_string()));
    assert_eq!(ext_owner(&reg, "bbb"), None);
}

#[test]
fn duplicate_name_is_case_insensitive() {
    let reg = LanguageRegistry::discover_from(vec![
        entry("a_dir", "Lua", &["lua"]),
        entry("b_dir", "lua", &["luau"]),
    ]);
    assert_eq!(reg.dynamic_language_names().len(), 1);
    assert_eq!(name_of(&reg, "lua"), Some("Lua".to_string()));
    assert_eq!(ext_owner(&reg, "lua"), Some("Lua".to_string()));
    assert_eq!(ext_owner(&reg, "luau"), None);
}

#[test]
fn discovery_does_not_depend_on_listing_order() {
    let reg = LanguageRegistry::discover_from(vec![
        entry("zzz", "zzz", &["foo"]),
        entry("b_dir", "lua", &["luau"]),
        entry("aaa", "aaa", &["foo"]),
        entry("a_dir", "Lua", &["lua"]),
    ]);
    assert_eq!(ext_owner(&reg, "foo"), Some("aaa".to_string()));
    assert_eq!(name_of(&reg, "lua"), Some("Lua".to_string()));
    assert_eq!(ext_owner(&reg, "luau"), None);
    assert_eq!(name_of(&reg, "zzz"), Some("zzz".to_string()));
}
