use std::path::Path;

use codemark::grammar::protocol::{backup_name, backup_path};
use codemark::grammar::validate_name_and_extensions;

#[test]
fn normalizes_extensions_stripping_dots_empties_and_case() {
    let exts = validate_name_and_extensions("lua", " .Lua, luau ,, ").unwrap();
    assert_eq!(exts, vec!["lua".to_string(), "luau".to_string()]);
}

#[test]
fn rejects_name_that_aliases_a_builtin() {
    // `rs` aliases built-in Rust: the grammar would never resolve.
    assert!(validate_name_and_extensions("rs", "myrs").is_err());
    assert!(validate_name_and_extensions("typescript", "myts").is_err());
}

#[test]
fn rejects_extensions_owned_by_a_builtin() {
    // `.rs` is owned by built-in Rust; a dynamic grammar can't claim it.
    assert!(validate_name_and_extensions("lua", "rs").is_err());
}

#[test]
fn rejects_when_no_valid_extensions_remain() {
    // All tokens empty/dot-only: nothing usable.
    assert!(validate_name_and_extensions("lua", " , . , ").is_err());
    assert!(validate_name_and_extensions("lua", "").is_err());
}

#[test]
fn accepts_a_normal_dynamic_grammar() {
    let exts = validate_name_and_extensions("lua", "lua").unwrap();
    assert_eq!(exts, vec!["lua".to_string()]);
}

#[test]
fn backup_path_and_backup_name_are_inverses() {
    // The writer builds `.bak-<name>`; the recoverer strips it back to
    // `<name>`, dotted names included.
    let dir = "/cache";
    for name in ["lua", "my.lang", "tree-sitter-bash"] {
        let backup = backup_path(dir, name);
        let file_name = Path::new(&backup).file_name().unwrap().to_string_lossy().to_string();
        assert_eq!(backup_name(&file_name), Some(name.to_string()), "round-trip for {name}");
    }
}

#[test]
fn backup_name_ignores_non_backup_entries() {
    // A real grammar dir or a staging/lock entry must not be seen as a backup.
    assert_eq!(backup_name("lua"), None);
    assert_eq!(backup_name(".staging-lua-123"), None);
    assert_eq!(backup_name(".lock-lua"), None);
}
