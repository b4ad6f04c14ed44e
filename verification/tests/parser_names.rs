use codemark::parser::languages::Language;
use codemark::parser::registry::is_static_language_name;

#[test]
fn unsupported_language_errors() {
    assert!("fortran".parse::<Language>().is_err());
}

#[test]
fn is_static_language_name_is_case_insensitive() {
    assert!(is_static_language_name("Rust"));
    assert!(is_static_language_name("PYTHON"));
    assert!(is_static_language_name("ts"));
    assert!(!is_static_language_name("lua"));
    assert!(!is_static_language_name("ruby"));
}

#[test]
fn is_static_language_name_covers_builtin_aliases() {
    // Aliases resolve to a built-in, so a dynamic grammar can't claim them.
    assert!(is_static_language_name("rs"));
    assert!(is_static_language_name("py"));
    assert!(is_static_language_name("cs"));
    assert!(is_static_language_name("tsx"));
}
