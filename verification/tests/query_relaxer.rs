use codemark::query::relaxer::{clean_whitespace, minimize_query, minimize_with, relax_query};

const TIER1: &str = r#"(class_declaration
  name: (type_identifier) @name0
  (#eq? @name0 "AuthService")
  (class_body
    (function_declaration
      name: (simple_identifier) @fn_name
      (#eq? @fn_name "validateToken")) @target))"#;

#[test]
fn relax_removes_predicates() {
    let relaxed = relax_query(TIER1).unwrap();
    assert!(!relaxed.contains("#eq?"));
    assert!(relaxed.contains("class_declaration"));
    assert!(relaxed.contains("function_declaration"));
    assert!(relaxed.contains("@target"));
}

#[test]
fn minimize_extracts_target() {
    let minimal = minimize_query(TIER1).unwrap();
    assert!(minimal.contains("function_declaration"));
    assert!(minimal.contains("@target"));
    assert!(minimal.contains("#eq? @fn_name"));
    // Should NOT contain parent class info
    assert!(!minimal.contains("class_declaration"));
}

#[test]
fn minimize_top_level_function() {
    let tier1 = r#"(function_declaration
  name: (simple_identifier) @fn_name
  (#eq? @fn_name "createDefaultAuthService")) @target"#;

    let minimal = minimize_query(tier1).unwrap();
    assert!(minimal.contains("function_declaration"));
    assert!(minimal.contains("@fn_name"));
    assert!(minimal.contains("createDefaultAuthService"));
}

#[test]
fn relaxed_query_has_exact_shape() {
    let relaxed = relax_query(TIER1).unwrap();
    assert_eq!(
        relaxed,
        "(class_declaration\n  name: (type_identifier) @name0\n  (class_body\n    (function_declaration\n      name: (simple_identifier) @fn_name) @target))"
    );
}

#[test]
fn minimal_query_has_exact_shape() {
    let minimal = minimize_query(TIER1).unwrap();
    assert_eq!(
        minimal,
        "(function_declaration\n      name: (simple_identifier) @fn_name\n      (#eq? @fn_name \"validateToken\")) @target\n(#eq? @fn_name \"validateToken\")"
    );
}

#[test]
fn minimize_without_target_fails() {
    let err = minimize_query("(function_declaration) @name").unwrap_err();
    assert_eq!(err.message(), "no @target in query");
    assert!(minimize_with("(call)", None).is_err());
}

#[test]
fn minimize_keeps_predicate_only_when_pattern_uses_fn_name() {
    let q = "(block (call) @target)";
    assert_eq!(minimize_with(q, Some("(#eq? @fn_name \"x\")")).unwrap(), "(call) @target");
    let q2 = "(f name: (id) @fn_name) @target";
    assert_eq!(
        minimize_with(q2, Some("(#eq? @fn_name \"x\")")).unwrap(),
        "(f name: (id) @fn_name) @target\n(#eq? @fn_name \"x\")"
    );
}

#[test]
fn clean_whitespace_drops_blank_lines_and_trailing_spaces() {
    assert_eq!(clean_whitespace("a  \n\n   \n  b\t\r\n"), "a\n  b");
    assert_eq!(clean_whitespace(""), "");
    assert_eq!(clean_whitespace("\n\n"), "");
}
