use codemark::parser::languages::Language;
use codemark::query::summarizer::{summarize_nodes, summarize_query, QuerySummary, SummarizeError, SyntaxNode};

#[test]
fn test_summarize_simple_function_query() {
    let query = r#"(function_item name: (identifier) @fn_name (#eq? @fn_name "cycle_mode")) @target"#;
    let summary = summarize_query(query, Some(Language::Rust)).unwrap();

    assert_eq!(summary.label, "function");
    assert_eq!(summary.identifier, Some("cycle_mode".to_string()));
    assert_eq!(summary.format(), Some("function cycle_mode".to_string()));
}

#[test]
fn test_summarize_class_query() {
    let query = r#"(class_declaration name: (type_identifier) @name0 (#eq? @name0 "AuthService")) @target"#;
    let summary = summarize_query(query, Some(Language::Swift)).unwrap();

    assert_eq!(summary.label, "class");
    assert_eq!(summary.identifier, Some("AuthService".to_string()));
    assert_eq!(summary.format(), Some("class AuthService".to_string()));
}

#[test]
fn test_summarize_method_query() {
    let query = r#"(method_definition name: (property_identifier) @fn_name (#eq? @fn_name "validateToken")) @target"#;
    let summary = summarize_query(query, Some(Language::TypeScript)).unwrap();

    assert_eq!(summary.label, "method");
    assert_eq!(summary.identifier, Some("validateToken".to_string()));
}

#[test]
fn test_summarize_query_without_identifier() {
    let query = r#"(if_statement) @target"#;
    let summary = summarize_query(query, Some(Language::Rust)).unwrap();

    assert_eq!(summary.label, "if statement");
    assert_eq!(summary.identifier, None);
    assert_eq!(summary.format(), Some("if statement".to_string()));
}

#[test]
fn test_summarize_invalid_query_returns_error() {
    let query = "not a valid query";
    let summary = summarize_query(query, None);

    assert!(summary.is_err());
}

#[test]
fn test_summarize_enum_query() {
    let query = r#"(enum_declaration name: (type_identifier) @name0 (#eq? @name0 "AuthError")) @target"#;
    let summary = summarize_query(query, Some(Language::Swift)).unwrap();

    assert_eq!(summary.label, "enum");
    assert_eq!(summary.identifier, Some("AuthError".to_string()));
}

fn node(kind: &str, field: Option<&str>, text: &str, depth: usize) -> SyntaxNode {
    SyntaxNode {
        kind: kind.to_string(),
        field: field.map(|f| f.to_string()),
        text: Some(text.to_string()),
        depth,
    }
}

#[test]
fn unknown_node_type_gets_spaces_for_underscores() {
    let nodes = vec![
        node("program", None, "(some_thing_here) @target", 0),
        node("named_node", None, "(some_thing_here) @target", 1),
        node("(", None, "(", 2),
        node("identifier", Some("name"), "some_thing_here", 2),
        node(")", None, ")", 2),
        node("capture", None, "@target", 2),
    ];
    let s = summarize_nodes(&nodes, None).unwrap();
    assert_eq!(s.label, "some thing here");
    assert_eq!(s.identifier, None);
}

#[test]
fn missing_target_and_missing_type_are_errors() {
    let no_target = vec![node("program", None, "(x)", 0), node("named_node", None, "(x)", 1)];
    assert_eq!(summarize_nodes(&no_target, None).unwrap_err(), SummarizeError::NoTarget);
    let no_type = vec![node("program", None, "@target", 0), node("capture", None, "@target", 1)];
    assert_eq!(summarize_nodes(&no_type, None).unwrap_err(), SummarizeError::UnknownNodeType);
    assert_eq!(SummarizeError::NoTarget.message(), "No @target capture found in query");
}

#[test]
fn format_of_empty_label_is_none() {
    let s = QuerySummary::label_only(String::new(), None);
    assert_eq!(s.format(), None);
    let t = QuerySummary::new("class".to_string(), Some("A".to_string()), Some(Language::Swift));
    assert_eq!(t.format(), Some("class A".to_string()));
}

#[test]
fn query_syntax_reads_the_parse_in_preorder() {
    let nodes = codemark::query::summarizer::query_syntax("(identifier) @target");
    assert_eq!(nodes[0].depth, 0);
    assert!(nodes
        .iter()
        .any(|n| n.kind == "capture" && n.text.as_deref() == Some("@target")));
    assert!(!matches!(summarize_query("((((", None), Err(SummarizeError::ParseError)));
}
