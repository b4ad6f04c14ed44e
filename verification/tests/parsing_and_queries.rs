use codemark::engine::bookmark::{Bookmark, BookmarkHealth, ResolutionMethod};
use codemark::engine::breadcrumbs::extract_breadcrumbs;
use codemark::engine::hash::content_hash;
use codemark::engine::resolution::{ancestors_at, range_ancestors, resolve, resolve_source};
use codemark::error::Error;
use codemark::parser::languages::{Language, ParseCache, Parser};
use codemark::parser::registry::LanguageRegistry;
use codemark::query::matcher::run_query;
use codemark::query::relaxer::relax_query;

#[test]
fn parse_swift_source() {
    let mut parser = Parser::new(Language::Swift.clone()).unwrap();
    let source = b"func hello() { print(\"hello\") }";
    let tree = parser.parse(source).unwrap();
    let root = tree.root_node();
    assert_eq!(root.kind(), "source_file");
    assert!(!root.has_error());
}

#[test]
fn parse_rust_source() {
    let mut parser = Parser::new(Language::Rust.clone()).unwrap();
    let source = b"fn hello() { println!(\"hello\"); }";
    let tree = parser.parse(source).unwrap();
    assert_eq!(tree.root_node().kind(), "source_file");
    assert!(!tree.root_node().has_error());
}

#[test]
fn parse_typescript_source() {
    let mut parser = Parser::new(Language::TypeScript.clone()).unwrap();
    let source = b"function hello(): void { console.log('hello'); }";
    let tree = parser.parse(source).unwrap();
    assert_eq!(tree.root_node().kind(), "program");
    assert!(!tree.root_node().has_error());
}

#[test]
fn parse_python_source() {
    let mut parser = Parser::new(Language::Python.clone()).unwrap();
    let source = b"def hello():\n    print('hello')\n";
    let tree = parser.parse(source).unwrap();
    assert_eq!(tree.root_node().kind(), "module");
    assert!(!tree.root_node().has_error());
}

#[test]
fn run_simple_query() {
    let mut parser = Parser::new(Language::Swift).unwrap();
    let source = b"func hello() { }\nfunc world() { }";
    let st = parser.parse_source(source.to_vec());

    let query_str = "(function_declaration name: (simple_identifier) @name) @target";
    let results = run_query(query_str, &st).unwrap();

    assert_eq!(results.len(), 2);
    assert!(results[0].node_text.contains("hello"));
    assert!(results[1].node_text.contains("world"));
}

#[test]
fn run_query_with_predicate() {
    let mut parser = Parser::new(Language::Swift).unwrap();
    let source = b"func hello() { }\nfunc world() { }";
    let st = parser.parse_source(source.to_vec());

    let query_str = r#"(function_declaration
            name: (simple_identifier) @name
            (#eq? @name "hello")) @target"#;
    let results = run_query(query_str, &st).unwrap();

    assert_eq!(results.len(), 1);
    assert!(results[0].node_text.contains("hello"));
}

#[test]
fn matcher_extracts_sticky_captures() {
    let source = r#"
    class Foo {
        func bar() {}
    }
    "#;
    let query = r#"
    (class_declaration
      name: (type_identifier) @name0 @sticky.class
      (class_body
        (function_declaration
          name: (simple_identifier) @fn_name @sticky.method) @target))
    "#;

    let mut parser = Parser::new(Language::Swift).unwrap();
    let st = parser.parse_source(source.as_bytes().to_vec());

    let results = run_query(query, &st).unwrap();

    assert_eq!(results.len(), 1);
    assert_eq!(results[0].captures.len(), 2);

    let capture_names: Vec<&str> =
        results[0].captures.iter().map(|(name, _, _)| name.as_str()).collect();
    assert!(capture_names.contains(&"sticky.class"));
    assert!(capture_names.contains(&"sticky.method"));
}

#[test]
fn relaxed_query_matches_more() {
    let mut parser = Parser::new(Language::Swift).unwrap();
    let source = b"class Foo {\n  func bar() {}\n  func baz() {}\n}";
    let st = parser.parse_source(source.to_vec());

    let exact = r#"(class_declaration
  name: (type_identifier) @name0
  (#eq? @name0 "Foo")
  (class_body
    (function_declaration
      name: (simple_identifier) @fn_name
      (#eq? @fn_name "bar")) @target))"#;

    let exact_matches = run_query(exact, &st).unwrap();
    assert_eq!(exact_matches.len(), 1);

    let relaxed = relax_query(exact).unwrap();
    let relaxed_matches = run_query(&relaxed, &st).unwrap();
    assert_eq!(relaxed_matches.len(), 2);
}

#[test]
fn test_extract_rust_breadcrumbs() {
    let source = r#"
mod auth {
    impl User {
        fn validate(&self) {
            // target here
        }
    }
}
"#;
    let mut parser = Parser::new(Language::Rust).unwrap();
    let st = parser.parse_source(source.as_bytes().to_vec());
    let ancestors = range_ancestors(&st, 60, 61);

    let bc = extract_breadcrumbs(&ancestors, source, &Language::Rust, 3);
    assert_eq!(bc.len(), 3);
    assert_eq!(bc[0].text, "mod auth {");
    assert_eq!(bc[1].text, "    impl User {");
    assert_eq!(bc[2].text, "        fn validate(&self) {");
}

#[test]
fn test_extract_swift_breadcrumbs() {
    let source = r#"
class AuthService {
    func login() {
        // target
    }
}
"#;
    let mut parser = Parser::new(Language::Swift).unwrap();
    let st = parser.parse_source(source.as_bytes().to_vec());
    let ancestors = range_ancestors(&st, 45, 46);

    let bc = extract_breadcrumbs(&ancestors, source, &Language::Swift, 3);
    assert_eq!(bc.len(), 2);
    assert_eq!(bc[0].text, "class AuthService {");
    assert_eq!(bc[1].text, "    func login() {");
}

#[test]
fn invalid_query_is_reported() {
    let mut parser = Parser::new(Language::Swift).unwrap();
    let source = b"func hello() { }";
    let st = parser.parse_source(source.to_vec());
    assert!(matches!(run_query("(((", &st), Err(Error::TreeSitter(_))));
    let no_target = run_query("(function_declaration) @x", &st);
    assert!(matches!(no_target, Err(Error::TreeSitter(_))));
}

const TIER_SOURCE: &str = "
class TierTest {
    func targetFunction() -> String {
        return \"test\"
    }

    func otherFunction() -> String {
        return \"other\"
    }
}
";

const TARGET_TEXT: &str = "func targetFunction() -> String {
        return \"test\"
    }";

fn swift_bookmark(query: &str, hash: Option<String>) -> Bookmark {
    Bookmark {
        id: "tier-test".to_string(),
        query: query.to_string(),
        language: "swift".to_string(),
        file_path: "tier_test.swift".to_string(),
        content_hash: hash,
        commit_hash: None,
        health: BookmarkHealth::Active,
        resolution_method: None,
        current_resolution_id: None,
        repo_id: None,
        last_resolved_at: None,
        stale_since: None,
        created_at: "2026-04-01T00:00:00Z".to_string(),
        created_by: None,
        tags: vec![],
        annotations: vec![],
        comments: vec![],
    }
}

#[test]
fn resolve_exact_match_in_source() {
    let query = r#"(class_declaration
  name: (type_identifier) @name0 @sticky.class
  (#eq? @name0 "TierTest")
  (class_body
    (function_declaration
      name: (simple_identifier) @fn_name
      (#eq? @fn_name "targetFunction")) @target))"#;
    let bm = swift_bookmark(query, Some(content_hash(TARGET_TEXT)));
    let registry = LanguageRegistry::new();
    let result = resolve_source(&bm, TIER_SOURCE, &Language::Swift, &registry).unwrap();
    assert_eq!(result.method, ResolutionMethod::Exact);
    assert!(result.hash_matches);
    assert_eq!(result.matched_text, TARGET_TEXT);
    assert_eq!(result.start_line, 2);
    assert!(!result.breadcrumbs.is_empty());
    assert!(result.breadcrumbs[0].text.contains("class"));
}

#[test]
fn resolve_exact_match_with_wrong_hash() {
    let query = r#"(function_declaration
  name: (simple_identifier) @fn_name
  (#eq? @fn_name "targetFunction")) @target"#;
    let bm = swift_bookmark(query, Some("sha256:0000000000000000".to_string()));
    let registry = LanguageRegistry::new();
    let result = resolve_source(&bm, TIER_SOURCE, &Language::Swift, &registry).unwrap();
    assert_eq!(result.method, ResolutionMethod::Exact);
    assert!(!result.hash_matches);
}

#[test]
fn resolve_wrong_name_falls_through_to_a_lower_tier() {
    let query = r#"(function_declaration
  name: (simple_identifier) @fn_name
  (#eq? @fn_name "wrongName")) @target"#;
    let bm = swift_bookmark(query, Some(content_hash(TARGET_TEXT)));
    let registry = LanguageRegistry::new();
    let result = resolve_source(&bm, TIER_SOURCE, &Language::Swift, &registry).unwrap();
    assert!(
        result.method == ResolutionMethod::Relaxed
            || result.method == ResolutionMethod::HashFallback
    );
    assert!(result.hash_matches);
    assert_eq!(result.matched_text, TARGET_TEXT);
}

#[test]
fn resolve_missing_code_fails() {
    let query = r#"(function_declaration
  name: (simple_identifier) @fn_name
  (#eq? @fn_name "totallyGone")) @target"#;
    let bm = swift_bookmark(query, Some("sha256:0000000000000000".to_string()));
    let registry = LanguageRegistry::new();
    let result = resolve_source(&bm, TIER_SOURCE, &Language::Swift, &registry).unwrap();
    assert_eq!(result.method, ResolutionMethod::Failed);
}

fn node(kind: &str, row: usize, depth: usize) -> codemark::parser::syntax::TreeNode {
    codemark::parser::syntax::TreeNode {
        kind: kind.to_string(),
        is_named: true,
        byte_range: (0, 0),
        start_point: (row, 0),
        end_point: (row, 0),
        depth,
    }
}

#[test]
fn ancestors_follow_the_preorder_walk() {
    let nodes = vec![
        node("source_file", 0, 0),
        node("mod_item", 1, 1),
        node("function_item", 2, 2),
        node("block", 2, 3),
        node("impl_item", 5, 1),
        node("function_item", 6, 2),
    ];
    let a = ancestors_at(&nodes, Some(3));
    let kinds: Vec<(&str, usize)> = a.iter().map(|(k, r)| (k.as_str(), *r)).collect();
    assert_eq!(kinds, vec![("function_item", 2), ("mod_item", 1), ("source_file", 0)]);

    let a = ancestors_at(&nodes, Some(5));
    let kinds: Vec<(&str, usize)> = a.iter().map(|(k, r)| (k.as_str(), *r)).collect();
    assert_eq!(kinds, vec![("impl_item", 5), ("source_file", 0)]);

    assert!(ancestors_at(&nodes, Some(0)).is_empty());
    assert!(ancestors_at(&nodes, Some(99)).is_empty());
    assert!(ancestors_at(&nodes, None).is_empty());
}

#[test]
fn parse_cache_reuses_tree() {
    let mut cache = ParseCache::new(Language::Swift).unwrap();
    let path = "/repo/auth_service.swift";
    let source = "class AuthService {\n    func login() {}\n}\n".to_string();
    assert!(cache.needs_parse(path, Some((100, 0))));
    assert!(cache.get(path).is_none());
    cache.parse_and_store(path, Some((100, 0)), source.clone()).unwrap();
    assert!(!cache.needs_parse(path, Some((100, 0))));
    assert!(cache.needs_parse(path, Some((101, 0))));
    assert!(cache.needs_parse("/repo/other.swift", Some((100, 0))));
    let root1_kind = {
        let (tree1, text1) = cache.get(path).unwrap();
        assert_eq!(text1, &source);
        tree1.root_node().kind().to_string()
    };
    let (tree2, _) = cache.get(path).unwrap();
    assert_eq!(root1_kind, tree2.root_node().kind().to_string());
    assert_eq!(root1_kind, "source_file");

    let edited = "func top() {}\n".to_string();
    cache.parse_and_store(path, Some((101, 0)), edited.clone()).unwrap();
    assert_eq!(cache.get(path).unwrap().1, &edited);
    assert!(!cache.needs_parse(path, Some((101, 0))));

    assert_eq!(cache.codemark_language(), &Language::Swift);
    cache.clear_trees();
    assert!(cache.needs_parse(path, Some((101, 0))));
    assert!(cache.get(path).is_none());
}

#[test]
fn resolve_through_the_parse_cache() {
    let query = r#"(function_declaration
  name: (simple_identifier) @fn_name
  (#eq? @fn_name "otherFunction")) @target"#;
    let bm = swift_bookmark(query, None);
    let registry = LanguageRegistry::new();
    let mut cache = ParseCache::new(Language::Swift).unwrap();
    assert!(resolve(&bm, &cache, "tier_test.swift", &registry).is_none());
    cache.parse_and_store("tier_test.swift", None, TIER_SOURCE.to_string()).unwrap();
    let result = resolve(&bm, &cache, "tier_test.swift", &registry).unwrap();
    assert_eq!(result.method, ResolutionMethod::Exact);
    assert!(!result.hash_matches);
    assert!(result.matched_text.starts_with("func otherFunction()"));
    assert_eq!(result.start_line, 6);
}

#[test]
fn invalid_query_message_names_the_cause() {
    let mut parser = Parser::new(Language::Swift).unwrap();
    let st = parser.parse_source(b"func hello() { }".to_vec());
    match run_query("(((", &st) {
        Err(Error::TreeSitter(m)) => assert!(m.starts_with("invalid query: ")),
        _ => panic!("expected a tree-sitter error"),
    }
    match run_query("(function_declaration) @x", &st) {
        Err(Error::TreeSitter(m)) => assert_eq!(m, "query has no @target capture"),
        _ => panic!("expected a tree-sitter error"),
    }
}

#[test]
fn every_builtin_grammar_is_accepted() {
    for l in Language::builtins() {
        assert!(Parser::new(l.clone()).is_ok());
        assert!(ParseCache::new(l).is_ok());
    }
}
