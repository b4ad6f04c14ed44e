use codemark::embeddings::provider::prepare_embedding_text;
use codemark::engine::bookmark::{Bookmark, BookmarkHealth, ResolutionMethod};
use codemark::engine::breadcrumbs::{breadcrumbs_json, extract_breadcrumbs, Breadcrumb};
use codemark::engine::heal::{final_health, needs_ancestry_check, pointer_after_record, HealOptions};
use codemark::engine::health::days_since_resolution;
use codemark::grammar::protocol::{lock_is_stale, staging_path};
use codemark::grammar::{install_metadata, InstallOverrides};
use codemark::parser::languages::Language;
use codemark::query::classifier::get_node_icon;
use codemark::query::matcher::{match_from_captures, matches_from_captures, CapturedNode};

fn cap(name: &str, text: &str, start: usize, row: usize) -> CapturedNode {
    CapturedNode {
        name: name.to_string(),
        text: text.to_string(),
        byte_range: (start, start + text.len()),
        start_point: (row, 0),
        end_point: (row, text.len()),
    }
}

#[test]
fn matches_keep_target_and_sticky_captures() {
    let caps = || vec![cap("sticky.class", "Foo", 6, 1), cap("fn_name", "bar", 20, 2), cap("target", "func bar() {}", 15, 2)];
    let m = match_from_captures(&caps()).unwrap();
    assert_eq!(m.node_text, "func bar() {}");
    assert_eq!(m.byte_range, (15, 28));
    assert_eq!(m.captures, vec![("sticky.class".to_string(), (6, 9), 1)]);
    assert!(match_from_captures(&[cap("fn_name", "bar", 20, 2)]).is_none());
    let all = matches_from_captures(&[caps(), vec![cap("x", "y", 0, 0)]]);
    assert_eq!(all.len(), 1);
}

#[test]
fn breadcrumbs_follow_containers() {
    let source = "mod a {\n    impl B {\n        fn c() {}\n    }\n}\n";
    let ancestors = vec![("impl_item".to_string(), 1), ("block".to_string(), 1), ("mod_item".to_string(), 0)];
    let crumbs = extract_breadcrumbs(&ancestors, source, &Language::Rust, 3);
    assert_eq!(
        crumbs,
        vec![
            Breadcrumb { line: 1, text: "mod a {".to_string() },
            Breadcrumb { line: 2, text: "    impl B {".to_string() },
        ]
    );
    assert_eq!(
        breadcrumbs_json(&crumbs),
        r#"[{"line":1,"text":"mod a {"},{"line":2,"text":"    impl B {"}]"#
    );
}

#[test]
fn heal_decisions() {
    let opts = HealOptions::default();
    assert!(needs_ancestry_check(&opts, Some("h"), Some("c")));
    assert!(!needs_ancestry_check(&opts, None, Some("c")));
    assert_eq!(final_health(BookmarkHealth::Stale, true, true), BookmarkHealth::Archived);
    assert_eq!(final_health(BookmarkHealth::Stale, false, true), BookmarkHealth::Stale);
    assert_eq!(final_health(BookmarkHealth::Drifted, true, true), BookmarkHealth::Drifted);
    assert_eq!(pointer_after_record(true, "n".to_string(), None, None), Some("n".to_string()));
    assert_eq!(pointer_after_record(false, "n".to_string(), Some("l".to_string()), None), Some("l".to_string()));
    assert_eq!(pointer_after_record(false, "n".to_string(), None, Some("c".to_string())), Some("c".to_string()));
    let _ = ResolutionMethod::Exact;
}

#[test]
fn days_since_resolution_of_unknown_dates_is_zero() {
    assert_eq!(days_since_resolution(None), 0);
    assert_eq!(days_since_resolution(Some("not a date")), 0);
    assert!(days_since_resolution(Some("2000-01-01T00:00:00Z")) > 365);
}

#[test]
fn install_paths_and_locks() {
    assert_eq!(staging_path("/cache", "lua", 42), "/cache/.staging-lua-42");
    assert!(lock_is_stale(Some(10_000_000_001)));
    assert!(!lock_is_stale(Some(10_000_000_000)));
    assert!(!lock_is_stale(None));
}

#[test]
fn install_metadata_prefers_overrides() {
    let ov = InstallOverrides { name: Some("lua".to_string()), extensions: None };
    let (name, exts) = install_metadata(ov, Some("other".to_string()), Some("lua, luau".to_string())).unwrap();
    assert_eq!(name, "lua");
    assert_eq!(exts, vec!["lua".to_string(), "luau".to_string()]);
    let none = InstallOverrides { name: None, extensions: None };
    assert_eq!(
        install_metadata(none, None, None).unwrap_err().message(),
        "could not determine the language name; pass --name explicitly"
    );
}

#[test]
fn icons_and_embedding_text() {
    assert_eq!(get_node_icon("function"), "\u{ea8c}");
    assert_eq!(get_node_icon("no such label"), "");
    assert_eq!(
        prepare_embedding_text(&["a".to_string(), "b".to_string()], Some("n"), None),
        "Tags: a, b\nNote: n"
    );
    assert_eq!(prepare_embedding_text(&[], None, Some("c")), "Context: c");
}

#[test]
fn bookmark_fixture_compiles() {
    let b = Bookmark {
        id: "i".to_string(),
        query: "q".to_string(),
        language: "rust".to_string(),
        file_path: "f".to_string(),
        content_hash: None,
        commit_hash: None,
        health: BookmarkHealth::Active,
        resolution_method: None,
        last_resolved_at: None,
        stale_since: None,
        created_at: "t".to_string(),
        created_by: None,
        current_resolution_id: None,
        repo_id: None,
        tags: vec![],
        annotations: vec![],
        comments: vec![],
    };
    assert_eq!(b.health, BookmarkHealth::Active);
}
