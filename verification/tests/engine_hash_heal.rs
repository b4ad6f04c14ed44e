use codemark::engine::bookmark::{BookmarkHealth, ResolutionMethod};
use codemark::engine::hash::normalize_for_hash;
use codemark::engine::heal::HealResult;

#[test]
fn normalize_collapses_whitespace() {
    let input = "fn   hello(  x:   Int  )  {  }";
    let normalized = normalize_for_hash(input);
    assert_eq!(normalized, "fn hello( x: Int ) { }");
}

#[test]
fn normalize_handles_empty_input() {
    assert_eq!(normalize_for_hash(""), "");
    assert_eq!(normalize_for_hash("   "), "");
    assert_eq!(normalize_for_hash("\n\n\n"), "");
}

#[test]
fn test_heal_result_creation() {
    let result = HealResult {
        bookmark_id: "test-bm".to_string(),
        resolution_id: Some("res-1".to_string()),
        previous_health: BookmarkHealth::Drifted,
        new_health: BookmarkHealth::Active,
        resolution_method: ResolutionMethod::Exact,
        file_path: Some("/path/to/file.rs".to_string()),
        byte_range: Some("100-200".to_string()),
        was_skipped: false,
    };

    assert_eq!(result.bookmark_id, "test-bm");
    assert_eq!(result.resolution_id, Some("res-1".to_string()));
    assert_eq!(result.previous_health, BookmarkHealth::Drifted);
    assert_eq!(result.new_health, BookmarkHealth::Active);
}

#[test]
fn normalized_lines_are_trimmed_and_single_spaced() {
    let r = normalize_for_hash("  a \t b  \n\n\n  c\u{a0}\u{a0}d  \r\n");
    assert_eq!(r, "a b\n\nc d");
    for line in r.split('\n') {
        assert_eq!(line, line.trim());
        assert!(!line.contains("  "));
        assert!(line.chars().all(|c| c == ' ' || !c.is_whitespace()));
    }
}
