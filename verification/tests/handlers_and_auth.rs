use codemark::cli::auth::{auth_header, get_token_for_server, normalize_repo_url, normalize_server_url};
use codemark::cli::handlers::{
    affected_bookmarks, search_route, SearchRoute, byte_to_line, extract_id, find_bookmark, status_change, get_bookmark_line, line_range_to_bytes, parse_duration_days,
    parse_range, parse_status_filter, resolve_identity,
};
use codemark::engine::bookmark::{Bookmark, BookmarkHealth, Resolution, ResolutionMethod};
use codemark::error::Error;

fn bookmark(id: &str) -> Bookmark {
    Bookmark {
        id: id.to_string(),
        query: "(x) @target".to_string(),
        language: "rust".to_string(),
        file_path: "a.rs".to_string(),
        content_hash: None,
        commit_hash: None,
        health: BookmarkHealth::Active,
        resolution_method: None,
        last_resolved_at: None,
        stale_since: None,
        created_at: "t".to_string(),
        created_by: None,
        current_resolution_id: None,
        repo_id: None,
        tags: vec![],
        annotations: vec![],
        comments: vec![],
    }
}

fn resolution_with_lines(lines: Option<&str>) -> Resolution {
    Resolution {
        id: "r".to_string(),
        bookmark_id: "b".to_string(),
        resolved_at: "t".to_string(),
        is_dirty: false,
        health: BookmarkHealth::Active,
        commit_hash: None,
        method: ResolutionMethod::Exact,
        match_count: None,
        file_path: None,
        byte_range: None,
        line_range: lines.map(|l| l.to_string()),
        content_hash: None,
        headline: None,
        preview_lines: None,
        snapshot: None,
        breadcrumbs: None,
    }
}

#[test]
fn server_urls_are_normalized() {
    assert_eq!(normalize_server_url("  tours.example.com/ ").unwrap(), "https://tours.example.com");
    assert_eq!(normalize_server_url("http://localhost:8080").unwrap(), "http://localhost:8080");
    assert_eq!(
        normalize_server_url("http://tours.example.com").unwrap_err().message(),
        "insecure server URL: use https://"
    );
    assert_eq!(normalize_server_url("http://localhost:3000/").unwrap(), "http://localhost:3000");
    assert_eq!(normalize_server_url("http://localhost").unwrap(), "http://localhost");
    assert_eq!(normalize_server_url("http://127.0.0.1/api").unwrap(), "http://127.0.0.1/api");
    assert_eq!(normalize_server_url("http://[::1]:9000").unwrap(), "http://[::1]:9000");
    assert!(normalize_server_url("http://localhost.evil.com").is_err());
    assert!(normalize_server_url("http://127.0.0.1.evil.com").is_err());
}

#[test]
fn repo_urls_are_normalized() {
    assert_eq!(normalize_repo_url("widgets"), "widgets");
    assert_eq!(normalize_repo_url("acme/widgets"), "git@github.com:acme/widgets.git");
    assert_eq!(normalize_repo_url("git@github.com:acme/widgets.git"), "git@github.com:acme/widgets.git");
    assert_eq!(normalize_repo_url("git@example.com:x"), "git@example.com:x");
    assert_eq!(normalize_repo_url("https://github.com/acme/widgets.git"), "git@github.com:acme/widgets.git");
    assert_eq!(normalize_repo_url("https://github.com/owner/repo"), "git@github.com:owner/repo.git");
    assert_eq!(normalize_repo_url("owner/repo"), "git@github.com:owner/repo.git");
}

#[test]
fn tokens_choose_their_header() {
    assert_eq!(auth_header("eyJabc"), ("Authorization".to_string(), "Bearer eyJabc".to_string()));
    assert_eq!(auth_header("legacy"), ("X-Tour-Token".to_string(), "legacy".to_string()));
    assert_eq!(get_token_for_server(Ok(Some("t".to_string()))).unwrap(), Some("t".to_string()));
    assert_eq!(
        get_token_for_server(Err("locked".to_string())).unwrap_err().message(),
        "Failed to query account: locked"
    );
}

#[test]
fn status_filters_keep_known_healths() {
    assert_eq!(parse_status_filter(None), None);
    assert_eq!(
        parse_status_filter(Some("active, stale,bogus")),
        Some(vec![BookmarkHealth::Active, BookmarkHealth::Stale])
    );
}

#[test]
fn durations_convert_to_days() {
    assert_eq!(parse_duration_days("30d").unwrap(), 30);
    assert_eq!(parse_duration_days(" 2w ").unwrap(), 14);
    assert_eq!(parse_duration_days("6m").unwrap(), 180);
    assert_eq!(parse_duration_days("xd").unwrap_err().message(), "invalid duration");
    assert_eq!(
        parse_duration_days("10").unwrap_err().message(),
        "duration must end with d, w, or m (e.g., 30d, 2w, 6m)"
    );
}

#[test]
fn bookmark_line_is_the_center_of_its_range() {
    assert_eq!(get_bookmark_line(Some(&resolution_with_lines(Some("10-20")))), Some(15));
    assert_eq!(get_bookmark_line(Some(&resolution_with_lines(Some("10")))), None);
    assert_eq!(get_bookmark_line(Some(&resolution_with_lines(None))), None);
    assert_eq!(get_bookmark_line(None), None);
}

#[test]
fn bookmarks_are_found_exactly_then_by_prefix() {
    assert_eq!(find_bookmark("abc", Some(bookmark("abc")), None).unwrap().id, "abc");
    assert_eq!(find_bookmark("ab", None, Some(bookmark("abc"))).unwrap().id, "abc");
    let e = find_bookmark("zz\tline", None, None).unwrap_err();
    assert!(matches!(e, Error::Input(_)));
    assert_eq!(e.message(), "bookmark not found: zz");
    assert_eq!(extract_id("id1\tfile.rs\t3"), "id1");
}

#[test]
fn lines_and_bytes_convert() {
    let src = "ab\ncd\nef";
    assert_eq!(byte_to_line(src, 0), 1);
    assert_eq!(byte_to_line(src, 4), 2);
    assert_eq!(byte_to_line(src, 100), 3);
    assert_eq!(line_range_to_bytes(src, 2, 3).unwrap(), (3, 8));
    assert!(line_range_to_bytes(src, 3, 2).is_err());
    assert_eq!(parse_range("2", src).unwrap(), (3, 6));
    assert_eq!(parse_range("b1-4", src).unwrap(), (1, 4));
}

#[test]
fn line_ranges_include_their_last_line() {
    let s = "ab\ncd\nef\n";
    assert_eq!(parse_range("1-2", s).unwrap(), line_range_to_bytes(s, 1, 2).unwrap());
    assert_eq!(parse_range("1-2", s).unwrap().0, 0);
    assert_eq!(parse_range("1:2-2", s).unwrap(), (1, line_range_to_bytes(s, 2, 2).unwrap().1));
    assert_eq!(parse_range("1-1:2", s).unwrap(), (0, 1));
}

#[test]
fn identity_prefers_forced_then_configured_then_detected() {
    assert_eq!(
        resolve_identity(Some("bot"), Some("n"), Some("e"), Some("dn"), Some("de")),
        ("bot".to_string(), Some("bot".to_string()))
    );
    assert_eq!(
        resolve_identity(None, Some("n"), None, Some("dn"), Some("de@x")),
        ("de@x".to_string(), Some("n".to_string()))
    );
    assert_eq!(
        resolve_identity(None, None, Some("e@x"), Some("dn"), None),
        ("e@x".to_string(), Some("dn".to_string()))
    );
    assert_eq!(
        resolve_identity(None, None, None, Some("ann"), None),
        ("ann@local".to_string(), Some("ann".to_string()))
    );
    assert_eq!(resolve_identity(None, None, None, None, None), ("user@local".to_string(), None));
}

#[test]
fn diff_reports_bookmarks_in_changed_files_in_order() {
    let mut a = bookmark("a");
    a.file_path = "src/a.rs".to_string();
    let mut b = bookmark("b");
    b.file_path = "src/b.rs".to_string();
    let mut c = bookmark("c");
    c.file_path = "src/a.rs".to_string();
    let changed = vec!["src/a.rs".to_string(), "README.md".to_string()];
    assert_eq!(affected_bookmarks(&[a, b, c], &changed), vec![0, 2]);
    assert!(affected_bookmarks(&[], &changed).is_empty());
}

#[test]
fn diff_status_shows_a_change_with_an_arrow() {
    assert_eq!(status_change(BookmarkHealth::Active, BookmarkHealth::Drifted), "active -> drifted");
    assert_eq!(status_change(BookmarkHealth::Stale, BookmarkHealth::Stale), "stale");
}

#[test]
fn searches_are_routed_by_their_arguments() {
    let q = |s: &str| Some(s.to_string());
    assert!(matches!(search_route(true, true, true, false, None, None, None), Ok(SearchRoute::Collections)));
    match search_route(false, true, false, false, None, None, None) {
        Err(Error::Input(m)) => assert_eq!(m, "--tag requires --collections"),
        other => panic!("unexpected {other:?}"),
    }
    match search_route(false, false, true, false, q("x"), None, None) {
        Err(Error::Input(m)) => assert_eq!(m, "Semantic search is not enabled in config"),
        other => panic!("unexpected {other:?}"),
    }
    match search_route(false, false, true, true, None, q("note"), q("ctx")) {
        Ok(SearchRoute::Semantic(t)) => assert_eq!(t, "note"),
        other => panic!("unexpected {other:?}"),
    }
    match search_route(false, false, true, true, None, None, None) {
        Err(Error::Input(m)) => assert_eq!(m, "Semantic search requires a query"),
        other => panic!("unexpected {other:?}"),
    }
    assert!(matches!(search_route(false, false, false, false, q("x"), None, None), Ok(SearchRoute::FullText)));
}

#[test]
fn reversed_line_ranges_are_refused() {
    let s = "ab\ncd\n";
    assert_eq!(parse_range("2", s).unwrap(), (3, 6));
    assert_eq!(parse_range("1:2", s).unwrap(), (1, 1));
    assert_eq!(parse_range("b10-20", s).unwrap(), (10, 20));
    assert_eq!(parse_range("10-20b", s).unwrap(), (10, 20));
    assert_eq!(parse_range("1-2", s).unwrap(), (0, 6));
    match parse_range("2-1", s) {
        Err(Error::Input(m)) => assert_eq!(m, "invalid range: start byte 3 is greater than end byte 0"),
        other => panic!("unexpected {other:?}"),
    }
    assert!(parse_range("0", s).is_err());
}

#[test]
fn line_ranges_add_up_line_lengths() {
    assert_eq!(line_range_to_bytes("ab\ncd", 1, 2).unwrap(), (0, 5));
    assert_eq!(line_range_to_bytes("ab\ncd\n", 2, 2).unwrap(), (3, 6));
    assert!(line_range_to_bytes("ab\n", 2, 2).is_err());
    assert!(line_range_to_bytes("ab\ncd\n", 2, 1).is_err());
    for b in 3..6 {
        assert_eq!(byte_to_line("ab\ncd\n", b), 2);
    }
    assert_eq!(byte_to_line("ab\ncd\n", 2), 1);
    assert_eq!(byte_to_line("ab\ncd\n", 100), 2);
}
