use codemark::cli::editor::{default_editor_template, editor_command, editor_program, substitute_placeholders};
use codemark::cli::handlers::{history_commits, pick_preview_resolution, short_id};
use codemark::engine::bookmark::{BookmarkHealth, Resolution, ResolutionMethod};
use codemark::text::replace_all;

#[test]
fn replace_all_matches_std_replace() {
    for (s, from, to) in [
        ("aaa", "aa", "b"),
        ("{FILE}:{FILE}", "{FILE}", "x.rs"),
        ("none here", "zz", "y"),
        ("", "a", "b"),
        ("abab", "ab", ""),
    ] {
        assert_eq!(replace_all(s, from, to), s.replace(from, to), "{s:?} {from:?} {to:?}");
    }
}

#[test]
fn placeholders_are_filled_in() {
    assert_eq!(
        substitute_placeholders("code -g {FILE}:{LINE_START} # {LINE_END} {ID}", "/r/a.rs", 12, 20, "abc"),
        "code -g /r/a.rs:12 # 20 abc"
    );
    assert_eq!(default_editor_template(None), "vim {FILE}");
    assert_eq!(default_editor_template(Some("hx")), "hx {FILE}");
}

#[test]
fn editor_command_splits_words() {
    let (program, args) = editor_command("'my editor' {FILE} +{LINE_START}", "/a b.rs", 3, 4, "id").unwrap();
    assert_eq!(program, "my editor");
    assert_eq!(args, vec!["/a".to_string(), "b.rs".to_string(), "+3".to_string()]);
    let err = editor_command("vim 'unclosed {FILE}", "f", 1, 1, "i").unwrap_err();
    assert_eq!(err.message(), "invalid command template: vim 'unclosed {FILE}");
    let err = editor_program("t", Some(vec![])).unwrap_err();
    assert_eq!(err.message(), "empty command after tokenization");
}

fn res(id: &str, commit: Option<&str>) -> Resolution {
    Resolution {
        id: id.to_string(),
        bookmark_id: "bm".to_string(),
        resolved_at: "t".to_string(),
        is_dirty: false,
        health: BookmarkHealth::Active,
        commit_hash: commit.map(|c| c.to_string()),
        method: ResolutionMethod::Exact,
        match_count: None,
        file_path: None,
        byte_range: None,
        line_range: None,
        content_hash: None,
        headline: None,
        preview_lines: None,
        snapshot: None,
        breadcrumbs: None,
    }
}

#[test]
fn preview_picks_the_asked_resolution() {
    // Newest first.
    let history = vec![res("r3", Some("ccc111")), res("r2", Some("bbb222")), res("r1", Some("aaa333")), res("r0", Some("bbb999"))];
    let pick = |at_creation: bool, at_commit: Option<&str>, nearest: Option<&str>| {
        pick_preview_resolution(None, None, at_creation, at_commit, history.clone(), nearest, Some("aaa333"), "0123456789ab")
    };
    assert_eq!(pick(true, None, None).unwrap().id, "r1");
    assert_eq!(pick(false, Some("bbb"), None).unwrap().id, "r0");
    assert_eq!(pick(false, None, Some("bbb222")).unwrap().id, "r2");
    assert_eq!(pick(false, None, None).unwrap().id, "r3");
    assert_eq!(
        pick(false, Some("ddd"), None).unwrap_err().message(),
        "no resolution found at commit ddd"
    );
    let none = pick_preview_resolution(None, None, false, None, vec![], None, None, "0123456789ab").unwrap_err();
    assert_eq!(
        none.message(),
        "bookmark 01234567 has no resolution history; run `codemark resolve 01234567` first"
    );
    let by_id = pick_preview_resolution(Some("rx"), None, false, None, vec![], None, None, "b").unwrap_err();
    assert_eq!(by_id.message(), "resolution not found: rx");
    assert_eq!(short_id("abc"), "abc");
    assert_eq!(history_commits(&history), vec!["ccc111", "bbb222", "aaa333", "bbb999"]);
}
