use codemark::cli::auth::{pick_server, ServerEntry, ServerPick};
use codemark::cli::handlers::{db_kept_for_email, db_kept_for_repo_owner, parse_hunk};
use codemark::engine::bookmark::{Annotation, Bookmark, BookmarkHealth, Tag};
use codemark::engine::heal::{heal_display_name, CollectionHealResult};
use codemark::engine::projection::{project_status, Ancestry, UIStatus};
use codemark::engine::snapshot::top_tags;
use codemark::git::forge::ForgeKind;
use codemark::git::provider::{list_files_outcome, resolve_ref_outcome};
use codemark::git::remote::{build_github_url, parse_remote_url};
use codemark::parser::profile::Profile;
use codemark::parser::registry::{GrammarEntry, LanguageRegistry, Manifest};
use codemark::text::lines_of;

#[test]
fn forge_labels_parse_back() {
    for kind in [ForgeKind::GitHub, ForgeKind::GitLab, ForgeKind::Bitbucket, ForgeKind::Unknown] {
        assert_eq!(ForgeKind::from_forge_str(kind.label()), kind);
    }
}

#[test]
fn built_url_parses_back_to_its_parts() {
    let url = build_github_url("acme", "widgets");
    assert_eq!(parse_remote_url(&url), Some(("acme".to_string(), "widgets".to_string())));
}

#[test]
fn projection_follows_ancestry_and_health() {
    assert_eq!(project_status(true, Ancestry::AtHead, true, BookmarkHealth::Active), UIStatus::Healthy);
    assert_eq!(project_status(true, Ancestry::Ancestor, true, BookmarkHealth::Active), UIStatus::Verified);
    assert_eq!(project_status(true, Ancestry::Descendant, true, BookmarkHealth::Active), UIStatus::Future);
    assert_eq!(
        project_status(true, Ancestry::AtHead, false, BookmarkHealth::Active),
        UIStatus::UnanchoredHealthy
    );
    assert_eq!(project_status(true, Ancestry::Ancestor, false, BookmarkHealth::Drifted), UIStatus::Outdated);
    assert_eq!(project_status(true, Ancestry::AtHead, true, BookmarkHealth::Stale), UIStatus::Broken);
    assert_eq!(project_status(true, Ancestry::AtHead, true, BookmarkHealth::Drifted), UIStatus::Drifted);
}

#[test]
fn collection_tally_counts_every_outcome() {
    let r = CollectionHealResult::tally(&[None, None]);
    assert_eq!(r.healed + r.skipped + r.failed, 2);
    assert_eq!(r.failed, 2);
}

fn tag(name: &str) -> Tag {
    Tag { bookmark_id: "b".to_string(), tag: name.to_string(), added_at: "t".to_string(), added_by: None }
}

#[test]
fn top_tags_orders_by_count_then_name() {
    let tags = vec![tag("b"), tag("a"), tag("b"), tag("c"), tag("a"), tag("b")];
    assert_eq!(top_tags(&tags, 2), vec!["b".to_string(), "a".to_string()]);
    assert_eq!(top_tags(&tags, 10).len(), 3);
}

#[test]
fn git_outcomes_read_output_or_report_errors() {
    assert_eq!(resolve_ref_outcome("HEAD", true, "abc123\n", "").unwrap(), "abc123");
    let e = resolve_ref_outcome("nope", false, "", "bad ref").unwrap_err();
    assert_eq!(e.message(), "failed to resolve ref nope: bad ref");
    assert_eq!(
        list_files_outcome("c1", true, "a.rs\r\nsrc/b.rs\n", "").unwrap(),
        vec!["a.rs".to_string(), "src/b.rs".to_string()]
    );
    assert!(list_files_outcome("c1", false, "", "boom").is_err());
}

#[test]
fn lines_match_std_lines() {
    for text in ["", "a", "a\n", "a\r\nb", "a\r", "\n\nx\r\n", "x\ry\n"] {
        let expected: Vec<String> = text.lines().map(|l| l.to_string()).collect();
        assert_eq!(lines_of(text), expected, "lines of {text:?}");
    }
}

#[test]
fn hunks_give_inclusive_line_ranges() {
    assert_eq!(parse_hunk("@@ -10,3 +12,5 @@").unwrap(), (12, 16));
    assert_eq!(parse_hunk("@@ -1 +7 @@").unwrap(), (7, 7));
    assert_eq!(parse_hunk("+7,0").unwrap(), (7, 7));
    let e = parse_hunk("no range here").unwrap_err();
    assert_eq!(e.message(), "invalid hunk format: no range here");
    assert!(parse_hunk("+99999999999999999999999").is_err());
}

#[test]
fn databases_are_chosen_by_owner() {
    assert!(db_kept_for_email(None, &Err("x".to_string())));
    assert!(db_kept_for_email(Some("a@b"), &Ok(Some("a@b".to_string()))));
    assert!(!db_kept_for_email(Some("a@b"), &Ok(Some("c@d".to_string()))));
    assert!(db_kept_for_email(Some("a@b"), &Ok(None)));
    assert!(!db_kept_for_email(Some("a@b"), &Err("x".to_string())));
    assert!(db_kept_for_repo_owner(Some("acme"), &Ok(vec![])));
    assert!(db_kept_for_repo_owner(Some("acme"), &Ok(vec!["me".to_string(), "acme-corp".to_string()])));
    assert!(!db_kept_for_repo_owner(Some("acme"), &Ok(vec!["other".to_string()])));
    assert!(!db_kept_for_repo_owner(Some("acme"), &Err("x".to_string())));
}

fn server(name: &str, url: &str, token: Option<&str>) -> ServerEntry {
    ServerEntry { name: name.to_string(), url: url.to_string(), token: token.map(|t| t.to_string()) }
}

#[test]
fn server_choice_follows_precedence() {
    let servers = vec![server("default", "https://d.example", None), server("work", "https://w.example", Some("tk"))];
    match pick_server(Some("https://x.example"), Some("https://r"), None, None, &servers).unwrap() {
        ServerPick::LookupToken(u) => assert_eq!(u, "https://x.example"),
        other => panic!("unexpected {other:?}"),
    }
    match pick_server(Some("work"), None, None, None, &servers).unwrap() {
        ServerPick::Found(u, t) => {
            assert_eq!(u, "https://w.example");
            assert_eq!(t, Some("tk".to_string()));
        },
        other => panic!("unexpected {other:?}"),
    }
    assert_eq!(
        pick_server(Some("home"), None, None, None, &servers).unwrap_err().message(),
        "server 'home' not found in config"
    );
    match pick_server(None, Some("https://r"), Some(("https://acct", "t")), None, &servers).unwrap() {
        ServerPick::LookupToken(u) => assert_eq!(u, "https://r"),
        other => panic!("unexpected {other:?}"),
    }
    match pick_server(None, None, Some(("https://acct", "t")), None, &servers).unwrap() {
        ServerPick::Found(u, t) => {
            assert_eq!(u, "https://acct");
            assert_eq!(t, Some("t".to_string()));
        },
        other => panic!("unexpected {other:?}"),
    }
    match pick_server(None, None, None, None, &servers).unwrap() {
        ServerPick::Found(u, t) => {
            assert_eq!(u, "https://d.example");
            assert_eq!(t, None);
        },
        other => panic!("unexpected {other:?}"),
    }
}

fn entry(dir: &str, name: &str, exts: &[&str]) -> GrammarEntry {
    GrammarEntry {
        file_name: dir.to_string(),
        manifest: Some(Manifest {
            name: name.to_string(),
            extensions: exts.iter().map(|e| e.to_string()).collect(),
            profile: Profile::default(),
        }),
        wasm_path: format!("/cache/{dir}/grammar.wasm"),
        wasm_exists: true,
    }
}

#[test]
fn first_grammar_claims_names_and_extensions() {
    let reg = LanguageRegistry::discover_from(vec![
        entry("a", "lua", &["lua", "rs"]),
        entry("b", "Lua", &["luau"]),
        entry("c", "luau", &["luau", "lu"]),
        entry(".staging-x", "x", &["x"]),
        entry("d", "rs", &["myrs"]),
    ]);
    assert_eq!(reg.dynamic_language_names(), vec!["lua".to_string(), "luau".to_string()]);
    assert_eq!(reg.from_extension("LUA").map(|l| l.name().to_string()), Some("lua".to_string()));
    assert!(reg.from_extension("rs").is_none());
    assert_eq!(reg.from_extension("luau").map(|l| l.name().to_string()), Some("luau".to_string()));
    assert!(reg.from_name("x").is_none());
    assert!(reg.from_name("rs").is_none());
}

#[test]
fn first_annotation_names_a_heal_update() {
    let mut bm = Bookmark {
        id: "id".to_string(),
        query: "(function_item\n  name: (identifier) @fn_name\n  (#eq? @fn_name \"cycle_mode\")) @target".to_string(),
        language: "rust".to_string(),
        file_path: "src/lib.rs".to_string(),
        content_hash: None,
        commit_hash: None,
        health: BookmarkHealth::Active,
        resolution_method: None,
        last_resolved_at: None,
        stale_since: None,
        created_at: "2026-01-01T00:00:00Z".to_string(),
        created_by: None,
        current_resolution_id: None,
        repo_id: None,
        tags: vec![],
        annotations: vec![],
        comments: vec![],
    };
    assert_eq!(heal_display_name(&bm), "cycle_mode");
    bm.query = "(call) @target".to_string();
    assert_eq!(heal_display_name(&bm), "src/lib.rs");
    bm.annotations.push(Annotation {
        id: "a".to_string(),
        bookmark_id: "id".to_string(),
        added_at: "t".to_string(),
        added_by: None,
        notes: Some("the mode switch".to_string()),
        context: None,
        source: None,
    });
    assert_eq!(heal_display_name(&bm), "the mode switch");
}
