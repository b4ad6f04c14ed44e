use codemark::engine::bookmark::{Bookmark, BookmarkHealth, Collection, CollectionHealth, CollectionTag, ResolutionMethod, Tag, Visibility};
use codemark::engine::heal::{heal_health_filter, heal_records, heal_result, heal_totals, HealOptions, HealStep};
use codemark::engine::resolution::ResolutionResult;
use codemark::engine::snapshot::{finish_snapshot, snapshot_collection, snapshot_entry};
use codemark::error::Error;

fn bookmark(id: &str, hash: Option<&str>) -> Bookmark {
    Bookmark {
        id: id.to_string(),
        query: "(x) @target".to_string(),
        language: "rust".to_string(),
        file_path: "a.rs".to_string(),
        content_hash: hash.map(|h| h.to_string()),
        commit_hash: None,
        health: BookmarkHealth::Active,
        resolution_method: None,
        last_resolved_at: None,
        stale_since: None,
        created_at: "t".to_string(),
        created_by: None,
        current_resolution_id: None,
        repo_id: None,
        tags: vec![],
        annotations: vec![],
        comments: vec![],
    }
}

fn result(method: ResolutionMethod, hash: &str) -> ResolutionResult {
    ResolutionResult {
        method,
        file_path: "a.rs".to_string(),
        byte_range: (3, 9),
        start_line: 1,
        start_col: 0,
        end_line: 2,
        matched_text: "fn a() {}".to_string(),
        content_hash: hash.to_string(),
        hash_matches: false,
        breadcrumbs: vec![],
    }
}

fn collection(id: &str) -> Collection {
    Collection {
        id: id.to_string(),
        name: "c".to_string(),
        description: None,
        visibility: Visibility::parse("private").unwrap_or(Visibility::parse("public").unwrap()),
        created_at: "t".to_string(),
        created_by: None,
        created_branch: None,
        published_at: None,
        published_commit_sha: None,
        repo_url: None,
        status: None,
        health: None,
        health_computed_at: None,
        updated_at: None,
        imported_from_url: None,
    }
}

#[test]
fn validate_only_heal_records_nothing() {
    let opts = HealOptions { force: false, auto_archive: false, archive_after: 30, validate_only: true };
    assert!(!heal_records(&opts));
    let bm = bookmark("b1", None);
    let r = heal_result(&bm, &opts, BookmarkHealth::Drifted, &result(ResolutionMethod::Relaxed, "h"), Some("res-1".to_string()));
    assert_eq!(r.resolution_id, None);
    assert_eq!(r.file_path, Some("a.rs".to_string()));
    assert_eq!(r.new_health, BookmarkHealth::Drifted);

    let opts = HealOptions { validate_only: false, ..opts };
    assert!(heal_records(&opts));
    let r = heal_result(&bm, &opts, BookmarkHealth::Stale, &result(ResolutionMethod::Failed, ""), Some("res-2".to_string()));
    assert_eq!(r.resolution_id, Some("res-2".to_string()));
    assert_eq!(r.file_path, None);
    assert_eq!(r.byte_range, None);
}

#[test]
fn snapshot_needs_its_collection() {
    let e = snapshot_collection("c9", None).unwrap_err();
    assert_eq!(e, Error::Input("collection c9 not found".to_string()));
    assert_eq!(snapshot_collection("c1", Some(collection("c1"))).unwrap().id, "c1");
}

#[test]
fn snapshot_pairs_bookmarks_with_resolutions() {
    let e1 = snapshot_entry(bookmark("b1", Some("h1")), &result(ResolutionMethod::Exact, "h1"), 0, 30, None, "r1".to_string(), "now".to_string(), "p1".to_string());
    let e2 = snapshot_entry(bookmark("b2", Some("h2")), &result(ResolutionMethod::Failed, ""), 0, 30, None, "r2".to_string(), "now".to_string(), "p2".to_string());
    assert_eq!(e1.0.health, BookmarkHealth::Active);
    assert_eq!(e2.0.health, BookmarkHealth::Stale);
    let tags = vec![
        Tag { bookmark_id: "b1".to_string(), tag: "auth".to_string(), added_at: "t".to_string(), added_by: None },
        Tag { bookmark_id: "b2".to_string(), tag: "auth".to_string(), added_at: "t".to_string(), added_by: None },
    ];
    let p = finish_snapshot(collection("c1"), vec![e1, e2], tags, vec![], vec![], 3, "now");
    assert_eq!(p.bookmarks.len(), p.resolutions.len());
    for (b, r) in p.bookmarks.iter().zip(p.resolutions.iter()) {
        assert_eq!(b.id, r.bookmark_id);
    }
    assert_eq!(p.collection.health, Some(CollectionHealth::Stale));
    assert_eq!(p.collection_tags.len(), 1);
    let t: &CollectionTag = &p.collection_tags[0];
    assert_eq!(t.tag, "auth");
    assert_eq!(t.added_by.as_deref(), Some("__auto__"));
}

#[test]
fn heal_visits_live_bookmarks_by_default_and_counts_its_steps() {
    assert_eq!(
        heal_health_filter(None),
        vec![BookmarkHealth::Active, BookmarkHealth::Drifted, BookmarkHealth::Stale]
    );
    assert_eq!(heal_health_filter(Some(vec![BookmarkHealth::Archived])), vec![BookmarkHealth::Archived]);
    let t = heal_totals(&[HealStep::Healed, HealStep::Skipped, HealStep::PassedOver, HealStep::Healed]);
    assert_eq!((t.total_processed, t.skipped), (2, 1));
}
