use codemark::cli::handlers::collection_line;
use codemark::engine::bookmark::{Collection, CollectionHealth, Visibility};

fn collection() -> Collection {
    Collection {
        id: "0123456789abcdef".to_string(),
        name: "auth-flow".to_string(),
        description: Some("Login path".to_string()),
        visibility: Visibility::Private,
        created_at: "2025-01-02T03:04:05Z".to_string(),
        created_by: None,
        created_branch: Some("main".to_string()),
        published_at: None,
        published_commit_sha: None,
        repo_url: None,
        status: None,
        health: Some(CollectionHealth::Drifted),
        health_computed_at: None,
        updated_at: None,
        imported_from_url: None,
    }
}

#[test]
fn collection_line_fills_every_key_in_either_case() {
    let c = collection();
    let line = collection_line("{ID} {name} [{HEALTH}] {count} {description} {CREATED} {branch}", &c, Some(12));
    assert_eq!(line, "01234567 auth-flow [drifted] 12 Login path 2025-01-02T03:04:05Z main");
}

#[test]
fn collection_line_without_count_keeps_the_count_key() {
    let mut c = collection();
    c.health = None;
    c.description = None;
    c.created_branch = None;
    let line = collection_line("{id}|{HEALTH}|{COUNT}|{DESCRIPTION}|{BRANCH}", &c, None);
    assert_eq!(line, "01234567|-|{COUNT}||");
}
