use codemark::git::remote::{build_github_url, parse_remote_url};

fn pair(a: &str, b: &str) -> Option<(String, String)> {
    Some((a.to_string(), b.to_string()))
}

#[test]
fn test_parse_https_url() {
    assert_eq!(parse_remote_url("https://github.com/owner/repo.git"), pair("owner", "repo"));
    assert_eq!(parse_remote_url("https://github.com/owner/repo"), pair("owner", "repo"));
}

#[test]
fn test_parse_ssh_url() {
    assert_eq!(parse_remote_url("git@github.com:owner/repo.git"), pair("owner", "repo"));
    assert_eq!(parse_remote_url("ssh://git@github.com/owner/repo.git"), pair("owner", "repo"));
    assert_eq!(parse_remote_url("ssh://git@github/owner/repo.git"), pair("owner", "repo"));
}

#[test]
fn test_parse_with_nested_path() {
    assert_eq!(
        parse_remote_url("https://github.com/owner-org/repo-name.git"),
        pair("owner-org", "repo-name")
    );
}

#[test]
fn test_parse_with_trailing_slash() {
    assert_eq!(parse_remote_url("https://github.com/owner/repo/"), pair("owner", "repo"));
    assert_eq!(parse_remote_url("https://github.com/owner/repo.git/"), pair("owner", "repo"));
}

#[test]
fn test_parse_invalid_url() {
    assert_eq!(parse_remote_url("not-a-url"), None);
    assert_eq!(parse_remote_url("https://example.com/repo"), None);
}

#[test]
fn test_parse_empty_string() {
    assert_eq!(parse_remote_url(""), None);
    assert_eq!(parse_remote_url("   "), None);
}

#[test]
fn test_parse_owner_repo_format() {
    // Simple owner/repo format (used in --repo flag)
    assert_eq!(parse_remote_url("owner/repo"), pair("owner", "repo"));
    assert_eq!(parse_remote_url("owner-org/repo-name"), pair("owner-org", "repo-name"));
    // Edge cases
    assert_eq!(parse_remote_url("/repo"), None); // Missing owner
    assert_eq!(parse_remote_url("owner/"), None); // Missing repo
}

#[test]
fn test_build_github_url() {
    assert_eq!(build_github_url("owner", "repo"), "https://github.com/owner/repo.git");
}
