use codemark::git::forge::ForgeKind;

#[test]
fn from_forge_str_known() {
    assert_eq!(ForgeKind::from_forge_str("github"), ForgeKind::GitHub);
    assert_eq!(ForgeKind::from_forge_str("GitHub"), ForgeKind::GitHub);
    assert_eq!(ForgeKind::from_forge_str("gitlab"), ForgeKind::GitLab);
    assert_eq!(ForgeKind::from_forge_str("bitbucket"), ForgeKind::Bitbucket);
    assert_eq!(ForgeKind::from_forge_str("gitea"), ForgeKind::Unknown);
}

#[test]
fn from_origin_url_https() {
    assert_eq!(ForgeKind::from_origin_url("https://github.com/owner/repo.git"), ForgeKind::GitHub);
    assert_eq!(
        ForgeKind::from_origin_url("https://gitlab.com/group/sub/repo.git"),
        ForgeKind::GitLab
    );
    assert_eq!(ForgeKind::from_origin_url("https://bitbucket.org/owner/repo"), ForgeKind::Bitbucket);
}

#[test]
fn from_origin_url_ssh() {
    assert_eq!(ForgeKind::from_origin_url("git@github.com:owner/repo.git"), ForgeKind::GitHub);
    assert_eq!(ForgeKind::from_origin_url("ssh://git@gitlab.com/owner/repo.git"), ForgeKind::GitLab);
}

#[test]
fn from_origin_url_self_hosted_gitlab() {
    assert_eq!(
        ForgeKind::from_origin_url("https://gitlab.example.com/owner/repo.git"),
        ForgeKind::GitLab
    );
}

#[test]
fn from_origin_url_unknown_or_empty() {
    assert_eq!(ForgeKind::from_origin_url(""), ForgeKind::Unknown);
    assert_eq!(ForgeKind::from_origin_url("https://example.com/owner/repo"), ForgeKind::Unknown);
    assert_eq!(ForgeKind::from_origin_url("not a url"), ForgeKind::Unknown);
}
