//! Git remote parsing: `(owner, repo)` from the URL forms GitHub accepts.

use vstd::prelude::*;

use crate::error::{Error, Result};
use crate::text::{
    before_first, before_first_char, chars_of, contains_char, contains_seq, contains_str, find_char,
    find_seq, first_index_of, lemma_first_index, lemma_trim_plain_ends, first_occurrence, head_to, occurs_at, push_str, split_once, split_once_char,
    is_ws, starts_with, string_of, strip_prefix, strip_prefix_str, strip_suffix, strip_suffix_str, tail_from, trim,
    trim_end_matches, trim_end_matches_len, trimmed,
};

verus! {

/// The `(owner, repo)` pair of the path part of a GitHub URL: trailing `/`
/// and one `.git` suffix removed, then the first two `/`-separated fields.
pub open spec fn github_path_spec(path: Seq<char>) -> Option<(Seq<char>, Seq<char>)> {
    let p0 = trim_end_matches(path, '/');
    let p = match strip_suffix(p0, ".git"@) {
        Some(q) => q,
        None => p0,
    };
    match split_once(p, '/') {
        Some((owner, rest)) => Some((owner, before_first(rest, '/'))),
        None => None,
    }
}

/// What follows the first of the known github.com prefixes that `u` starts
/// with (HTTPS, HTTP, SSH shorthand, `ssh://` and `git://` forms).
pub open spec fn github_prefix_rest(u: Seq<char>) -> Option<Seq<char>> {
    if strip_prefix(u, "https://github.com/"@) is Some {
        strip_prefix(u, "https://github.com/"@)
    } else if strip_prefix(u, "http://github.com/"@) is Some {
        strip_prefix(u, "http://github.com/"@)
    } else if strip_prefix(u, "git@github.com:"@) is Some {
        strip_prefix(u, "git@github.com:"@)
    } else if strip_prefix(u, "git@github:"@) is Some {
        strip_prefix(u, "git@github:"@)
    } else if strip_prefix(u, "ssh://git@github.com/"@) is Some {
        strip_prefix(u, "ssh://git@github.com/"@)
    } else if strip_prefix(u, "ssh://git@github/"@) is Some {
        strip_prefix(u, "ssh://git@github/"@)
    } else {
        strip_prefix(u, "git://github.com/"@)
    }
}

/// For an `https://` URL of another host (GitHub Enterprise): the repository
/// path after `/repos/`, or else after the first `/`. `None` when neither
/// occurs.
pub open spec fn enterprise_path(rest: Seq<char>) -> Option<Seq<char>> {
    match first_occurrence(rest, "/repos/"@) {
        Some(i) => Some(rest.skip(i + 7)),
        None => match first_index_of(rest, '/') {
            Some(i) => Some(rest.skip(i + 1)),
            None => None,
        },
    }
}

/// The bare `owner/repo` form: no scheme, no `@`, a `/` with text on both
/// sides of the first one.
pub open spec fn owner_repo_spec(u: Seq<char>) -> Option<(Seq<char>, Seq<char>)> {
    if !contains_seq(u, "://"@) && !u.contains('@') && u.contains('/') {
        match split_once(u, '/') {
            Some((owner, repo)) => if owner.len() > 0 && repo.len() > 0 {
                Some((owner, repo))
            } else {
                None
            },
            None => None,
        }
    } else {
        None
    }
}

/// What [`parse_remote_url`] returns for a URL with characters `url`.
pub open spec fn parse_remote_url_spec(url: Seq<char>) -> Option<(Seq<char>, Seq<char>)> {
    let u = trim(url);
    if github_prefix_rest(u) is Some {
        github_path_spec(github_prefix_rest(u).unwrap())
    } else if strip_prefix(u, "https://"@) is Some && enterprise_path(
        strip_prefix(u, "https://"@).unwrap(),
    ) is Some {
        github_path_spec(enterprise_path(strip_prefix(u, "https://"@).unwrap()).unwrap())
    } else {
        owner_repo_spec(u)
    }
}

/// The URL that [`build_github_url`] builds.
pub open spec fn github_url_spec(owner: Seq<char>, repo: Seq<char>) -> Seq<char> {
    "https://github.com/"@ + owner + "/"@ + repo + ".git"@
}

/// The message of the error for an origin URL that names no repository.
pub open spec fn unparsable_url_message(url: Seq<char>) -> Seq<char> {
    "Could not parse repository URL: "@ + url
        + " (expected GitHub or GitHub Enterprise URL format)"@
}

/// Parse the path portion of a GitHub URL.
fn parse_github_url(path: &[char]) -> (r: Option<(Vec<char>, Vec<char>)>)
    ensures
        r matches Some((o, p)) ==> github_path_spec(path@) == Some((o@, p@)),
        r is None <==> github_path_spec(path@) is None,
{
    // Remove trailing slashes first (so "owner/repo.git/" is handled).
    let n = trim_end_matches_len(path, path.len(), '/');
    proof {
        assert(path@.take(path.len() as int) == path@);
    }
    let p0 = head_to(path, n);
    // Remove a `.git` suffix if present.
    let p = match strip_suffix_str(&p0, ".git") {
        Some(q) => q,
        None => p0,
    };
    match split_once_char(&p, '/') {
        Some((owner, rest)) => {
            let repo = before_first_char(&rest, '/');
            Some((owner, repo))
        },
        None => None,
    }
}

/// What follows a known github.com prefix of `u`.
fn strip_github_prefix(u: &[char]) -> (r: Option<Vec<char>>)
    ensures
        r matches Some(v) ==> github_prefix_rest(u@) == Some(v@),
        r is None <==> github_prefix_rest(u@) is None,
{
    match strip_prefix_str(u, "https://github.com/") {
        Some(r) => {
            return Some(r);
        },
        None => {},
    }
    match strip_prefix_str(u, "http://github.com/") {
        Some(r) => {
            return Some(r);
        },
        None => {},
    }
    match strip_prefix_str(u, "git@github.com:") {
        Some(r) => {
            return Some(r);
        },
        None => {},
    }
    match strip_prefix_str(u, "git@github:") {
        Some(r) => {
            return Some(r);
        },
        None => {},
    }
    match strip_prefix_str(u, "ssh://git@github.com/") {
        Some(r) => {
            return Some(r);
        },
        None => {},
    }
    match strip_prefix_str(u, "ssh://git@github/") {
        Some(r) => {
            return Some(r);
        },
        None => {},
    }
    strip_prefix_str(u, "git://github.com/")
}

/// The repository path of a GitHub Enterprise URL remainder.
fn enterprise_path_exec(rest: &[char]) -> (r: Option<Vec<char>>)
    ensures
        r matches Some(v) ==> enterprise_path(rest@) == Some(v@),
        r is None <==> enterprise_path(rest@) is None,
{
    let marker = chars_of("/repos/");
    proof {
        reveal_strlit("/repos/");
        assert(marker@.len() == 7);
    }
    match find_seq(rest, &marker) {
        Some(i) => {
            assert(occurs_at(rest@, marker@, i as int));
            let n = rest.len();
            assert(i + marker@.len() <= n);
            let from = i + marker.len();
            Some(tail_from(rest, from))
        },
        None => match find_char(rest, '/') {
            Some(i) => Some(tail_from(rest, i + 1)),
            None => None,
        },
    }
}

/// The bare `owner/repo` form.
fn owner_repo(u: &[char]) -> (r: Option<(Vec<char>, Vec<char>)>)
    ensures
        r matches Some((o, p)) ==> owner_repo_spec(u@) == Some((o@, p@)),
        r is None <==> owner_repo_spec(u@) is None,
{
    if !contains_str(u, "://") && !contains_char(u, '@') && contains_char(u, '/') {
        match split_once_char(u, '/') {
            Some((owner, repo)) => if owner.len() > 0 && repo.len() > 0 {
                Some((owner, repo))
            } else {
                None
            },
            None => None,
        }
    } else {
        None
    }
}

/// `(owner, repo)` of a URL, as characters.
fn parse_remote_chars(url: &[char]) -> (r: Option<(Vec<char>, Vec<char>)>)
    ensures
        r matches Some((o, p)) ==> parse_remote_url_spec(url@) == Some((o@, p@)),
        r is None <==> parse_remote_url_spec(url@) is None,
{
    let u = trimmed(url);
    match strip_github_prefix(&u) {
        Some(rest) => {
            return parse_github_url(&rest);
        },
        None => {},
    }
    // GitHub Enterprise (custom domains).
    match strip_prefix_str(&u, "https://") {
        Some(rest) => match enterprise_path_exec(&rest) {
            Some(path) => {
                return parse_github_url(&path);
            },
            None => {},
        },
        None => {},
    }
    // Simple owner/repo format (as given to a --repo flag).
    owner_repo(&u)
}

/// Parse a Git remote URL into (owner, repo) parts.
///
/// Supports various Git URL formats:
/// - HTTPS: `https://github.com/owner/repo.git`
/// - SSH: `git@github.com:owner/repo.git`
/// - SSH with protocol: `ssh://git@github.com/owner/repo.git`
/// - Git protocol: `git://github.com/owner/repo.git`
///
/// Returns `Some((owner, repo))` if parsing succeeds, `None` otherwise.
pub fn parse_remote_url(url: &str) -> (r: Option<(String, String)>)
    ensures
        r matches Some((o, p)) ==> parse_remote_url_spec(url@) == Some((o@, p@)),
        r is None <==> parse_remote_url_spec(url@) is None,
{
    let cs = chars_of(url);
    match parse_remote_chars(&cs) {
        Some((o, p)) => Some((string_of(&o), string_of(&p))),
        None => None,
    }
}

/// Parse the current repository's origin remote URL into (owner, repo).
///
/// The caller reads the URL (`git remote get-url origin`); this fails with a
/// git error naming the URL when it is not a GitHub or GitHub Enterprise URL.
pub fn parse_current_repo(origin_url: &str) -> (r: Result<(String, String)>)
    ensures
        r matches Ok((o, p)) ==> parse_remote_url_spec(origin_url@) == Some((o@, p@)),
        r matches Err(e) ==> (e matches Error::Git(m) && m@ == unparsable_url_message(origin_url@)),
        r is Err <==> parse_remote_url_spec(origin_url@) is None,
{
    match parse_remote_url(origin_url) {
        Some(pair) => Ok(pair),
        None => {
            let mut m: Vec<char> = Vec::new();
            push_str(&mut m, "Could not parse repository URL: ");
            push_str(&mut m, origin_url);
            push_str(&mut m, " (expected GitHub or GitHub Enterprise URL format)");
            Err(Error::Git(string_of(&m)))
        },
    }
}

/// Get the GitHub URL from owner and repo parts.
pub fn build_github_url(owner: &str, repo: &str) -> (r: String)
    ensures
        r@ == github_url_spec(owner@, repo@),
{
    let mut m: Vec<char> = Vec::new();
    push_str(&mut m, "https://github.com/");
    push_str(&mut m, owner);
    push_str(&mut m, "/");
    push_str(&mut m, repo);
    push_str(&mut m, ".git");
    string_of(&m)
}

/// A URL built by [`build_github_url`] parses back, by [`parse_remote_url`],
/// to the owner and repository it was built from, when neither contains a
/// `/`.
pub proof fn lemma_build_then_parse(owner: Seq<char>, repo: Seq<char>)
    requires
        !owner.contains('/'),
        !repo.contains('/'),
    ensures
        parse_remote_url_spec(github_url_spec(owner, repo)) == Some((owner, repo)),
{
    reveal_strlit("https://github.com/");
    assert("https://github.com/"@.len() == 19);
    assert("https://github.com/"@[0] == 'h');
    reveal_strlit("/");
    assert("/"@.len() == 1);
    assert("/"@[0] == '/');
    reveal_strlit(".git");
    assert(".git"@.len() == 4);
    assert(".git"@[3] == 't');
    let pre = "https://github.com/"@;
    let mid = owner + "/"@ + repo;
    let rest = mid + ".git"@;
    let u = github_url_spec(owner, repo);
    assert(u =~= pre + rest);
    assert(u[0] == 'h');
    assert(u.last() == 't');
    lemma_trim_plain_ends(u);
    assert(trim(u) == u);
    assert(u.take(19) =~= pre);
    assert(u.skip(19) =~= rest);
    assert(strip_prefix(u, pre) == Some(rest));
    assert(github_prefix_rest(u) == Some(rest));
    // The path part: no trailing '/', one ".git" suffix.
    assert(rest.last() == 't');
    assert(trim_end_matches(rest, '/') == rest);
    assert(rest.skip(rest.len() - 4) =~= ".git"@);
    assert(rest.take(rest.len() - 4) =~= mid);
    assert(strip_suffix(rest, ".git"@) == Some(mid));
    // The first '/' of `mid` is the one after the owner.
    assert(mid[owner.len() as int] == '/');
    assert forall|j: int| 0 <= j < owner.len() implies mid[j] != '/' by {
        assert(mid[j] == owner[j]);
    }
    lemma_first_index(mid, '/', owner.len() as int);
    assert(mid.take(owner.len() as int) =~= owner);
    assert(mid.skip(owner.len() as int + 1) =~= repo);
    assert(split_once(mid, '/') == Some((owner, repo)));
    assert(first_index_of(repo, '/') is None);
    assert(before_first(repo, '/') == repo);
}

/// The path `owner/repo.git` names `owner` and `repo`, when neither holds a
/// `/`.
proof fn lemma_owner_repo_path(owner: Seq<char>, repo: Seq<char>)
    requires
        !owner.contains('/'),
        !repo.contains('/'),
    ensures
        github_path_spec(owner + "/"@ + repo + ".git"@) == Some((owner, repo)),
{
    reveal_strlit("/");
    assert("/"@.len() == 1);
    assert("/"@[0] == '/');
    reveal_strlit(".git");
    assert(".git"@.len() == 4);
    assert(".git"@[3] == 't');
    let mid = owner + "/"@ + repo;
    let rest = mid + ".git"@;
    assert(owner + "/"@ + repo + ".git"@ == rest);
    assert(rest.last() == 't');
    assert(trim_end_matches(rest, '/') == rest);
    assert(rest.skip(rest.len() - 4) =~= ".git"@);
    assert(rest.take(rest.len() - 4) =~= mid);
    assert(strip_suffix(rest, ".git"@) == Some(mid));
    assert(mid[owner.len() as int] == '/');
    assert forall|j: int| 0 <= j < owner.len() implies mid[j] != '/' by {
        assert(mid[j] == owner[j]);
    }
    lemma_first_index(mid, '/', owner.len() as int);
    assert(mid.take(owner.len() as int) =~= owner);
    assert(mid.skip(owner.len() as int + 1) =~= repo);
    assert(split_once(mid, '/') == Some((owner, repo)));
    assert(first_index_of(repo, '/') is None);
    assert(before_first(repo, '/') == repo);
}

/// `u`, an `https://` URL of a host without `/` that is not `github.com`,
/// starts with none of the github.com prefixes.
proof fn lemma_not_github_prefix(host: Seq<char>, tail: Seq<char>)
    requires
        !host.contains('/'),
        host != "github.com"@,
    ensures
        github_prefix_rest("https://"@ + host + "/"@ + tail) is None,
{
    let u = "https://"@ + host + "/"@ + tail;
    reveal_strlit("https://");
    reveal_strlit("/");
    reveal_strlit("https://github.com/");
    reveal_strlit("http://github.com/");
    reveal_strlit("git@github.com:");
    reveal_strlit("git@github:");
    reveal_strlit("ssh://git@github.com/");
    reveal_strlit("ssh://git@github/");
    reveal_strlit("git://github.com/");
    reveal_strlit("github.com");
    assert("https://"@.len() == 8);
    assert("/"@.len() == 1 && "/"@[0] == '/');
    assert(u[0] == 'h' && u[4] == 's');
    assert("http://github.com/"@[4] == ':');
    assert("git@github.com:"@[0] == 'g');
    assert("git@github:"@[0] == 'g');
    assert("ssh://git@github.com/"@[0] == 's');
    assert("ssh://git@github/"@[0] == 's');
    assert("git://github.com/"@[0] == 'g');
    let p = "https://github.com/"@;
    assert(p.len() == 19);
    let hl = host.len() as int;
    assert(u[8 + hl] == '/');
    assert forall|m: int| 0 <= m < hl implies u[8 + m] == host[m] by {}
    if starts_with(u, p) {
        assert(u.take(19) == p);
        assert forall|k: int| 0 <= k < 19 implies u[k] == p[k] by {
            assert(u.take(19)[k] == u[k]);
        }
        let g = "github.com"@;
        assert(g.len() == 10);
        assert forall|k: int| 0 <= k < 10 implies p[8 + k] == g[k] by {}
        if hl < 10 {
            assert(u[8 + hl] == p[8 + hl]);
            assert(p[8 + hl] == g[hl]);
            assert(g[hl] != '/');
        } else if hl == 10 {
            assert forall|k: int| 0 <= k < 10 implies host[k] == g[k] by {
                assert(u[8 + k] == host[k]);
                assert(u[8 + k] == p[8 + k]);
            }
            assert(host =~= g);
        } else {
            assert(u[18] == host[10]);
            assert(p[18] == '/');
            assert(host.contains('/'));
        }
    }
    assert(!starts_with(u, "http://github.com/"@));
    assert(!starts_with(u, "git@github.com:"@));
    assert(!starts_with(u, "git@github:"@));
    assert(!starts_with(u, "ssh://git@github.com/"@));
    assert(!starts_with(u, "ssh://git@github/"@));
    assert(!starts_with(u, "git://github.com/"@));
}

/// In `HOST/OWNER/REPO.git` (none of the three holding a `/`, the owner not
/// `repos`) the text `/repos/` does not occur.
proof fn lemma_enterprise_rest_slashes(host: Seq<char>, owner: Seq<char>, repo: Seq<char>)
    requires
        !host.contains('/'),
        !owner.contains('/'),
        !repo.contains('/'),
        owner != "repos"@,
    ensures
        first_occurrence(host + "/"@ + (owner + "/"@ + repo + ".git"@), "/repos/"@) is None,
{
    reveal_strlit("/");
    reveal_strlit(".git");
    reveal_strlit("/repos/");
    reveal_strlit("repos");
    assert("/"@.len() == 1 && "/"@[0] == '/');
    assert(".git"@.len() == 4);
    let path = owner + "/"@ + repo + ".git"@;
    let rest = host + "/"@ + path;
    // Where `rest` has a '/': after the host, and after the owner.
    let hl = host.len() as int;
    let ol = owner.len() as int;
    assert forall|m: int| 0 <= m < rest.len() && rest[m] == '/' implies m == hl || m == hl + 1 + ol by {
        if m < hl {
            assert(rest[m] == host[m]);
        } else if hl < m < hl + 1 + ol {
            assert(rest[m] == owner[m - hl - 1]);
        } else if m > hl + 1 + ol {
            if m < hl + 2 + ol + repo.len() {
                assert(rest[m] == repo[m - hl - 2 - ol]);
            } else {
                assert(rest[m] == ".git"@[m - hl - 2 - ol - repo.len()]);
                assert(".git"@[0] == '.' && ".git"@[1] == 'g' && ".git"@[2] == 'i');
            }
        }
    }
    // No "/repos/" in `rest`.
    let rp = "/repos/"@;
    assert(rp.len() == 7 && rp[0] == '/' && rp[6] == '/');
    assert forall|i: int| !occurs_at(rest, rp, i) by {
        if occurs_at(rest, rp, i) {
            assert(rest.subrange(i, i + 7)[0] == rest[i]);
            assert(rest.subrange(i, i + 7)[6] == rest[i + 6]);
            assert(rest[i] == '/' && rest[i + 6] == '/');
            assert(i == hl && i + 6 == hl + 1 + ol);
            assert forall|k: int| 0 <= k < 5 implies owner[k] == "repos"@[k] by {
                assert(rest[hl + 1 + k] == owner[k]);
                assert(rest.subrange(i, i + 7)[1 + k] == rest[i + 1 + k]);
                assert(rp[1 + k] == "repos"@[k]);
            }
            assert(owner =~= "repos"@);
        }
    }
    assert(!contains_seq(rest, rp));
    assert(first_occurrence(rest, rp) is None);
}

/// An `https://` remote of a host other than `github.com` (GitHub
/// Enterprise on a custom domain) whose text holds no `/repos/` is read from
/// the path after the host: `https://HOST/PATH` gives what the repository
/// path `PATH` names, as a github.com URL with that path would.
#[verifier::rlimit(40)]
pub proof fn lemma_enterprise_path_after_host(host: Seq<char>, path: Seq<char>)
    requires
        !host.contains('/'),
        host != "github.com"@,
        !contains_seq(host + "/"@ + path, "/repos/"@),
        path.len() == 0 || !is_ws(path.last()),
    ensures
        parse_remote_url_spec("https://"@ + host + "/"@ + path) == github_path_spec(path),
{
    reveal_strlit("https://");
    reveal_strlit("/");
    assert("https://"@.len() == 8 && "https://"@[0] == 'h');
    assert("/"@.len() == 1 && "/"@[0] == '/');
    let rest = host + "/"@ + path;
    let u = "https://"@ + rest;
    assert("https://"@ + host + "/"@ + path =~= u);
    assert(u[0] == 'h');
    if path.len() == 0 {
        assert(u.last() == '/');
    } else {
        assert(u.last() == path.last());
    }
    lemma_trim_plain_ends(u);
    assert(trim(u) == u);
    lemma_not_github_prefix(host, path);
    assert(u.take(8) =~= "https://"@);
    assert(u.skip(8) =~= rest);
    assert(strip_prefix(u, "https://"@) == Some(rest));
    assert(first_occurrence(rest, "/repos/"@) is None);
    let hl = host.len() as int;
    assert(rest[hl] == '/');
    assert forall|j: int| 0 <= j < hl implies rest[j] != '/' by {
        assert(rest[j] == host[j]);
    }
    lemma_first_index(rest, '/', hl);
    assert(rest.skip(hl + 1) =~= path);
    assert(enterprise_path(rest) == Some(path));
}

/// A GitHub Enterprise remote on a custom domain parses to its owner and
/// repository: `https://HOST/OWNER/REPO.git`, for a host other than
/// `github.com` and an owner other than `repos` (which would read as the
/// `/repos/` API form), none of them holding a `/`, gives `(OWNER, REPO)`.
pub proof fn lemma_enterprise_remote(host: Seq<char>, owner: Seq<char>, repo: Seq<char>)
    requires
        !host.contains('/'),
        !owner.contains('/'),
        !repo.contains('/'),
        host != "github.com"@,
        owner != "repos"@,
    ensures
        parse_remote_url_spec("https://"@ + host + "/"@ + owner + "/"@ + repo + ".git"@) == Some(
            (owner, repo),
        ),
{
    reveal_strlit("/");
    reveal_strlit(".git");
    assert(".git"@.len() == 4 && ".git"@[3] == 't');
    let path = owner + "/"@ + repo + ".git"@;
    assert("https://"@ + host + "/"@ + owner + "/"@ + repo + ".git"@ =~= "https://"@ + host + "/"@
        + path);
    lemma_enterprise_rest_slashes(host, owner, repo);
    assert(!contains_seq(host + "/"@ + path, "/repos/"@));
    assert(path.last() == 't');
    lemma_enterprise_path_after_host(host, path);
    lemma_owner_repo_path(owner, repo);
}

} // verus!
