//! Forge (git hosting provider) identification and display helpers.
//!
//! A "forge" is the platform hosting a repository (GitHub, GitLab, etc.). Forge
//! information is stored explicitly on auth accounts and can be inferred from a
//! repository's origin URL host.

use vstd::prelude::*;

use crate::text::{
    ascii_lowercase, before_first, before_first_char, chars_of, contains_seq, contains_str, eq_str,
    is_ws, lemma_trim_plain_ends, rfind_char, rsplit_once, split_once, split_once_char, strip_prefix, strip_prefix_str,
    tail_from, to_ascii_lowercase, trim, trimmed,
};

verus! {

/// A git hosting provider.
#[derive(Debug, Clone, Copy, PartialEq, Eq)]
pub enum ForgeKind {
    GitHub,
    GitLab,
    Bitbucket,
    /// An unknown or self-hosted forge that we can't classify.
    Unknown,
}

/// The forge a stored kind names, after trimming and ASCII lower-casing.
pub open spec fn forge_from_str_spec(s: Seq<char>) -> ForgeKind {
    let k = ascii_lowercase(trim(s));
    if k == "github"@ {
        ForgeKind::GitHub
    } else if k == "gitlab"@ {
        ForgeKind::GitLab
    } else if k == "bitbucket"@ {
        ForgeKind::Bitbucket
    } else {
        ForgeKind::Unknown
    }
}

/// The forge a host belongs to: the first provider name its ASCII-lowercased
/// form contains.
pub open spec fn forge_from_host_spec(host: Seq<char>) -> ForgeKind {
    let h = ascii_lowercase(host);
    if contains_seq(h, "github"@) {
        ForgeKind::GitHub
    } else if contains_seq(h, "gitlab"@) {
        ForgeKind::GitLab
    } else if contains_seq(h, "bitbucket"@) {
        ForgeKind::Bitbucket
    } else {
        ForgeKind::Unknown
    }
}

/// The host part of a scheme-prefixed URL remainder: after the last `@`,
/// before the first `/`, without a port.
pub open spec fn host_of_rest(rest: Seq<char>) -> Seq<char> {
    let after_user = match rsplit_once(rest, '@') {
        Some((_, h)) => h,
        None => rest,
    };
    before_first(before_first(after_user, '/'), ':')
}

/// The host of a git URL (HTTPS, SSH shorthand, or `ssh://`).
pub open spec fn host_from_url_spec(url: Seq<char>) -> Option<Seq<char>> {
    let u = trim(url);
    if u.len() == 0 {
        None
    } else if strip_prefix(u, "git@"@) is Some && split_once(strip_prefix(u, "git@"@).unwrap(), ':') is Some {
        Some(split_once(strip_prefix(u, "git@"@).unwrap(), ':').unwrap().0)
    } else {
        let rest = if strip_prefix(u, "https://"@) is Some {
            strip_prefix(u, "https://"@)
        } else if strip_prefix(u, "http://"@) is Some {
            strip_prefix(u, "http://"@)
        } else {
            strip_prefix(u, "ssh://"@)
        };
        match rest {
            Some(r) => if host_of_rest(r).len() == 0 {
                None
            } else {
                Some(host_of_rest(r))
            },
            None => None,
        }
    }
}

/// The forge of an origin URL, by its host; `Unknown` when no host is found.
pub open spec fn forge_from_origin_url_spec(url: Seq<char>) -> ForgeKind {
    match host_from_url_spec(url) {
        Some(h) => forge_from_host_spec(h),
        None => ForgeKind::Unknown,
    }
}

impl ForgeKind {
    /// The human-readable label of a forge.
    pub open spec fn label_spec(self) -> Seq<char> {
        match self {
            ForgeKind::GitHub => "GitHub"@,
            ForgeKind::GitLab => "GitLab"@,
            ForgeKind::Bitbucket => "Bitbucket"@,
            ForgeKind::Unknown => "Git"@,
        }
    }

    /// The Nerd Font glyph of a forge.
    pub open spec fn icon_spec(self) -> Seq<char> {
        match self {
            ForgeKind::GitHub => "\u{f09b}"@,
            ForgeKind::GitLab => "\u{f296}"@,
            ForgeKind::Bitbucket => "\u{f171}"@,
            ForgeKind::Unknown => "\u{e702}"@,
        }
    }

    /// Parse a stored `forge_kind` string (e.g. from `accounts.forge_kind`).
    pub fn from_forge_str(s: &str) -> (r: ForgeKind)
        ensures
            r == forge_from_str_spec(s@),
    {
        let cs = chars_of(s);
        let t = trimmed(&cs);
        let k = to_ascii_lowercase(&t);
        if eq_str(&k, "github") {
            ForgeKind::GitHub
        } else if eq_str(&k, "gitlab") {
            ForgeKind::GitLab
        } else if eq_str(&k, "bitbucket") {
            ForgeKind::Bitbucket
        } else {
            ForgeKind::Unknown
        }
    }

    /// Infer the forge from a git origin URL by inspecting its host.
    ///
    /// Supports HTTPS, SSH (`git@host:...`), and `ssh://` URLs. Falls back to
    /// [`ForgeKind::Unknown`] when the host doesn't match a known provider.
    pub fn from_origin_url(url: &str) -> (r: ForgeKind)
        ensures
            r == forge_from_origin_url_spec(url@),
    {
        let cs = chars_of(url);
        match host_from_url(&cs) {
            Some(host) => Self::from_host(&host),
            None => ForgeKind::Unknown,
        }
    }

    /// Classify a bare host name (e.g. `github.com`, `gitlab.example.com`).
    pub fn from_host(host: &[char]) -> (r: ForgeKind)
        ensures
            r == forge_from_host_spec(host@),
    {
        let h = to_ascii_lowercase(host);
        if contains_str(&h, "github") {
            ForgeKind::GitHub
        } else if contains_str(&h, "gitlab") {
            ForgeKind::GitLab
        } else if contains_str(&h, "bitbucket") {
            ForgeKind::Bitbucket
        } else {
            ForgeKind::Unknown
        }
    }

    /// A Nerd Font glyph identifying the forge.
    pub fn icon(self) -> (r: &'static str)
        ensures
            r@ == self.icon_spec(),
    {
        match self {
            ForgeKind::GitHub => "\u{f09b}",
            ForgeKind::GitLab => "\u{f296}",
            ForgeKind::Bitbucket => "\u{f171}",
            ForgeKind::Unknown => "\u{e702}",
        }
    }

    /// A human-readable label for the forge.
    pub fn label(self) -> (r: &'static str)
        ensures
            r@ == self.label_spec(),
    {
        match self {
            ForgeKind::GitHub => "GitHub",
            ForgeKind::GitLab => "GitLab",
            ForgeKind::Bitbucket => "Bitbucket",
            ForgeKind::Unknown => "Git",
        }
    }
}

/// The host part of a scheme-prefixed URL remainder.
fn host_of_rest_exec(r: &[char]) -> (out: Vec<char>)
    ensures
        out@ == host_of_rest(r@),
{
    let after_user = match rfind_char(r, '@') {
        Some(i) => tail_from(r, i + 1),
        None => tail_from(r, 0),
    };
    proof {
        assert(r@.skip(0) == r@);
    }
    let upto_slash = before_first_char(&after_user, '/');
    before_first_char(&upto_slash, ':')
}

/// The remainder after an `https://`, `http://` or `ssh://` scheme.
fn strip_scheme(u: &[char]) -> (r: Option<Vec<char>>)
    ensures
        r matches Some(v) ==> (if strip_prefix(u@, "https://"@) is Some {
            strip_prefix(u@, "https://"@)
        } else if strip_prefix(u@, "http://"@) is Some {
            strip_prefix(u@, "http://"@)
        } else {
            strip_prefix(u@, "ssh://"@)
        }) == Some(v@),
        r is None <==> (if strip_prefix(u@, "https://"@) is Some {
            strip_prefix(u@, "https://"@)
        } else if strip_prefix(u@, "http://"@) is Some {
            strip_prefix(u@, "http://"@)
        } else {
            strip_prefix(u@, "ssh://"@)
        }) is None,
{
    match strip_prefix_str(u, "https://") {
        Some(r) => Some(r),
        None => match strip_prefix_str(u, "http://") {
            Some(r) => Some(r),
            None => strip_prefix_str(u, "ssh://"),
        },
    }
}

/// The host of an SSH shorthand URL (`git@host:path`).
fn ssh_shorthand_host(u: &[char]) -> (r: Option<Vec<char>>)
    ensures
        r matches Some(h) ==> strip_prefix(u@, "git@"@) is Some && split_once(
            strip_prefix(u@, "git@"@).unwrap(),
            ':',
        ) is Some && split_once(strip_prefix(u@, "git@"@).unwrap(), ':').unwrap().0 == h@,
        r is None ==> !(strip_prefix(u@, "git@"@) is Some && split_once(
            strip_prefix(u@, "git@"@).unwrap(),
            ':',
        ) is Some),
{
    match strip_prefix_str(u, "git@") {
        Some(rest) => match split_once_char(&rest, ':') {
            Some((host, _)) => Some(host),
            None => None,
        },
        None => None,
    }
}

/// Extract the host portion from a git URL (HTTPS, SSH, or `ssh://`).
pub fn host_from_url(url: &[char]) -> (r: Option<Vec<char>>)
    ensures
        r matches Some(h) ==> host_from_url_spec(url@) == Some(h@),
        r is None <==> host_from_url_spec(url@) is None,
{
    let u = trimmed(url);
    if u.len() == 0 {
        return None;
    }
    // SSH shorthand: git@github.com:owner/repo.git
    match ssh_shorthand_host(&u) {
        Some(host) => {
            return Some(host);
        },
        None => {},
    }
    // Scheme-prefixed: https://host/..., http://host/..., ssh://git@host/...
    match strip_scheme(&u) {
        Some(r) => {
            let host = host_of_rest_exec(&r);
            if host.len() == 0 {
                None
            } else {
                Some(host)
            }
        },
        None => None,
    }
}

/// The label of every forge parses back, via `from_forge_str`, to that forge.
pub proof fn lemma_forge_label_round_trip(k: ForgeKind)
    ensures
        forge_from_str_spec(k.label_spec()) == k,
{
    reveal_strlit("GitHub");
    assert("GitHub"@.len() == 6);
    assert("GitHub"@[0] == 'G');
    assert("GitHub"@[1] == 'i');
    assert("GitHub"@[2] == 't');
    assert("GitHub"@[3] == 'H');
    assert("GitHub"@[4] == 'u');
    assert("GitHub"@[5] == 'b');
    reveal_strlit("GitLab");
    assert("GitLab"@.len() == 6);
    assert("GitLab"@[0] == 'G');
    assert("GitLab"@[1] == 'i');
    assert("GitLab"@[2] == 't');
    assert("GitLab"@[3] == 'L');
    assert("GitLab"@[4] == 'a');
    assert("GitLab"@[5] == 'b');
    reveal_strlit("Bitbucket");
    assert("Bitbucket"@.len() == 9);
    assert("Bitbucket"@[0] == 'B');
    assert("Bitbucket"@[1] == 'i');
    assert("Bitbucket"@[2] == 't');
    assert("Bitbucket"@[3] == 'b');
    assert("Bitbucket"@[4] == 'u');
    assert("Bitbucket"@[5] == 'c');
    assert("Bitbucket"@[6] == 'k');
    assert("Bitbucket"@[7] == 'e');
    assert("Bitbucket"@[8] == 't');
    reveal_strlit("Git");
    assert("Git"@.len() == 3);
    assert("Git"@[0] == 'G');
    assert("Git"@[1] == 'i');
    assert("Git"@[2] == 't');
    reveal_strlit("github");
    assert("github"@.len() == 6);
    assert("github"@[0] == 'g');
    assert("github"@[1] == 'i');
    assert("github"@[2] == 't');
    assert("github"@[3] == 'h');
    assert("github"@[4] == 'u');
    assert("github"@[5] == 'b');
    reveal_strlit("gitlab");
    assert("gitlab"@.len() == 6);
    assert("gitlab"@[0] == 'g');
    assert("gitlab"@[1] == 'i');
    assert("gitlab"@[2] == 't');
    assert("gitlab"@[3] == 'l');
    assert("gitlab"@[4] == 'a');
    assert("gitlab"@[5] == 'b');
    reveal_strlit("bitbucket");
    assert("bitbucket"@.len() == 9);
    assert("bitbucket"@[0] == 'b');
    assert("bitbucket"@[1] == 'i');
    assert("bitbucket"@[2] == 't');
    assert("bitbucket"@[3] == 'b');
    assert("bitbucket"@[4] == 'u');
    assert("bitbucket"@[5] == 'c');
    assert("bitbucket"@[6] == 'k');
    assert("bitbucket"@[7] == 'e');
    assert("bitbucket"@[8] == 't');
    let l = k.label_spec();
    lemma_trim_plain_ends(l);
    assert(trim(l) == l);
    let low = ascii_lowercase(l);
    match k {
        ForgeKind::GitHub => {
            assert(low =~= "github"@);
        },
        ForgeKind::GitLab => {
            assert(low =~= "gitlab"@);
        },
        ForgeKind::Bitbucket => {
            assert(low =~= "bitbucket"@);
        },
        ForgeKind::Unknown => {
            assert(low.len() == 3);
        },
    }
}

} // verus!
