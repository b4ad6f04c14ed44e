//! Server and repository addresses, and the credentials sent with requests.

use vstd::prelude::*;

use crate::error::{Error, Result};
use crate::git::remote::{parse_remote_url, parse_remote_url_spec};
use crate::text::{
    chars_of, contains_char, contains_seq, contains_str, eq_chars, push_chars, starts_with_exec, push_str, same_text, split_once, split_once_char, starts_with,
    starts_with_str, string_of, trim, trimmed,
};

verus! {

/// Direction of a sync operation.
#[derive(Debug, Clone, Copy, PartialEq, Eq)]
pub enum SyncDirection {
    Pull,
    Push,
}

/// A server URL as stored: trimmed, one trailing `/` removed, `https://`
/// added when there is no scheme.
pub open spec fn server_url_spec(url: Seq<char>) -> Seq<char> {
    let t = trim(url);
    let u = if t.len() > 0 && t.last() == '/' {
        t.drop_last()
    } else {
        t
    };
    if !starts_with(u, "http://"@) && !starts_with(u, "https://"@) {
        "https://"@ + u
    } else {
        u
    }
}

/// Whether the host of the `http://` URL `u` is exactly `host`: the host
/// ends the URL or is followed by a port or a path.
pub open spec fn http_host_is(u: Seq<char>, host: Seq<char>) -> bool {
    let p = "http://"@ + host;
    u == p || starts_with(u, p + ":"@) || starts_with(u, p + "/"@)
}

/// Whether an `http://` URL points at this machine: its host is
/// `localhost`, `127.0.0.1` or `[::1]`.
pub open spec fn is_local_http(u: Seq<char>) -> bool {
    http_host_is(u, "localhost"@) || http_host_is(u, "127.0.0.1"@) || http_host_is(u, "[::1]"@)
}

/// Whether the host of the `http://` URL `u` is exactly `host`.
fn http_host_exec(u: &[char], host: &str) -> (b: bool)
    ensures
        b == http_host_is(u@, host@),
{
    let mut p: Vec<char> = Vec::new();
    push_str(&mut p, "http://");
    push_str(&mut p, host);
    if eq_chars(u, &p) {
        return true;
    }
    let mut pc = p.clone();
    pc.push(':');
    let mut ps = p.clone();
    ps.push('/');
    proof {
        assert(pc@ == p@ + ":"@) by { reveal_strlit(":"); }
        assert(ps@ == p@ + "/"@) by { reveal_strlit("/"); }
    }
    starts_with_exec(u, &pc) || starts_with_exec(u, &ps)
}

/// Normalize a server URL: trimmed, without a trailing `/`, `https://` when
/// no scheme is given. Plain `http://` is refused except for this machine.
pub fn normalize_server_url(url: &str) -> (r: Result<String>)
    ensures
        ({
            let u = server_url_spec(url@);
            &&& starts_with(u, "http://"@) && !is_local_http(u) ==> (r matches Err(Error::Input(m))
                && m@ == "insecure server URL: use https://"@)
            &&& !(starts_with(u, "http://"@) && !is_local_http(u)) ==> (r matches Ok(s) && s@ == u)
        }),
{
    let mut u = trimmed(&chars_of(url));
    if u.len() > 0 && u[u.len() - 1] == '/' {
        u.pop();
    }
    if !starts_with_str(&u, "http://") && !starts_with_str(&u, "https://") {
        let mut v: Vec<char> = Vec::new();
        push_str(&mut v, "https://");
        push_chars(&mut v, &u);
        u = v;
    }
    if starts_with_str(&u, "http://") && !http_host_exec(&u, "localhost") && !http_host_exec(
        &u,
        "127.0.0.1",
    ) && !http_host_exec(&u, "[::1]") {
        let mut m: Vec<char> = Vec::new();
        push_str(&mut m, "insecure server URL: use https://");
        return Err(Error::Input(string_of(&m)));
    }
    Ok(string_of(&u))
}

/// The SSH URL of a GitHub repository.
pub open spec fn github_ssh_url(owner: Seq<char>, repo: Seq<char>) -> Seq<char> {
    "git@github.com:"@ + owner + "/"@ + repo + ".git"@
}

/// Whether `repo` is written as a URL: with a scheme (`://`) or as
/// `user@host:path`.
pub open spec fn is_url_form(repo: Seq<char>) -> bool {
    contains_seq(repo, "://"@) || repo.contains('@')
}

/// A repository given on the command line, normalized: a bare name as is;
/// `owner/repo` (not a URL, owner without `.`, repo without `:`) or any URL
/// that names a GitHub repository (HTTPS or SSH) as its SSH URL; anything
/// else as is.
pub open spec fn repo_url_spec(repo: Seq<char>) -> Seq<char> {
    if !repo.contains('/') && !repo.contains(':') {
        repo
    } else if !is_url_form(repo) && split_once(repo, '/') is Some && !split_once(repo, '/').unwrap().0.contains('.')
        && !split_once(repo, '/').unwrap().1.contains(':') {
        github_ssh_url(split_once(repo, '/').unwrap().0, split_once(repo, '/').unwrap().1)
    } else if parse_remote_url_spec(repo) is Some {
        github_ssh_url(parse_remote_url_spec(repo).unwrap().0, parse_remote_url_spec(repo).unwrap().1)
    } else {
        repo
    }
}

/// Normalize a repository argument (see [`repo_url_spec`]).
pub fn normalize_repo_url(repo: &str) -> (r: String)
    ensures
        r@ == repo_url_spec(repo@),
{
    let cs = chars_of(repo);
    if !contains_char(&cs, '/') && !contains_char(&cs, ':') {
        return string_of(&cs);
    }
    let url_form = contains_str(&cs, "://") || contains_char(&cs, '@');
    match split_once_char(&cs, '/') {
        Some((owner, name)) => {
            if !url_form && !contains_char(&owner, '.') && !contains_char(&name, ':') {
                let mut v: Vec<char> = Vec::new();
                push_str(&mut v, "git@github.com:");
                push_chars(&mut v, &owner);
                push_str(&mut v, "/");
                push_chars(&mut v, &name);
                push_str(&mut v, ".git");
                return string_of(&v);
            }
        },
        None => {},
    }
    match parse_remote_url(repo) {
        Some((owner, name)) => {
            let mut v: Vec<char> = Vec::new();
            push_str(&mut v, "git@github.com:");
            push_str(&mut v, owner.as_str());
            push_str(&mut v, "/");
            push_str(&mut v, name.as_str());
            push_str(&mut v, ".git");
            string_of(&v)
        },
        None => string_of(&cs),
    }
}

/// The header that carries a token: a JWT (`eyJ...`) as a bearer
/// `Authorization`, any other token as `X-Tour-Token`.
pub open spec fn auth_header_spec(token: Seq<char>) -> (Seq<char>, Seq<char>) {
    if starts_with(token, "eyJ"@) {
        ("Authorization"@, "Bearer "@ + token)
    } else {
        ("X-Tour-Token"@, token)
    }
}

/// The header name and value to send a token with.
pub fn auth_header(token: &str) -> (r: (String, String))
    ensures
        r.0@ == auth_header_spec(token@).0,
        r.1@ == auth_header_spec(token@).1,
{
    let t = chars_of(token);
    if starts_with_str(&t, "eyJ") {
        let mut name: Vec<char> = Vec::new();
        push_str(&mut name, "Authorization");
        let mut value: Vec<char> = Vec::new();
        push_str(&mut value, "Bearer ");
        push_str(&mut value, token);
        (string_of(&name), string_of(&value))
    } else {
        let mut name: Vec<char> = Vec::new();
        push_str(&mut name, "X-Tour-Token");
        (string_of(&name), string_of(&t))
    }
}

/// The token for a server, from the registry's answer: the registry's error
/// becomes a database error naming it.
pub fn get_token_for_server(lookup: core::result::Result<Option<String>, String>) -> (r: Result<
    Option<String>,
>)
    ensures
        lookup matches Ok(t) ==> r == Ok::<Option<String>, Error>(t),
        lookup matches Err(e) ==> (r matches Err(Error::Database(m)) && m@
            == "Failed to query account: "@ + e@),
{
    match lookup {
        Ok(t) => Ok(t),
        Err(e) => {
            let mut m: Vec<char> = Vec::new();
            push_str(&mut m, "Failed to query account: ");
            push_str(&mut m, e.as_str());
            Err(Error::Database(string_of(&m)))
        },
    }
}

// ---------------------------------------------------------------------------
// Which server to talk to
// ---------------------------------------------------------------------------

/// A named server of the configuration.
#[derive(Debug, Clone)]
pub struct ServerEntry {
    pub name: String,
    pub url: String,
    pub token: Option<String>,
}

/// The server chosen for a request.
#[derive(Debug, Clone)]
pub enum ServerPick {
    /// A server URL whose token is looked up in the account registry.
    LookupToken(String),
    /// A server URL with the token to use, if any.
    Found(String, Option<String>),
}

/// The first configured server named `name`.
pub open spec fn is_first_named(servers: Seq<ServerEntry>, name: Seq<char>, i: int) -> bool {
    &&& 0 <= i < servers.len()
    &&& servers[i].name@ == name
    &&& forall|k: int| 0 <= k < i ==> (#[trigger] servers[k]).name@ != name
}

/// The first configured server named `name`, if there is one.
pub open spec fn named_server(servers: Seq<ServerEntry>, name: Seq<char>) -> Option<ServerEntry> {
    if exists|i: int| is_first_named(servers, name, i) {
        Some(servers[choose|i: int| is_first_named(servers, name, i)])
    } else {
        None
    }
}

/// The message for a server name the configuration does not know.
pub open spec fn unknown_server_message(name: Seq<char>) -> Seq<char> {
    "server '"@ + name + "' not found in config"@
}

/// A configured server by name: its URL and token, or an input error.
pub open spec fn by_name_spec(servers: Seq<ServerEntry>, name: Seq<char>) -> core::result::Result<
    (Seq<char>, Option<Seq<char>>, bool),
    Seq<char>,
> {
    match named_server(servers, name) {
        Some(s) => Ok(
            (
                s.url@,
                match s.token {
                    Some(t) => Some(t@),
                    None => None,
                },
                false,
            ),
        ),
        None => Err(unknown_server_message(name)),
    }
}

/// The server to use, as `(url, token, look the token up)`: an explicit
/// `--server` first (a URL, or the name of a configured server), then the
/// server recorded for the repository, then the registry's default account,
/// then the configured default server (`default` when none is set).
pub open spec fn pick_server_spec(
    server_arg: Option<Seq<char>>,
    repo_server: Option<Seq<char>>,
    default_account: Option<(Seq<char>, Seq<char>)>,
    default_server: Option<Seq<char>>,
    servers: Seq<ServerEntry>,
) -> core::result::Result<(Seq<char>, Option<Seq<char>>, bool), Seq<char>> {
    match server_arg {
        Some(s) => if starts_with(s, "http"@) {
            Ok((s, None, true))
        } else {
            by_name_spec(servers, s)
        },
        None => match repo_server {
            Some(u) => Ok((u, None, true)),
            None => match default_account {
                Some((u, t)) => Ok((u, Some(t), false)),
                None => {
                    let name = match default_server {
                        Some(d) => d,
                        None => "default"@,
                    };
                    if starts_with(name, "http"@) {
                        Ok((name, None, false))
                    } else {
                        by_name_spec(servers, name)
                    }
                },
            },
        },
    }
}

/// The view of a pick as `(url, token, look the token up)`.
pub open spec fn pick_view(p: ServerPick) -> (Seq<char>, Option<Seq<char>>, bool) {
    match p {
        ServerPick::LookupToken(u) => (u@, None, true),
        ServerPick::Found(u, t) => (
            u@,
            match t {
                Some(x) => Some(x@),
                None => None,
            },
            false,
        ),
    }
}

/// The configured server named `name`.
pub(crate) fn server_by_name(servers: &[ServerEntry], name: &str) -> (r: Result<ServerPick>)
    ensures
        match by_name_spec(servers@, name@) {
            Ok(v) => r matches Ok(p) && pick_view(p) == v,
            Err(m) => r matches Err(Error::Input(e)) && e@ == m,
        },
{
    let mut i: usize = 0;
    while i < servers.len()
        invariant
            i <= servers.len(),
            forall|k: int| 0 <= k < i ==> (#[trigger] servers@[k]).name@ != name@,
        decreases servers.len() - i,
    {
        if same_text(servers[i].name.as_str(), name) {
            proof {
                let ii = i as int;
                assert(is_first_named(servers@, name@, ii));
                assert forall|m: int| is_first_named(servers@, name@, m) implies m == ii by {
                    if m < ii {
                        assert(servers@[m].name@ != name@);
                    } else if m > ii {
                        assert(servers@[ii].name@ != name@);
                    }
                }
            }
            let token = match &servers[i].token {
                Some(t) => Some(t.clone()),
                None => None,
            };
            return Ok(ServerPick::Found(servers[i].url.clone(), token));
        }
        i = i + 1;
    }
    proof {
        assert forall|m: int| !is_first_named(servers@, name@, m) by {
            if is_first_named(servers@, name@, m) {
                assert(servers@[m].name@ != name@);
            }
        }
    }
    let mut m: Vec<char> = Vec::new();
    push_str(&mut m, "server '");
    push_str(&mut m, name);
    push_str(&mut m, "' not found in config");
    Err(Error::Input(string_of(&m)))
}

/// Choose the server to talk to ([`pick_server_spec`]): `server_arg` is the
/// `--server` given, `repo_server` the server the registry records for the
/// current repository, `default_account` the registry's default account
/// (URL and token), `default_server` and `servers` the configuration's.
pub fn pick_server(
    server_arg: Option<&str>,
    repo_server: Option<&str>,
    default_account: Option<(&str, &str)>,
    default_server: Option<&str>,
    servers: &[ServerEntry],
) -> (r: Result<ServerPick>)
    ensures
        match pick_server_spec(
            match server_arg {
                Some(s) => Some(s@),
                None => None,
            },
            match repo_server {
                Some(s) => Some(s@),
                None => None,
            },
            match default_account {
                Some((u, t)) => Some((u@, t@)),
                None => None,
            },
            match default_server {
                Some(s) => Some(s@),
                None => None,
            },
            servers@,
        ) {
            Ok(v) => r matches Ok(p) && pick_view(p) == v,
            Err(m) => r matches Err(Error::Input(e)) && e@ == m,
        },
{
    match server_arg {
        Some(s) => {
            let c = chars_of(s);
            if starts_with_str(&c, "http") {
                return Ok(ServerPick::LookupToken(string_of(&c)));
            }
            return server_by_name(servers, s);
        },
        None => {},
    }
    match repo_server {
        Some(u) => {
            return Ok(ServerPick::LookupToken(string_of(&chars_of(u))));
        },
        None => {},
    }
    match default_account {
        Some((u, t)) => {
            return Ok(ServerPick::Found(string_of(&chars_of(u)), Some(string_of(&chars_of(t)))));
        },
        None => {},
    }
    let name: &str = match default_server {
        Some(d) => d,
        None => "default",
    };
    let c = chars_of(name);
    if starts_with_str(&c, "http") {
        return Ok(ServerPick::Found(string_of(&c), None));
    }
    server_by_name(servers, name)
}

} // verus!
