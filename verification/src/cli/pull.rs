//! Where a tour is pulled from.

use vstd::prelude::*;

use crate::cli::auth::{by_name_spec, pick_view, server_by_name, ServerEntry, ServerPick};
use crate::error::{Error, Result};
use crate::text::{
    chars_of, last_occurrence, occurs_at, rfind_seq, starts_with, starts_with_str, string_of, tail_from,
    head_to,
};

verus! {

/// The server, tour id and token of a pull. When `token` is `None`, the
/// caller uses the account registry's token for `server_url`, if any.
#[derive(Debug, Clone)]
pub struct PullPlan {
    pub server_url: String,
    pub tour_id: String,
    pub token: Option<String>,
}

/// The separator between a server URL and a tour id in a tour URL.
pub open spec fn tours_marker() -> Seq<char> {
    "/tours/"@
}

/// The message for a tour URL without `/tours/`.
pub open spec fn bad_tour_url_message() -> Seq<char> {
    "invalid tour URL format, expected .../tours/<id>"@
}

/// The message for a tour id given with no server.
pub open spec fn server_required_message() -> Seq<char> {
    "server is required when pull by ID"@
}

/// The view of an optional borrowed text.
pub open spec fn opt_str(o: Option<&str>) -> Option<Seq<char>> {
    match o {
        Some(s) => Some(s@),
        None => None,
    }
}

/// `(server URL, tour id, token)` of a pull, or the input error. A tour
/// given as an `http://` or `https://` URL is split at its last `/tours/`;
/// a bare id is pulled from `--server` (else the configured default
/// server), which is a URL or the name of a configured server. The token is
/// the one given, else, for a configured server, its token.
pub open spec fn pull_plan_spec(
    tour: Seq<char>,
    server: Option<Seq<char>>,
    token: Option<Seq<char>>,
    default_server: Option<Seq<char>>,
    servers: Seq<ServerEntry>,
) -> core::result::Result<(Seq<char>, Seq<char>, Option<Seq<char>>), Seq<char>> {
    if starts_with(tour, "http://"@) || starts_with(tour, "https://"@) {
        match last_occurrence(tour, tours_marker()) {
            Some(i) => Ok((tour.take(i), tour.skip(i + tours_marker().len()), token)),
            None => Err(bad_tour_url_message()),
        }
    } else {
        let name = match server {
            Some(s) => Some(s),
            None => default_server,
        };
        match name {
            None => Err(server_required_message()),
            Some(n) => if starts_with(n, "http"@) {
                Ok((n, tour, token))
            } else {
                match by_name_spec(servers, n) {
                    Ok((url, t, _)) => Ok(
                        (
                            url,
                            tour,
                            match token {
                                Some(x) => Some(x),
                                None => t,
                            },
                        ),
                    ),
                    Err(m) => Err(m),
                }
            },
        }
    }
}

/// The view of a plan.
pub open spec fn plan_view(p: PullPlan) -> (Seq<char>, Seq<char>, Option<Seq<char>>) {
    (
        p.server_url@,
        p.tour_id@,
        match p.token {
            Some(t) => Some(t@),
            None => None,
        },
    )
}

/// An owned copy of an optional text.
fn owned(o: Option<&str>) -> (r: Option<String>)
    ensures
        match r {
            Some(s) => opt_str(o) == Some(s@),
            None => o is None,
        },
{
    match o {
        Some(s) => Some(string_of(&chars_of(s))),
        None => None,
    }
}

/// Decide where to pull `tour` from ([`pull_plan_spec`]): `server` and
/// `token` are the flags given, `default_server` and `servers` the
/// configuration's.
pub fn pull_plan(
    tour: &str,
    server: Option<&str>,
    token: Option<&str>,
    default_server: Option<&str>,
    servers: &[ServerEntry],
) -> (r: Result<PullPlan>)
    ensures
        match pull_plan_spec(tour@, opt_str(server), opt_str(token), opt_str(default_server), servers@) {
            Ok(v) => r matches Ok(p) && plan_view(p) == v,
            Err(m) => r matches Err(Error::Input(e)) && e@ == m,
        },
{
    let t = chars_of(tour);
    if starts_with_str(&t, "http://") || starts_with_str(&t, "https://") {
        let marker = chars_of("/tours/");
        return match rfind_seq(&t, &marker) {
            Some(i) => {
                assert(occurs_at(t@, marker@, i as int));
                assert(t@.len() == t.len());
                let server_url = string_of(&head_to(&t, i));
                let tour_id = string_of(&tail_from(&t, i + marker.len()));
                Ok(PullPlan { server_url, tour_id, token: owned(token) })
            },
            None => Err(Error::Input(string_of(&chars_of("invalid tour URL format, expected .../tours/<id>")))),
        };
    }
    let name: &str = match server {
        Some(s) => s,
        None => match default_server {
            Some(d) => d,
            None => {
                return Err(Error::Input(string_of(&chars_of("server is required when pull by ID"))));
            },
        },
    };
    let n = chars_of(name);
    if starts_with_str(&n, "http") {
        return Ok(PullPlan { server_url: string_of(&n), tour_id: string_of(&t), token: owned(token) });
    }
    match server_by_name(servers, name) {
        Ok(ServerPick::Found(url, configured)) => {
            let tok = match owned(token) {
                Some(x) => Some(x),
                None => configured,
            };
            Ok(PullPlan { server_url: url, tour_id: string_of(&t), token: tok })
        },
        Ok(ServerPick::LookupToken(url)) => {
            Ok(PullPlan { server_url: url, tour_id: string_of(&t), token: owned(token) })
        },
        Err(e) => Err(e),
    }
}

// ---------------------------------------------------------------------------
// Importing a pulled pack
// ---------------------------------------------------------------------------

/// The message for a pack without tours.
pub open spec fn no_tours_message() -> Seq<char> {
    "pack contains no tours"@
}

/// The message for a pack with more than one tour.
pub open spec fn many_tours_message() -> Seq<char> {
    "pack contains multiple tours; only single-tour packs are supported for pull"@
}

/// A pulled pack must hold exactly one tour: none, or more than one, is an
/// operation error.
pub fn check_single_tour(count: usize) -> (r: Result<()>)
    ensures
        count == 1 <==> r is Ok,
        count == 0 ==> (r matches Err(Error::Operation(m)) && m@ == no_tours_message()),
        count > 1 ==> (r matches Err(Error::Operation(m)) && m@ == many_tours_message()),
{
    if count == 0 {
        Err(Error::Operation(string_of(&chars_of("pack contains no tours"))))
    } else if count > 1 {
        Err(Error::Operation(
            string_of(&chars_of("pack contains multiple tours; only single-tour packs are supported for pull")),
        ))
    } else {
        Ok(())
    }
}

/// The tag an imported bookmark carries: `imported:` and the URL it was
/// pulled from.
pub fn imported_tag(source_url: &str) -> (r: String)
    ensures
        r@ == "imported:"@ + source_url@,
{
    let mut out: Vec<char> = Vec::new();
    crate::text::push_str(&mut out, "imported:");
    crate::text::push_str(&mut out, source_url);
    string_of(&out)
}

/// An optional id by value.
pub open spec fn opt_id(o: Option<String>) -> Option<Seq<char>> {
    match o {
        Some(s) => Some(s@),
        None => None,
    }
}

/// The last position, below `k`, of `id` among `old_ids`.
pub open spec fn last_index_below(old_ids: Seq<Seq<char>>, id: Seq<char>, k: int) -> Option<int>
    decreases k,
{
    if k <= 0 {
        None
    } else if old_ids[k - 1] == id {
        Some(k - 1)
    } else {
        last_index_below(old_ids, id, k - 1)
    }
}

/// The new id of an imported comment's parent: the new id given to the
/// comment that had the parent's old id (the last such, as a map filled in
/// order keeps); `None` for a comment without a parent, or whose parent was
/// not imported with it.
pub open spec fn remapped_parent(
    old_ids: Seq<Seq<char>>,
    new_ids: Seq<Seq<char>>,
    parent: Option<Seq<char>>,
) -> Option<Seq<char>> {
    match parent {
        Some(p) => match last_index_below(old_ids, p, old_ids.len() as int) {
            Some(j) => Some(new_ids[j]),
            None => None,
        },
        None => None,
    }
}

/// The new id of the comment whose old id was `parent`, where one is.
fn new_parent(old_ids: &[String], new_ids: &[String], parent: &Option<String>) -> (r: Option<String>)
    requires
        old_ids@.len() == new_ids@.len(),
    ensures
        opt_id(r) == remapped_parent(
            old_ids@.map_values(|s: String| s@),
            new_ids@.map_values(|s: String| s@),
            opt_id(*parent),
        ),
{
    let ghost olds = old_ids@.map_values(|s: String| s@);
    match parent {
        Some(p) => {
            let mut k: usize = old_ids.len();
            while k > 0
                invariant
                    k <= old_ids@.len(),
                    old_ids@.len() == new_ids@.len(),
                    olds == old_ids@.map_values(|s: String| s@),
                    opt_id(*parent) == Some(p@),
                    last_index_below(olds, p@, old_ids@.len() as int) == last_index_below(olds, p@, k as int),
                decreases k,
            {
                if crate::text::same_text(old_ids[k - 1].as_str(), p.as_str()) {
                    assert(olds[k - 1] == p@);
                    let id = string_of(&chars_of(new_ids[k - 1].as_str()));
                    assert(new_ids@.map_values(|s: String| s@)[k - 1] == id@);
                    assert(last_index_below(olds, p@, k as int) == Some(k - 1));
                    return Some(id);
                }
                assert(olds[k - 1] != p@);
                k = k - 1;
            }
            None
        },
        None => None,
    }
}

/// Keep the threading of imported comments: each comment's parent, given
/// by its old id, becomes the new id of that parent (see
/// [`remapped_parent`]); `old_ids` and `new_ids` pair each comment's old
/// and new id, in order.
pub fn remap_parents(old_ids: &[String], new_ids: &[String], parents: &[Option<String>]) -> (r: Vec<
    Option<String>,
>)
    requires
        old_ids@.len() == new_ids@.len(),
    ensures
        r@.len() == parents@.len(),
        forall|i: int|
            0 <= i < r@.len() ==> opt_id((#[trigger] r@[i])) == remapped_parent(
                old_ids@.map_values(|s: String| s@),
                new_ids@.map_values(|s: String| s@),
                opt_id(parents@[i]),
            ),
{
    let mut out: Vec<Option<String>> = Vec::new();
    let mut i: usize = 0;
    while i < parents.len()
        invariant
            i <= parents@.len(),
            old_ids@.len() == new_ids@.len(),
            out@.len() == i,
            forall|k: int|
                0 <= k < i ==> opt_id((#[trigger] out@[k])) == remapped_parent(
                    old_ids@.map_values(|s: String| s@),
                    new_ids@.map_values(|s: String| s@),
                    opt_id(parents@[k]),
                ),
        decreases parents@.len() - i,
    {
        out.push(new_parent(old_ids, new_ids, &parents[i]));
        i = i + 1;
    }
    out
}

} // verus!
