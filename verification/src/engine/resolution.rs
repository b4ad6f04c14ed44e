//! Resolving a bookmark against the current state of its file.
//!
//! Resolution tries four tiers in order: the bookmark's exact query, its
//! relaxed form, its minimal form, and finally a walk over the file's named
//! nodes looking for one whose content hashes to the stored hash.
//! [`resolve_source`] parses the file and runs the queries; each tier's
//! matches (with the ancestor chain of each matched node) and the named
//! nodes in walk order reach [`resolve_with`], which picks the result.

use vstd::prelude::*;
use vstd::utf8::{decode_utf8, encode_utf8, valid_utf8};

use crate::engine::bookmark::{Bookmark, ResolutionMethod};
use crate::engine::breadcrumbs::{
    Breadcrumb, breadcrumbs_spec, crumbs_view, extract_breadcrumbs, line_text, line_text_spec,
    whitelist_spec,
};
use crate::engine::hash::{content_hash, content_hash_spec};
use crate::error::{Error, Result};
use crate::parser::languages::{Language, ParseCache, Parser, static_name_spec};
use crate::parser::registry::LanguageRegistry;
use crate::parser::syntax::{
    query_compiles, query_has_capture_named, query_matches, range_bytes, range_text_spec,
    find_spanning_node, node_tuple, parse_nodes, preorder_wf, source_tree_nodes, spanning_node,
    utf8_text, SourceTree, TreeNode,
};
use crate::query::matcher::{MatchResult, captures_view, match_view, match_views, run_query};
use crate::query::relaxer::{minimal_query_spec, minimize_query, relax_query, relaxed_query_spec};
use crate::text::{chars_of, eq_chars, lowercase, same_text, starts_with, starts_with_str};

verus! {

/// Lightweight result from on-the-fly resolution, used for live previews
/// without persisting to the database.
#[derive(Debug, Clone)]
pub struct TransientResolution {
    pub method: ResolutionMethod,
    pub file_path: String,
    /// 0-indexed start line.
    pub start_line: usize,
    /// 0-indexed end line.
    pub end_line: usize,
    pub matched_text: String,
    pub content_hash: String,
    pub hash_matches: bool,
    pub breadcrumbs: Vec<Breadcrumb>,
}

/// Simplified health status derived from live resolution, for UI display.
#[derive(Debug, Clone, Copy, PartialEq, Eq)]
pub enum LiveUIStatus {
    /// Exact match with hash match: the code is unchanged.
    Healthy,
    /// Relaxed or hash-fallback match, or a hash mismatch: the code has moved
    /// or changed.
    Drifted,
    /// Resolution failed: the code was not found.
    Broken,
}

/// The live status of a resolution with `method`, `hash_matches` telling
/// whether the matched content hashes to the stored hash.
pub open spec fn live_status_spec(method: ResolutionMethod, hash_matches: bool) -> LiveUIStatus {
    match method {
        ResolutionMethod::Exact => if hash_matches {
            LiveUIStatus::Healthy
        } else {
            LiveUIStatus::Drifted
        },
        ResolutionMethod::Failed => LiveUIStatus::Broken,
        _ => LiveUIStatus::Drifted,
    }
}

impl TransientResolution {
    /// Derive a [`LiveUIStatus`] from the resolution method and hash match.
    pub fn live_status(&self) -> (r: LiveUIStatus)
        ensures
            r == live_status_spec(self.method, self.hash_matches),
    {
        match self.method {
            ResolutionMethod::Exact => if self.hash_matches {
                LiveUIStatus::Healthy
            } else {
                LiveUIStatus::Drifted
            },
            ResolutionMethod::Failed => LiveUIStatus::Broken,
            _ => LiveUIStatus::Drifted,
        }
    }
}

/// The live status of a resolution agrees with the health the same
/// resolution gives a bookmark: healthy exactly when the health becomes
/// active, broken exactly when it becomes stale.
pub proof fn lemma_live_status_agrees_with_health(method: ResolutionMethod, hash_matches: bool)
    ensures
        (live_status_spec(method, hash_matches) == LiveUIStatus::Healthy) <==> (
        crate::engine::health::transition_spec(method, hash_matches)
            == crate::engine::bookmark::BookmarkHealth::Active),
        (live_status_spec(method, hash_matches) == LiveUIStatus::Broken) <==> (
        crate::engine::health::transition_spec(method, hash_matches)
            == crate::engine::bookmark::BookmarkHealth::Stale),
        (live_status_spec(method, hash_matches) == LiveUIStatus::Drifted) <==> (
        crate::engine::health::transition_spec(method, hash_matches)
            == crate::engine::bookmark::BookmarkHealth::Drifted),
{
}

/// The result of resolving a single bookmark.
#[derive(Debug)]
pub struct ResolutionResult {
    pub method: ResolutionMethod,
    pub file_path: String,
    pub byte_range: (usize, usize),
    pub start_line: usize,
    pub start_col: usize,
    pub end_line: usize,
    pub matched_text: String,
    pub content_hash: String,
    pub hash_matches: bool,
    /// Structural ancestors for sticky headers.
    pub breadcrumbs: Vec<Breadcrumb>,
}

impl ResolutionResult {
    /// The preview of the resolved range: exactly the matched text. The
    /// breadcrumbs give the structural context, so no lines of padding are
    /// added (`padding` is ignored).
    pub fn capture_preview(&self, _source: &str, _padding: usize) -> (r: String)
        ensures
            r@ == self.matched_text@,
    {
        self.matched_text.clone()
    }
}

/// The matches of one tier, with the ancestor chain (kind and start row of
/// each ancestor, nearest first) of each matched node.
#[derive(Debug)]
pub struct TierMatches {
    pub matches: Vec<MatchResult>,
    pub ancestors: Vec<Vec<(String, usize)>>,
}

/// A named node of the parsed file, as the hash-fallback walk visits it.
#[derive(Debug)]
pub struct NamedNode {
    pub text: String,
    pub byte_range: (usize, usize),
    pub start_point: (usize, usize),
    pub end_point: (usize, usize),
    /// Kind and start row of each ancestor, nearest first.
    pub ancestors: Vec<(String, usize)>,
}

/// The index of the first text from `i` on whose content hash is `h`.
pub open spec fn first_hash_from(texts: Seq<Seq<char>>, h: Seq<char>, i: int) -> Option<int>
    decreases texts.len() - i,
{
    if i < 0 || i >= texts.len() {
        None
    } else if content_hash_spec(texts[i]) == h {
        Some(i)
    } else {
        first_hash_from(texts, h, i + 1)
    }
}

/// The match a tier settles on: its only match, or else the first whose
/// content hashes to the stored hash.
pub open spec fn pick_index(texts: Seq<Seq<char>>, stored: Option<Seq<char>>) -> Option<int> {
    if texts.len() == 1 {
        Some(0)
    } else {
        match stored {
            Some(h) => first_hash_from(texts, h, 0),
            None => None,
        }
    }
}

/// The matched texts of a tier.
pub open spec fn tier_texts(t: TierMatches) -> Seq<Seq<char>> {
    t.matches@.map_values(|m: MatchResult| m.node_text@)
}

/// The match a tier settles on, if the tier ran.
pub open spec fn tier_pick(t: Option<TierMatches>, stored: Option<Seq<char>>) -> Option<int> {
    match t {
        Some(tm) => pick_index(tier_texts(tm), stored),
        None => None,
    }
}

/// The stored content hash of a bookmark, as characters.
pub open spec fn stored_hash(b: Bookmark) -> Option<Seq<char>> {
    match b.content_hash {
        Some(h) => Some(h@),
        None => None,
    }
}

/// The breadcrumbs of the `sticky.*` captures, each on its line.
pub open spec fn sticky_crumbs_spec(c: Seq<(Seq<char>, (usize, usize), usize)>, source: Seq<char>) -> Seq<
    (int, Seq<char>),
>
    decreases c.len(),
{
    if c.len() == 0 {
        seq![]
    } else if starts_with(c.last().0, "sticky."@) {
        sticky_crumbs_spec(c.drop_last(), source).push(
            (c.last().2 + 1, line_text_spec(source, c.last().2 as int)),
        )
    } else {
        sticky_crumbs_spec(c.drop_last(), source)
    }
}

/// The breadcrumbs of a match: from its sticky captures when they give any,
/// else from its ancestors (at most three).
pub open spec fn match_crumbs_spec(
    m: MatchResult,
    ancestors: Seq<(String, usize)>,
    source: Seq<char>,
    language: Language,
) -> Seq<(int, Seq<char>)> {
    let sticky = sticky_crumbs_spec(captures_view(m.captures@), source);
    if m.captures@.len() > 0 && sticky.len() > 0 {
        sticky
    } else {
        breadcrumbs_spec(
            ancestors.map_values(|a: (String, usize)| (a.0@, a.1)),
            whitelist_spec(language),
            source,
            3,
        )
    }
}

/// Extract breadcrumbs from sticky captures: each `sticky.*` capture gives
/// the line it starts on (1-based) and that line's text. Rows are below
/// `usize::MAX`.
pub fn extract_breadcrumbs_from_captures(
    captures: &[(String, (usize, usize), usize)],
    source: &str,
) -> (r: Vec<Breadcrumb>)
    requires
        forall|i: int| 0 <= i < captures@.len() ==> #[trigger] captures@[i].2 < usize::MAX,
    ensures
        crumbs_view(r@) == sticky_crumbs_spec(
            captures@.map_values(|x: (String, (usize, usize), usize)| (x.0@, x.1, x.2)),
            source@,
        ),
{
    let src = chars_of(source);
    let ghost all = captures@.map_values(|x: (String, (usize, usize), usize)| (x.0@, x.1, x.2));
    let mut out: Vec<Breadcrumb> = Vec::new();
    let mut i: usize = 0;
    while i < captures.len()
        invariant
            i <= captures.len(),
            src@ == source@,
            all == captures@.map_values(|x: (String, (usize, usize), usize)| (x.0@, x.1, x.2)),
            forall|k: int| 0 <= k < captures@.len() ==> #[trigger] captures@[k].2 < usize::MAX,
            crumbs_view(out@) == sticky_crumbs_spec(all.take(i as int), source@),
        decreases captures.len() - i,
    {
        let (name, _, line) = (&captures[i].0, captures[i].1, captures[i].2);
        proof {
            assert(all.take(i + 1).drop_last() == all.take(i as int));
            assert(all.take(i + 1).last() == all[i as int]);
            assert(captures@[i as int].2 < usize::MAX);
        }
        if starts_with_str(&chars_of(name.as_str()), "sticky.") {
            out.push(Breadcrumb { line: line + 1, text: line_text(&src, line) });
            proof {
                assert(crumbs_view(out@) == crumbs_view(out@.drop_last()).push(
                    (out@.last().line as int, out@.last().text@),
                ));
            }
        }
        i = i + 1;
    }
    proof {
        assert(all.take(captures.len() as int) == all);
    }
    out
}

/// Whether every sticky capture's row is below `usize::MAX`.
pub open spec fn rows_bounded(m: MatchResult, ancestors: Seq<(String, usize)>) -> bool {
    &&& forall|i: int| 0 <= i < m.captures@.len() ==> #[trigger] m.captures@[i].2 < usize::MAX
    &&& forall|i: int| 0 <= i < ancestors.len() ==> #[trigger] ancestors[i].1 < usize::MAX
}

/// The breadcrumbs of a match (see [`match_crumbs_spec`]).
fn breadcrumbs_for_match(
    m: &MatchResult,
    ancestors: &Vec<(String, usize)>,
    source: &str,
    language: &Language,
) -> (r: Vec<Breadcrumb>)
    requires
        rows_bounded(*m, ancestors@),
    ensures
        crumbs_view(r@) == match_crumbs_spec(*m, ancestors@, source@, *language),
{
    if m.captures.len() > 0 {
        let sticky = extract_breadcrumbs_from_captures(m.captures.as_slice(), source);
        if sticky.len() > 0 {
            return sticky;
        }
    }
    extract_breadcrumbs(ancestors.as_slice(), source, language, 3)
}

/// The language breadcrumbs are computed for: the bookmark's language, or
/// Rust when its name resolves to none.
pub open spec fn crumb_language_spec(name: Seq<char>, registry: LanguageRegistry) -> Language {
    if static_name_spec(lowercase(name)) is Some {
        static_name_spec(lowercase(name)).unwrap()
    } else if registry.name_lookup(lowercase(name)) is Some {
        registry.name_lookup(lowercase(name)).unwrap()
    } else {
        Language::Rust
    }
}

/// The bookmark's language, falling back to Rust.
fn crumb_language(name: &str, registry: &LanguageRegistry) -> (r: Language)
    ensures
        r == crumb_language_spec(name@, *registry),
{
    match Language::from_name_in(name, registry) {
        Ok(l) => l,
        Err(_) => Language::Rust,
    }
}

/// Whether `r` is the result for a located node.
pub open spec fn located_as(
    r: ResolutionResult,
    b: Bookmark,
    method: ResolutionMethod,
    text: Seq<char>,
    byte_range: (usize, usize),
    start_point: (usize, usize),
    end_point: (usize, usize),
    crumbs: Seq<(int, Seq<char>)>,
) -> bool {
    &&& r.method == method
    &&& r.file_path@ == b.file_path@
    &&& r.byte_range == byte_range
    &&& r.start_line == start_point.0
    &&& r.start_col == start_point.1
    &&& r.end_line == end_point.0
    &&& r.matched_text@ == text
    &&& r.content_hash@ == content_hash_spec(text)
    &&& r.hash_matches == (stored_hash(b) == Some(content_hash_spec(text)))
    &&& crumbs_view(r.breadcrumbs@) == crumbs
}

/// Whether `r` is the result of a failed resolution.
pub open spec fn failed_as(r: ResolutionResult, b: Bookmark) -> bool {
    &&& r.method == ResolutionMethod::Failed
    &&& r.file_path@ == b.file_path@
    &&& r.byte_range == (0usize, 0usize)
    &&& r.start_line == 0
    &&& r.start_col == 0
    &&& r.end_line == 0
    &&& r.matched_text@.len() == 0
    &&& r.content_hash@.len() == 0
    &&& !r.hash_matches
    &&& r.breadcrumbs@.len() == 0
}

/// The well-formedness of a tier's data: one ancestor chain per match, rows
/// below `usize::MAX`.
pub open spec fn tier_ok(t: Option<TierMatches>) -> bool {
    t matches Some(tm) ==> tm.ancestors@.len() == tm.matches@.len() && forall|i: int|
        0 <= i < tm.matches@.len() ==> rows_bounded(#[trigger] tm.matches@[i], tm.ancestors@[i]@)
}

/// What a tier gives: the result for its picked match.
pub open spec fn tier_result_ok(
    r: ResolutionResult,
    b: Bookmark,
    t: TierMatches,
    i: int,
    method: ResolutionMethod,
    source: Seq<char>,
    language: Language,
) -> bool {
    let m = t.matches@[i];
    located_as(
        r,
        b,
        method,
        m.node_text@,
        m.byte_range,
        m.start_point,
        m.end_point,
        match_crumbs_spec(m, t.ancestors@[i]@, source, language),
    )
}

/// Every ancestor row of a node is below `usize::MAX`.
pub open spec fn node_rows_ok(n: NamedNode) -> bool {
    forall|k: int| 0 <= k < n.ancestors@.len() ==> #[trigger] n.ancestors@[k].1 < usize::MAX
}

/// The texts of the named nodes.
pub open spec fn node_texts(nodes: Seq<NamedNode>) -> Seq<Seq<char>> {
    nodes.map_values(|n: NamedNode| n.text@)
}

/// The full rule of [`resolve_with`].
pub open spec fn resolve_spec(
    r: ResolutionResult,
    b: Bookmark,
    source: Seq<char>,
    language: Language,
    exact: Option<TierMatches>,
    relaxed: Option<TierMatches>,
    minimal: Option<TierMatches>,
    nodes: Seq<NamedNode>,
) -> bool {
    let h = stored_hash(b);
    if tier_pick(exact, h) is Some {
        tier_result_ok(r, b, exact.unwrap(), tier_pick(exact, h).unwrap(), ResolutionMethod::Exact, source, language)
    } else if tier_pick(relaxed, h) is Some {
        tier_result_ok(r, b, relaxed.unwrap(), tier_pick(relaxed, h).unwrap(), ResolutionMethod::Relaxed, source, language)
    } else if tier_pick(minimal, h) is Some {
        tier_result_ok(r, b, minimal.unwrap(), tier_pick(minimal, h).unwrap(), ResolutionMethod::Relaxed, source, language)
    } else if h is Some && first_hash_from(node_texts(nodes), h.unwrap(), 0) is Some {
        let n = nodes[first_hash_from(node_texts(nodes), h.unwrap(), 0).unwrap()];
        located_as(
            r,
            b,
            ResolutionMethod::HashFallback,
            n.text@,
            n.byte_range,
            n.start_point,
            n.end_point,
            breadcrumbs_spec(
                n.ancestors@.map_values(|a: (String, usize)| (a.0@, a.1)),
                whitelist_spec(language),
                source,
                3,
            ),
        )
    } else {
        failed_as(r, b)
    }
}

/// The index of the first text from `from` on whose content hash is `h`.
fn find_hash<T>(
    items: &Vec<T>,
    texts: Ghost<Seq<Seq<char>>>,
    text_of: &Vec<String>,
    h: &[char],
    from: usize,
) -> (r: Option<usize>)
    requires
        text_of@.len() == items@.len(),
        texts@ == text_of@.map_values(|s: String| s@),
        from <= items@.len(),
    ensures
        r matches Some(i) ==> i < items@.len() && first_hash_from(texts@, h@, from as int) == Some(
            i as int,
        ),
        r is None ==> first_hash_from(texts@, h@, from as int) is None,
    decreases items@.len() - from,
{
    if from == items.len() {
        return None;
    }
    let ch = content_hash(text_of[from].as_str());
    let c = chars_of(ch.as_str());
    if eq_chars(&c, h) {
        Some(from)
    } else {
        find_hash(items, texts, text_of, h, from + 1)
    }
}

/// The texts of the matches of a tier.
fn match_texts(t: &TierMatches) -> (r: Vec<String>)
    ensures
        r@.len() == t.matches@.len(),
        r@.map_values(|s: String| s@) == tier_texts(*t),
{
    let mut out: Vec<String> = Vec::new();
    let mut i: usize = 0;
    while i < t.matches.len()
        invariant
            i <= t.matches.len(),
            out@.len() == i,
            forall|k: int| 0 <= k < i ==> #[trigger] out@[k]@ == t.matches@[k].node_text@,
        decreases t.matches.len() - i,
    {
        out.push(t.matches[i].node_text.clone());
        i = i + 1;
    }
    assert(out@.map_values(|s: String| s@) =~= tier_texts(*t));
    out
}

/// The texts of the named nodes.
fn named_texts(nodes: &Vec<NamedNode>) -> (r: Vec<String>)
    ensures
        r@.len() == nodes@.len(),
        r@.map_values(|s: String| s@) == node_texts(nodes@),
{
    let mut out: Vec<String> = Vec::new();
    let mut i: usize = 0;
    while i < nodes.len()
        invariant
            i <= nodes.len(),
            out@.len() == i,
            forall|k: int| 0 <= k < i ==> #[trigger] out@[k]@ == nodes@[k].text@,
        decreases nodes.len() - i,
    {
        out.push(nodes[i].text.clone());
        i = i + 1;
    }
    assert(out@.map_values(|s: String| s@) =~= node_texts(nodes@));
    out
}

/// The match a tier settles on.
fn pick_in_tier(t: &TierMatches, stored: &Option<Vec<char>>) -> (r: Option<usize>)
    ensures
        r matches Some(i) ==> i < t.matches@.len() && pick_index(
            tier_texts(*t),
            match stored {
                Some(h) => Some(h@),
                None => None,
            },
        ) == Some(i as int),
        r is None ==> pick_index(
            tier_texts(*t),
            match stored {
                Some(h) => Some(h@),
                None => None,
            },
        ) is None,
{
    if t.matches.len() == 1 {
        return Some(0);
    }
    match stored {
        Some(h) => {
            let texts = match_texts(t);
            find_hash(&t.matches, Ghost(tier_texts(*t)), &texts, h, 0)
        },
        None => None,
    }
}

/// The result for a located node.
fn located(
    b: &Bookmark,
    method: ResolutionMethod,
    text: &String,
    byte_range: (usize, usize),
    start_point: (usize, usize),
    end_point: (usize, usize),
    breadcrumbs: Vec<Breadcrumb>,
) -> (r: ResolutionResult)
    ensures
        located_as(
            r,
            *b,
            method,
            text@,
            byte_range,
            start_point,
            end_point,
            crumbs_view(breadcrumbs@),
        ),
{
    let ch = content_hash(text.as_str());
    let hash_matches = match &b.content_hash {
        Some(h) => eq_chars(&chars_of(h.as_str()), &chars_of(ch.as_str())),
        None => false,
    };
    ResolutionResult {
        method,
        file_path: b.file_path.clone(),
        byte_range,
        start_line: start_point.0,
        start_col: start_point.1,
        end_line: end_point.0,
        matched_text: text.clone(),
        content_hash: ch,
        hash_matches,
        breadcrumbs,
    }
}

/// The result for match `i` of a tier.
fn tier_result(
    b: &Bookmark,
    t: &TierMatches,
    i: usize,
    method: ResolutionMethod,
    source: &str,
    language: &Language,
) -> (r: ResolutionResult)
    requires
        tier_ok(Some(*t)),
        i < t.matches@.len(),
    ensures
        tier_result_ok(r, *b, *t, i as int, method, source@, *language),
{
    let m = &t.matches[i];
    assert(rows_bounded(t.matches@[i as int], t.ancestors@[i as int]@));
    let crumbs = breadcrumbs_for_match(m, &t.ancestors[i], source, language);
    located(b, method, &m.node_text, m.byte_range, m.start_point, m.end_point, crumbs)
}

/// Resolve a bookmark from the matches of its three query tiers (`None` for
/// a tier whose query could not be built or run) and the file's named nodes
/// in walk order.
///
/// Each tier settles on its only match, or else on the first match whose
/// content hashes to the stored hash; the first tier that settles wins
/// (exact, then relaxed, then minimal, the last two reported as relaxed).
/// Then the first named node whose content hashes to the stored hash is a
/// hash-fallback result; otherwise resolution failed.
pub fn resolve_with(
    bookmark: &Bookmark,
    source: &str,
    registry: &LanguageRegistry,
    exact: Option<TierMatches>,
    relaxed: Option<TierMatches>,
    minimal: Option<TierMatches>,
    nodes: Vec<NamedNode>,
) -> (r: ResolutionResult)
    requires
        tier_ok(exact),
        tier_ok(relaxed),
        tier_ok(minimal),
        forall|i: int| 0 <= i < nodes@.len() ==> #[trigger] node_rows_ok(nodes@[i]),
    ensures
        resolve_spec(
            r,
            *bookmark,
            source@,
            crumb_language_spec(bookmark.language@, *registry),
            exact,
            relaxed,
            minimal,
            nodes@,
        ),
{
    let language = crumb_language(bookmark.language.as_str(), registry);
    let stored: Option<Vec<char>> = match &bookmark.content_hash {
        Some(h) => Some(chars_of(h.as_str())),
        None => None,
    };
    let ghost h = stored_hash(*bookmark);
    assert(h == match stored {
        Some(v) => Some(v@),
        None => None::<Seq<char>>,
    });
    match &exact {
        Some(t) => match pick_in_tier(t, &stored) {
            Some(i) => {
                return tier_result(bookmark, t, i, ResolutionMethod::Exact, source, &language);
            },
            None => {},
        },
        None => {},
    }
    match &relaxed {
        Some(t) => match pick_in_tier(t, &stored) {
            Some(i) => {
                return tier_result(bookmark, t, i, ResolutionMethod::Relaxed, source, &language);
            },
            None => {},
        },
        None => {},
    }
    match &minimal {
        Some(t) => match pick_in_tier(t, &stored) {
            Some(i) => {
                return tier_result(bookmark, t, i, ResolutionMethod::Relaxed, source, &language);
            },
            None => {},
        },
        None => {},
    }
    match &stored {
        Some(hv) => {
            let texts = named_texts(&nodes);
            match find_hash(&nodes, Ghost(node_texts(nodes@)), &texts, hv, 0) {
                Some(i) => {
                    let n = &nodes[i];
                    assert(node_rows_ok(nodes@[i as int]));
                    let crumbs = extract_breadcrumbs(n.ancestors.as_slice(), source, &language, 3);
                    return located(
                        bookmark,
                        ResolutionMethod::HashFallback,
                        &n.text,
                        n.byte_range,
                        n.start_point,
                        n.end_point,
                        crumbs,
                    );
                },
                None => {},
            }
        },
        None => {},
    }
    ResolutionResult {
        method: ResolutionMethod::Failed,
        file_path: bookmark.file_path.clone(),
        byte_range: (0, 0),
        start_line: 0,
        start_col: 0,
        end_line: 0,
        matched_text: String::new(),
        content_hash: String::new(),
        hash_matches: false,
        breadcrumbs: Vec::new(),
    }
}

/// The index `first_hash_from` finds lies in range, at or after `i`, and
/// its text hashes to `h`.
pub proof fn lemma_first_hash_from(texts: Seq<Seq<char>>, h: Seq<char>, i: int)
    ensures
        first_hash_from(texts, h, i) matches Some(k) ==> i <= k < texts.len() && content_hash_spec(
            texts[k],
        ) == h,
    decreases texts.len() - i,
{
    if 0 <= i < texts.len() && content_hash_spec(texts[i]) != h {
        lemma_first_hash_from(texts, h, i + 1);
    }
}

/// Higher tiers win: whenever the bookmark's exact query settles on a match,
/// the result is an exact match, never a relaxed or hash-fallback one.
pub proof fn lemma_exact_tier_wins(
    r: ResolutionResult,
    b: Bookmark,
    source: Seq<char>,
    language: Language,
    exact: Option<TierMatches>,
    relaxed: Option<TierMatches>,
    minimal: Option<TierMatches>,
    nodes: Seq<NamedNode>,
)
    requires
        resolve_spec(r, b, source, language, exact, relaxed, minimal, nodes),
        tier_pick(exact, stored_hash(b)) is Some,
    ensures
        r.method == ResolutionMethod::Exact,
{
}

/// Tiers are tried in order: a relaxed result means the exact query did not
/// settle; a hash-fallback result means no query tier settled; and a failed
/// resolution means no query tier settled and no named node hashes to the
/// stored hash.
pub proof fn lemma_tiers_in_order(
    r: ResolutionResult,
    b: Bookmark,
    source: Seq<char>,
    language: Language,
    exact: Option<TierMatches>,
    relaxed: Option<TierMatches>,
    minimal: Option<TierMatches>,
    nodes: Seq<NamedNode>,
)
    requires
        resolve_spec(r, b, source, language, exact, relaxed, minimal, nodes),
    ensures
        r.method == ResolutionMethod::Relaxed ==> tier_pick(exact, stored_hash(b)) is None,
        r.method == ResolutionMethod::HashFallback ==> {
            &&& tier_pick(exact, stored_hash(b)) is None
            &&& tier_pick(relaxed, stored_hash(b)) is None
            &&& tier_pick(minimal, stored_hash(b)) is None
        },
        r.method == ResolutionMethod::Failed <==> {
            &&& tier_pick(exact, stored_hash(b)) is None
            &&& tier_pick(relaxed, stored_hash(b)) is None
            &&& tier_pick(minimal, stored_hash(b)) is None
            &&& (stored_hash(b) is None || first_hash_from(
                node_texts(nodes),
                stored_hash(b).unwrap(),
                0,
            ) is None)
        },
{
}

/// `hash_matches` says exactly that resolution found something and that the
/// content hash of the matched text is the bookmark's stored hash; the
/// reported content hash is that of the matched text.
pub proof fn lemma_hash_matches_iff(
    r: ResolutionResult,
    b: Bookmark,
    source: Seq<char>,
    language: Language,
    exact: Option<TierMatches>,
    relaxed: Option<TierMatches>,
    minimal: Option<TierMatches>,
    nodes: Seq<NamedNode>,
)
    requires
        resolve_spec(r, b, source, language, exact, relaxed, minimal, nodes),
    ensures
        r.hash_matches == (r.method != ResolutionMethod::Failed && stored_hash(b) == Some(
            content_hash_spec(r.matched_text@),
        )),
        r.method != ResolutionMethod::Failed ==> r.content_hash@ == content_hash_spec(
            r.matched_text@,
        ),
{
}

/// A hash-fallback result always matches the stored hash: the walk only
/// settles on a node whose content hashes to it.
pub proof fn lemma_fallback_matches_hash(
    r: ResolutionResult,
    b: Bookmark,
    source: Seq<char>,
    language: Language,
    exact: Option<TierMatches>,
    relaxed: Option<TierMatches>,
    minimal: Option<TierMatches>,
    nodes: Seq<NamedNode>,
)
    requires
        resolve_spec(r, b, source, language, exact, relaxed, minimal, nodes),
    ensures
        r.method == ResolutionMethod::HashFallback ==> r.hash_matches,
{
    let h = stored_hash(b);
    if r.method == ResolutionMethod::HashFallback {
        let texts = node_texts(nodes);
        lemma_first_hash_from(texts, h.unwrap(), 0);
        let k = first_hash_from(texts, h.unwrap(), 0).unwrap();
        assert(texts[k] == nodes[k].text@);
    }
}

/// The transient form of a resolution result, for live previews.
pub fn transient_from(result: ResolutionResult) -> (r: TransientResolution)
    ensures
        r.method == result.method,
        r.file_path == result.file_path,
        r.start_line == result.start_line,
        r.end_line == result.end_line,
        r.matched_text == result.matched_text,
        r.content_hash == result.content_hash,
        r.hash_matches == result.hash_matches,
        r.breadcrumbs == result.breadcrumbs,
{
    TransientResolution {
        method: result.method,
        file_path: result.file_path,
        start_line: result.start_line,
        end_line: result.end_line,
        matched_text: result.matched_text,
        content_hash: result.content_hash,
        hash_matches: result.hash_matches,
        breadcrumbs: result.breadcrumbs,
    }
}

// ---------------------------------------------------------------------------
// Resolving against a parsed file
// ---------------------------------------------------------------------------

/// The last node before position `k` at depth `d`.
pub open spec fn last_at_depth(nodes: Seq<TreeNode>, k: int, d: int) -> Option<int>
    decreases k,
{
    if k <= 0 {
        None
    } else if nodes[k - 1].depth == d {
        Some(k - 1)
    } else {
        last_at_depth(nodes, k - 1, d)
    }
}

/// Kind and start row of a node.
pub open spec fn kind_row(n: TreeNode) -> (Seq<char>, usize) {
    (n.kind@, n.start_point.0)
}

/// The ancestors of the node at `k` in a preorder walk, nearest first: for
/// each shallower depth, the last node before it at that depth.
pub open spec fn ancestors_spec(nodes: Seq<TreeNode>, k: int) -> Seq<(Seq<char>, usize)> {
    let d = nodes[k].depth as int;
    Seq::new(d as nat, |i: int| kind_row(nodes[last_at_depth(nodes, k, d - 1 - i).unwrap()]))
}

/// A chain of (kind, row) pairs, by view.
pub open spec fn chain_view(c: Seq<(String, usize)>) -> Seq<(Seq<char>, usize)> {
    c.map_values(|a: (String, usize)| (a.0@, a.1))
}

/// Whether `p` holds, level by level, the last node before position `k` at
/// each depth.
pub open spec fn stack_ok(nodes: Seq<TreeNode>, k: int, p: Seq<(Seq<char>, usize)>) -> bool {
    forall|l: int| 0 <= l < p.len() ==> #[trigger] level_ok(nodes, k, p, l)
}

/// Whether level `l` of `p` holds the last node before position `k` at
/// depth `l`.
pub open spec fn level_ok(nodes: Seq<TreeNode>, k: int, p: Seq<(Seq<char>, usize)>, l: int) -> bool {
    &&& last_at_depth(nodes, k, l) is Some
    &&& p[l] == kind_row(nodes[last_at_depth(nodes, k, l).unwrap()])
}

/// The ancestors (kind and start row, nearest first) of every node of
/// `nodes`: the path from the root to each node, read from the nodes before
/// it. For a preorder walk with depths this is [`ancestors_spec`].
fn all_ancestors(nodes: &Vec<TreeNode>) -> (r: Vec<Vec<(String, usize)>>)
    ensures
        r@.len() == nodes@.len(),
        preorder_wf(nodes@) ==> forall|k: int|
            0 <= k < nodes@.len() ==> chain_view((#[trigger] r@[k])@) == ancestors_spec(nodes@, k),
{
    let ghost w = preorder_wf(nodes@);
    let ghost ns = nodes@;
    let mut path: Vec<(String, usize)> = Vec::new();
    let mut out: Vec<Vec<(String, usize)>> = Vec::new();
    let mut k: usize = 0;
    while k < nodes.len()
        invariant
            k <= nodes.len(),
            ns == nodes@,
            w == preorder_wf(ns),
            out@.len() == k,
            w ==> forall|j: int| 0 <= j < k ==> chain_view((#[trigger] out@[j])@) == ancestors_spec(ns, j),
            w && k == 0 ==> path@.len() == 0,
            w && k > 0 ==> path@.len() == ns[k - 1].depth + 1,
            w ==> stack_ok(ns, k as int, chain_view(path@)),
        decreases nodes.len() - k,
    {
        let d = nodes[k].depth;
        let ghost before = path@;
        proof {
            if w && k > 0 {
                assert(ns[k as int].depth <= ns[k - 1].depth + 1);
            }
        }
        while path.len() > d
            invariant
                path@.len() <= before.len(),
                path@ == before.take(path@.len() as int),
                w ==> path@.len() >= d,
            decreases path.len(),
        {
            path.pop();
        }
        proof {
            if w {
                assert(path@.len() == d);
                assert(chain_view(path@) =~= chain_view(before).take(d as int));
            }
        }
        let mut anc: Vec<(String, usize)> = Vec::new();
        let mut j = path.len();
        while j > 0
            invariant
                j <= path@.len(),
                anc@.len() == path@.len() - j,
                forall|i: int|
                    0 <= i < anc@.len() ==> (#[trigger] anc@[i]).0@ == path@[path@.len() - 1 - i].0@
                        && anc@[i].1 == path@[path@.len() - 1 - i].1,
            decreases j,
        {
            j = j - 1;
            anc.push((path[j].0.clone(), path[j].1));
        }
        proof {
            if w {
                let cp = chain_view(path@);
                assert forall|i: int| 0 <= i < anc@.len() implies chain_view(anc@)[i] == ancestors_spec(
                    ns,
                    k as int,
                )[i] by {
                    let l = d - 1 - i;
                    assert(cp[l] == chain_view(before)[l]);
                    assert(level_ok(ns, k as int, chain_view(before), l));
                    assert(chain_view(anc@)[i] == cp[l]);
                }
                assert(chain_view(anc@) =~= ancestors_spec(ns, k as int));
            }
        }
        let ghost prev_out = out@;
        out.push(anc);
        let ghost popped = chain_view(path@);
        path.push((nodes[k].kind.clone(), nodes[k].start_point.0));
        proof {
            if w {
                let k1: int = k + 1;
                let cp = chain_view(path@);
                assert(cp =~= popped.push(kind_row(ns[k as int])));
                assert forall|l: int| 0 <= l < cp.len() implies #[trigger] level_ok(ns, k1, cp, l) by {
                    if l < d {
                        assert(popped[l] == chain_view(before)[l]);
                        assert(level_ok(ns, k as int, chain_view(before), l));
                        assert(last_at_depth(ns, k as int, l) is Some);
                        assert(last_at_depth(ns, k1, l) == last_at_depth(ns, k as int, l));
                    } else {
                        assert(last_at_depth(ns, k1, l) == Some(k as int));
                    }
                }
                assert(stack_ok(ns, k1, cp));
                assert forall|jj: int| 0 <= jj < k1 implies chain_view(
                    (#[trigger] out@[jj])@,
                ) == ancestors_spec(ns, jj) by {
                    if jj < k {
                        assert(out@[jj] == prev_out[jj]);
                    }
                }
            }
        }
        k = k + 1;
    }
    out
}

/// Whether `anc` holds, for a preorder walk, the ancestors of each node.
pub open spec fn ancestors_table_ok(nodes: Seq<TreeNode>, anc: Seq<Vec<(String, usize)>>) -> bool {
    &&& anc.len() == nodes.len()
    &&& preorder_wf(nodes) ==> forall|k: int|
        0 <= k < nodes.len() ==> chain_view((#[trigger] anc[k])@) == ancestors_spec(nodes, k)
}

/// The ancestors (kind and start row, nearest first) of the node at
/// position `at` of `nodes`, a walk of a parsed file in preorder with
/// depths; empty when there is no position or no node there.
pub fn ancestors_at(nodes: &Vec<TreeNode>, at: Option<usize>) -> (r: Vec<(String, usize)>)
    ensures
        at is Some && at.unwrap() < nodes@.len() && preorder_wf(nodes@) ==> chain_view(r@)
            == ancestors_spec(nodes@, at.unwrap() as int),
        !(at is Some && at.unwrap() < nodes@.len()) ==> r@.len() == 0,
{
    let anc = all_ancestors(nodes);
    ancestors_of_at(nodes, &anc, at)
}

/// [`ancestors_at`] with the ancestors of every node at hand.
fn ancestors_of_at(nodes: &Vec<TreeNode>, anc: &Vec<Vec<(String, usize)>>, at: Option<usize>) -> (r: Vec<
    (String, usize),
>)
    requires
        ancestors_table_ok(nodes@, anc@),
    ensures
        at is Some && at.unwrap() < nodes@.len() && preorder_wf(nodes@) ==> chain_view(r@)
            == ancestors_spec(nodes@, at.unwrap() as int),
        !(at is Some && at.unwrap() < nodes@.len()) ==> r@.len() == 0,
{
    match at {
        Some(i) => if i < nodes.len() {
            let r = copy_ancestors(&anc[i]);
            assert(chain_view(r@) =~= chain_view(anc@[i as int]@));
            r
        } else {
            Vec::new()
        },
        None => Vec::new(),
    }
}

/// A node of a parse as [`spanning_node`] reads one.
pub open spec fn tuple5(t: (Seq<char>, bool, (usize, usize), (usize, usize), (usize, usize), usize)) -> (
    Seq<char>,
    bool,
    (usize, usize),
    (usize, usize),
    (usize, usize),
) {
    (t.0, t.1, t.2, t.3, t.4)
}

/// The last position below `k` of a node of the parse `pn` that reads as
/// `v`: the deepest, when several nested nodes read alike.
pub open spec fn last_with_view(
    pn: Seq<(Seq<char>, bool, (usize, usize), (usize, usize), (usize, usize), usize)>,
    v: (Seq<char>, bool, (usize, usize), (usize, usize), (usize, usize)),
    k: int,
) -> Option<int>
    decreases k,
{
    if k <= 0 {
        None
    } else if tuple5(pn[k - 1]) == v {
        Some(k - 1)
    } else {
        last_with_view(pn, v, k - 1)
    }
}

/// The last node before position `k` of the parse `pn` at depth `d`.
pub open spec fn parse_last_at_depth(
    pn: Seq<(Seq<char>, bool, (usize, usize), (usize, usize), (usize, usize), usize)>,
    k: int,
    d: int,
) -> Option<int>
    decreases k,
{
    if k <= 0 {
        None
    } else if pn[k - 1].5 == d {
        Some(k - 1)
    } else {
        parse_last_at_depth(pn, k - 1, d)
    }
}

/// The ancestors (kind and start row, nearest first) of the node at `k` of
/// the parse `pn`: for each shallower depth, the last node before it at that
/// depth.
pub open spec fn parse_ancestors(
    pn: Seq<(Seq<char>, bool, (usize, usize), (usize, usize), (usize, usize), usize)>,
    k: int,
) -> Seq<(Seq<char>, usize)> {
    let d = pn[k].5 as int;
    Seq::new(
        d as nat,
        |i: int| {
            let a = pn[parse_last_at_depth(pn, k, d - 1 - i).unwrap()];
            (a.0, a.3.0)
        },
    )
}

/// The ancestors (kind and start row, nearest first) of the node that
/// tree-sitter finds spanning `start..end` ([`spanning_node`]) in the parse
/// of `source` with the grammar named `grammar`; empty when it finds none.
pub open spec fn spanning_ancestors(grammar: Seq<char>, source: Seq<u8>, start: usize, end: usize) -> Seq<
    (Seq<char>, usize),
> {
    let pn = parse_nodes(grammar, source);
    match spanning_node(grammar, source, start, end) {
        None => seq![],
        Some(v) => match last_with_view(pn, v, pn.len() as int) {
            None => seq![],
            Some(k) => parse_ancestors(pn, k),
        },
    }
}

/// A walk of a parse reads its ancestors as the parse does.
proof fn lemma_walk_ancestors(nodes: Seq<TreeNode>, k: int)
    requires
        0 <= k < nodes.len(),
        preorder_wf(nodes),
    ensures
        ancestors_spec(nodes, k) == parse_ancestors(nodes.map_values(|n: TreeNode| node_tuple(n)), k),
{
    let pn = nodes.map_values(|n: TreeNode| node_tuple(n));
    let d = nodes[k].depth as int;
    assert(pn[k] == node_tuple(nodes[k]));
    assert forall|i: int| 0 <= i < d implies #[trigger] ancestors_spec(nodes, k)[i] == parse_ancestors(pn, k)[i] by {
        lemma_walk_last_at_depth(nodes, k, d - 1 - i);
        lemma_shallower_found(nodes, k, d - 1 - i);
        lemma_last_at_depth_range(nodes, k, d - 1 - i);
        let j = last_at_depth(nodes, k, d - 1 - i).unwrap();
        assert(pn[j] == node_tuple(nodes[j]));
    }
    assert(ancestors_spec(nodes, k) =~= parse_ancestors(pn, k));
}

proof fn lemma_walk_last_at_depth(nodes: Seq<TreeNode>, k: int, d: int)
    requires
        k <= nodes.len(),
    ensures
        last_at_depth(nodes, k, d) == parse_last_at_depth(nodes.map_values(|n: TreeNode| node_tuple(n)), k, d),
    decreases k,
{
    if k > 0 {
        assert(nodes.map_values(|n: TreeNode| node_tuple(n))[k - 1] == node_tuple(nodes[k - 1]));
        lemma_walk_last_at_depth(nodes, k - 1, d);
    }
}

/// In a preorder walk, every depth above a node's has a node before it.
proof fn lemma_shallower_found(nodes: Seq<TreeNode>, k: int, l: int)
    requires
        preorder_wf(nodes),
        0 <= k < nodes.len(),
        0 <= l < nodes[k].depth,
    ensures
        last_at_depth(nodes, k, l) is Some,
    decreases k,
{
    if k > 0 {
        assert(nodes[k].depth <= nodes[k - 1].depth + 1);
        if nodes[k - 1].depth != l {
            lemma_shallower_found(nodes, k - 1, l);
        }
    }
}

proof fn lemma_last_at_depth_range(nodes: Seq<TreeNode>, k: int, d: int)
    ensures
        last_at_depth(nodes, k, d) matches Some(j) ==> 0 <= j < k,
    decreases k,
{
    if k > 0 {
        lemma_last_at_depth_range(nodes, k - 1, d);
    }
}

/// The last position of a node of `nodes` that reads as `v`.
fn position_of_view(nodes: &Vec<TreeNode>, v: &(String, bool, (usize, usize), (usize, usize), (usize, usize))) -> (r:
    Option<usize>)
    ensures
        r matches Some(i) ==> i < nodes@.len(),
        opt_int(r) == last_with_view(
            nodes@.map_values(|n: TreeNode| node_tuple(n)),
            (v.0@, v.1, v.2, v.3, v.4),
            nodes@.len() as int,
        ),
{
    let ghost pn = nodes@.map_values(|n: TreeNode| node_tuple(n));
    let ghost w = (v.0@, v.1, v.2, v.3, v.4);
    let mut k: usize = nodes.len();
    while k > 0
        invariant
            k <= nodes@.len(),
            pn == nodes@.map_values(|n: TreeNode| node_tuple(n)),
            w == (v.0@, v.1, v.2, v.3, v.4),
            last_with_view(pn, w, nodes@.len() as int) == last_with_view(pn, w, k as int),
        decreases k,
    {
        let n = &nodes[k - 1];
        assert(pn[k - 1] == node_tuple(nodes@[k - 1]));
        if same_text(n.kind.as_str(), v.0.as_str()) && n.is_named == v.1 && n.byte_range.0 == v.2.0
            && n.byte_range.1 == v.2.1 && n.start_point.0 == v.3.0 && n.start_point.1 == v.3.1
            && n.end_point.0 == v.4.0 && n.end_point.1 == v.4.1 {
            return Some(k - 1);
        }
        k = k - 1;
    }
    None
}

/// An optional position as an integer.
pub open spec fn opt_int(o: Option<usize>) -> Option<int> {
    match o {
        Some(i) => Some(i as int),
        None => None,
    }
}

/// The ancestors of the node tree-sitter finds spanning `start..end`, with
/// the ancestors of every node of the walk at hand.
fn spanning_ancestors_in(
    st: &SourceTree,
    nodes: &Vec<TreeNode>,
    anc: &Vec<Vec<(String, usize)>>,
    start: usize,
    end: usize,
) -> (r: Vec<(String, usize)>)
    requires
        nodes@.map_values(|n: TreeNode| node_tuple(n)) == parse_nodes(st.name_spec(), st.source_spec()),
        preorder_wf(nodes@),
        ancestors_table_ok(nodes@, anc@),
    ensures
        chain_view(r@) == spanning_ancestors(st.name_spec(), st.source_spec(), start, end),
{
    let found = find_spanning_node(st, start, end);
    let at = match &found {
        Some(v) => position_of_view(nodes, v),
        None => None,
    };
    let r = ancestors_of_at(nodes, anc, at);
    proof {
        if let Some(i) = at {
            lemma_walk_ancestors(nodes@, i as int);
        }
    }
    r
}

/// The ancestors (kind and start row, nearest first) of the node that
/// tree-sitter finds spanning `start..end` in the parse in `st`
/// (`Node::descendant_for_byte_range`, named by [`spanning_node`]); empty
/// when it finds none.
pub fn range_ancestors(st: &SourceTree, start: usize, end: usize) -> (r: Vec<(String, usize)>)
    ensures
        chain_view(r@) == spanning_ancestors(st.name_spec(), st.source_spec(), start, end),
{
    let nodes = source_tree_nodes(st);
    let anc = all_ancestors(&nodes);
    spanning_ancestors_in(st, &nodes, &anc, start, end)
}

/// A copy of an ancestor chain.
fn copy_ancestors(a: &Vec<(String, usize)>) -> (r: Vec<(String, usize)>)
    ensures
        r@.len() == a@.len(),
        forall|i: int| 0 <= i < r@.len() ==> (#[trigger] r@[i]).0@ == a@[i].0@ && r@[i].1 == a@[i].1,
{
    let mut out: Vec<(String, usize)> = Vec::new();
    let mut i: usize = 0;
    while i < a.len()
        invariant
            i <= a.len(),
            out@.len() == i,
            forall|k: int| 0 <= k < i ==> (#[trigger] out@[k]).0@ == a@[k].0@ && out@[k].1 == a@[k].1,
        decreases a.len() - i,
    {
        out.push((a[i].0.clone(), a[i].1));
        i = i + 1;
    }
    out
}

/// The text of `source` in `range`; empty when the range does not lie in it.
fn range_text_of(source: &[u8], range: (usize, usize)) -> (r: String)
    ensures
        r@ == range_text_spec(source@, range),
{
    if range.0 <= range.1 && range.1 <= source.len() {
        match utf8_text(source, range.0, range.1) {
            Some(t) => t,
            None => string_of_empty(),
        }
    } else {
        string_of_empty()
    }
}

/// The empty text.
fn string_of_empty() -> (r: String)
    ensures
        r@ == Seq::<char>::empty(),
{
    crate::text::string_of(&Vec::new())
}

/// A named node by value: text, byte range, start and end points, and
/// ancestor chain.
pub open spec fn named_view(n: NamedNode) -> (
    Seq<char>,
    (usize, usize),
    (usize, usize),
    (usize, usize),
    Seq<(Seq<char>, usize)>,
) {
    (n.text@, n.byte_range, n.start_point, n.end_point, chain_view(n.ancestors@))
}

/// The named nodes among the first `k` of `nodes`, in walk order: each with
/// its text in `source` and its ancestor chain from `anc`.
pub open spec fn named_nodes_spec(
    nodes: Seq<TreeNode>,
    anc: Seq<Vec<(String, usize)>>,
    source: Seq<u8>,
    k: int,
) -> Seq<(Seq<char>, (usize, usize), (usize, usize), (usize, usize), Seq<(Seq<char>, usize)>)>
    decreases k,
{
    if k <= 0 {
        seq![]
    } else {
        let before = named_nodes_spec(nodes, anc, source, k - 1);
        let n = nodes[k - 1];
        if n.is_named {
            before.push(
                (
                    range_text_spec(source, n.byte_range),
                    n.byte_range,
                    n.start_point,
                    n.end_point,
                    kept_chain(anc[k - 1]@),
                ),
            )
        } else {
            before
        }
    }
}

/// Every row of an ancestor chain is below `usize::MAX`.
pub open spec fn chain_fits(c: Seq<(String, usize)>) -> bool {
    forall|k: int| 0 <= k < c.len() ==> #[trigger] c[k].1 < usize::MAX
}

/// An ancestor chain by value, or none when a row reaches `usize::MAX`.
pub open spec fn kept_chain(c: Seq<(String, usize)>) -> Seq<(Seq<char>, usize)> {
    if chain_fits(c) {
        chain_view(c)
    } else {
        seq![]
    }
}

/// The named nodes among the first `k` nodes of a parse `pn`, in order:
/// each with its text in `source`, byte range, start and end, and its
/// ancestors (none when a row of them reaches `usize::MAX`).
pub open spec fn named_parse_views(
    pn: Seq<(Seq<char>, bool, (usize, usize), (usize, usize), (usize, usize), usize)>,
    source: Seq<u8>,
    k: int,
) -> Seq<(Seq<char>, (usize, usize), (usize, usize), (usize, usize), Seq<(Seq<char>, usize)>)>
    decreases k,
{
    if k <= 0 {
        seq![]
    } else {
        let before = named_parse_views(pn, source, k - 1);
        let n = pn[k - 1];
        if n.1 {
            before.push((range_text_spec(source, n.2), n.2, n.3, n.4, kept_rows(parse_ancestors(pn, k - 1))))
        } else {
            before
        }
    }
}

/// The named nodes by value.
pub open spec fn node_views(nodes: Seq<NamedNode>) -> Seq<
    (Seq<char>, (usize, usize), (usize, usize), (usize, usize), Seq<(Seq<char>, usize)>),
> {
    nodes.map_values(|n: NamedNode| named_view(n))
}

/// A chain kept when its rows fit, by value.
proof fn lemma_kept_chain(c: Seq<(String, usize)>)
    ensures
        kept_chain(c) == kept_rows(chain_view(c)),
{
    let v = chain_view(c);
    if chain_fits(c) {
        assert forall|k: int| 0 <= k < v.len() implies #[trigger] v[k].1 < usize::MAX by {
            assert(c[k].1 < usize::MAX);
        }
    } else {
        let k = choose|k: int| 0 <= k < c.len() && !(#[trigger] c[k].1 < usize::MAX);
        assert(v[k].1 == c[k].1);
    }
}

/// The named nodes of a walk are those of the parse the walk reads.
proof fn lemma_named_parse_views(nodes: Seq<TreeNode>, anc: Seq<Vec<(String, usize)>>, source: Seq<u8>, k: int)
    requires
        0 <= k <= nodes.len(),
        preorder_wf(nodes),
        ancestors_table_ok(nodes, anc),
    ensures
        named_nodes_spec(nodes, anc, source, k) == named_parse_views(
            nodes.map_values(|n: TreeNode| node_tuple(n)),
            source,
            k,
        ),
    decreases k,
{
    if k > 0 {
        lemma_named_parse_views(nodes, anc, source, k - 1);
        let pn = nodes.map_values(|n: TreeNode| node_tuple(n));
        assert(pn[k - 1] == node_tuple(nodes[k - 1]));
        lemma_walk_ancestors(nodes, k - 1);
        lemma_kept_chain(anc[k - 1]@);
    }
}

/// The named nodes of a parsed file in walk order, with their texts and
/// ancestors.
fn named_nodes(nodes: &Vec<TreeNode>, anc: &Vec<Vec<(String, usize)>>, source: &[u8]) -> (r: Vec<
    NamedNode,
>)
    requires
        anc@.len() == nodes@.len(),
    ensures
        r@.map_values(|n: NamedNode| named_view(n)) == named_nodes_spec(
            nodes@,
            anc@,
            source@,
            nodes@.len() as int,
        ),
        forall|i: int| 0 <= i < r@.len() ==> #[trigger] node_rows_ok(r@[i]),
{
    let mut out: Vec<NamedNode> = Vec::new();
    let mut i: usize = 0;
    while i < nodes.len()
        invariant
            i <= nodes.len(),
            anc@.len() == nodes@.len(),
            forall|k: int| 0 <= k < out@.len() ==> #[trigger] node_rows_ok(out@[k]),
            out@.map_values(|n: NamedNode| named_view(n)) == named_nodes_spec(
                nodes@,
                anc@,
                source@,
                i as int,
            ),
        decreases nodes.len() - i,
    {
        let n = &nodes[i];
        if n.is_named {
            let ancestors = if chain_rows_ok(&anc[i]) {
                copy_ancestors(&anc[i])
            } else {
                Vec::new()
            };
            assert(chain_view(ancestors@) =~= kept_chain(anc@[i as int]@));
            let ghost prev = out@;
            out.push(
                NamedNode {
                    text: range_text_of(source, n.byte_range),
                    byte_range: n.byte_range,
                    start_point: n.start_point,
                    end_point: n.end_point,
                    ancestors,
                },
            );
            assert(out@.map_values(|n: NamedNode| named_view(n)) =~= prev.map_values(
                |n: NamedNode| named_view(n),
            ).push(named_view(out@[prev.len() as int])));
        }
        i = i + 1;
    }
    out
}

/// Whether every row of an ancestor chain is below `usize::MAX`.
fn chain_rows_ok(a: &Vec<(String, usize)>) -> (b: bool)
    ensures
        b == forall|k: int| 0 <= k < a@.len() ==> #[trigger] a@[k].1 < usize::MAX,
{
    let mut i: usize = 0;
    while i < a.len()
        invariant
            i <= a.len(),
            forall|k: int| 0 <= k < i ==> #[trigger] a@[k].1 < usize::MAX,
        decreases a.len() - i,
    {
        if a[i].1 == usize::MAX {
            return false;
        }
        i = i + 1;
    }
    true
}

/// Whether every sticky capture of a match starts on a row below
/// `usize::MAX`.
fn capture_rows_ok(m: &MatchResult) -> (b: bool)
    ensures
        b == forall|i: int| 0 <= i < m.captures@.len() ==> #[trigger] m.captures@[i].2 < usize::MAX,
{
    let mut i: usize = 0;
    while i < m.captures.len()
        invariant
            i <= m.captures.len(),
            forall|k: int| 0 <= k < i ==> #[trigger] m.captures@[k].2 < usize::MAX,
        decreases m.captures.len() - i,
    {
        if m.captures[i].2 == usize::MAX {
            return false;
        }
        i = i + 1;
    }
    true
}

/// The matches of a tier by value, in order.
pub open spec fn tier_views(tm: TierMatches) -> Seq<
    (Seq<char>, (usize, usize), (usize, usize), (usize, usize), Seq<(Seq<char>, (usize, usize), usize)>),
> {
    tm.matches@.map_values(|m: MatchResult| match_view(m))
}

/// Every sticky capture of every match starts on a row below `usize::MAX`.
pub open spec fn views_rows_ok(
    vs: Seq<(Seq<char>, (usize, usize), (usize, usize), (usize, usize), Seq<(Seq<char>, (usize, usize), usize)>)>,
) -> bool {
    forall|k: int, i: int| 0 <= k < vs.len() && 0 <= i < vs[k].4.len() ==> #[trigger] vs[k].4[i].2 < usize::MAX
}

/// Whether the query text `query` runs for the grammar named `grammar`: it
/// compiles and has a `@target` capture.
pub open spec fn query_runs(grammar: Seq<char>, query: Seq<char>) -> bool {
    query_compiles(grammar, query) && query_has_capture_named(grammar, query, "target"@)
}

/// Whether `t` is the tier that `query` gives on the parse of `source` with
/// the grammar named `grammar`: none when the query does not run; else its
/// matches are those tree-sitter gives, each read as [`tuple_match`], and
/// the tier is there unless a sticky capture's row reaches `usize::MAX`.
pub open spec fn tier_fits_query(t: Option<TierMatches>, grammar: Seq<char>, source: Seq<u8>, query: Seq<char>) -> bool {
    let views = match_views(query_matches(grammar, source, query), source);
    &&& !query_runs(grammar, query) ==> t is None
    &&& query_runs(grammar, query) && views_rows_ok(views) ==> t is Some
    &&& t matches Some(tm) ==> tier_views(tm) == views
    &&& t matches Some(tm) ==> tier_ancestors_fit(tm, grammar, source)
}

/// A chain of ancestors by value, or none when a row reaches `usize::MAX`.
pub open spec fn kept_rows(c: Seq<(Seq<char>, usize)>) -> Seq<(Seq<char>, usize)> {
    if forall|k: int| 0 <= k < c.len() ==> #[trigger] c[k].1 < usize::MAX {
        c
    } else {
        seq![]
    }
}

/// Each match of a tier carries the ancestors of the node tree-sitter finds
/// spanning its byte range ([`spanning_ancestors`]), or none when a row of
/// them reaches `usize::MAX`.
pub open spec fn tier_ancestors_fit(tm: TierMatches, grammar: Seq<char>, source: Seq<u8>) -> bool {
    &&& tm.ancestors@.len() == tm.matches@.len()
    &&& forall|i: int|
        0 <= i < tm.matches@.len() ==> chain_view((#[trigger] tm.ancestors@[i])@) == kept_rows(
            spanning_ancestors(grammar, source, tm.matches@[i].byte_range.0, tm.matches@[i].byte_range.1),
        )
}

/// [`tier_fits_query`] for a query that may be missing (`None` gives no
/// tier).
pub open spec fn opt_tier_fits(t: Option<TierMatches>, grammar: Seq<char>, source: Seq<u8>, query: Option<Seq<char>>) -> bool {
    match query {
        Some(q) => tier_fits_query(t, grammar, source, q),
        None => t is None,
    }
}

/// The matches of one tier with the ancestors of each matched node; `None`
/// when the query does not run, or when a sticky capture's row reaches
/// `usize::MAX`. A chain of ancestors with a row at `usize::MAX` is left
/// empty.
fn tier_of(
    query: &str,
    st: &SourceTree,
    nodes: &Vec<TreeNode>,
    anc: &Vec<Vec<(String, usize)>>,
) -> (r: Option<TierMatches>)
    requires
        ancestors_table_ok(nodes@, anc@),
        nodes@.map_values(|n: TreeNode| node_tuple(n)) == parse_nodes(st.name_spec(), st.source_spec()),
        preorder_wf(nodes@),
    ensures
        tier_ok(r),
        tier_texts_fit(r, st.source_spec()),
        tier_fits_query(r, st.name_spec(), st.source_spec(), query@),
{
    let matches = match run_query(query, st) {
        Ok(m) => m,
        Err(_) => {
            return None;
        },
    };
    let ghost views = match_views(query_matches(st.name_spec(), st.source_spec(), query@), st.source_spec());
    assert(matches@.map_values(|m: MatchResult| match_view(m)) == views);
    let mut ancestors: Vec<Vec<(String, usize)>> = Vec::new();
    let mut i: usize = 0;
    while i < matches.len()
        invariant
            i <= matches.len(),
            ancestors_table_ok(nodes@, anc@),
            nodes@.map_values(|n: TreeNode| node_tuple(n)) == parse_nodes(st.name_spec(), st.source_spec()),
            preorder_wf(nodes@),
            ancestors@.len() == i,
            forall|k: int| 0 <= k < i ==> rows_bounded(#[trigger] matches@[k], ancestors@[k]@),
            forall|k: int|
                0 <= k < i ==> chain_view((#[trigger] ancestors@[k])@) == kept_rows(
                    spanning_ancestors(
                        st.name_spec(),
                        st.source_spec(),
                        matches@[k].byte_range.0,
                        matches@[k].byte_range.1,
                    ),
                ),
            matches@.map_values(|m: MatchResult| match_view(m)) == views,
            views == match_views(query_matches(st.name_spec(), st.source_spec(), query@), st.source_spec()),
        decreases matches.len() - i,
    {
        let m = &matches[i];
        if !capture_rows_ok(m) {
            proof {
                let j = choose|j: int| 0 <= j < m.captures@.len() && !(#[trigger] m.captures@[j].2 < usize::MAX);
                assert(views[i as int] == match_view(matches@[i as int]));
                assert(views[i as int].4[j] == (m.captures@[j].0@, m.captures@[j].1, m.captures@[j].2));
                assert(!(views[i as int].4[j].2 < usize::MAX));
                assert(!views_rows_ok(views));
            }
            return None;
        }
        let found = spanning_ancestors_in(st, nodes, anc, m.byte_range.0, m.byte_range.1);
        let ok = chain_rows_ok(&found);
        let a = if ok {
            found
        } else {
            Vec::new()
        };
        proof {
            let c = chain_view(found@);
            if ok {
                assert forall|k: int| 0 <= k < c.len() implies #[trigger] c[k].1 < usize::MAX by {
                    assert(found@[k].1 < usize::MAX);
                }
            } else {
                let k = choose|k: int| 0 <= k < found@.len() && !(#[trigger] found@[k].1 < usize::MAX);
                assert(c[k].1 == found@[k].1);
                assert(chain_view(a@) =~= seq![]);
            }
        }
        let ghost prev = ancestors@;
        ancestors.push(a);
        proof {
            assert forall|k: int| 0 <= k < i + 1 implies chain_view((#[trigger] ancestors@[k])@) == kept_rows(
                spanning_ancestors(st.name_spec(), st.source_spec(), matches@[k].byte_range.0, matches@[k].byte_range.1),
            ) by {
                if k < i {
                    assert(ancestors@[k] == prev[k]);
                }
            }
        }
        i = i + 1;
    }
    Some(TierMatches { matches, ancestors })
}

/// Every match of a tier reports the text of `source` in its byte range.
pub open spec fn tier_texts_fit(t: Option<TierMatches>, source: Seq<u8>) -> bool {
    t matches Some(tm) ==> forall|i: int|
        0 <= i < tm.matches@.len() ==> (#[trigger] tm.matches@[i]).node_text@ == range_text_spec(
            source,
            tm.matches@[i].byte_range,
        )
}

/// Every named node reports the text of `source` in its byte range.
pub open spec fn nodes_texts_fit(nodes: Seq<NamedNode>, source: Seq<u8>) -> bool {
    forall|i: int| 0 <= i < nodes.len() ==> (#[trigger] nodes[i]).text@ == range_text_spec(source, nodes[i].byte_range)
}

/// The named nodes of [`named_nodes_spec`] carry the text of their range.
proof fn lemma_named_nodes_spec_texts(
    nodes: Seq<TreeNode>,
    anc: Seq<Vec<(String, usize)>>,
    source: Seq<u8>,
    k: int,
)
    ensures
        forall|i: int|
            0 <= i < named_nodes_spec(nodes, anc, source, k).len() ==> (#[trigger] named_nodes_spec(
                nodes,
                anc,
                source,
                k,
            )[i]).0 == range_text_spec(source, named_nodes_spec(nodes, anc, source, k)[i].1),
    decreases k,
{
    if k > 0 {
        lemma_named_nodes_spec_texts(nodes, anc, source, k - 1);
        let before = named_nodes_spec(nodes, anc, source, k - 1);
        let cur = named_nodes_spec(nodes, anc, source, k);
        assert forall|i: int| 0 <= i < cur.len() implies (#[trigger] cur[i]).0 == range_text_spec(
            source,
            cur[i].1,
        ) by {
            if i < before.len() {
                assert(cur[i] == before[i]);
            }
        }
    }
}

/// A resolution that found something reports the text of the source in its
/// byte range, when every tier's matches and every named node do.
proof fn lemma_resolved_text_fits(
    r: ResolutionResult,
    b: Bookmark,
    source: Seq<char>,
    language: Language,
    exact: Option<TierMatches>,
    relaxed: Option<TierMatches>,
    minimal: Option<TierMatches>,
    nodes: Seq<NamedNode>,
    bytes: Seq<u8>,
)
    requires
        resolve_spec(r, b, source, language, exact, relaxed, minimal, nodes),
        tier_ok(exact),
        tier_ok(relaxed),
        tier_ok(minimal),
        tier_texts_fit(exact, bytes),
        tier_texts_fit(relaxed, bytes),
        tier_texts_fit(minimal, bytes),
        nodes_texts_fit(nodes, bytes),
    ensures
        r.method != ResolutionMethod::Failed ==> r.matched_text@ == range_text_spec(bytes, r.byte_range),
{
    let h = stored_hash(b);
    if tier_pick(exact, h) is Some {
        lemma_tier_pick_range(exact, h);
    } else if tier_pick(relaxed, h) is Some {
        lemma_tier_pick_range(relaxed, h);
    } else if tier_pick(minimal, h) is Some {
        lemma_tier_pick_range(minimal, h);
    } else if h is Some && first_hash_from(node_texts(nodes), h.unwrap(), 0) is Some {
        lemma_first_hash_from(node_texts(nodes), h.unwrap(), 0);
    }
}

/// A tier's pick lies among its matches.
proof fn lemma_tier_pick_range(t: Option<TierMatches>, h: Option<Seq<char>>)
    ensures
        tier_pick(t, h) matches Some(i) ==> 0 <= i < t.unwrap().matches@.len(),
{
    if let Some(tm) = t {
        if tier_texts(tm).len() != 1 {
            if let Some(x) = h {
                lemma_first_hash_from(tier_texts(tm), x, 0);
            }
        }
    }
}

/// Whether `res` is what [`resolve_with`] picks for the bookmark in
/// `source`, whose UTF-8 bytes `bytes` were parsed with the grammar named
/// `grammar`: the exact tier is what the bookmark's query gives there, the
/// relaxed and minimal tiers what its relaxed and minimal forms give (each
/// match with the ancestors of the node tree-sitter finds spanning it), and
/// the named nodes are those of the parse in order, each with its text and
/// ancestors. The rule reads tiers and nodes only by these values.
pub open spec fn resolved_from(
    res: ResolutionResult,
    b: Bookmark,
    source: Seq<char>,
    registry: LanguageRegistry,
    grammar: Seq<char>,
    bytes: Seq<u8>,
) -> bool {
    exists|e: Option<TierMatches>, x: Option<TierMatches>, m: Option<TierMatches>, nodes: Seq<NamedNode>|
        #![trigger resolve_spec(res, b, source, crumb_language_spec(b.language@, registry), e, x, m, nodes)]
        {
            &&& resolve_spec(res, b, source, crumb_language_spec(b.language@, registry), e, x, m, nodes)
            &&& tier_fits_query(e, grammar, bytes, b.query@)
            &&& opt_tier_fits(x, grammar, bytes, relaxed_query_spec(b.query@))
            &&& opt_tier_fits(m, grammar, bytes, minimal_query_spec(b.query@))
            &&& nodes_texts_fit(nodes, bytes)
            &&& node_views(nodes) == named_parse_views(
                parse_nodes(grammar, bytes),
                bytes,
                parse_nodes(grammar, bytes).len() as int,
            )
        }
}

/// Everything a resolution of `b` against `source` promises, for a parse of
/// its UTF-8 bytes with the grammar named `grammar`.
pub open spec fn resolves_as(
    res: ResolutionResult,
    b: Bookmark,
    source: Seq<char>,
    registry: LanguageRegistry,
    grammar: Seq<char>,
) -> bool {
    &&& resolved_from(res, b, source, registry, grammar, encode_utf8(source))
    &&& res.method != ResolutionMethod::Failed ==> res.matched_text@ == range_text_spec(
        encode_utf8(source),
        res.byte_range,
    )
    &&& res.file_path@ == b.file_path@
    &&& res.hash_matches == (res.method != ResolutionMethod::Failed && stored_hash(b) == Some(
        content_hash_spec(res.matched_text@),
    ))
    &&& res.method != ResolutionMethod::Failed ==> res.content_hash@ == content_hash_spec(res.matched_text@)
}

/// A tier from an optional query: none without one.
fn opt_tier(
    query: &Result<String>,
    st: &SourceTree,
    nodes: &Vec<TreeNode>,
    anc: &Vec<Vec<(String, usize)>>,
) -> (r: Option<TierMatches>)
    requires
        ancestors_table_ok(nodes@, anc@),
        nodes@.map_values(|n: TreeNode| node_tuple(n)) == parse_nodes(st.name_spec(), st.source_spec()),
        preorder_wf(nodes@),
    ensures
        tier_ok(r),
        tier_texts_fit(r, st.source_spec()),
        query matches Ok(q) ==> tier_fits_query(r, st.name_spec(), st.source_spec(), q@),
        query is Err ==> r is None,
{
    match query {
        Ok(q) => tier_of(q.as_str(), st, nodes, anc),
        Err(_) => None,
    }
}

/// Resolve a bookmark in `st`, the parse of `source`'s UTF-8 bytes: run the
/// bookmark's exact, relaxed and minimal queries, and walk the named nodes,
/// then pick as [`resolve_with`] does.
fn resolve_tree(bookmark: &Bookmark, st: &SourceTree, source: &str, registry: &LanguageRegistry) -> (res:
    ResolutionResult)
    requires
        st.source_spec() == encode_utf8(source@),
    ensures
        resolves_as(res, *bookmark, source@, *registry, st.name_spec()),
{
    let bytes = st.source();
    let all = source_tree_nodes(st);
    let anc = all_ancestors(&all);
    let exact = tier_of(bookmark.query.as_str(), st, &all, &anc);
    let rq = relax_query(bookmark.query.as_str());
    let relaxed = opt_tier(&rq, st, &all, &anc);
    let mq = minimize_query(bookmark.query.as_str());
    let minimal = opt_tier(&mq, st, &all, &anc);
    proof {
        assert(opt_tier_fits(relaxed, st.name_spec(), bytes@, relaxed_query_spec(bookmark.query@)));
        assert(opt_tier_fits(minimal, st.name_spec(), bytes@, minimal_query_spec(bookmark.query@)));
    }
    let named = named_nodes(&all, &anc, bytes);
    proof {
        let sp = named_nodes_spec(all@, anc@, bytes@, all@.len() as int);
        lemma_named_nodes_spec_texts(all@, anc@, bytes@, all@.len() as int);
        assert forall|i: int| 0 <= i < named@.len() implies (#[trigger] named@[i]).text@
            == range_text_spec(bytes@, named@[i].byte_range) by {
            assert(named@.map_values(|n: NamedNode| named_view(n))[i] == sp[i]);
        }
    }
    let ghost nv = named@;
    assert(nodes_texts_fit(nv, bytes@));
    proof {
        let sp = named_nodes_spec(all@, anc@, bytes@, all@.len() as int);
        lemma_named_parse_views(all@, anc@, bytes@, all@.len() as int);
        assert forall|i: int| 0 <= i < nv.len() implies node_views(nv)[i] == named_parse_views(
            parse_nodes(st.name_spec(), bytes@),
            bytes@,
            all@.len() as int,
        )[i] by {
            assert(named@.map_values(|n: NamedNode| named_view(n))[i] == sp[i]);
        }
        assert(node_views(nv) =~= named_parse_views(
            parse_nodes(st.name_spec(), bytes@),
            bytes@,
            parse_nodes(st.name_spec(), bytes@).len() as int,
        ));
    }
    let res = resolve_with(bookmark, source, registry, exact, relaxed, minimal, named);
    let ghost lang = crumb_language_spec(bookmark.language@, *registry);
    assert(resolve_spec(res, *bookmark, source@, lang, exact, relaxed, minimal, nv));
    proof {
        lemma_resolved_text_fits(res, *bookmark, source@, lang, exact, relaxed, minimal, nv, bytes@);
        lemma_hash_matches_iff(res, *bookmark, source@, lang, exact, relaxed, minimal, nv);
    }
    res
}

/// Resolve a bookmark against `source`, the current text of its file in
/// `language`: parse it, then resolve as [`resolve_tree`] does. A dynamic
/// grammar, which this build cannot load, gives a tree-sitter error.
pub fn resolve_source(
    bookmark: &Bookmark,
    source: &str,
    language: &Language,
    registry: &LanguageRegistry,
) -> (r: Result<ResolutionResult>)
    ensures
        r matches Err(e) ==> (e is TreeSitter),
        language is Dynamic <==> r is Err,
        r matches Ok(res) ==> resolves_as(res, *bookmark, source@, *registry, language.name_spec()),
{
    let mut parser = Parser::new(language.duplicate())?;
    let text = source.as_bytes();
    let st = parser.parse_source(range_bytes(text, 0, text.len()));
    assert(st.source_spec() =~= encode_utf8(source@));
    Ok(resolve_tree(bookmark, &st, source, registry))
}

/// Resolve a bookmark against the cached parse of its file at `path`, as
/// [`resolve_tree`] does; `None` when the cache holds no parse of `path`
/// (the caller parses the file into the cache first).
pub fn resolve(
    bookmark: &Bookmark,
    cache: &ParseCache,
    path: &str,
    registry: &LanguageRegistry,
) -> (r: Option<ResolutionResult>)
    requires
        cache.wf(),
    ensures
        r is Some <==> cache.lookup(path@) is Some,
        r matches Some(res) ==> resolves_as(
            res,
            *bookmark,
            cache.lookup(path@).unwrap().1,
            *registry,
            cache.language_spec().name_spec(),
        ),
{
    match cache.parsed(path) {
        Some((st, source)) => Some(resolve_tree(bookmark, st, source.as_str(), registry)),
        None => None,
    }
}

/// The law of the tiers' order: when the bookmark's own query runs and
/// gives exactly one match, the resolution is that match, found exactly.
pub proof fn lemma_single_exact_match_is_exact(
    res: ResolutionResult,
    b: Bookmark,
    source: Seq<char>,
    registry: LanguageRegistry,
    grammar: Seq<char>,
)
    requires
        resolves_as(res, b, source, registry, grammar),
        query_runs(grammar, b.query@),
        match_views(query_matches(grammar, encode_utf8(source), b.query@), encode_utf8(source)).len() == 1,
        views_rows_ok(match_views(query_matches(grammar, encode_utf8(source), b.query@), encode_utf8(source))),
    ensures
        res.method == ResolutionMethod::Exact,
        res.matched_text@ == match_views(query_matches(grammar, encode_utf8(source), b.query@), encode_utf8(source))[0].0,
        res.byte_range == match_views(query_matches(grammar, encode_utf8(source), b.query@), encode_utf8(source))[0].1,
{
    let bytes = encode_utf8(source);
    let views = match_views(query_matches(grammar, bytes, b.query@), bytes);
    let (e, x, m, nodes) = choose|e: Option<TierMatches>, x: Option<TierMatches>, m: Option<TierMatches>, nodes: Seq<NamedNode>|
        {
            &&& resolve_spec(res, b, source, crumb_language_spec(b.language@, registry), e, x, m, nodes)
            &&& tier_fits_query(e, grammar, bytes, b.query@)
            &&& opt_tier_fits(x, grammar, bytes, relaxed_query_spec(b.query@))
            &&& opt_tier_fits(m, grammar, bytes, minimal_query_spec(b.query@))
            &&& nodes_texts_fit(nodes, bytes)
            &&& node_views(nodes) == named_parse_views(
                parse_nodes(grammar, bytes),
                bytes,
                parse_nodes(grammar, bytes).len() as int,
            )
        };
    let tm = e.unwrap();
    assert(tier_views(tm) == views);
    assert(tm.matches@.len() == 1);
    assert(tier_texts(tm).len() == 1);
    assert(tier_views(tm)[0] == match_view(tm.matches@[0]));
}

/// The law of the tiers' order, one step on: when the bookmark's own query
/// runs and gives no match, and its relaxed form runs and gives exactly
/// one, the resolution is that match, found by relaxing.
pub proof fn lemma_single_relaxed_match_is_relaxed(
    res: ResolutionResult,
    b: Bookmark,
    source: Seq<char>,
    registry: LanguageRegistry,
    grammar: Seq<char>,
    relaxed: Seq<char>,
)
    requires
        resolves_as(res, b, source, registry, grammar),
        relaxed_query_spec(b.query@) == Some(relaxed),
        query_runs(grammar, b.query@),
        match_views(query_matches(grammar, encode_utf8(source), b.query@), encode_utf8(source)).len() == 0,
        query_runs(grammar, relaxed),
        match_views(query_matches(grammar, encode_utf8(source), relaxed), encode_utf8(source)).len() == 1,
        views_rows_ok(match_views(query_matches(grammar, encode_utf8(source), relaxed), encode_utf8(source))),
    ensures
        res.method == ResolutionMethod::Relaxed,
        res.matched_text@ == match_views(query_matches(grammar, encode_utf8(source), relaxed), encode_utf8(source))[0].0,
{
    let bytes = encode_utf8(source);
    let views = match_views(query_matches(grammar, bytes, relaxed), bytes);
    let (e, x, m, nodes) = choose|e: Option<TierMatches>, x: Option<TierMatches>, m: Option<TierMatches>, nodes: Seq<NamedNode>|
        {
            &&& resolve_spec(res, b, source, crumb_language_spec(b.language@, registry), e, x, m, nodes)
            &&& tier_fits_query(e, grammar, bytes, b.query@)
            &&& opt_tier_fits(x, grammar, bytes, relaxed_query_spec(b.query@))
            &&& opt_tier_fits(m, grammar, bytes, minimal_query_spec(b.query@))
            &&& nodes_texts_fit(nodes, bytes)
            &&& node_views(nodes) == named_parse_views(
                parse_nodes(grammar, bytes),
                bytes,
                parse_nodes(grammar, bytes).len() as int,
            )
        };
    if let Some(te) = e {
        assert(tier_views(te).len() == 0);
        assert(tier_texts(te).len() == 0);
        if let Some(h) = stored_hash(b) {
            lemma_first_hash_from(tier_texts(te), h, 0);
        }
    }
    let tm = x.unwrap();
    assert(tier_views(tm) == views);
    assert(tm.matches@.len() == 1);
    assert(tier_texts(tm).len() == 1);
    assert(tier_views(tm)[0] == match_view(tm.matches@[0]));
}

} // verus!
