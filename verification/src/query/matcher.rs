//! Matches of a tree-sitter query: the `@target` node of each match and its
//! `@sticky.*` captures.
//!
//! [`run_query`] runs a query with tree-sitter; each match reaches the rest
//! of this module as its list of captures, in tree-sitter's order.

use vstd::prelude::*;


use crate::error::{Error, Result};
use crate::parser::syntax::{
    captures_tuples, compile_query, nth_query_match, query_compiles, query_has_capture,
    query_has_capture_named, query_match_count, query_matches, range_text_spec, utf8_text, SourceTree,
};
use crate::text::{chars_of, eq_str, push_str, starts_with, starts_with_str, string_of};

verus! {

/// Result of running a tree-sitter query against a source file: the
/// `@target` node of one match.
#[derive(Debug)]
pub struct MatchResult {
    pub node_text: String,
    pub byte_range: (usize, usize),
    pub start_point: (usize, usize),
    pub end_point: (usize, usize),
    /// The `@sticky.*` captures of the match: name, byte range and start row.
    pub captures: Vec<(String, (usize, usize), usize)>,
}

/// One capture of a query match: its name (without `@`) and its node.
#[derive(Debug)]
pub struct CapturedNode {
    pub name: String,
    pub text: String,
    pub byte_range: (usize, usize),
    pub start_point: (usize, usize),
    pub end_point: (usize, usize),
}

/// The index of the last capture named `target`.
pub open spec fn target_index(caps: Seq<CapturedNode>) -> Option<int>
    decreases caps.len(),
{
    if caps.len() == 0 {
        None
    } else if caps.last().name@ == "target"@ {
        Some(caps.len() - 1)
    } else {
        target_index(caps.drop_last())
    }
}

/// The target index lies in range.
proof fn lemma_target_index_range(caps: Seq<CapturedNode>)
    ensures
        target_index(caps) matches Some(t) ==> 0 <= t < caps.len(),
    decreases caps.len(),
{
    if caps.len() > 0 {
        lemma_target_index_range(caps.drop_last());
    }
}

/// The `sticky.*` captures as `(name, byte range, start row)`, in order.
pub open spec fn sticky_of(caps: Seq<CapturedNode>) -> Seq<(Seq<char>, (usize, usize), usize)>
    decreases caps.len(),
{
    if caps.len() == 0 {
        seq![]
    } else if starts_with(caps.last().name@, "sticky."@) {
        sticky_of(caps.drop_last()).push(
            (caps.last().name@, caps.last().byte_range, caps.last().start_point.0),
        )
    } else {
        sticky_of(caps.drop_last())
    }
}

/// The `(name, byte range, row)` view of sticky captures.
pub open spec fn captures_view(c: Seq<(String, (usize, usize), usize)>) -> Seq<
    (Seq<char>, (usize, usize), usize),
> {
    c.map_values(|x: (String, (usize, usize), usize)| (x.0@, x.1, x.2))
}

impl MatchResult {
    /// Whether this is the match that the captures `caps` make.
    pub open spec fn made_from(&self, caps: Seq<CapturedNode>) -> bool {
        &&& target_index(caps) matches Some(t) && {
            let n = caps[t];
            &&& self.node_text@ == n.text@
            &&& self.byte_range == n.byte_range
            &&& self.start_point == n.start_point
            &&& self.end_point == n.end_point
        }
        &&& captures_view(self.captures@) == sticky_of(caps)
    }
}

/// The match of one query match's captures: its `@target` (the last capture
/// of that name) with its `@sticky.*` captures; `None` without a target.
pub fn match_from_captures(caps: &[CapturedNode]) -> (r: Option<MatchResult>)
    ensures
        r is None <==> target_index(caps@) is None,
        r matches Some(m) ==> m.made_from(caps@),
{
    let mut target: Option<usize> = None;
    let mut sticky: Vec<(String, (usize, usize), usize)> = Vec::new();
    let mut i: usize = 0;
    while i < caps.len()
        invariant
            i <= caps.len(),
            target matches Some(t) ==> t < i && target_index(caps@.take(i as int)) == Some(
                t as int,
            ),
            target is None ==> target_index(caps@.take(i as int)) is None,
            captures_view(sticky@) == sticky_of(caps@.take(i as int)),
        decreases caps.len() - i,
    {
        let c = &caps[i];
        let name = chars_of(c.name.as_str());
        proof {
            assert(caps@.take(i + 1).drop_last() == caps@.take(i as int));
            assert(caps@.take(i + 1).last() == caps@[i as int]);
        }
        if eq_str(&name, "target") {
            target = Some(i);
        } else if starts_with_str(&name, "sticky.") {
            sticky.push((c.name.clone(), c.byte_range, c.start_point.0));
            proof {
                assert(captures_view(sticky@) == captures_view(sticky@.drop_last()).push(
                    (sticky@.last().0@, sticky@.last().1, sticky@.last().2),
                ));
            }
        }
        proof {
            if name@ == "target"@ {
                assert(!starts_with(name@, "sticky."@)) by {
                    reveal_strlit("target");
                    reveal_strlit("sticky.");
                    assert("sticky."@.len() == 7);
                    assert("target"@.len() == 6);
                }
            }
        }
        i = i + 1;
    }
    proof {
        assert(caps@.take(caps.len() as int) == caps@);
    }
    match target {
        Some(t) => {
            let n = &caps[t];
            Some(
                MatchResult {
                    node_text: n.text.clone(),
                    byte_range: n.byte_range,
                    start_point: n.start_point,
                    end_point: n.end_point,
                    captures: sticky,
                },
            )
        },
        None => None,
    }
}

/// The indices of the query matches that have a `@target`, in order.
pub open spec fn with_target(ms: Seq<Vec<CapturedNode>>) -> Seq<int>
    decreases ms.len(),
{
    if ms.len() == 0 {
        seq![]
    } else if target_index(ms.last()@) is Some {
        with_target(ms.drop_last()).push(ms.len() - 1)
    } else {
        with_target(ms.drop_last())
    }
}

/// The indices [`with_target`] gives are in range.
proof fn lemma_with_target_range(ms: Seq<Vec<CapturedNode>>)
    ensures
        forall|k: int| 0 <= k < with_target(ms).len() ==> 0 <= #[trigger] with_target(ms)[k] < ms.len(),
    decreases ms.len(),
{
    if ms.len() > 0 {
        lemma_with_target_range(ms.drop_last());
        let prev = with_target(ms.drop_last());
        assert forall|k: int| 0 <= k < with_target(ms).len() implies 0 <= #[trigger] with_target(
            ms,
        )[k] < ms.len() by {
            if k < prev.len() {
                assert(prev[k] < ms.drop_last().len());
            }
        }
    }
}

/// The matches of a query, one per query match that has a `@target`, in
/// order.
pub fn matches_from_captures(matches: &[Vec<CapturedNode>]) -> (r: Vec<MatchResult>)
    ensures
        r@.len() == with_target(matches@).len(),
        forall|k: int|
            0 <= k < r@.len() ==> #[trigger] r@[k].made_from(matches@[with_target(matches@)[k]]@),
{
    let mut out: Vec<MatchResult> = Vec::new();
    let mut i: usize = 0;
    while i < matches.len()
        invariant
            i <= matches.len(),
            out@.len() == with_target(matches@.take(i as int)).len(),
            forall|k: int|
                0 <= k < out@.len() ==> #[trigger] out@[k].made_from(
                    matches@[with_target(matches@.take(i as int))[k]]@,
                ),
        decreases matches.len() - i,
    {
        proof {
            let t = matches@.take(i + 1);
            assert(t.drop_last() == matches@.take(i as int));
            assert(t.last() == matches@[i as int]);
            lemma_with_target_range(matches@.take(i as int));
        }
        match match_from_captures(matches[i].as_slice()) {
            Some(m) => {
                out.push(m);
            },
            None => {},
        }
        i = i + 1;
    }
    proof {
        assert(matches@.take(matches.len() as int) == matches@);
    }
    out
}

// ---------------------------------------------------------------------------
// Running a query
// ---------------------------------------------------------------------------

/// Every capture's text is the text of `source` in its byte range.
pub open spec fn texts_fit(caps: Seq<CapturedNode>, source: Seq<u8>) -> bool {
    forall|i: int| 0 <= i < caps.len() ==> (#[trigger] caps[i]).text@ == range_text_spec(source, caps[i].byte_range)
}

/// The captures of one match with their texts in `source`: a capture whose
/// range does not lie in `source` gets the empty text.
fn with_texts(
    caps: Vec<(String, (usize, usize), (usize, usize), (usize, usize))>,
    source: &[u8],
) -> (r: Vec<CapturedNode>)
    ensures
        r@.len() == caps@.len(),
        forall|i: int|
            0 <= i < r@.len() ==> (#[trigger] r@[i]).name == caps@[i].0 && r@[i].byte_range
                == caps@[i].1 && r@[i].start_point == caps@[i].2 && r@[i].end_point == caps@[i].3,
        texts_fit(r@, source@),
{
    let mut out: Vec<CapturedNode> = Vec::new();
    let mut rest = caps;
    let ghost all = rest@;
    let mut i: usize = 0;
    let n = rest.len();
    while i < n
        invariant
            n == all.len(),
            i <= n,
            rest@ == all.skip(i as int),
            out@.len() == i,
            forall|k: int|
                0 <= k < i ==> (#[trigger] out@[k]).name == all[k].0 && out@[k].byte_range
                    == all[k].1 && out@[k].start_point == all[k].2 && out@[k].end_point == all[k].3,
            texts_fit(out@, source@),
        decreases n - i,
    {
        let (name, range, sp, ep) = rest.remove(0);
        let text = if range.0 <= range.1 && range.1 <= source.len() {
            match utf8_text(source, range.0, range.1) {
                Some(t) => t,
                None => string_of(&Vec::new()),
            }
        } else {
            string_of(&Vec::new())
        };
        out.push(CapturedNode { name, text, byte_range: range, start_point: sp, end_point: ep });
        proof {
            assert(all.skip(i as int)[0] == all[i as int]);
            assert(all.skip(i as int).drop_first() =~= all.skip(i + 1));
        }
        i = i + 1;
    }
    out
}

/// One capture, by value: name, byte range, start and end `(row, column)`.
pub open spec fn capture_tuple(c: CapturedNode) -> (Seq<char>, (usize, usize), (usize, usize), (usize, usize)) {
    (c.name@, c.byte_range, c.start_point, c.end_point)
}

/// The captures of a match, by value.
pub open spec fn capture_tuples(caps: Seq<CapturedNode>) -> Seq<
    (Seq<char>, (usize, usize), (usize, usize), (usize, usize)),
> {
    caps.map_values(|c: CapturedNode| capture_tuple(c))
}

/// The index of the last capture named `target`, by value.
pub open spec fn tuple_target(t: Seq<(Seq<char>, (usize, usize), (usize, usize), (usize, usize))>) -> Option<
    int,
>
    decreases t.len(),
{
    if t.len() == 0 {
        None
    } else if t.last().0 == "target"@ {
        Some(t.len() - 1)
    } else {
        tuple_target(t.drop_last())
    }
}

/// The `sticky.*` captures as `(name, byte range, start row)`, by value.
pub open spec fn tuple_sticky(t: Seq<(Seq<char>, (usize, usize), (usize, usize), (usize, usize))>) -> Seq<
    (Seq<char>, (usize, usize), usize),
>
    decreases t.len(),
{
    if t.len() == 0 {
        seq![]
    } else if starts_with(t.last().0, "sticky."@) {
        tuple_sticky(t.drop_last()).push((t.last().0, t.last().1, t.last().2.0))
    } else {
        tuple_sticky(t.drop_last())
    }
}

/// A match result by value: the target's text, byte range, start and end,
/// and the sticky captures.
pub open spec fn match_view(m: MatchResult) -> (
    Seq<char>,
    (usize, usize),
    (usize, usize),
    (usize, usize),
    Seq<(Seq<char>, (usize, usize), usize)>,
) {
    (m.node_text@, m.byte_range, m.start_point, m.end_point, captures_view(m.captures@))
}

/// The match result the captures `t` of one query match make, their texts
/// read from `source` (meaningful when `t` has a target).
pub open spec fn tuple_match(
    t: Seq<(Seq<char>, (usize, usize), (usize, usize), (usize, usize))>,
    source: Seq<u8>,
) -> (Seq<char>, (usize, usize), (usize, usize), (usize, usize), Seq<(Seq<char>, (usize, usize), usize)>) {
    let i = tuple_target(t).unwrap();
    (range_text_spec(source, t[i].1), t[i].1, t[i].2, t[i].3, tuple_sticky(t))
}

/// The match results of query matches `ms` in `source`: one per match with
/// a target, in order.
pub open spec fn match_views(
    ms: Seq<Seq<(Seq<char>, (usize, usize), (usize, usize), (usize, usize))>>,
    source: Seq<u8>,
) -> Seq<(Seq<char>, (usize, usize), (usize, usize), (usize, usize), Seq<(Seq<char>, (usize, usize), usize)>)>
    decreases ms.len(),
{
    if ms.len() == 0 {
        seq![]
    } else if tuple_target(ms.last()) is Some {
        match_views(ms.drop_last(), source).push(tuple_match(ms.last(), source))
    } else {
        match_views(ms.drop_last(), source)
    }
}

/// The target and sticky captures read the same by value.
proof fn lemma_tuples_agree(caps: Seq<CapturedNode>)
    ensures
        target_index(caps) == tuple_target(capture_tuples(caps)),
        sticky_of(caps) == tuple_sticky(capture_tuples(caps)),
    decreases caps.len(),
{
    if caps.len() > 0 {
        lemma_tuples_agree(caps.drop_last());
        assert(capture_tuples(caps.drop_last()) =~= capture_tuples(caps).drop_last());
        assert(capture_tuples(caps).last() == capture_tuple(caps.last()));
    }
}

/// A match made from captures whose texts fit the source reads as
/// [`tuple_match`] of them.
proof fn lemma_made_from_view(m: MatchResult, caps: Seq<CapturedNode>, source: Seq<u8>)
    requires
        m.made_from(caps),
        texts_fit(caps, source),
    ensures
        tuple_target(capture_tuples(caps)) is Some,
        match_view(m) == tuple_match(capture_tuples(caps), source),
{
    lemma_tuples_agree(caps);
    lemma_target_index_range(caps);
    let t = target_index(caps).unwrap();
    assert(capture_tuples(caps)[t] == capture_tuple(caps[t]));
}

/// The captures of each match, by value.
pub open spec fn all_tuples(ms: Seq<Vec<CapturedNode>>) -> Seq<Seq<(Seq<char>, (usize, usize), (usize, usize), (usize, usize))>> {
    ms.map_values(|v: Vec<CapturedNode>| capture_tuples(v@))
}

/// The matches kept by [`with_target`] read as [`match_views`].
proof fn lemma_with_target_views(ms: Seq<Vec<CapturedNode>>, source: Seq<u8>)
    ensures
        with_target(ms).len() == match_views(all_tuples(ms), source).len(),
        forall|k: int|
            0 <= k < with_target(ms).len() ==> (#[trigger] match_views(all_tuples(ms), source)[k])
                == tuple_match(capture_tuples(ms[with_target(ms)[k]]@), source),
    decreases ms.len(),
{
    let tm = all_tuples(ms);
    if ms.len() > 0 {
        lemma_with_target_views(ms.drop_last(), source);
        lemma_with_target_range(ms.drop_last());
        assert(all_tuples(ms.drop_last()) =~= tm.drop_last());
        assert(tm.last() == capture_tuples(ms.last()@));
        lemma_tuples_agree(ms.last()@);
        let prev = with_target(ms.drop_last());
        assert forall|k: int| 0 <= k < with_target(ms).len() implies (#[trigger] match_views(tm, source)[k])
            == tuple_match(capture_tuples(ms[with_target(ms)[k]]@), source) by {
            if k < prev.len() {
                assert(prev[k] < ms.drop_last().len());
                assert(ms.drop_last()[prev[k]] == ms[prev[k]]);
            }
        }
    }
}

/// Compile `query_str` for the grammar of `st` and run it on the whole of
/// its tree: the `@target` node of each match, in order. A query that does
/// not compile, or has no `@target` capture, gives a tree-sitter error. The
/// matches are those tree-sitter gives ([`query_matches`]), each read as
/// [`tuple_match`] of its captures.
pub fn run_query(query_str: &str, st: &SourceTree) -> (r: Result<Vec<MatchResult>>)
    ensures
        !query_compiles(st.name_spec(), query_str@) ==> (r matches Err(Error::TreeSitter(m))
            && starts_with(m@, "invalid query: "@)),
        query_compiles(st.name_spec(), query_str@) && !query_has_capture_named(
            st.name_spec(),
            query_str@,
            "target"@,
        ) ==> (r matches Err(Error::TreeSitter(m)) && m@ == "query has no @target capture"@),
        query_compiles(st.name_spec(), query_str@) && query_has_capture_named(
            st.name_spec(),
            query_str@,
            "target"@,
        ) ==> (r matches Ok(v) && v@.map_values(|m: MatchResult| match_view(m)) == match_views(
            query_matches(st.name_spec(), st.source_spec(), query_str@),
            st.source_spec(),
        )),
        r matches Ok(v) ==> forall|k: int|
            0 <= k < v@.len() ==> (#[trigger] v@[k]).node_text@ == range_text_spec(
                st.source_spec(),
                v@[k].byte_range,
            ),
{
    let query = match compile_query(st, query_str) {
        Ok(q) => q,
        Err(e) => {
            let mut m: Vec<char> = Vec::new();
            push_str(&mut m, "invalid query: ");
            push_str(&mut m, e.as_str());
            let msg = string_of(&m);
            proof {
                reveal_strlit("invalid query: ");
                assert(msg@.take(15) =~= "invalid query: "@);
            }
            return Err(Error::TreeSitter(msg));
        },
    };
    if !query_has_capture(&query, "target") {
        return Err(Error::TreeSitter(string_of(&chars_of("query has no @target capture"))));
    }
    let source = st.source();
    let ghost named = query_matches(st.name_spec(), st.source_spec(), query_str@);
    let n = query_match_count(&query, st);
    let mut all: Vec<Vec<CapturedNode>> = Vec::new();
    let mut k: usize = 0;
    while k < n
        invariant
            k <= n,
            n == named.len(),
            named == query_matches(st.name_spec(), st.source_spec(), query.text_spec()),
            query.name_spec() == st.name_spec(),
            source@ == st.source_spec(),
            all@.len() == k,
            forall|j: int| 0 <= j < all@.len() ==> texts_fit(#[trigger] all@[j]@, source@),
            forall|j: int| 0 <= j < all@.len() ==> capture_tuples(#[trigger] all@[j]@) == named[j],
        decreases n - k,
    {
        let caps = nth_query_match(&query, st, k).unwrap();
        let ghost tv = caps@;
        let got = with_texts(caps, source);
        proof {
            assert(capture_tuples(got@) =~= captures_tuples(tv));
        }
        all.push(got);
        k = k + 1;
    }
    let v = matches_from_captures(all.as_slice());
    proof {
        lemma_with_target_range(all@);
        lemma_with_target_views(all@, source@);
        assert(all_tuples(all@) =~= named);
        assert forall|i: int| 0 <= i < v@.len() implies v@.map_values(|m: MatchResult| match_view(m))[i]
            == match_views(named, source@)[i] by {
            let caps = all@[with_target(all@)[i]]@;
            assert(v@[i].made_from(caps));
            lemma_made_from_view(v@[i], caps, source@);
        }
        assert(v@.map_values(|m: MatchResult| match_view(m)) =~= match_views(named, source@));
        assert forall|i: int| 0 <= i < v@.len() implies (#[trigger] v@[i]).node_text@
            == range_text_spec(source@, v@[i].byte_range) by {
            let caps = all@[with_target(all@)[i]]@;
            assert(v@[i].made_from(caps));
            lemma_made_from_view(v@[i], caps, source@);
            assert(match_view(v@[i]) == tuple_match(capture_tuples(caps), source@));
        }
    }
    Ok(v)
}

} // verus!
