//! Snapshots of a collection for publishing: its resolved bookmarks and
//! their resolutions, tags, comments and links, with the collection's health
//! recomputed and its tags filled in when nobody chose any.
//!
//! The caller reads the database and runs each resolution; the rules that
//! turn those into the snapshot are here.

use vstd::prelude::*;

use crate::engine::bookmark::{
    Annotation, Bookmark, BookmarkComment, BookmarkHealth, Collection, CollectionHealth,
    CollectionLink, CollectionTag, Resolution, ResolutionMethod, Tag,
};
use crate::engine::heal::{range_text, range_text_spec};
use crate::engine::health::{transition, transition_spec};
use crate::engine::resolution::ResolutionResult;
use crate::error::{Error, Result};
use crate::sort::{chars_lt, lemma_text_lt_asymmetric, lemma_text_lt_total, lemma_text_lt_transitive, text_lt};
use crate::text::{chars_of, eq_chars, eq_str, string_of};

verus! {

/// A bundle of resolved bookmarks and metadata for a collection.
#[derive(Debug)]
pub struct SnapshotPayload {
    pub collection: Collection,
    pub bookmarks: Vec<Bookmark>,
    pub resolutions: Vec<Resolution>,
    pub tags: Vec<Tag>,
    pub comments: Vec<BookmarkComment>,
    pub collection_tags: Vec<CollectionTag>,
    pub collection_links: Vec<CollectionLink>,
}

/// The marker of a collection tag filled in automatically.
pub open spec fn auto_marker() -> Seq<char> {
    "__auto__"@
}

// ---------------------------------------------------------------------------
// Collection health
// ---------------------------------------------------------------------------

/// The health of a collection from its bookmarks' healths: none for no
/// bookmarks; stale if any is stale, else drifted if any is drifted, else
/// active.
pub open spec fn collection_health_spec(h: Seq<BookmarkHealth>) -> Option<CollectionHealth> {
    if h.len() == 0 {
        None
    } else if h.contains(BookmarkHealth::Stale) {
        Some(CollectionHealth::Stale)
    } else if h.contains(BookmarkHealth::Drifted) {
        Some(CollectionHealth::Drifted)
    } else {
        Some(CollectionHealth::Active)
    }
}

/// The health of a collection from its resolved bookmarks.
pub fn snapshot_health(bookmarks: &[Bookmark]) -> (r: Option<CollectionHealth>)
    ensures
        r == collection_health_spec(bookmarks@.map_values(|b: Bookmark| b.health)),
{
    let ghost hs = bookmarks@.map_values(|b: Bookmark| b.health);
    if bookmarks.len() == 0 {
        return None;
    }
    let mut has_stale = false;
    let mut has_drifted = false;
    let mut i: usize = 0;
    while i < bookmarks.len()
        invariant
            i <= bookmarks.len(),
            hs == bookmarks@.map_values(|b: Bookmark| b.health),
            has_stale == hs.take(i as int).contains(BookmarkHealth::Stale),
            has_drifted == hs.take(i as int).contains(BookmarkHealth::Drifted),
        decreases bookmarks.len() - i,
    {
        proof {
            assert(hs.take(i + 1) == hs.take(i as int).push(hs[i as int]));
            lemma_contains_push(hs.take(i as int), hs[i as int], BookmarkHealth::Stale);
            lemma_contains_push(hs.take(i as int), hs[i as int], BookmarkHealth::Drifted);
        }
        match bookmarks[i].health {
            BookmarkHealth::Stale => {
                has_stale = true;
            },
            BookmarkHealth::Drifted => {
                has_drifted = true;
            },
            _ => {},
        }
        i = i + 1;
    }
    proof {
        assert(hs.take(i as int) == hs);
    }
    if has_stale {
        Some(CollectionHealth::Stale)
    } else if has_drifted {
        Some(CollectionHealth::Drifted)
    } else {
        Some(CollectionHealth::Active)
    }
}

/// A sequence with one more element contains what it contained, and that
/// element.
pub proof fn lemma_contains_push<A>(s: Seq<A>, v: A, x: A)
    ensures
        s.push(v).contains(x) <==> (s.contains(x) || v == x),
{
    let t = s.push(v);
    if t.contains(x) {
        let i = choose|i: int| 0 <= i < t.len() && t[i] == x;
        if i < s.len() {
            assert(s[i] == x);
        }
    }
    if s.contains(x) {
        let i = choose|i: int| 0 <= i < s.len() && s[i] == x;
        assert(t[i] == x);
    }
    if v == x {
        assert(t[s.len() as int] == x);
    }
}

/// A collection's health follows its worst bookmark: adding a stale
/// bookmark makes it stale, and adding an active one never improves it.
pub proof fn lemma_collection_health_worst(h: Seq<BookmarkHealth>, extra: BookmarkHealth)
    ensures
        extra == BookmarkHealth::Stale ==> collection_health_spec(h.push(extra)) == Some(
            CollectionHealth::Stale,
        ),
        extra == BookmarkHealth::Active && h.len() > 0 ==> collection_health_spec(h.push(extra))
            == collection_health_spec(h),
{
    let g = h.push(extra);
    assert(g[h.len() as int] == extra);
    if extra == BookmarkHealth::Active && h.len() > 0 {
        assert(g.contains(BookmarkHealth::Stale) == h.contains(BookmarkHealth::Stale)) by {
            if g.contains(BookmarkHealth::Stale) {
                let i = choose|i: int| 0 <= i < g.len() && g[i] == BookmarkHealth::Stale;
                assert(h[i] == BookmarkHealth::Stale);
            }
            if h.contains(BookmarkHealth::Stale) {
                let i = choose|i: int| 0 <= i < h.len() && h[i] == BookmarkHealth::Stale;
                assert(g[i] == BookmarkHealth::Stale);
            }
        }
        assert(g.contains(BookmarkHealth::Drifted) == h.contains(BookmarkHealth::Drifted)) by {
            if g.contains(BookmarkHealth::Drifted) {
                let i = choose|i: int| 0 <= i < g.len() && g[i] == BookmarkHealth::Drifted;
                assert(h[i] == BookmarkHealth::Drifted);
            }
            if h.contains(BookmarkHealth::Drifted) {
                let i = choose|i: int| 0 <= i < h.len() && h[i] == BookmarkHealth::Drifted;
                assert(g[i] == BookmarkHealth::Drifted);
            }
        }
    }
}

// ---------------------------------------------------------------------------
// Bookmarks and resolutions
// ---------------------------------------------------------------------------

/// The notes of the first annotation that has notes.
pub open spec fn first_notes(a: Seq<Annotation>) -> Option<Seq<char>>
    decreases a.len(),
{
    if a.len() == 0 {
        None
    } else if a[0].notes is Some {
        Some(a[0].notes.unwrap()@)
    } else {
        first_notes(a.drop_first())
    }
}

/// The notes of the first annotation that has notes.
fn first_annotation_notes(a: &Vec<Annotation>) -> (r: Option<String>)
    ensures
        r matches Some(n) ==> first_notes(a@) == Some(n@),
        r is None ==> first_notes(a@) is None,
{
    let mut i: usize = 0;
    assert(a@.skip(0) == a@);
    while i < a.len()
        invariant
            i <= a.len(),
            first_notes(a@) == first_notes(a@.skip(i as int)),
        decreases a.len() - i,
    {
        assert(a@.skip(i as int)[0] == a@[i as int]);
        assert(a@.skip(i as int).drop_first() == a@.skip(i + 1));
        match &a[i].notes {
            Some(n) => {
                return Some(n.clone());
            },
            None => {},
        }
        i = i + 1;
    }
    assert(a@.skip(i as int).len() == 0);
    None
}

/// Update a bookmark after its resolution for a snapshot: its health moves
/// by the transition (the hash matches when the bookmark's stored hash is
/// the result's), and the method and time (`now`) are recorded.
pub fn update_after_resolution(
    bookmark: &mut Bookmark,
    result: &ResolutionResult,
    days_since: u32,
    stale_days: u32,
    now: String,
)
    ensures
        final(bookmark).health == transition_spec(
            result.method,
            old(bookmark).content_hash matches Some(h) && h@ == result.content_hash@,
        ),
        final(bookmark).resolution_method == Some(result.method),
        final(bookmark).last_resolved_at == Some(now),
        final(bookmark).id == old(bookmark).id,
        final(bookmark).file_path == old(bookmark).file_path,
        final(bookmark).content_hash == old(bookmark).content_hash,
        final(bookmark).annotations == old(bookmark).annotations,
        final(bookmark).comments == old(bookmark).comments,
{
    let hash_matches = match &bookmark.content_hash {
        Some(h) => eq_chars(&chars_of(h.as_str()), &chars_of(result.content_hash.as_str())),
        None => false,
    };
    bookmark.health = transition(bookmark.health, result.method, hash_matches, days_since, stale_days);
    bookmark.resolution_method = Some(result.method);
    bookmark.last_resolved_at = Some(now);
}

/// The resolution record of a snapshot: the located range, lines stored
/// 1-indexed, the headline from the first annotation with notes (else the
/// matched text), and the preview. `id` and `resolved_at` are the caller's.
pub fn snapshot_resolution(
    bookmark: &Bookmark,
    result: &ResolutionResult,
    head_commit: Option<String>,
    id: String,
    resolved_at: String,
    preview: String,
) -> (r: Resolution)
    requires
        result.start_line < usize::MAX,
        result.end_line < usize::MAX,
    ensures
        r.id == id,
        r.bookmark_id@ == bookmark.id@,
        r.resolved_at == resolved_at,
        r.health == bookmark.health,
        r.commit_hash == head_commit,
        r.method == result.method,
        r.match_count == Some(1i32),
        r.file_path matches Some(f) && f@ == bookmark.file_path@,
        r.byte_range matches Some(b) && b@ == range_text_spec(
            result.byte_range.0 as int,
            result.byte_range.1 as int,
        ),
        r.line_range matches Some(l) && l@ == range_text_spec(
            result.start_line + 1,
            result.end_line + 1,
        ),
        r.content_hash matches Some(c) && c@ == result.content_hash@,
        r.headline matches Some(h) && h@ == match first_notes(bookmark.annotations@) {
            Some(n) => n,
            None => result.matched_text@,
        },
        r.preview_lines == Some(preview),
        r.snapshot is None,
        r.breadcrumbs is None,
        !r.is_dirty,
{
    let headline = match first_annotation_notes(&bookmark.annotations) {
        Some(n) => n,
        None => result.matched_text.clone(),
    };
    Resolution {
        id,
        bookmark_id: bookmark.id.clone(),
        resolved_at,
        health: bookmark.health,
        commit_hash: head_commit,
        method: result.method,
        match_count: Some(1),
        file_path: Some(bookmark.file_path.clone()),
        byte_range: Some(range_text(result.byte_range.0, result.byte_range.1)),
        line_range: Some(range_text(result.start_line + 1, result.end_line + 1)),
        content_hash: Some(result.content_hash.clone()),
        headline: Some(headline),
        preview_lines: Some(preview),
        snapshot: None,
        breadcrumbs: None,
        is_dirty: false,
    }
}

// ---------------------------------------------------------------------------
// Tags
// ---------------------------------------------------------------------------

/// The names of tags, in order.
pub open spec fn tag_names(tags: Seq<Tag>) -> Seq<Seq<char>> {
    tags.map_values(|t: Tag| t.tag@)
}

/// The number of tags named `x`.
pub open spec fn tag_count(tags: Seq<Seq<char>>, x: Seq<char>) -> nat
    decreases tags.len(),
{
    if tags.len() == 0 {
        0
    } else {
        tag_count(tags.drop_last(), x) + if tags.last() == x {
            1nat
        } else {
            0nat
        }
    }
}

/// Whether tag `x` ranks above tag `y`: used more often, or as often and
/// earlier in text order.
pub open spec fn ranks_above(tags: Seq<Seq<char>>, x: Seq<char>, y: Seq<char>) -> bool {
    tag_count(tags, x) > tag_count(tags, y) || (tag_count(tags, x) == tag_count(tags, y)
        && text_lt(x, y))
}

/// `top` is the list of the `n` most used tag names of `tags`, best first:
/// each is used, they rank in order, every used name left out ranks below
/// them all, and fewer than `n` only when every used name is in.
pub open spec fn is_top_tags(tags: Seq<Seq<char>>, n: nat, top: Seq<Seq<char>>) -> bool {
    &&& top.len() <= n
    &&& forall|i: int| 0 <= i < top.len() ==> tag_count(tags, #[trigger] top[i]) > 0
    &&& forall|i: int, j: int| 0 <= i < j < top.len() ==> ranks_above(tags, #[trigger] top[i], #[trigger] top[j])
    &&& forall|x: Seq<char>, i: int|
        0 <= i < top.len() && tag_count(tags, x) > 0 && !top.contains(x) ==> #[trigger] ranks_above(
            tags,
            top[i],
            x,
        )
    &&& top.len() < n ==> forall|x: Seq<char>| tag_count(tags, x) > 0 ==> #[trigger] top.contains(x)
}

/// [`ranks_above`] is a strict total order on names.
proof fn lemma_ranks_order(tags: Seq<Seq<char>>, x: Seq<char>, y: Seq<char>, z: Seq<char>)
    ensures
        !(ranks_above(tags, x, y) && ranks_above(tags, y, x)),
        x != y ==> ranks_above(tags, x, y) || ranks_above(tags, y, x),
        ranks_above(tags, x, y) && ranks_above(tags, y, z) ==> ranks_above(tags, x, z),
{
    lemma_text_lt_asymmetric(x, y);
    lemma_text_lt_total(x, y);
    if ranks_above(tags, x, y) && ranks_above(tags, y, z) && tag_count(tags, x) == tag_count(
        tags,
        z,
    ) {
        lemma_text_lt_transitive(x, y, z);
    }
}

/// The distinct tag names with their counts, in order of first use.
fn distinct_tags(tags: &[Tag]) -> (r: (Vec<Vec<char>>, Vec<usize>))
    ensures
        r.0@.len() == r.1@.len(),
        forall|a: int, b: int| 0 <= a < b < r.0@.len() ==> #[trigger] r.0@[a]@ != #[trigger] r.0@[b]@,
        forall|k: int|
            0 <= k < r.0@.len() ==> #[trigger] r.1@[k] == tag_count(
                tag_names(tags@),
                r.0@[k]@,
            ) && r.1@[k] > 0,
        forall|x: Seq<char>|
            #[trigger] tag_count(tag_names(tags@), x) > 0 ==> exists|k: int|
                0 <= k < r.0@.len() && #[trigger] r.0@[k]@ == x,
{
    let ghost all = tag_names(tags@);
    let mut names: Vec<Vec<char>> = Vec::new();
    let mut counts: Vec<usize> = Vec::new();
    let mut i: usize = 0;
    while i < tags.len()
        invariant
            i <= tags.len(),
            all == tag_names(tags@),
            names@.len() == counts@.len(),
            forall|a: int, b: int| 0 <= a < b < names@.len() ==> #[trigger] names@[a]@ != #[trigger] names@[b]@,
            forall|k: int|
                0 <= k < names@.len() ==> #[trigger] counts@[k] == tag_count(all.take(i as int), names@[k]@)
                    && counts@[k] > 0,
            forall|x: Seq<char>|
                #[trigger] tag_count(all.take(i as int), x) > 0 ==> exists|k: int|
                    0 <= k < names@.len() && #[trigger] names@[k]@ == x,
            counts@.len() <= i,
            forall|k: int| 0 <= k < counts@.len() ==> #[trigger] counts@[k] <= i,
        decreases tags.len() - i,
    {
        let name = chars_of(tags[i].tag.as_str());
        let ghost pre = all.take(i as int);
        let ghost post = all.take(i + 1);
        let ghost old_names = names@;
        proof {
            assert(post.drop_last() == pre);
            assert(post.last() == name@);
        }
        let mut j: usize = 0;
        let mut found: Option<usize> = None;
        while j < names.len()
            invariant
                j <= names@.len(),
                found matches Some(f) ==> f < names@.len() && names@[f as int]@ == name@,
                found is None ==> forall|k: int| 0 <= k < j ==> names@[k]@ != name@,
            decreases names.len() - j,
        {
            if found.is_none() && eq_chars(&names[j], &name) {
                found = Some(j);
            }
            j = j + 1;
        }
        match found {
            Some(f) => {
                let c = counts[f];
                counts.set(f, c + 1);
            },
            None => {
                names.push(name);
                counts.push(1);
            },
        }
        proof {
            assert forall|k: int| 0 <= k < names@.len() implies #[trigger] counts@[k] == tag_count(
                post,
                names@[k]@,
            ) && counts@[k] > 0 by {
                if found is None && k == names@.len() - 1 {
                    assert(tag_count(pre, name@) == 0) by {
                        if tag_count(pre, name@) > 0 {
                            let w = choose|w: int| 0 <= w < names@.len() - 1 && #[trigger] names@[w]@ == name@;
                        }
                    }
                }
            }
            assert forall|x: Seq<char>| #[trigger] tag_count(post, x) > 0 implies exists|k: int|
                0 <= k < names@.len() && #[trigger] names@[k]@ == x by {
                if x == name@ {
                    match found {
                        Some(f) => {
                            assert(names@[f as int]@ == x);
                        },
                        None => {
                            assert(names@[names@.len() - 1]@ == x);
                        },
                    }
                } else {
                    assert(tag_count(pre, x) > 0);
                    let w = choose|w: int| 0 <= w < old_names.len() && #[trigger] old_names[w]@ == x;
                    assert(names@[w]@ == x);
                }
            }
        }
        i = i + 1;
    }
    proof {
        assert(all.take(tags.len() as int) == all);
    }
    (names, counts)
}

/// The index of the best-ranked name.
fn best_index(names: &Vec<Vec<char>>, counts: &Vec<usize>, all: Ghost<Seq<Seq<char>>>) -> (b: usize)
    requires
        names@.len() > 0,
        names@.len() == counts@.len(),
        forall|a: int, c: int| 0 <= a < c < names@.len() ==> #[trigger] names@[a]@ != #[trigger] names@[c]@,
        forall|k: int| 0 <= k < names@.len() ==> #[trigger] counts@[k] == tag_count(all@, names@[k]@),
    ensures
        b < names@.len(),
        forall|k: int| 0 <= k < names@.len() && k != b ==> ranks_above(all@, names@[b as int]@, #[trigger] names@[k]@),
{
    let mut best: usize = 0;
    let mut k: usize = 1;
    while k < names.len()
        invariant
            1 <= k <= names@.len(),
            best < k,
            names@.len() == counts@.len(),
            forall|a: int, c: int| 0 <= a < c < names@.len() ==> #[trigger] names@[a]@ != #[trigger] names@[c]@,
            forall|j: int| 0 <= j < names@.len() ==> #[trigger] counts@[j] == tag_count(all@, names@[j]@),
            forall|j: int| 0 <= j < k && j != best ==> ranks_above(all@, names@[best as int]@, #[trigger] names@[j]@),
        decreases names.len() - k,
    {
        let better = counts[k] > counts[best] || (counts[k] == counts[best] && chars_lt(&names[k], &names[best]));
        proof {
            assert(counts@[k as int] == tag_count(all@, names@[k as int]@));
            assert(counts@[best as int] == tag_count(all@, names@[best as int]@));
            assert(better == ranks_above(all@, names@[k as int]@, names@[best as int]@));
            if better {
                assert forall|j: int| 0 <= j < k + 1 && j != k implies ranks_above(
                    all@,
                    names@[k as int]@,
                    #[trigger] names@[j]@,
                ) by {
                    if j != best {
                        lemma_ranks_order(all@, names@[k as int]@, names@[best as int]@, names@[j]@);
                    }
                }
            } else {
                lemma_ranks_order(all@, names@[best as int]@, names@[k as int]@, names@[best as int]@);
                assert(names@[best as int]@ != names@[k as int]@);
            }
        }
        if better {
            best = k;
        }
        k = k + 1;
    }
    best
}

/// The `n` most used tag names of `tags`, best first: by use count, ties
/// in text order.
pub fn top_tags(tags: &[Tag], n: usize) -> (r: Vec<String>)
    ensures
        is_top_tags(tag_names(tags@), n as nat, crate::text::strings_view(r@)),
{
    let ghost all = tag_names(tags@);
    let (mut names, mut counts) = distinct_tags(tags);
    let mut out: Vec<String> = Vec::new();
    while out.len() < n && names.len() > 0
        invariant
            names@.len() == counts@.len(),
            forall|a: int, c: int| 0 <= a < c < names@.len() ==> #[trigger] names@[a]@ != #[trigger] names@[c]@,
            forall|k: int| 0 <= k < names@.len() ==> #[trigger] counts@[k] == tag_count(all, names@[k]@) && counts@[k] > 0,
            out@.len() <= n,
            forall|x: Seq<char>|
                #[trigger] tag_count(all, x) > 0 ==> crate::text::strings_view(out@).contains(x) || exists|k: int|
                    0 <= k < names@.len() && #[trigger] names@[k]@ == x,
            forall|i: int| 0 <= i < out@.len() ==> tag_count(all, #[trigger] out@[i]@) > 0,
            forall|i: int, k: int| 0 <= i < out@.len() && 0 <= k < names@.len() ==> ranks_above(all, #[trigger] out@[i]@, #[trigger] names@[k]@),
            forall|i: int, j: int| 0 <= i < j < out@.len() ==> ranks_above(all, #[trigger] out@[i]@, #[trigger] out@[j]@),
        decreases names.len(),
    {
        let b = best_index(&names, &counts, Ghost(all));
        let ghost old_names = names@;
        let ghost old_out = out@;
        let pick = names.remove(b);
        counts.remove(b);
        out.push(string_of(&pick));
        proof {
            let sv = crate::text::strings_view(out@);
            let old_sv = crate::text::strings_view(old_out);
            assert(sv == old_sv.push(pick@));
            assert forall|i: int, k: int| 0 <= i < out@.len() && 0 <= k < names@.len() implies ranks_above(
                all,
                #[trigger] out@[i]@,
                #[trigger] names@[k]@,
            ) by {
                let ok = if k < b { k } else { k + 1 };
                assert(names@[k] == old_names[ok]);
                if i < old_out.len() {
                    assert(out@[i] == old_out[i]);
                }
            }
            assert forall|i: int, j: int| 0 <= i < j < out@.len() implies ranks_above(
                all,
                #[trigger] out@[i]@,
                #[trigger] out@[j]@,
            ) by {
                if j == old_out.len() {
                    assert(out@[i] == old_out[i]);
                    assert(old_names[b as int] == pick);
                } else {
                    assert(out@[i] == old_out[i] && out@[j] == old_out[j]);
                }
            }
            assert forall|x: Seq<char>| #[trigger] tag_count(all, x) > 0 implies sv.contains(x) || exists|k: int|
                0 <= k < names@.len() && #[trigger] names@[k]@ == x by {
                if !sv.contains(x) {
                    if old_sv.contains(x) {
                        let w = choose|w: int| 0 <= w < old_sv.len() && old_sv[w] == x;
                        assert(sv[w] == x);
                    }
                    let w = choose|w: int| 0 <= w < old_names.len() && #[trigger] old_names[w]@ == x;
                    if w == b {
                        assert(sv[sv.len() - 1] == x);
                    } else {
                        let nk = if w < b { w } else { w - 1 };
                        assert(names@[nk]@ == x);
                    }
                }
            }
            assert forall|i: int| 0 <= i < out@.len() implies tag_count(all, #[trigger] out@[i]@) > 0 by {
                if i < old_out.len() {
                    assert(out@[i] == old_out[i]);
                }
            }
            assert forall|a: int, c: int| 0 <= a < c < names@.len() implies #[trigger] names@[a]@ != #[trigger] names@[c]@ by {
                let oa = if a < b { a } else { a + 1 };
                let oc = if c < b { c } else { c + 1 };
                assert(names@[a] == old_names[oa] && names@[c] == old_names[oc]);
            }
            assert forall|k: int| 0 <= k < names@.len() implies #[trigger] counts@[k] == tag_count(all, names@[k]@) && counts@[k] > 0 by {
                let ok = if k < b { k } else { k + 1 };
                assert(names@[k] == old_names[ok]);
            }
        }
    }
    proof {
        let sv = crate::text::strings_view(out@);
        assert forall|x: Seq<char>, i: int|
            0 <= i < sv.len() && tag_count(all, x) > 0 && !sv.contains(x) implies #[trigger] ranks_above(all, sv[i], x) by {
            let w = choose|w: int| 0 <= w < names@.len() && #[trigger] names@[w]@ == x;
            assert(ranks_above(all, out@[i]@, names@[w]@));
        }
        assert forall|i: int, j: int| 0 <= i < j < sv.len() implies ranks_above(all, #[trigger] sv[i], #[trigger] sv[j]) by {
            assert(ranks_above(all, out@[i]@, out@[j]@));
        }
        assert forall|i: int| 0 <= i < sv.len() implies tag_count(all, #[trigger] sv[i]) > 0 by {
            assert(tag_count(all, out@[i]@) > 0);
        }
        if sv.len() < n {
            assert forall|x: Seq<char>| tag_count(all, x) > 0 implies #[trigger] sv.contains(x) by {
                assert(tag_count(all, x) > 0);
            }
        }
    }
    out
}

/// Whether a collection tag was chosen by someone (not filled in
/// automatically).
pub open spec fn authored(t: CollectionTag) -> bool {
    !(t.added_by matches Some(a) && a@ == auto_marker())
}

/// Whether a collection tag was filled in automatically for the collection
/// at `now`.
pub open spec fn is_auto_tag(t: CollectionTag, collection_id: Seq<char>, now: Seq<char>) -> bool {
    &&& t.collection_id@ == collection_id
    &&& t.added_at@ == now
    &&& t.added_by matches Some(a) && a@ == auto_marker()
}

/// Whether any collection tag was chosen by someone.
fn has_authored_tags(tags: &Vec<CollectionTag>) -> (b: bool)
    ensures
        b == exists|i: int| 0 <= i < tags@.len() && authored(#[trigger] tags@[i]),
{
    let mut i: usize = 0;
    while i < tags.len()
        invariant
            i <= tags.len(),
            forall|j: int| 0 <= j < i ==> !authored(#[trigger] tags@[j]),
        decreases tags.len() - i,
    {
        let auto = match &tags[i].added_by {
            Some(a) => eq_str(&chars_of(a.as_str()), "__auto__"),
            None => false,
        };
        if !auto {
            assert(authored(tags@[i as int]));
            return true;
        }
        i = i + 1;
    }
    false
}

/// The collection tags of a snapshot: the existing ones, and, when none was
/// chosen by someone, the `take_n` most used bookmark tags added after them,
/// marked as filled in automatically at `now`.
pub fn auto_collection_tags(
    collection_id: &str,
    existing: Vec<CollectionTag>,
    bookmark_tags: &[Tag],
    take_n: usize,
    now: &str,
) -> (r: Vec<CollectionTag>)
    ensures
        (exists|i: int| 0 <= i < existing@.len() && authored(#[trigger] existing@[i])) ==> r@
            == existing@,
        !(exists|i: int| 0 <= i < existing@.len() && authored(#[trigger] existing@[i])) ==> {
            &&& r@.len() >= existing@.len()
            &&& r@.take(existing@.len() as int) == existing@
            &&& is_top_tags(
                tag_names(bookmark_tags@),
                take_n as nat,
                r@.skip(existing@.len() as int).map_values(|t: CollectionTag| t.tag@),
            )
            &&& forall|i: int|
                existing@.len() <= i < r@.len() ==> is_auto_tag(#[trigger] r@[i], collection_id@, now@)
        },
{
    if has_authored_tags(&existing) {
        return existing;
    }
    let top = top_tags(bookmark_tags, take_n);
    let mut out = existing;
    let ghost base = out@;
    let mut i: usize = 0;
    while i < top.len()
        invariant
            i <= top.len(),
            out@.len() == base.len() + i,
            out@.take(base.len() as int) == base,
            forall|k: int| 0 <= k < i ==> (#[trigger] out@[base.len() + k]).tag@ == top@[k]@,
            forall|k: int|
                base.len() <= k < out@.len() ==> is_auto_tag(#[trigger] out@[k], collection_id@, now@),
        decreases top.len() - i,
    {
        let mut marker: Vec<char> = Vec::new();
        crate::text::push_str(&mut marker, "__auto__");
        out.push(
            CollectionTag {
                collection_id: string_of(&chars_of(collection_id)),
                tag: top[i].clone(),
                added_at: string_of(&chars_of(now)),
                added_by: Some(string_of(&marker)),
            },
        );
        proof {
            assert(out@.take(base.len() as int) =~= base);
        }
        i = i + 1;
    }
    proof {
        let added = out@.skip(base.len() as int).map_values(|t: CollectionTag| t.tag@);
        assert forall|k: int| 0 <= k < added.len() implies added[k] == crate::text::strings_view(top@)[k] by {
            assert(out@.skip(base.len() as int)[k] == out@[base.len() + k]);
        }
        assert(added =~= crate::text::strings_view(top@));
    }
    out
}

/// A copy of a comment.
fn copy_comment(c: &BookmarkComment) -> (r: BookmarkComment)
    ensures
        r == *c,
{
    BookmarkComment {
        id: c.id.clone(),
        bookmark_id: c.bookmark_id.clone(),
        author: c.author.clone(),
        body: c.body.clone(),
        created_at: c.created_at.clone(),
        parent_id: c.parent_id.clone(),
    }
}

/// The comments of the bookmarks, in order.
pub open spec fn all_comments(b: Seq<Bookmark>) -> Seq<BookmarkComment>
    decreases b.len(),
{
    if b.len() == 0 {
        seq![]
    } else {
        all_comments(b.drop_last()) + b.last().comments@
    }
}

/// The comments of the bookmarks, in order.
fn collect_comments(bookmarks: &Vec<Bookmark>) -> (r: Vec<BookmarkComment>)
    ensures
        r@ == all_comments(bookmarks@),
{
    let mut out: Vec<BookmarkComment> = Vec::new();
    let mut i: usize = 0;
    while i < bookmarks.len()
        invariant
            i <= bookmarks.len(),
            out@ == all_comments(bookmarks@.take(i as int)),
        decreases bookmarks.len() - i,
    {
        let ghost start = out@;
        let cs = &bookmarks[i].comments;
        let mut j: usize = 0;
        while j < cs.len()
            invariant
                j <= cs.len(),
                out@ == start + cs@.take(j as int),
            decreases cs.len() - j,
        {
            out.push(copy_comment(&cs[j]));
            j = j + 1;
            assert(cs@.take(j as int) == cs@.take(j - 1).push(cs@[j - 1]));
        }
        proof {
            assert(cs@.take(cs.len() as int) == cs@);
            let t = bookmarks@.take(i + 1);
            assert(t.drop_last() == bookmarks@.take(i as int));
            assert(t.last() == bookmarks@[i as int]);
        }
        i = i + 1;
    }
    proof {
        assert(bookmarks@.take(bookmarks.len() as int) == bookmarks@);
    }
    out
}

/// The collection a snapshot is built for: the one found by its id, or an
/// input error naming the id when there is none.
pub fn snapshot_collection(collection_id: &str, found: Option<Collection>) -> (r: Result<Collection>)
    ensures
        found is None ==> (r matches Err(Error::Input(m)) && m@ == "collection "@ + collection_id@
            + " not found"@),
        found matches Some(c) ==> r == Ok::<Collection, Error>(c),
{
    match found {
        Some(c) => Ok(c),
        None => {
            let mut m: Vec<char> = Vec::new();
            crate::text::push_str(&mut m, "collection ");
            crate::text::push_str(&mut m, collection_id);
            crate::text::push_str(&mut m, " not found");
            Err(Error::Input(string_of(&m)))
        },
    }
}

/// One bookmark of a snapshot with its resolution: the bookmark updated by
/// [`update_after_resolution`] (at `now`), and the record of
/// [`snapshot_resolution`] for the updated bookmark, resolved at `now`.
pub fn snapshot_entry(
    bookmark: Bookmark,
    result: &ResolutionResult,
    days_since: u32,
    stale_days: u32,
    head_commit: Option<String>,
    id: String,
    now: String,
    preview: String,
) -> (r: (Bookmark, Resolution))
    requires
        result.start_line < usize::MAX,
        result.end_line < usize::MAX,
    ensures
        r.1.bookmark_id@ == r.0.id@,
        r.0.id == bookmark.id,
        r.0.health == transition_spec(
            result.method,
            bookmark.content_hash matches Some(h) && h@ == result.content_hash@,
        ),
        r.0.resolution_method == Some(result.method),
        r.0.last_resolved_at matches Some(t) && t@ == now@,
        r.1.id == id,
        r.1.resolved_at@ == now@,
        r.1.health == r.0.health,
        r.1.method == result.method,
        r.1.commit_hash == head_commit,
        r.1.content_hash matches Some(c) && c@ == result.content_hash@,
        r.1.preview_lines == Some(preview),
{
    let mut bm = bookmark;
    let at = now.clone();
    update_after_resolution(&mut bm, result, days_since, stale_days, at);
    let res = snapshot_resolution(&bm, result, head_commit, id, now, preview);
    (bm, res)
}

/// Assemble a snapshot from the bookmarks paired with their resolutions (in
/// order), the bookmarks' tags, and the collection's tags and links: the
/// bookmarks and resolutions keep their pairing index by index, the
/// collection's health is recomputed from the bookmarks (at `now`), the
/// comments are the bookmarks' comments in order, and the collection tags
/// are filled in when nobody chose any (see [`auto_collection_tags`]).
pub fn finish_snapshot(
    collection: Collection,
    entries: Vec<(Bookmark, Resolution)>,
    tags: Vec<Tag>,
    collection_tags: Vec<CollectionTag>,
    collection_links: Vec<CollectionLink>,
    autopopulate_count: usize,
    now: &str,
) -> (r: SnapshotPayload)
    ensures
        r.collection.id == collection.id,
        r.collection.name == collection.name,
        r.bookmarks@.len() == entries@.len(),
        r.resolutions@.len() == entries@.len(),
        forall|i: int|
            0 <= i < entries@.len() ==> #[trigger] r.bookmarks@[i] == entries@[i].0
                && r.resolutions@[i] == entries@[i].1,
        r.collection.health == collection_health_spec(
            r.bookmarks@.map_values(|b: Bookmark| b.health),
        ),
        r.collection.health_computed_at matches Some(t) && t@ == now@,
        r.tags == tags,
        r.comments@ == all_comments(r.bookmarks@),
        r.collection_links == collection_links,
        (exists|i: int| 0 <= i < collection_tags@.len() && authored(#[trigger] collection_tags@[i]))
            ==> r.collection_tags@ == collection_tags@,
        !(exists|i: int| 0 <= i < collection_tags@.len() && authored(#[trigger] collection_tags@[i]))
            ==> {
            &&& r.collection_tags@.len() >= collection_tags@.len()
            &&& r.collection_tags@.take(collection_tags@.len() as int) == collection_tags@
            &&& is_top_tags(
                tag_names(tags@),
                autopopulate_count as nat,
                r.collection_tags@.skip(collection_tags@.len() as int).map_values(
                    |t: CollectionTag| t.tag@,
                ),
            )
            &&& forall|i: int|
                collection_tags@.len() <= i < r.collection_tags@.len() ==> is_auto_tag(
                    #[trigger] r.collection_tags@[i],
                    collection.id@,
                    now@,
                )
        },
{
    let mut bookmarks: Vec<Bookmark> = Vec::new();
    let mut resolutions: Vec<Resolution> = Vec::new();
    let mut rest = entries;
    let ghost all = rest@;
    let ghost mut k: int = 0;
    assert(all.skip(0) == all);
    while rest.len() > 0
        invariant
            0 <= k <= all.len(),
            rest@ == all.skip(k),
            bookmarks@.len() == k,
            resolutions@.len() == k,
            forall|i: int| 0 <= i < k ==> #[trigger] bookmarks@[i] == all[i].0 && resolutions@[i] == all[i].1,
        decreases rest.len(),
    {
        let (b, r) = rest.remove(0);
        proof {
            assert(all.skip(k)[0] == all[k]);
            assert(rest@ == all.skip(k + 1));
            k = k + 1;
        }
        bookmarks.push(b);
        resolutions.push(r);
    }
    let mut collection = collection;
    let health = snapshot_health(bookmarks.as_slice());
    collection.health = health;
    collection.health_computed_at = Some(string_of(&chars_of(now)));
    let comments = collect_comments(&bookmarks);
    let ctags = auto_collection_tags(
        collection.id.as_str(),
        collection_tags,
        tags.as_slice(),
        autopopulate_count,
        now,
    );
    SnapshotPayload {
        collection,
        bookmarks,
        resolutions,
        tags,
        comments,
        collection_tags: ctags,
        collection_links,
    }
}

} // verus!
