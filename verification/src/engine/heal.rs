//! Healing bookmarks: re-resolving them, recording what was found, and
//! moving their health.
//!
//! The decisions of a heal are here; the caller reads the repository and the
//! database, runs the resolution, and writes what these functions build.

use vstd::prelude::*;

use crate::engine::bookmark::{Bookmark, BookmarkHealth, Resolution, ResolutionMethod};
use crate::engine::breadcrumbs::{breadcrumbs_json, crumbs_json, crumbs_view};
use crate::engine::health::{should_auto_archive, transition, transition_spec, is_rfc3339};
use crate::engine::resolution::ResolutionResult;
use crate::numbers::{decimal, push_usize};
use crate::text::{
    chars_of, contains_seq, contains_str, lemma_split_char_step, lines_of, piece_end, push_str,
    slice_to_vec, split_char, str_lines, string_of,
};

verus! {

/// Result of healing a single bookmark.
#[derive(Debug, Clone)]
pub struct HealResult {
    /// The bookmark ID.
    pub bookmark_id: String,
    /// The new resolution ID (if created).
    pub resolution_id: Option<String>,
    /// Previous health status.
    pub previous_health: BookmarkHealth,
    /// New health status.
    pub new_health: BookmarkHealth,
    /// Resolution method used.
    pub resolution_method: ResolutionMethod,
    /// The resolved file path (if resolution succeeded).
    pub file_path: Option<String>,
    /// The resolved byte range as "start-end" (if resolution succeeded).
    pub byte_range: Option<String>,
    /// Whether this bookmark was intentionally skipped (e.g. git ancestor
    /// check).
    pub was_skipped: bool,
}

/// Options for healing bookmarks.
#[derive(Debug, Clone)]
pub struct HealOptions {
    /// Skip git ancestry checks.
    pub force: bool,
    /// Auto-archive stale bookmarks past threshold.
    pub auto_archive: bool,
    /// Days after which to auto-archive stale bookmarks.
    pub archive_after: u32,
    /// Validate only: don't record resolutions.
    pub validate_only: bool,
}

impl Default for HealOptions {
    /// No forcing, no archiving, recording resolutions.
    fn default() -> (r: HealOptions)
        ensures
            !r.force,
            !r.auto_archive,
            r.archive_after == 0,
            !r.validate_only,
    {
        HealOptions { force: false, auto_archive: false, archive_after: 0, validate_only: false }
    }
}

/// Result of healing a collection.
#[derive(Debug, Clone)]
pub struct CollectionHealResult {
    /// Number of bookmarks successfully healed (actual work done).
    pub healed: usize,
    /// Number of bookmarks that were skipped (e.g. git ancestor check).
    pub skipped: usize,
    /// Number of bookmarks that failed to heal.
    pub failed: usize,
}

/// `"a-b"`: a range as stored with a resolution.
pub open spec fn range_text_spec(a: int, b: int) -> Seq<char> {
    decimal(a as nat) + "-"@ + decimal(b as nat)
}

/// A range as text: `"a-b"`.
pub fn range_text(a: usize, b: usize) -> (r: String)
    ensures
        r@ == range_text_spec(a as int, b as int),
{
    let mut m: Vec<char> = Vec::new();
    push_usize(&mut m, a);
    push_str(&mut m, "-");
    push_usize(&mut m, b);
    string_of(&m)
}

/// Whether the ancestry of HEAD against the latest resolution must be asked
/// before healing: unless forced, when both commits are known.
pub fn needs_ancestry_check(
    options: &HealOptions,
    head: Option<&str>,
    latest_commit: Option<&str>,
) -> (b: bool)
    ensures
        b == (!options.force && head is Some && latest_commit is Some),
{
    !options.force && head.is_some() && latest_commit.is_some()
}

/// The result of a heal that resolved nothing: the health unchanged, the
/// method `Failed`, no location. `was_skipped` tells an intentional skip
/// (HEAD is behind the latest resolution) from a bookmark whose language is
/// not supported.
pub fn unresolved_heal(bookmark: &Bookmark, was_skipped: bool) -> (r: HealResult)
    ensures
        r.bookmark_id@ == bookmark.id@,
        r.resolution_id is None,
        r.previous_health == bookmark.health,
        r.new_health == bookmark.health,
        r.resolution_method == ResolutionMethod::Failed,
        r.file_path is None,
        r.byte_range is None,
        r.was_skipped == was_skipped,
{
    HealResult {
        bookmark_id: bookmark.id.clone(),
        resolution_id: None,
        previous_health: bookmark.health,
        new_health: bookmark.health,
        resolution_method: ResolutionMethod::Failed,
        file_path: None,
        byte_range: None,
        was_skipped,
    }
}

/// The health a heal leaves: the transition for the resolution, turned into
/// `Archived` when auto-archiving is on, the transition is `Stale`, and the
/// bookmark has been stale past the threshold.
pub open spec fn final_health_spec(
    new_status: BookmarkHealth,
    auto_archive: bool,
    archive_due: bool,
) -> BookmarkHealth {
    if auto_archive && new_status == BookmarkHealth::Stale && archive_due {
        BookmarkHealth::Archived
    } else {
        new_status
    }
}

/// The health after a heal, given whether the archive threshold has passed.
pub fn final_health(new_status: BookmarkHealth, auto_archive: bool, archive_due: bool) -> (r:
    BookmarkHealth)
    ensures
        r == final_health_spec(new_status, auto_archive, archive_due),
{
    match new_status {
        BookmarkHealth::Stale => if auto_archive && archive_due {
            BookmarkHealth::Archived
        } else {
            BookmarkHealth::Stale
        },
        other => other,
    }
}

/// The health a heal gives a bookmark after a resolution with `method`
/// (`hash_matches` telling whether the matched content hashes to the stored
/// hash). The archive threshold is measured against the clock, so whether a
/// stale bookmark is archived is not fixed by the arguments; whatever the
/// clock says, the result is the transition's, or `Archived` in place of
/// `Stale` when auto-archiving is on and the bookmark has a `stale_since`
/// timestamp.
pub fn heal_health(
    bookmark: &Bookmark,
    method: ResolutionMethod,
    hash_matches: bool,
    days_since: u32,
    stale_days: u32,
    options: &HealOptions,
) -> (r: BookmarkHealth)
    ensures
        transition_spec(method, hash_matches) != BookmarkHealth::Stale ==> r == transition_spec(
            method,
            hash_matches,
        ),
        !options.auto_archive ==> r == transition_spec(method, hash_matches),
        bookmark.stale_since is None ==> r == transition_spec(method, hash_matches),
        bookmark.stale_since matches Some(s) && !is_rfc3339(s@) ==> r == transition_spec(
            method,
            hash_matches,
        ),
        r == transition_spec(method, hash_matches) || r == BookmarkHealth::Archived,
{
    let new_status = transition(bookmark.health, method, hash_matches, days_since, stale_days);
    let due = match &bookmark.stale_since {
        Some(s) => should_auto_archive(s.as_str(), options.archive_after),
        None => false,
    };
    final_health(new_status, options.auto_archive, due)
}

/// The resolution record a heal writes: the located range, the health it
/// leaves, and the matched text as the snapshot. `id` and `resolved_at` are
/// the caller's (a fresh id and the current time); `is_anchored` tells that
/// the file was clean. Lines are stored 1-indexed.
pub fn heal_resolution(
    bookmark: &Bookmark,
    result: &ResolutionResult,
    final_status: BookmarkHealth,
    id: String,
    resolved_at: String,
    commit_hash: Option<String>,
    is_anchored: bool,
) -> (r: Resolution)
    requires
        result.start_line < usize::MAX,
        result.end_line < usize::MAX,
    ensures
        r.id == id,
        r.bookmark_id@ == bookmark.id@,
        r.resolved_at == resolved_at,
        r.health == final_status,
        r.commit_hash == commit_hash,
        r.method == result.method,
        r.match_count == Some(1i32),
        r.file_path matches Some(f) && f@ == result.file_path@,
        r.byte_range matches Some(b) && b@ == range_text_spec(
            result.byte_range.0 as int,
            result.byte_range.1 as int,
        ),
        r.line_range matches Some(l) && l@ == range_text_spec(
            result.start_line + 1,
            result.end_line + 1,
        ),
        r.content_hash matches Some(c) && c@ == result.content_hash@,
        r.headline is None,
        r.preview_lines is None,
        r.snapshot matches Some(s) && s@ == result.matched_text@,
        result.breadcrumbs@.len() == 0 ==> r.breadcrumbs is None,
        result.breadcrumbs@.len() > 0 ==> (r.breadcrumbs matches Some(j) && j@ == crumbs_json(
            crumbs_view(result.breadcrumbs@),
        )),
        r.is_dirty == !is_anchored,
{
    let crumbs = if result.breadcrumbs.len() == 0 {
        None
    } else {
        Some(breadcrumbs_json(result.breadcrumbs.as_slice()))
    };
    Resolution {
        id,
        bookmark_id: bookmark.id.clone(),
        resolved_at,
        health: final_status,
        commit_hash,
        method: result.method,
        match_count: Some(1),
        file_path: Some(result.file_path.clone()),
        byte_range: Some(range_text(result.byte_range.0, result.byte_range.1)),
        line_range: Some(range_text(result.start_line + 1, result.end_line + 1)),
        content_hash: Some(result.content_hash.clone()),
        headline: None,
        preview_lines: None,
        snapshot: Some(result.matched_text.clone()),
        breadcrumbs: crumbs,
        is_dirty: !is_anchored,
    }
}

/// The resolution a bookmark points at after a heal recorded one: the new
/// one when it was inserted; otherwise the latest listed one (`latest_id`,
/// `None` when the listing failed or was empty), falling back to the
/// current pointer.
pub fn pointer_after_record(
    inserted: bool,
    new_id: String,
    latest_id: Option<String>,
    current: Option<String>,
) -> (r: Option<String>)
    ensures
        inserted ==> r == Some(new_id),
        !inserted && latest_id is Some ==> r == latest_id,
        !inserted && latest_id is None ==> r == current,
{
    if inserted {
        Some(new_id)
    } else {
        match latest_id {
            Some(l) => Some(l),
            None => current,
        }
    }
}

/// The outcome of a heal that ran a resolution: the location is reported
/// only when the resolution did not fail.
pub fn heal_outcome(
    bookmark: &Bookmark,
    resolution_id: Option<String>,
    new_health: BookmarkHealth,
    result: &ResolutionResult,
) -> (r: HealResult)
    ensures
        r.bookmark_id@ == bookmark.id@,
        r.resolution_id == resolution_id,
        r.previous_health == bookmark.health,
        r.new_health == new_health,
        r.resolution_method == result.method,
        result.method != ResolutionMethod::Failed ==> (r.file_path matches Some(f) && f@
            == result.file_path@),
        result.method != ResolutionMethod::Failed ==> (r.byte_range matches Some(b) && b@
            == range_text_spec(result.byte_range.0 as int, result.byte_range.1 as int)),
        result.method == ResolutionMethod::Failed ==> r.file_path is None && r.byte_range is None,
        !r.was_skipped,
{
    let (file_path, byte_range) = match result.method {
        ResolutionMethod::Failed => (None, None),
        _ => (
            Some(result.file_path.clone()),
            Some(range_text(result.byte_range.0, result.byte_range.1)),
        ),
    };
    HealResult {
        bookmark_id: bookmark.id.clone(),
        resolution_id,
        previous_health: bookmark.health,
        new_health,
        resolution_method: result.method,
        file_path,
        byte_range,
        was_skipped: false,
    }
}

/// Whether a heal with `options` writes to the store: records a resolution,
/// moves the bookmark's pointer and recomputes the health of its
/// collections. A validate-only heal does none of these.
pub fn heal_records(options: &HealOptions) -> (r: bool)
    ensures
        r == !options.validate_only,
{
    !options.validate_only
}

/// The outcome of a heal that ran a resolution with `options`: a
/// validate-only heal reports no resolution id (nothing was recorded);
/// otherwise the id is `recorded`, the pointer after recording (see
/// [`pointer_after_record`]). The rest is as [`heal_outcome`] says.
pub fn heal_result(
    bookmark: &Bookmark,
    options: &HealOptions,
    new_health: BookmarkHealth,
    result: &ResolutionResult,
    recorded: Option<String>,
) -> (r: HealResult)
    ensures
        options.validate_only ==> r.resolution_id is None,
        !options.validate_only ==> r.resolution_id == recorded,
        r.bookmark_id@ == bookmark.id@,
        r.previous_health == bookmark.health,
        r.new_health == new_health,
        r.resolution_method == result.method,
        result.method != ResolutionMethod::Failed ==> (r.file_path matches Some(f) && f@
            == result.file_path@),
        result.method == ResolutionMethod::Failed ==> r.file_path is None && r.byte_range is None,
        !r.was_skipped,
{
    let id = if heal_records(options) {
        recorded
    } else {
        None
    };
    heal_outcome(bookmark, id, new_health, result)
}

/// How one bookmark of a collection counts: `None` for a heal that failed
/// with an error.
pub enum HealTally {
    Healed,
    Skipped,
    Failed,
}

/// How a heal's outcome counts.
pub open spec fn tally_of(outcome: Option<HealResult>) -> HealTally {
    match outcome {
        Some(r) => if r.was_skipped {
            HealTally::Skipped
        } else if r.resolution_method != ResolutionMethod::Failed {
            HealTally::Healed
        } else {
            HealTally::Failed
        },
        None => HealTally::Failed,
    }
}

/// The number of outcomes that count as `t`.
pub open spec fn count_tally(outcomes: Seq<Option<HealResult>>, t: HealTally) -> nat
    decreases outcomes.len(),
{
    if outcomes.len() == 0 {
        0
    } else {
        count_tally(outcomes.drop_last(), t) + if tally_of(outcomes.last()) == t {
            1nat
        } else {
            0nat
        }
    }
}

impl CollectionHealResult {
    /// No bookmark counted yet.
    pub fn new() -> (r: CollectionHealResult)
        ensures
            r.healed == 0 && r.skipped == 0 && r.failed == 0,
    {
        CollectionHealResult { healed: 0, skipped: 0, failed: 0 }
    }

    /// The counts of a collection heal from its outcomes, one per bookmark in
    /// order. Every bookmark is counted exactly once.
    pub fn tally(outcomes: &[Option<HealResult>]) -> (r: CollectionHealResult)
        ensures
            r.healed == count_tally(outcomes@, HealTally::Healed),
            r.skipped == count_tally(outcomes@, HealTally::Skipped),
            r.failed == count_tally(outcomes@, HealTally::Failed),
            r.healed + r.skipped + r.failed == outcomes@.len(),
    {
        let mut r = CollectionHealResult::new();
        let mut i: usize = 0;
        while i < outcomes.len()
            invariant
                i <= outcomes.len(),
                r.healed == count_tally(outcomes@.take(i as int), HealTally::Healed),
                r.skipped == count_tally(outcomes@.take(i as int), HealTally::Skipped),
                r.failed == count_tally(outcomes@.take(i as int), HealTally::Failed),
                r.healed + r.skipped + r.failed == i,
            decreases outcomes.len() - i,
        {
            proof {
                let t = outcomes@.take(i + 1);
                assert(t.drop_last() == outcomes@.take(i as int));
                assert(t.last() == outcomes@[i as int]);
            }
            match &outcomes[i] {
                Some(res) => {
                    if res.was_skipped {
                        r.skipped = r.skipped + 1;
                    } else {
                        match res.resolution_method {
                            ResolutionMethod::Failed => {
                                r.failed = r.failed + 1;
                            },
                            _ => {
                                r.healed = r.healed + 1;
                            },
                        }
                    }
                },
                None => {
                    r.failed = r.failed + 1;
                },
            }
            i = i + 1;
        }
        proof {
            assert(outcomes@.take(outcomes.len() as int) == outcomes@);
        }
        r
    }
}

// ---------------------------------------------------------------------------
// Names in heal reports
// ---------------------------------------------------------------------------

/// The first line that holds an `#eq?` predicate.
pub open spec fn first_eq_line(ls: Seq<Seq<char>>) -> Option<Seq<char>>
    decreases ls.len(),
{
    if ls.len() == 0 {
        None
    } else if contains_seq(ls[0], "#eq?"@) {
        Some(ls[0])
    } else {
        first_eq_line(ls.drop_first())
    }
}

/// The notes of a bookmark's first annotation, if it has them.
pub open spec fn first_annotation_notes(b: Bookmark) -> Option<Seq<char>> {
    if b.annotations.len() > 0 {
        match b.annotations[0].notes {
            Some(n) => Some(n@),
            None => None,
        }
    } else {
        None
    }
}

/// The name a heal report gives a bookmark: the notes of its first
/// annotation, else the quoted name in the first `#eq?` line of its query,
/// else its file path.
pub open spec fn heal_name_spec(b: Bookmark) -> Seq<char> {
    match first_annotation_notes(b) {
        Some(n) => n,
        None => match first_eq_line(str_lines(b.query@)) {
            Some(l) => if split_char(l, '"').len() > 1 {
                split_char(l, '"')[1]
            } else {
                b.file_path@
            },
            None => b.file_path@,
        },
    }
}

/// The text after the first `"` of `l`, up to the next `"`.
fn second_quoted_piece(l: &[char]) -> (r: Option<Vec<char>>)
    ensures
        split_char(l@, '"').len() > 1 ==> (r matches Some(p) && p@ == split_char(l@, '"')[1]),
        split_char(l@, '"').len() <= 1 ==> r is None,
{
    let first = piece_end(l, '"', 0);
    proof {
        assert(l@.skip(0) =~= l@);
        lemma_split_char_step(l@, '"', 0, first as int);
    }
    if first == l.len() {
        return None;
    }
    let second = piece_end(l, '"', first + 1);
    proof {
        lemma_split_char_step(l@, '"', first + 1, second as int);
    }
    Some(slice_to_vec(l, first + 1, second))
}

/// The name a heal report gives a bookmark ([`heal_name_spec`]).
pub fn heal_display_name(bookmark: &Bookmark) -> (r: String)
    ensures
        r@ == heal_name_spec(*bookmark),
{
    if bookmark.annotations.len() > 0 {
        match &bookmark.annotations[0].notes {
            Some(n) => {
                return n.clone();
            },
            None => {},
        }
    }
    let lines = lines_of(bookmark.query.as_str());
    let ghost ls = str_lines(bookmark.query@);
    assert(first_annotation_notes(*bookmark) is None);
    assert(ls.skip(0) =~= ls);
    let mut i: usize = 0;
    while i < lines.len()
        invariant
            i <= lines.len(),
            lines@.len() == ls.len(),
            forall|k: int| 0 <= k < ls.len() ==> #[trigger] lines@[k]@ == ls[k],
            first_eq_line(ls) == first_eq_line(ls.skip(i as int)),
            first_annotation_notes(*bookmark) is None,
            ls == str_lines(bookmark.query@),
        decreases lines.len() - i,
    {
        let l = chars_of(lines[i].as_str());
        assert(ls.skip(i as int)[0] == ls[i as int]);
        assert(ls.skip(i as int).drop_first() =~= ls.skip(i + 1));
        if contains_str(&l, "#eq?") {
            assert(first_eq_line(ls) == Some(l@));
            let piece = second_quoted_piece(&l);
            let r = match piece {
                Some(p) => string_of(&p),
                None => bookmark.file_path.clone(),
            };
            return r;
        }
        i = i + 1;
    }
    assert(ls.skip(i as int).len() == 0);
    bookmark.file_path.clone()
}

// ---------------------------------------------------------------------------
// The heal run
// ---------------------------------------------------------------------------

/// The healths a heal run visits: those of the `--health` filter, or, when
/// none is given, every health but archived.
pub fn heal_health_filter(given: Option<Vec<BookmarkHealth>>) -> (r: Vec<BookmarkHealth>)
    ensures
        given matches Some(v) ==> r@ == v@,
        given is None ==> r@ == seq![BookmarkHealth::Active, BookmarkHealth::Drifted, BookmarkHealth::Stale],
{
    match given {
        Some(v) => v,
        None => {
            let mut v: Vec<BookmarkHealth> = Vec::new();
            v.push(BookmarkHealth::Active);
            v.push(BookmarkHealth::Drifted);
            v.push(BookmarkHealth::Stale);
            v
        },
    }
}

/// What a heal run did with one bookmark: skipped it (its resolution is
/// ahead of HEAD), passed over it (its language is not known), or healed it.
#[derive(Debug, Clone, Copy, PartialEq, Eq)]
pub enum HealStep {
    Skipped,
    PassedOver,
    Healed,
}

/// The counts a heal run reports: bookmarks healed (one update each) and
/// bookmarks skipped.
#[derive(Debug, Clone, Copy, PartialEq, Eq)]
pub struct HealTotals {
    pub total_processed: usize,
    pub skipped: usize,
}

/// How many steps of `steps` are `step`.
pub open spec fn count_steps(steps: Seq<HealStep>, step: HealStep) -> nat
    decreases steps.len(),
{
    if steps.len() == 0 {
        0
    } else {
        count_steps(steps.drop_last(), step) + if steps.last() == step {
            1nat
        } else {
            0nat
        }
    }
}

/// The totals of a heal run over `steps`: the healed bookmarks and the
/// skipped ones; a bookmark passed over counts in neither.
pub fn heal_totals(steps: &[HealStep]) -> (r: HealTotals)
    ensures
        r.total_processed == count_steps(steps@, HealStep::Healed),
        r.skipped == count_steps(steps@, HealStep::Skipped),
{
    let mut healed: usize = 0;
    let mut skipped: usize = 0;
    let mut i: usize = 0;
    while i < steps.len()
        invariant
            i <= steps.len(),
            healed == count_steps(steps@.take(i as int), HealStep::Healed),
            skipped == count_steps(steps@.take(i as int), HealStep::Skipped),
            healed + skipped <= i,
        decreases steps.len() - i,
    {
        proof {
            assert(steps@.take(i + 1).drop_last() =~= steps@.take(i as int));
            assert(steps@.take(i + 1).last() == steps@[i as int]);
        }
        match steps[i] {
            HealStep::Healed => {
                healed = healed + 1;
            },
            HealStep::Skipped => {
                skipped = skipped + 1;
            },
            HealStep::PassedOver => {},
        }
        i = i + 1;
    }
    assert(steps@.take(steps.len() as int) =~= steps@);
    HealTotals { total_processed: healed, skipped }
}

} // verus!
