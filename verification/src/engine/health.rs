//! Health transitions of a bookmark after a resolution attempt, and the
//! age rules that read resolution timestamps.

use vstd::prelude::*;

use crate::engine::bookmark::{BookmarkHealth, ResolutionMethod};

verus! {

/// The health a bookmark has after a resolution with `method`, where
/// `hash_matches` tells whether the matched content hashes to the stored hash.
pub open spec fn transition_spec(method: ResolutionMethod, hash_matches: bool) -> BookmarkHealth {
    match method {
        ResolutionMethod::Exact => if hash_matches {
            BookmarkHealth::Active
        } else {
            BookmarkHealth::Drifted
        },
        ResolutionMethod::Relaxed => BookmarkHealth::Drifted,
        ResolutionMethod::HashFallback => BookmarkHealth::Drifted,
        ResolutionMethod::Failed => BookmarkHealth::Stale,
    }
}

/// Determine the new bookmark health based on resolution outcome and whether
/// the content hash matches.
///
/// For any successful resolution (Exact, Relaxed, HashFallback), the bookmark's
/// health reflects the current resolution result. Failed resolutions always
/// result in Stale. The previous health and the ages are not consulted.
pub fn transition(
    _current: BookmarkHealth,
    method: ResolutionMethod,
    hash_matches: bool,
    _days_since_resolution: u32,
    _stale_threshold: u32,
) -> (r: BookmarkHealth)
    ensures
        r == transition_spec(method, hash_matches),
{
    match method {
        ResolutionMethod::Exact => if hash_matches {
            BookmarkHealth::Active
        } else {
            BookmarkHealth::Drifted
        },
        ResolutionMethod::Relaxed => BookmarkHealth::Drifted,
        ResolutionMethod::HashFallback => BookmarkHealth::Drifted,
        ResolutionMethod::Failed => BookmarkHealth::Stale,
    }
}

/// A resolution that located the code never leaves the bookmark stale, and one
/// that failed always does.
pub proof fn lemma_transition_stale_iff_failed(method: ResolutionMethod, hash_matches: bool)
    ensures
        (transition_spec(method, hash_matches) == BookmarkHealth::Stale) <==> (method
            == ResolutionMethod::Failed),
        transition_spec(method, hash_matches) != BookmarkHealth::Archived,
        (transition_spec(method, hash_matches) == BookmarkHealth::Active) <==> (method
            == ResolutionMethod::Exact && hash_matches),
{
}

// --- Timestamps ---

/// Whether `chrono::DateTime::parse_from_rfc3339` accepts the text `s`.
pub uninterp spec fn is_rfc3339(s: Seq<char>) -> bool;

/// Whole days elapsed from the RFC 3339 timestamp `s` to now:
/// `chrono::DateTime::parse_from_rfc3339`, then `chrono::Utc::now() - t` and
/// `TimeDelta::num_days` (truncated toward zero). `Some` exactly when the
/// text parses (a function of the text alone, named [`is_rfc3339`]); the
/// count itself depends on the clock, so nothing is stated of it.
#[verifier::external_body]
fn whole_days_since(s: &str) -> (r: Option<i64>)
    ensures
        r is Some <==> is_rfc3339(s@),
{
    chrono::DateTime::parse_from_rfc3339(s)
        .ok()
        .map(|dt| (chrono::Utc::now() - dt.with_timezone(&chrono::Utc)).num_days())
}

/// A signed day count as the non-negative `u32` stored for it: negative
/// counts become 0, larger ones keep their low 32 bits (`max(0) as u32`).
pub fn clamp_day_count(days: i64) -> (r: u32)
    ensures
        days < 0 ==> r == 0,
        days >= 0 ==> r == days as u32,
        0 <= days <= u32::MAX ==> r == days,
{
    if days < 0 {
        0
    } else {
        days as u32
    }
}

/// Calculate the number of days since the last resolution: 0 when there is
/// none or it is not an RFC 3339 timestamp, otherwise the whole days elapsed
/// (0 for a timestamp in the future).
pub fn days_since_resolution(last_resolved_at: Option<&str>) -> (r: u32)
    ensures
        last_resolved_at is None ==> r == 0,
        last_resolved_at matches Some(s) && !is_rfc3339(s@) ==> r == 0,
{
    match last_resolved_at {
        None => 0,
        Some(s) => match whole_days_since(s) {
            None => 0,
            Some(days) => clamp_day_count(days),
        },
    }
}

/// Whether a bookmark stale for `days_stale` whole days has passed the
/// archive threshold.
pub fn archive_due(days_stale: i64, archive_after_days: u32) -> (r: bool)
    ensures
        r == (days_stale >= archive_after_days),
{
    days_stale >= archive_after_days as i64
}

/// Determine if a stale bookmark should be auto-archived: never when
/// `stale_since` is not an RFC 3339 timestamp, otherwise when at least
/// `archive_after_days` whole days have passed since it.
pub fn should_auto_archive(stale_since: &str, archive_after_days: u32) -> (r: bool)
    ensures
        !is_rfc3339(stale_since@) ==> !r,
{
    match whole_days_since(stale_since) {
        None => false,
        Some(days) => archive_due(days, archive_after_days),
    }
}

} // verus!
