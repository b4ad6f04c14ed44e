use codemark::engine::bookmark::{BookmarkHealth, ResolutionMethod};
use codemark::engine::health::transition;

#[test]
fn invalid_health_returns_error() {
    assert!("bogus".parse::<BookmarkHealth>().is_err());
}

#[test]
fn exact_with_hash_match_returns_active() {
    assert_eq!(
        transition(BookmarkHealth::Drifted, ResolutionMethod::Exact, true, 0, 30),
        BookmarkHealth::Active
    );
    assert_eq!(
        transition(BookmarkHealth::Stale, ResolutionMethod::Exact, true, 0, 30),
        BookmarkHealth::Active
    );
}

#[test]
fn exact_without_hash_match_returns_drifted() {
    assert_eq!(
        transition(BookmarkHealth::Active, ResolutionMethod::Exact, false, 0, 30),
        BookmarkHealth::Drifted
    );
}

#[test]
fn relaxed_returns_drifted() {
    assert_eq!(
        transition(BookmarkHealth::Active, ResolutionMethod::Relaxed, true, 0, 30),
        BookmarkHealth::Drifted
    );
}

#[test]
fn hash_fallback_returns_drifted() {
    assert_eq!(
        transition(BookmarkHealth::Active, ResolutionMethod::HashFallback, false, 0, 30),
        BookmarkHealth::Drifted
    );
}

#[test]
fn failed_returns_stale() {
    assert_eq!(
        transition(BookmarkHealth::Active, ResolutionMethod::Failed, false, 0, 30),
        BookmarkHealth::Stale
    );
}

#[test]
fn successful_resolution_overrides_stale_age() {
    // A successful exact match resolution should return Active
    // even if the previous resolution was beyond the stale threshold
    assert_eq!(
        transition(BookmarkHealth::Active, ResolutionMethod::Exact, true, 31, 30),
        BookmarkHealth::Active
    );
}
