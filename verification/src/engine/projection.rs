//! UI status projection for bookmark resolutions.
//!
//! A resolution's stored health is an observation recorded at one commit. The
//! projection turns it into a user-facing status from:
//! 1. whether the resolution is the one the bookmark currently points at,
//! 2. whether it was recorded against uncommitted changes (`is_dirty`),
//! 3. how the resolution's commit relates to the current HEAD.
//!
//! Finding HEAD and asking git about ancestry are the caller's part: they
//! hand in the effective HEAD and the answers of the two ancestry queries
//! (made for the commit that [`resolution_commit`] names).

use vstd::prelude::*;

use crate::engine::bookmark::{Bookmark, BookmarkHealth, Resolution};
use crate::error::{Error, Result};
use crate::text::{chars_of, eq_str, push_str, string_of};

verus! {

/// Projected UI health labels for bookmarks.
#[derive(Debug, Clone, Copy, PartialEq, Eq)]
pub enum UIStatus {
    /// Perfect match, committed at HEAD.
    Healthy,
    /// Perfect match, but currently uncommitted.
    UnanchoredHealthy,
    /// Found at HEAD, but code content has changed.
    Drifted,
    /// Drifted found while uncommitted.
    UnanchoredDrifting,
    /// Not found at the current HEAD.
    Broken,
    /// Not found while uncommitted.
    BrokenUnanchored,
    /// Was a perfect match in a previous commit (historical or unrelated).
    Verified,
    /// Was a partial match in a previous commit (historical or unrelated).
    Outdated,
    /// Recorded at a commit ahead of current HEAD.
    Future,
}

/// How a resolution's commit relates to HEAD.
#[derive(Debug, Clone, Copy, PartialEq, Eq)]
pub enum Ancestry {
    AtHead,
    Ancestor,
    Descendant,
    Unrelated,
}

impl UIStatus {
    /// The snake-case text of the status.
    pub open spec fn name_spec(self) -> Seq<char> {
        match self {
            UIStatus::Healthy => "healthy"@,
            UIStatus::UnanchoredHealthy => "unanchored_healthy"@,
            UIStatus::Drifted => "drifted"@,
            UIStatus::UnanchoredDrifting => "unanchored_drifting"@,
            UIStatus::Broken => "broken"@,
            UIStatus::BrokenUnanchored => "broken_unanchored"@,
            UIStatus::Verified => "verified"@,
            UIStatus::Outdated => "outdated"@,
            UIStatus::Future => "future"@,
        }
    }

    /// The status a snake-case text names, if any.
    pub open spec fn from_name_spec(s: Seq<char>) -> Option<UIStatus> {
        if s == "healthy"@ {
            Some(UIStatus::Healthy)
        } else if s == "unanchored_healthy"@ {
            Some(UIStatus::UnanchoredHealthy)
        } else if s == "drifted"@ {
            Some(UIStatus::Drifted)
        } else if s == "unanchored_drifting"@ {
            Some(UIStatus::UnanchoredDrifting)
        } else if s == "broken"@ {
            Some(UIStatus::Broken)
        } else if s == "broken_unanchored"@ {
            Some(UIStatus::BrokenUnanchored)
        } else if s == "verified"@ {
            Some(UIStatus::Verified)
        } else if s == "outdated"@ {
            Some(UIStatus::Outdated)
        } else if s == "future"@ {
            Some(UIStatus::Future)
        } else {
            None
        }
    }

    /// The snake-case text of the status (what `Display` prints).
    pub fn as_str(&self) -> (r: &'static str)
        ensures
            r@ == self.name_spec(),
    {
        match self {
            UIStatus::Healthy => "healthy",
            UIStatus::UnanchoredHealthy => "unanchored_healthy",
            UIStatus::Drifted => "drifted",
            UIStatus::UnanchoredDrifting => "unanchored_drifting",
            UIStatus::Broken => "broken",
            UIStatus::BrokenUnanchored => "broken_unanchored",
            UIStatus::Verified => "verified",
            UIStatus::Outdated => "outdated",
            UIStatus::Future => "future",
        }
    }

    /// Parse a status from its snake-case text; the error names the text.
    pub fn parse(s: &str) -> (r: core::result::Result<UIStatus, String>)
        ensures
            r matches Ok(v) ==> Self::from_name_spec(s@) == Some(v),
            r is Err <==> Self::from_name_spec(s@) is None,
            r matches Err(m) ==> m@ == "unknown UI status: "@ + s@,
    {
        let cs = chars_of(s);
        if eq_str(&cs, "healthy") {
            return Ok(UIStatus::Healthy);
        }
        if eq_str(&cs, "unanchored_healthy") {
            return Ok(UIStatus::UnanchoredHealthy);
        }
        if eq_str(&cs, "drifted") {
            return Ok(UIStatus::Drifted);
        }
        if eq_str(&cs, "unanchored_drifting") {
            return Ok(UIStatus::UnanchoredDrifting);
        }
        if eq_str(&cs, "broken") {
            return Ok(UIStatus::Broken);
        }
        if eq_str(&cs, "broken_unanchored") {
            return Ok(UIStatus::BrokenUnanchored);
        }
        if eq_str(&cs, "verified") {
            return Ok(UIStatus::Verified);
        }
        if eq_str(&cs, "outdated") {
            return Ok(UIStatus::Outdated);
        }
        if eq_str(&cs, "future") {
            return Ok(UIStatus::Future);
        }
        let mut msg: Vec<char> = Vec::new();
        push_str(&mut msg, "unknown UI status: ");
        push_str(&mut msg, s);
        Err(string_of(&msg))
    }

    /// The status shown for a bookmark health when no resolution is
    /// available to project.
    pub open spec fn from_health_spec(health: BookmarkHealth) -> UIStatus {
        match health {
            BookmarkHealth::Active => UIStatus::Healthy,
            BookmarkHealth::Drifted => UIStatus::Drifted,
            BookmarkHealth::Stale => UIStatus::Broken,
            BookmarkHealth::Archived => UIStatus::Broken,
        }
    }

    /// The status shown for a bookmark health when no resolution is
    /// available to project.
    pub fn from_health(health: BookmarkHealth) -> (r: UIStatus)
        ensures
            r == Self::from_health_spec(health),
    {
        match health {
            BookmarkHealth::Active => UIStatus::Healthy,
            BookmarkHealth::Drifted => UIStatus::Drifted,
            BookmarkHealth::Stale => UIStatus::Broken,
            BookmarkHealth::Archived => UIStatus::Broken,
        }
    }
}

impl core::str::FromStr for UIStatus {
    type Err = String;

    fn from_str(s: &str) -> (r: core::result::Result<UIStatus, String>)
        ensures
            r matches Ok(v) ==> UIStatus::from_name_spec(s@) == Some(v),
            r is Err <==> UIStatus::from_name_spec(s@) is None,
            r matches Err(m) ==> m@ == "unknown UI status: "@ + s@,
    {
        UIStatus::parse(s)
    }
}

impl From<BookmarkHealth> for UIStatus {
    fn from(health: BookmarkHealth) -> (r: UIStatus) {
        UIStatus::from_health(health)
    }
}

impl vstd::std_specs::convert::FromSpecImpl<BookmarkHealth> for UIStatus {
    open spec fn obeys_from_spec() -> bool {
        true
    }

    open spec fn from_spec(v: BookmarkHealth) -> UIStatus {
        UIStatus::from_health_spec(v)
    }
}

/// The ancestry of a resolution commit: at HEAD when equal, otherwise as the
/// two git ancestry queries answer, asked in that order.
pub open spec fn ancestry_spec(
    head: Seq<char>,
    commit: Seq<char>,
    commit_is_ancestor_of_head: bool,
    head_is_ancestor_of_commit: bool,
) -> Ancestry {
    if head == commit {
        Ancestry::AtHead
    } else if commit_is_ancestor_of_head {
        Ancestry::Ancestor
    } else if head_is_ancestor_of_commit {
        Ancestry::Descendant
    } else {
        Ancestry::Unrelated
    }
}

/// The projection table.
pub open spec fn project_spec(
    is_current: bool,
    ancestry: Ancestry,
    is_anchored: bool,
    health: BookmarkHealth,
) -> UIStatus {
    let broken_like = health == BookmarkHealth::Stale || health == BookmarkHealth::Archived;
    if is_current && ancestry == Ancestry::AtHead && health == BookmarkHealth::Active {
        if is_anchored {
            UIStatus::Healthy
        } else {
            UIStatus::UnanchoredHealthy
        }
    } else if is_current && ancestry == Ancestry::AtHead && health == BookmarkHealth::Drifted {
        if is_anchored {
            UIStatus::Drifted
        } else {
            UIStatus::UnanchoredDrifting
        }
    } else if is_current && ancestry == Ancestry::Ancestor && health == BookmarkHealth::Active {
        UIStatus::Verified
    } else if is_current && ancestry == Ancestry::Ancestor && health == BookmarkHealth::Drifted {
        UIStatus::Outdated
    } else if is_current && broken_like {
        if is_anchored {
            UIStatus::Broken
        } else {
            UIStatus::BrokenUnanchored
        }
    } else if is_current && ancestry == Ancestry::Unrelated && health == BookmarkHealth::Active {
        UIStatus::Verified
    } else if is_current && ancestry == Ancestry::Unrelated && health == BookmarkHealth::Drifted {
        UIStatus::Outdated
    } else if !is_current && (ancestry == Ancestry::AtHead || ancestry == Ancestry::Ancestor)
        && health == BookmarkHealth::Active {
        UIStatus::Verified
    } else if !is_current && (ancestry == Ancestry::AtHead || ancestry == Ancestry::Ancestor)
        && health == BookmarkHealth::Drifted {
        UIStatus::Outdated
    } else if ancestry == Ancestry::Descendant {
        UIStatus::Future
    } else {
        UIStatus::Broken
    }
}

/// Project the table: current/historical, ancestry, anchoring and stored
/// health to a UI status.
pub fn project_status(
    is_current: bool,
    ancestry: Ancestry,
    is_anchored: bool,
    health: BookmarkHealth,
) -> (r: UIStatus)
    ensures
        r == project_spec(is_current, ancestry, is_anchored, health),
{
    match (is_current, ancestry, is_anchored, health) {
        (true, Ancestry::AtHead, true, BookmarkHealth::Active) => UIStatus::Healthy,
        (true, Ancestry::AtHead, false, BookmarkHealth::Active) => UIStatus::UnanchoredHealthy,
        (true, Ancestry::AtHead, true, BookmarkHealth::Drifted) => UIStatus::Drifted,
        (true, Ancestry::AtHead, false, BookmarkHealth::Drifted) => UIStatus::UnanchoredDrifting,
        (true, Ancestry::Ancestor, _, BookmarkHealth::Active) => UIStatus::Verified,
        (true, Ancestry::Ancestor, _, BookmarkHealth::Drifted) => UIStatus::Outdated,
        (true, _, true, BookmarkHealth::Stale) => UIStatus::Broken,
        (true, _, true, BookmarkHealth::Archived) => UIStatus::Broken,
        (true, _, false, BookmarkHealth::Stale) => UIStatus::BrokenUnanchored,
        (true, _, false, BookmarkHealth::Archived) => UIStatus::BrokenUnanchored,
        (true, Ancestry::Unrelated, _, BookmarkHealth::Active) => UIStatus::Verified,
        (true, Ancestry::Unrelated, _, BookmarkHealth::Drifted) => UIStatus::Outdated,
        (false, Ancestry::AtHead, _, BookmarkHealth::Active) => UIStatus::Verified,
        (false, Ancestry::Ancestor, _, BookmarkHealth::Active) => UIStatus::Verified,
        (false, Ancestry::AtHead, _, BookmarkHealth::Drifted) => UIStatus::Outdated,
        (false, Ancestry::Ancestor, _, BookmarkHealth::Drifted) => UIStatus::Outdated,
        (_, Ancestry::Descendant, _, _) => UIStatus::Future,
        _ => UIStatus::Broken,
    }
}

/// The commit a resolution is compared at: its recorded commit, or HEAD for
/// a dirty resolution that recorded none; `None` for a clean resolution
/// without a commit.
pub open spec fn resolution_commit_spec(resolution: Resolution, head: Seq<char>) -> Option<
    Seq<char>,
> {
    match resolution.commit_hash {
        Some(c) => Some(c@),
        None => if resolution.is_dirty {
            Some(head)
        } else {
            None
        },
    }
}

/// The commit whose ancestry relative to `head` the projection needs, if
/// any (see [`resolution_commit_spec`]).
pub fn resolution_commit(resolution: &Resolution, head: &str) -> (r: Option<String>)
    ensures
        r matches Some(c) ==> resolution_commit_spec(*resolution, head@) == Some(c@),
        r is None <==> resolution_commit_spec(*resolution, head@) is None,
{
    match &resolution.commit_hash {
        Some(c) => Some(c.clone()),
        None => if resolution.is_dirty {
            Some(string_of(&chars_of(head)))
        } else {
            None
        },
    }
}

/// Whether the resolution is the bookmark's current one.
pub open spec fn is_current_spec(resolution: Resolution, bookmark: Bookmark) -> bool {
    match bookmark.current_resolution_id {
        Some(id) => id@ == resolution.id@,
        None => false,
    }
}

/// The projected status of `resolution` given the effective HEAD (`None`
/// when it could not be determined) and the two ancestry answers.
pub open spec fn project_resolution_spec(
    resolution: Resolution,
    bookmark: Bookmark,
    head: Option<Seq<char>>,
    commit_is_ancestor_of_head: bool,
    head_is_ancestor_of_commit: bool,
) -> UIStatus {
    match head {
        None => UIStatus::Broken,
        Some(h) => match resolution_commit_spec(resolution, h) {
            None => UIStatus::Broken,
            Some(c) => project_spec(
                is_current_spec(resolution, bookmark),
                ancestry_spec(h, c, commit_is_ancestor_of_head, head_is_ancestor_of_commit),
                !resolution.is_dirty,
                resolution.health,
            ),
        },
    }
}

/// Project the UI status for a resolution. `head` is the effective HEAD (an
/// override, or the detected one; `None` when neither is known); the two
/// flags answer whether the [`resolution_commit`] is an ancestor of HEAD and
/// whether HEAD is an ancestor of it.
pub fn project_resolution_status(
    resolution: &Resolution,
    bookmark: &Bookmark,
    head: Option<&str>,
    commit_is_ancestor_of_head: bool,
    head_is_ancestor_of_commit: bool,
) -> (r: Result<UIStatus>)
    ensures
        r matches Ok(s) && s == project_resolution_spec(
            *resolution,
            *bookmark,
            match head {
                Some(h) => Some(h@),
                None => None,
            },
            commit_is_ancestor_of_head,
            head_is_ancestor_of_commit,
        ),
{
    let head = match head {
        Some(h) => h,
        None => return Ok(UIStatus::Broken),
    };
    let commit = match resolution_commit(resolution, head) {
        Some(c) => c,
        None => return Ok(UIStatus::Broken),
    };
    let is_current = match &bookmark.current_resolution_id {
        Some(id) => *id == resolution.id,
        None => false,
    };
    let is_anchored = !resolution.is_dirty;
    let head_chars = chars_of(head);
    let commit_chars = chars_of(commit.as_str());
    let ancestry = if crate::text::eq_chars(&head_chars, &commit_chars) {
        Ancestry::AtHead
    } else if commit_is_ancestor_of_head {
        Ancestry::Ancestor
    } else if head_is_ancestor_of_commit {
        Ancestry::Descendant
    } else {
        Ancestry::Unrelated
    };
    Ok(project_status(is_current, ancestry, is_anchored, resolution.health))
}

/// Compute the projected UI status for a bookmark. `current` is the result of
/// looking up the bookmark's current resolution (`None` when it has none, the
/// lookup found nothing, or the lookup failed); the remaining arguments are as
/// for [`project_resolution_status`].
pub fn compute_bookmark_ui_status(
    bookmark: &Bookmark,
    current: Option<&Resolution>,
    head: Option<&str>,
    commit_is_ancestor_of_head: bool,
    head_is_ancestor_of_commit: bool,
) -> (r: Result<UIStatus>)
    ensures
        (bookmark.current_resolution_id is None || current is None) ==> r == Ok::<UIStatus, Error>(
            UIStatus::from_health_spec(bookmark.health),
        ),
        bookmark.current_resolution_id is Some ==> (current matches Some(res) ==> (r matches Ok(s)
            && s == project_resolution_spec(
            *res,
            *bookmark,
            match head {
                Some(h) => Some(h@),
                None => None,
            },
            commit_is_ancestor_of_head,
            head_is_ancestor_of_commit,
        ))),
{
    if bookmark.current_resolution_id.is_some() {
        match current {
            Some(res) => project_resolution_status(
                res,
                bookmark,
                head,
                commit_is_ancestor_of_head,
                head_is_ancestor_of_commit,
            ),
            None => Ok(UIStatus::from_health(bookmark.health)),
        }
    } else {
        Ok(UIStatus::from_health(bookmark.health))
    }
}

// --- Laws ---

/// The confidence rule: a resolution projects to `Healthy` exactly when it is
/// the current one, was recorded clean (anchored), observed `Active`, and its
/// commit is the current HEAD.
pub proof fn lemma_healthy_iff_verified_at_head(
    resolution: Resolution,
    bookmark: Bookmark,
    head: Seq<char>,
    commit_is_ancestor_of_head: bool,
    head_is_ancestor_of_commit: bool,
)
    ensures
        (project_resolution_spec(
            resolution,
            bookmark,
            Some(head),
            commit_is_ancestor_of_head,
            head_is_ancestor_of_commit,
        ) == UIStatus::Healthy) <==> (is_current_spec(resolution, bookmark) && !resolution.is_dirty
            && resolution.health == BookmarkHealth::Active && resolution_commit_spec(resolution, head)
            == Some(head) && resolution.commit_hash is Some),
{
}

/// Without a known HEAD nothing is verified: the projection is `Broken`.
pub proof fn lemma_no_head_is_broken(
    resolution: Resolution,
    bookmark: Bookmark,
    a: bool,
    b: bool,
)
    ensures
        project_resolution_spec(resolution, bookmark, None, a, b) == UIStatus::Broken,
{
}

/// A resolution recorded at a commit HEAD descends from (and not at HEAD or
/// one of its ancestors) projects to `Future` whatever its health.
pub proof fn lemma_descendant_is_future(
    is_current: bool,
    is_anchored: bool,
    health: BookmarkHealth,
)
    ensures
        (is_current ==> health == BookmarkHealth::Active || health == BookmarkHealth::Drifted)
            ==> project_spec(is_current, Ancestry::Descendant, is_anchored, health)
            == UIStatus::Future,
{
}

/// Stale and archived current resolutions are always broken, unanchored or not.
pub proof fn lemma_stale_current_is_broken(
    ancestry: Ancestry,
    is_anchored: bool,
    health: BookmarkHealth,
)
    requires
        health == BookmarkHealth::Stale || health == BookmarkHealth::Archived,
    ensures
        project_spec(true, ancestry, is_anchored, health) == (if is_anchored {
            UIStatus::Broken
        } else {
            UIStatus::BrokenUnanchored
        }),
{
}

/// The text of every status parses back to that status.
pub proof fn lemma_ui_status_round_trip(s: UIStatus)
    ensures
        UIStatus::from_name_spec(s.name_spec()) == Some(s),
{
    reveal_strlit("healthy");
    assert("healthy"@.len() == 7);
    assert("healthy"@[0] == 'h');
    assert("healthy"@[1] == 'e');
    assert("healthy"@[2] == 'a');
    assert("healthy"@[3] == 'l');
    assert("healthy"@[4] == 't');
    assert("healthy"@[5] == 'h');
    assert("healthy"@[6] == 'y');
    reveal_strlit("unanchored_healthy");
    assert("unanchored_healthy"@.len() == 18);
    assert("unanchored_healthy"@[0] == 'u');
    assert("unanchored_healthy"@[1] == 'n');
    assert("unanchored_healthy"@[2] == 'a');
    assert("unanchored_healthy"@[3] == 'n');
    assert("unanchored_healthy"@[4] == 'c');
    assert("unanchored_healthy"@[5] == 'h');
    assert("unanchored_healthy"@[6] == 'o');
    assert("unanchored_healthy"@[7] == 'r');
    assert("unanchored_healthy"@[8] == 'e');
    assert("unanchored_healthy"@[9] == 'd');
    assert("unanchored_healthy"@[10] == '_');
    assert("unanchored_healthy"@[11] == 'h');
    assert("unanchored_healthy"@[12] == 'e');
    assert("unanchored_healthy"@[13] == 'a');
    assert("unanchored_healthy"@[14] == 'l');
    assert("unanchored_healthy"@[15] == 't');
    assert("unanchored_healthy"@[16] == 'h');
    assert("unanchored_healthy"@[17] == 'y');
    reveal_strlit("drifted");
    assert("drifted"@.len() == 7);
    assert("drifted"@[0] == 'd');
    assert("drifted"@[1] == 'r');
    assert("drifted"@[2] == 'i');
    assert("drifted"@[3] == 'f');
    assert("drifted"@[4] == 't');
    assert("drifted"@[5] == 'e');
    assert("drifted"@[6] == 'd');
    reveal_strlit("unanchored_drifting");
    assert("unanchored_drifting"@.len() == 19);
    assert("unanchored_drifting"@[0] == 'u');
    assert("unanchored_drifting"@[1] == 'n');
    assert("unanchored_drifting"@[2] == 'a');
    assert("unanchored_drifting"@[3] == 'n');
    assert("unanchored_drifting"@[4] == 'c');
    assert("unanchored_drifting"@[5] == 'h');
    assert("unanchored_drifting"@[6] == 'o');
    assert("unanchored_drifting"@[7] == 'r');
    assert("unanchored_drifting"@[8] == 'e');
    assert("unanchored_drifting"@[9] == 'd');
    assert("unanchored_drifting"@[10] == '_');
    assert("unanchored_drifting"@[11] == 'd');
    assert("unanchored_drifting"@[12] == 'r');
    assert("unanchored_drifting"@[13] == 'i');
    assert("unanchored_drifting"@[14] == 'f');
    assert("unanchored_drifting"@[15] == 't');
    assert("unanchored_drifting"@[16] == 'i');
    assert("unanchored_drifting"@[17] == 'n');
    assert("unanchored_drifting"@[18] == 'g');
    reveal_strlit("broken");
    assert("broken"@.len() == 6);
    assert("broken"@[0] == 'b');
    assert("broken"@[1] == 'r');
    assert("broken"@[2] == 'o');
    assert("broken"@[3] == 'k');
    assert("broken"@[4] == 'e');
    assert("broken"@[5] == 'n');
    reveal_strlit("broken_unanchored");
    assert("broken_unanchored"@.len() == 17);
    assert("broken_unanchored"@[0] == 'b');
    assert("broken_unanchored"@[1] == 'r');
    assert("broken_unanchored"@[2] == 'o');
    assert("broken_unanchored"@[3] == 'k');
    assert("broken_unanchored"@[4] == 'e');
    assert("broken_unanchored"@[5] == 'n');
    assert("broken_unanchored"@[6] == '_');
    assert("broken_unanchored"@[7] == 'u');
    assert("broken_unanchored"@[8] == 'n');
    assert("broken_unanchored"@[9] == 'a');
    assert("broken_unanchored"@[10] == 'n');
    assert("broken_unanchored"@[11] == 'c');
    assert("broken_unanchored"@[12] == 'h');
    assert("broken_unanchored"@[13] == 'o');
    assert("broken_unanchored"@[14] == 'r');
    assert("broken_unanchored"@[15] == 'e');
    assert("broken_unanchored"@[16] == 'd');
    reveal_strlit("verified");
    assert("verified"@.len() == 8);
    assert("verified"@[0] == 'v');
    assert("verified"@[1] == 'e');
    assert("verified"@[2] == 'r');
    assert("verified"@[3] == 'i');
    assert("verified"@[4] == 'f');
    assert("verified"@[5] == 'i');
    assert("verified"@[6] == 'e');
    assert("verified"@[7] == 'd');
    reveal_strlit("outdated");
    assert("outdated"@.len() == 8);
    assert("outdated"@[0] == 'o');
    assert("outdated"@[1] == 'u');
    assert("outdated"@[2] == 't');
    assert("outdated"@[3] == 'd');
    assert("outdated"@[4] == 'a');
    assert("outdated"@[5] == 't');
    assert("outdated"@[6] == 'e');
    assert("outdated"@[7] == 'd');
    reveal_strlit("future");
    assert("future"@.len() == 6);
    assert("future"@[0] == 'f');
    assert("future"@[1] == 'u');
    assert("future"@[2] == 't');
    assert("future"@[3] == 'u');
    assert("future"@[4] == 'r');
    assert("future"@[5] == 'e');
}

/// A historical (non-current) resolution recorded at HEAD or at one of its
/// ancestors still stands: it projects to `Verified` when it was recorded
/// active and to `Outdated` when drifted, anchored or not.
pub proof fn lemma_historical_at_or_before_head(ancestry: Ancestry, is_anchored: bool, health: BookmarkHealth)
    requires
        ancestry == Ancestry::AtHead || ancestry == Ancestry::Ancestor,
    ensures
        health == BookmarkHealth::Active ==> project_spec(false, ancestry, is_anchored, health)
            == UIStatus::Verified,
        health == BookmarkHealth::Drifted ==> project_spec(false, ancestry, is_anchored, health)
            == UIStatus::Outdated,
{
}

/// `Broken` is kept for a resolution recorded stale or archived, and for a
/// historical one at a commit unrelated to HEAD; an active or drifted
/// resolution related to HEAD, or any current one that is active or
/// drifted, is never broken.
pub proof fn lemma_broken_only_when_lost(
    is_current: bool,
    ancestry: Ancestry,
    is_anchored: bool,
    health: BookmarkHealth,
)
    ensures
        project_spec(is_current, ancestry, is_anchored, health) == UIStatus::Broken ==> (health
            == BookmarkHealth::Stale || health == BookmarkHealth::Archived) || (!is_current && ancestry
            == Ancestry::Unrelated),
{
}

} // verus!
