//! The bookmark domain: health states, resolution methods, and the records
//! that bookmarks, resolutions and collections are stored as.

use vstd::prelude::*;

use crate::error::{Error, Result};
use crate::text::{chars_of, eq_str, push_str, string_of};

verus! {

// --- Enums ---

/// The health recorded for a bookmark.
#[derive(Debug, Clone, Copy, PartialEq, Eq, Hash)]
pub enum BookmarkHealth {
    Active,
    Drifted,
    Stale,
    Archived,
}

/// The aggregate health of a collection.
#[derive(Debug, Clone, Copy, PartialEq, Eq, Hash)]
pub enum CollectionHealth {
    Active,
    Drifted,
    Stale,
}

/// What an external link attached to a collection points at.
#[derive(Debug, Clone, Copy, PartialEq, Eq)]
pub enum CollectionLinkKind {
    Pr,
    Issue,
    Doc,
    Discussion,
    Dashboard,
    Repo,
    Tour,
    Other,
}

/// Which tier of resolution located a bookmark.
#[derive(Debug, Clone, Copy, PartialEq, Eq)]
pub enum ResolutionMethod {
    Exact,
    Relaxed,
    HashFallback,
    Failed,
}

/// Whether a collection is published publicly.
#[derive(Debug, Clone, Copy, PartialEq, Eq)]
pub enum Visibility {
    Public,
    Private,
}

impl BookmarkHealth {
    /// The text this health is stored and printed as.
    pub open spec fn name_spec(self) -> Seq<char> {
        match self {
            BookmarkHealth::Active => "active"@,
            BookmarkHealth::Drifted => "drifted"@,
            BookmarkHealth::Stale => "stale"@,
            BookmarkHealth::Archived => "archived"@,
        }
    }

    /// The health named by `s`, if any.
    pub open spec fn from_name_spec(s: Seq<char>) -> Option<BookmarkHealth> {
        if s == "active"@ {
            Some(BookmarkHealth::Active)
        } else if s == "drifted"@ {
            Some(BookmarkHealth::Drifted)
        } else if s == "stale"@ {
            Some(BookmarkHealth::Stale)
        } else if s == "archived"@ {
            Some(BookmarkHealth::Archived)
        } else {
            None
        }
    }

    /// The text this health is stored and printed as.
    pub fn as_str(&self) -> (r: &'static str)
        ensures
            r@ == self.name_spec(),
    {
        match self {
            BookmarkHealth::Active => "active",
            BookmarkHealth::Drifted => "drifted",
            BookmarkHealth::Stale => "stale",
            BookmarkHealth::Archived => "archived",
        }
    }

    /// Parse the stored text of a health; any other text is an input error.
    pub fn parse(s: &str) -> (r: Result<BookmarkHealth>)
        ensures
            r matches Ok(v) ==> Self::from_name_spec(s@) == Some(v),
            r is Err <==> Self::from_name_spec(s@) is None,
            r matches Err(e) ==> e is Input && e.message_spec() == "invalid bookmark health: "@ + s@,
    {
        let cs = chars_of(s);
        if eq_str(&cs, "active") {
            return Ok(BookmarkHealth::Active);
        }
        if eq_str(&cs, "drifted") {
            return Ok(BookmarkHealth::Drifted);
        }
        if eq_str(&cs, "stale") {
            return Ok(BookmarkHealth::Stale);
        }
        if eq_str(&cs, "archived") {
            return Ok(BookmarkHealth::Archived);
        }
        let mut msg: Vec<char> = Vec::new();
        push_str(&mut msg, "invalid bookmark health: ");
        push_str(&mut msg, s);
        Err(Error::Input(string_of(&msg)))
    }
}

impl core::str::FromStr for BookmarkHealth {
    type Err = Error;

    fn from_str(s: &str) -> (r: Result<BookmarkHealth>)
        ensures
            r matches Ok(v) ==> BookmarkHealth::from_name_spec(s@) == Some(v),
            r is Err <==> BookmarkHealth::from_name_spec(s@) is None,
            r matches Err(e) ==> e is Input && e.message_spec() == "invalid bookmark health: "@ + s@,
    {
        BookmarkHealth::parse(s)
    }
}

impl CollectionHealth {
    /// The text this health is stored and printed as.
    pub open spec fn name_spec(self) -> Seq<char> {
        match self {
            CollectionHealth::Active => "active"@,
            CollectionHealth::Drifted => "drifted"@,
            CollectionHealth::Stale => "stale"@,
        }
    }

    /// The health named by `s`, if any.
    pub open spec fn from_name_spec(s: Seq<char>) -> Option<CollectionHealth> {
        if s == "active"@ {
            Some(CollectionHealth::Active)
        } else if s == "drifted"@ {
            Some(CollectionHealth::Drifted)
        } else if s == "stale"@ {
            Some(CollectionHealth::Stale)
        } else {
            None
        }
    }

    /// The text this health is stored and printed as.
    pub fn as_str(&self) -> (r: &'static str)
        ensures
            r@ == self.name_spec(),
    {
        match self {
            CollectionHealth::Active => "active",
            CollectionHealth::Drifted => "drifted",
            CollectionHealth::Stale => "stale",
        }
    }

    /// Parse the stored text of a health; any other text is an input error.
    pub fn parse(s: &str) -> (r: Result<CollectionHealth>)
        ensures
            r matches Ok(v) ==> Self::from_name_spec(s@) == Some(v),
            r is Err <==> Self::from_name_spec(s@) is None,
            r matches Err(e) ==> e is Input && e.message_spec() == "invalid collection health: "@ + s@,
    {
        let cs = chars_of(s);
        if eq_str(&cs, "active") {
            return Ok(CollectionHealth::Active);
        }
        if eq_str(&cs, "drifted") {
            return Ok(CollectionHealth::Drifted);
        }
        if eq_str(&cs, "stale") {
            return Ok(CollectionHealth::Stale);
        }
        let mut msg: Vec<char> = Vec::new();
        push_str(&mut msg, "invalid collection health: ");
        push_str(&mut msg, s);
        Err(Error::Input(string_of(&msg)))
    }
}

impl core::str::FromStr for CollectionHealth {
    type Err = Error;

    fn from_str(s: &str) -> (r: Result<CollectionHealth>)
        ensures
            r matches Ok(v) ==> CollectionHealth::from_name_spec(s@) == Some(v),
            r is Err <==> CollectionHealth::from_name_spec(s@) is None,
            r matches Err(e) ==> e is Input && e.message_spec() == "invalid collection health: "@ + s@,
    {
        CollectionHealth::parse(s)
    }
}

impl CollectionLinkKind {
    /// The text this link kind is stored and printed as.
    pub open spec fn name_spec(self) -> Seq<char> {
        match self {
            CollectionLinkKind::Pr => "pr"@,
            CollectionLinkKind::Issue => "issue"@,
            CollectionLinkKind::Doc => "doc"@,
            CollectionLinkKind::Discussion => "discussion"@,
            CollectionLinkKind::Dashboard => "dashboard"@,
            CollectionLinkKind::Repo => "repo"@,
            CollectionLinkKind::Tour => "tour"@,
            CollectionLinkKind::Other => "other"@,
        }
    }

    /// The link kind named by `s`, if any.
    pub open spec fn from_name_spec(s: Seq<char>) -> Option<CollectionLinkKind> {
        if s == "pr"@ {
            Some(CollectionLinkKind::Pr)
        } else if s == "issue"@ {
            Some(CollectionLinkKind::Issue)
        } else if s == "doc"@ {
            Some(CollectionLinkKind::Doc)
        } else if s == "discussion"@ {
            Some(CollectionLinkKind::Discussion)
        } else if s == "dashboard"@ {
            Some(CollectionLinkKind::Dashboard)
        } else if s == "repo"@ {
            Some(CollectionLinkKind::Repo)
        } else if s == "tour"@ {
            Some(CollectionLinkKind::Tour)
        } else if s == "other"@ {
            Some(CollectionLinkKind::Other)
        } else {
            None
        }
    }

    /// The text this link kind is stored and printed as.
    pub fn as_str(&self) -> (r: &'static str)
        ensures
            r@ == self.name_spec(),
    {
        match self {
            CollectionLinkKind::Pr => "pr",
            CollectionLinkKind::Issue => "issue",
            CollectionLinkKind::Doc => "doc",
            CollectionLinkKind::Discussion => "discussion",
            CollectionLinkKind::Dashboard => "dashboard",
            CollectionLinkKind::Repo => "repo",
            CollectionLinkKind::Tour => "tour",
            CollectionLinkKind::Other => "other",
        }
    }

    /// Parse the stored text of a link kind; any other text is an input error.
    pub fn parse(s: &str) -> (r: Result<CollectionLinkKind>)
        ensures
            r matches Ok(v) ==> Self::from_name_spec(s@) == Some(v),
            r is Err <==> Self::from_name_spec(s@) is None,
            r matches Err(e) ==> e is Input && e.message_spec() == "invalid collection link kind: "@ + s@,
    {
        let cs = chars_of(s);
        if eq_str(&cs, "pr") {
            return Ok(CollectionLinkKind::Pr);
        }
        if eq_str(&cs, "issue") {
            return Ok(CollectionLinkKind::Issue);
        }
        if eq_str(&cs, "doc") {
            return Ok(CollectionLinkKind::Doc);
        }
        if eq_str(&cs, "discussion") {
            return Ok(CollectionLinkKind::Discussion);
        }
        if eq_str(&cs, "dashboard") {
            return Ok(CollectionLinkKind::Dashboard);
        }
        if eq_str(&cs, "repo") {
            return Ok(CollectionLinkKind::Repo);
        }
        if eq_str(&cs, "tour") {
            return Ok(CollectionLinkKind::Tour);
        }
        if eq_str(&cs, "other") {
            return Ok(CollectionLinkKind::Other);
        }
        let mut msg: Vec<char> = Vec::new();
        push_str(&mut msg, "invalid collection link kind: ");
        push_str(&mut msg, s);
        Err(Error::Input(string_of(&msg)))
    }
}

impl core::str::FromStr for CollectionLinkKind {
    type Err = Error;

    fn from_str(s: &str) -> (r: Result<CollectionLinkKind>)
        ensures
            r matches Ok(v) ==> CollectionLinkKind::from_name_spec(s@) == Some(v),
            r is Err <==> CollectionLinkKind::from_name_spec(s@) is None,
            r matches Err(e) ==> e is Input && e.message_spec() == "invalid collection link kind: "@ + s@,
    {
        CollectionLinkKind::parse(s)
    }
}

impl ResolutionMethod {
    /// The text this method is stored and printed as.
    pub open spec fn name_spec(self) -> Seq<char> {
        match self {
            ResolutionMethod::Exact => "exact"@,
            ResolutionMethod::Relaxed => "relaxed"@,
            ResolutionMethod::HashFallback => "hash_fallback"@,
            ResolutionMethod::Failed => "failed"@,
        }
    }

    /// The method named by `s`, if any.
    pub open spec fn from_name_spec(s: Seq<char>) -> Option<ResolutionMethod> {
        if s == "exact"@ {
            Some(ResolutionMethod::Exact)
        } else if s == "relaxed"@ {
            Some(ResolutionMethod::Relaxed)
        } else if s == "hash_fallback"@ {
            Some(ResolutionMethod::HashFallback)
        } else if s == "failed"@ {
            Some(ResolutionMethod::Failed)
        } else {
            None
        }
    }

    /// The text this method is stored and printed as.
    pub fn as_str(&self) -> (r: &'static str)
        ensures
            r@ == self.name_spec(),
    {
        match self {
            ResolutionMethod::Exact => "exact",
            ResolutionMethod::Relaxed => "relaxed",
            ResolutionMethod::HashFallback => "hash_fallback",
            ResolutionMethod::Failed => "failed",
        }
    }

    /// Parse the stored text of a method; any other text is an input error.
    pub fn parse(s: &str) -> (r: Result<ResolutionMethod>)
        ensures
            r matches Ok(v) ==> Self::from_name_spec(s@) == Some(v),
            r is Err <==> Self::from_name_spec(s@) is None,
            r matches Err(e) ==> e is Input && e.message_spec() == "invalid resolution method: "@ + s@,
    {
        let cs = chars_of(s);
        if eq_str(&cs, "exact") {
            return Ok(ResolutionMethod::Exact);
        }
        if eq_str(&cs, "relaxed") {
            return Ok(ResolutionMethod::Relaxed);
        }
        if eq_str(&cs, "hash_fallback") {
            return Ok(ResolutionMethod::HashFallback);
        }
        if eq_str(&cs, "failed") {
            return Ok(ResolutionMethod::Failed);
        }
        let mut msg: Vec<char> = Vec::new();
        push_str(&mut msg, "invalid resolution method: ");
        push_str(&mut msg, s);
        Err(Error::Input(string_of(&msg)))
    }
}

impl core::str::FromStr for ResolutionMethod {
    type Err = Error;

    fn from_str(s: &str) -> (r: Result<ResolutionMethod>)
        ensures
            r matches Ok(v) ==> ResolutionMethod::from_name_spec(s@) == Some(v),
            r is Err <==> ResolutionMethod::from_name_spec(s@) is None,
            r matches Err(e) ==> e is Input && e.message_spec() == "invalid resolution method: "@ + s@,
    {
        ResolutionMethod::parse(s)
    }
}

impl Visibility {
    /// The text this visibility is stored and printed as.
    pub open spec fn name_spec(self) -> Seq<char> {
        match self {
            Visibility::Public => "public"@,
            Visibility::Private => "private"@,
        }
    }

    /// The visibility named by `s`, if any.
    pub open spec fn from_name_spec(s: Seq<char>) -> Option<Visibility> {
        if s == "public"@ {
            Some(Visibility::Public)
        } else if s == "private"@ {
            Some(Visibility::Private)
        } else {
            None
        }
    }

    /// The text this visibility is stored and printed as.
    pub fn as_str(&self) -> (r: &'static str)
        ensures
            r@ == self.name_spec(),
    {
        match self {
            Visibility::Public => "public",
            Visibility::Private => "private",
        }
    }

    /// Parse the stored text of a visibility; any other text is an input error.
    pub fn parse(s: &str) -> (r: Result<Visibility>)
        ensures
            r matches Ok(v) ==> Self::from_name_spec(s@) == Some(v),
            r is Err <==> Self::from_name_spec(s@) is None,
            r matches Err(e) ==> e is Input && e.message_spec() == "invalid visibility: "@ + s@,
    {
        let cs = chars_of(s);
        if eq_str(&cs, "public") {
            return Ok(Visibility::Public);
        }
        if eq_str(&cs, "private") {
            return Ok(Visibility::Private);
        }
        let mut msg: Vec<char> = Vec::new();
        push_str(&mut msg, "invalid visibility: ");
        push_str(&mut msg, s);
        Err(Error::Input(string_of(&msg)))
    }
}

impl core::str::FromStr for Visibility {
    type Err = Error;

    fn from_str(s: &str) -> (r: Result<Visibility>)
        ensures
            r matches Ok(v) ==> Visibility::from_name_spec(s@) == Some(v),
            r is Err <==> Visibility::from_name_spec(s@) is None,
            r matches Err(e) ==> e is Input && e.message_spec() == "invalid visibility: "@ + s@,
    {
        Visibility::parse(s)
    }
}

// --- Laws ---

/// The stored text of every bookmark health parses back to that health.
pub proof fn lemma_bookmark_health_round_trip(h: BookmarkHealth)
    ensures
        BookmarkHealth::from_name_spec(h.name_spec()) == Some(h),
{
    reveal_strlit("active");
    assert("active"@.len() == 6);
    assert("active"@[0] == 'a');
    assert("active"@[1] == 'c');
    assert("active"@[2] == 't');
    assert("active"@[3] == 'i');
    assert("active"@[4] == 'v');
    assert("active"@[5] == 'e');
    reveal_strlit("drifted");
    assert("drifted"@.len() == 7);
    assert("drifted"@[0] == 'd');
    assert("drifted"@[1] == 'r');
    assert("drifted"@[2] == 'i');
    assert("drifted"@[3] == 'f');
    assert("drifted"@[4] == 't');
    assert("drifted"@[5] == 'e');
    assert("drifted"@[6] == 'd');
    reveal_strlit("stale");
    assert("stale"@.len() == 5);
    assert("stale"@[0] == 's');
    assert("stale"@[1] == 't');
    assert("stale"@[2] == 'a');
    assert("stale"@[3] == 'l');
    assert("stale"@[4] == 'e');
    reveal_strlit("archived");
    assert("archived"@.len() == 8);
    assert("archived"@[0] == 'a');
    assert("archived"@[1] == 'r');
    assert("archived"@[2] == 'c');
    assert("archived"@[3] == 'h');
    assert("archived"@[4] == 'i');
    assert("archived"@[5] == 'v');
    assert("archived"@[6] == 'e');
    assert("archived"@[7] == 'd');
}

/// The stored text of every collection health parses back to that health.
pub proof fn lemma_collection_health_round_trip(h: CollectionHealth)
    ensures
        CollectionHealth::from_name_spec(h.name_spec()) == Some(h),
{
    reveal_strlit("active");
    assert("active"@.len() == 6);
    assert("active"@[0] == 'a');
    assert("active"@[1] == 'c');
    assert("active"@[2] == 't');
    assert("active"@[3] == 'i');
    assert("active"@[4] == 'v');
    assert("active"@[5] == 'e');
    reveal_strlit("drifted");
    assert("drifted"@.len() == 7);
    assert("drifted"@[0] == 'd');
    assert("drifted"@[1] == 'r');
    assert("drifted"@[2] == 'i');
    assert("drifted"@[3] == 'f');
    assert("drifted"@[4] == 't');
    assert("drifted"@[5] == 'e');
    assert("drifted"@[6] == 'd');
    reveal_strlit("stale");
    assert("stale"@.len() == 5);
    assert("stale"@[0] == 's');
    assert("stale"@[1] == 't');
    assert("stale"@[2] == 'a');
    assert("stale"@[3] == 'l');
    assert("stale"@[4] == 'e');
}

/// The stored text of every link kind parses back to that kind.
pub proof fn lemma_link_kind_round_trip(k: CollectionLinkKind)
    ensures
        CollectionLinkKind::from_name_spec(k.name_spec()) == Some(k),
{
    reveal_strlit("pr");
    assert("pr"@.len() == 2);
    assert("pr"@[0] == 'p');
    assert("pr"@[1] == 'r');
    reveal_strlit("issue");
    assert("issue"@.len() == 5);
    assert("issue"@[0] == 'i');
    assert("issue"@[1] == 's');
    assert("issue"@[2] == 's');
    assert("issue"@[3] == 'u');
    assert("issue"@[4] == 'e');
    reveal_strlit("doc");
    assert("doc"@.len() == 3);
    assert("doc"@[0] == 'd');
    assert("doc"@[1] == 'o');
    assert("doc"@[2] == 'c');
    reveal_strlit("discussion");
    assert("discussion"@.len() == 10);
    assert("discussion"@[0] == 'd');
    assert("discussion"@[1] == 'i');
    assert("discussion"@[2] == 's');
    assert("discussion"@[3] == 'c');
    assert("discussion"@[4] == 'u');
    assert("discussion"@[5] == 's');
    assert("discussion"@[6] == 's');
    assert("discussion"@[7] == 'i');
    assert("discussion"@[8] == 'o');
    assert("discussion"@[9] == 'n');
    reveal_strlit("dashboard");
    assert("dashboard"@.len() == 9);
    assert("dashboard"@[0] == 'd');
    assert("dashboard"@[1] == 'a');
    assert("dashboard"@[2] == 's');
    assert("dashboard"@[3] == 'h');
    assert("dashboard"@[4] == 'b');
    assert("dashboard"@[5] == 'o');
    assert("dashboard"@[6] == 'a');
    assert("dashboard"@[7] == 'r');
    assert("dashboard"@[8] == 'd');
    reveal_strlit("repo");
    assert("repo"@.len() == 4);
    assert("repo"@[0] == 'r');
    assert("repo"@[1] == 'e');
    assert("repo"@[2] == 'p');
    assert("repo"@[3] == 'o');
    reveal_strlit("tour");
    assert("tour"@.len() == 4);
    assert("tour"@[0] == 't');
    assert("tour"@[1] == 'o');
    assert("tour"@[2] == 'u');
    assert("tour"@[3] == 'r');
    reveal_strlit("other");
    assert("other"@.len() == 5);
    assert("other"@[0] == 'o');
    assert("other"@[1] == 't');
    assert("other"@[2] == 'h');
    assert("other"@[3] == 'e');
    assert("other"@[4] == 'r');
}

/// The stored text of every resolution method parses back to that method.
pub proof fn lemma_resolution_method_round_trip(m: ResolutionMethod)
    ensures
        ResolutionMethod::from_name_spec(m.name_spec()) == Some(m),
{
    reveal_strlit("exact");
    assert("exact"@.len() == 5);
    assert("exact"@[0] == 'e');
    assert("exact"@[1] == 'x');
    assert("exact"@[2] == 'a');
    assert("exact"@[3] == 'c');
    assert("exact"@[4] == 't');
    reveal_strlit("relaxed");
    assert("relaxed"@.len() == 7);
    assert("relaxed"@[0] == 'r');
    assert("relaxed"@[1] == 'e');
    assert("relaxed"@[2] == 'l');
    assert("relaxed"@[3] == 'a');
    assert("relaxed"@[4] == 'x');
    assert("relaxed"@[5] == 'e');
    assert("relaxed"@[6] == 'd');
    reveal_strlit("hash_fallback");
    assert("hash_fallback"@.len() == 13);
    assert("hash_fallback"@[0] == 'h');
    assert("hash_fallback"@[1] == 'a');
    assert("hash_fallback"@[2] == 's');
    assert("hash_fallback"@[3] == 'h');
    assert("hash_fallback"@[4] == '_');
    assert("hash_fallback"@[5] == 'f');
    assert("hash_fallback"@[6] == 'a');
    assert("hash_fallback"@[7] == 'l');
    assert("hash_fallback"@[8] == 'l');
    assert("hash_fallback"@[9] == 'b');
    assert("hash_fallback"@[10] == 'a');
    assert("hash_fallback"@[11] == 'c');
    assert("hash_fallback"@[12] == 'k');
    reveal_strlit("failed");
    assert("failed"@.len() == 6);
    assert("failed"@[0] == 'f');
    assert("failed"@[1] == 'a');
    assert("failed"@[2] == 'i');
    assert("failed"@[3] == 'l');
    assert("failed"@[4] == 'e');
    assert("failed"@[5] == 'd');
}

/// The stored text of every visibility parses back to that visibility.
pub proof fn lemma_visibility_round_trip(v: Visibility)
    ensures
        Visibility::from_name_spec(v.name_spec()) == Some(v),
{
    reveal_strlit("public");
    assert("public"@.len() == 6);
    assert("public"@[0] == 'p');
    assert("public"@[1] == 'u');
    assert("public"@[2] == 'b');
    assert("public"@[3] == 'l');
    assert("public"@[4] == 'i');
    assert("public"@[5] == 'c');
    reveal_strlit("private");
    assert("private"@.len() == 7);
    assert("private"@[0] == 'p');
    assert("private"@[1] == 'r');
    assert("private"@[2] == 'i');
    assert("private"@[3] == 'v');
    assert("private"@[4] == 'a');
    assert("private"@[5] == 't');
    assert("private"@[6] == 'e');
}

// --- Domain structs ---

/// A comment on a bookmark, possibly a reply to another comment.
#[derive(Debug, Clone)]
pub struct BookmarkComment {
    pub id: String,
    pub bookmark_id: String,
    pub author: String,
    pub body: String,
    pub created_at: String,
    pub parent_id: Option<String>,
}

/// A note added to a bookmark.
#[derive(Debug, Clone)]
pub struct Annotation {
    pub id: String,
    pub bookmark_id: String,
    pub added_at: String,
    pub added_by: Option<String>,
    pub notes: Option<String>,
    pub context: Option<String>,
    pub source: Option<String>,
}

/// A tag on a bookmark.
#[derive(Debug, Clone)]
pub struct Tag {
    pub bookmark_id: String,
    pub tag: String,
    pub added_at: String,
    pub added_by: Option<String>,
}

/// A tag on a collection.
#[derive(Debug, Clone)]
pub struct CollectionTag {
    pub collection_id: String,
    pub tag: String,
    pub added_at: String,
    pub added_by: Option<String>,
}

/// An external link attached to a collection.
#[derive(Debug, Clone)]
pub struct CollectionLink {
    pub id: String,
    pub collection_id: String,
    pub kind: CollectionLinkKind,
    pub label: String,
    pub url: String,
    pub sort_order: i32,
    pub added_at: String,
    pub added_by: Option<String>,
}

/// A structural bookmark: a tree-sitter query locating code in a file.
#[derive(Debug, Clone)]
pub struct Bookmark {
    pub id: String,
    pub query: String,
    pub language: String,
    pub file_path: String,
    pub content_hash: Option<String>,
    pub commit_hash: Option<String>,
    pub health: BookmarkHealth,
    pub resolution_method: Option<ResolutionMethod>,
    pub last_resolved_at: Option<String>,
    pub stale_since: Option<String>,
    pub created_at: String,
    pub created_by: Option<String>,
    /// The resolution the bookmark currently points at.
    pub current_resolution_id: Option<String>,
    pub repo_id: Option<String>,
    pub tags: Vec<String>,
    pub annotations: Vec<Annotation>,
    pub comments: Vec<BookmarkComment>,
}

/// One recorded resolution of a bookmark.
#[derive(Debug, Clone)]
pub struct Resolution {
    pub id: String,
    pub bookmark_id: String,
    pub resolved_at: String,
    /// Health observed by this resolution.
    pub health: BookmarkHealth,
    pub commit_hash: Option<String>,
    pub method: ResolutionMethod,
    pub match_count: Option<i32>,
    pub file_path: Option<String>,
    pub byte_range: Option<String>,
    pub line_range: Option<String>,
    pub content_hash: Option<String>,
    pub headline: Option<String>,
    pub preview_lines: Option<String>,
    pub snapshot: Option<String>,
    pub breadcrumbs: Option<String>,
    /// The file had uncommitted changes when this resolution was recorded.
    pub is_dirty: bool,
}

/// A named, ordered group of bookmarks.
#[derive(Debug, Clone)]
pub struct Collection {
    pub id: String,
    pub name: String,
    pub description: Option<String>,
    pub visibility: Visibility,
    pub created_at: String,
    pub created_by: Option<String>,
    pub created_branch: Option<String>,
    pub published_at: Option<String>,
    pub published_commit_sha: Option<String>,
    pub repo_url: Option<String>,
    pub status: Option<String>,
    pub health: Option<CollectionHealth>,
    pub health_computed_at: Option<String>,
    pub updated_at: Option<String>,
    pub imported_from_url: Option<String>,
}

/// A repository known to the local registry.
#[derive(Debug, Clone)]
pub struct Repo {
    pub id: String,
    pub repo_owner: String,
    pub repo_name: String,
    pub origin_url: Option<String>,
    pub repo_root: String,
    pub db_owner_email: String,
    pub db_owner_name: Option<String>,
    pub detected_at: String,
}

// --- Filter ---

/// Criteria for listing bookmarks; `None` fields do not filter.
#[derive(Debug, Default)]
pub struct BookmarkFilter {
    pub tag: Option<String>,
    pub health: Option<Vec<BookmarkHealth>>,
    pub file_path: Option<String>,
    pub language: Option<String>,
    pub created_by: Option<String>,
    pub collection: Option<String>,
    pub collection_id: Option<String>,
    pub limit: Option<usize>,
}

impl BookmarkFilter {
    /// The same filter, restricted to the given healths.
    pub fn health(self, health: Vec<BookmarkHealth>) -> (r: Self)
        ensures
            r.health == Some(health),
            r.tag == self.tag,
            r.file_path == self.file_path,
            r.language == self.language,
            r.created_by == self.created_by,
            r.collection == self.collection,
            r.collection_id == self.collection_id,
            r.limit == self.limit,
    {
        let mut s = self;
        s.health = Some(health);
        s
    }
}

} // verus!
