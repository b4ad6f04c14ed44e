//! Regular expressions of the `regex` crate, as the library uses them: the
//! results of its calls are named here, and what the library does with them
//! is proved where they are used.

use vstd::prelude::*;

use crate::error::Error;
use crate::text::{push_str, string_of};

verus! {

/// Whether `regex::Regex::new` accepts `pattern`.
pub uninterp spec fn regex_compiles(pattern: Seq<char>) -> bool;

/// What `regex::Regex::replace_all` returns: `text` with every match of
/// `pattern` replaced by `rep`.
pub uninterp spec fn regex_replaced(pattern: Seq<char>, text: Seq<char>, rep: Seq<char>) -> Seq<
    char,
>;

/// What `regex::Regex::find` returns: the text of the first match of
/// `pattern` in `text`, if there is one.
pub uninterp spec fn regex_first_match(pattern: Seq<char>, text: Seq<char>) -> Option<Seq<char>>;

/// Compiles `pattern` with `regex::Regex::new` and, when it compiles, returns
/// what `Regex::replace_all(text, rep)` gives. Claims: `None` exactly when
/// the pattern does not compile; otherwise the replaced text, as named by
/// [`regex_replaced`].
#[verifier::external_body]
pub(crate) fn regex_replace_all(pattern: &str, text: &str, rep: &str) -> (r: Option<String>)
    ensures
        match r {
            Some(out) => regex_compiles(pattern@) && out@ == regex_replaced(pattern@, text@, rep@),
            None => !regex_compiles(pattern@),
        },
{
    match regex::Regex::new(pattern) {
        Ok(re) => Some(re.replace_all(text, rep).into_owned()),
        Err(_) => None,
    }
}

/// Compiles `pattern` with `regex::Regex::new` and, when it compiles, returns
/// the text of `Regex::find(text)`. Claims: `None` exactly when the pattern
/// does not compile; otherwise the first match, as named by
/// [`regex_first_match`].
#[verifier::external_body]
pub(crate) fn regex_find(pattern: &str, text: &str) -> (r: Option<Option<String>>)
    ensures
        match r {
            Some(found) => regex_compiles(pattern@) && match found {
                Some(m) => regex_first_match(pattern@, text@) == Some(m@),
                None => regex_first_match(pattern@, text@) is None,
            },
            None => !regex_compiles(pattern@),
        },
{
    match regex::Regex::new(pattern) {
        Ok(re) => Some(re.find(text).map(|m| m.as_str().to_string())),
        Err(_) => None,
    }
}

/// The message of the error for a pattern that does not compile.
pub open spec fn bad_pattern_message(pattern: Seq<char>) -> Seq<char> {
    "invalid regex pattern: "@ + pattern
}

/// The error for a pattern that does not compile.
pub fn bad_pattern(pattern: &str) -> (e: Error)
    ensures
        e matches Error::TreeSitter(m) && m@ == bad_pattern_message(pattern@),
{
    let mut m: Vec<char> = Vec::new();
    push_str(&mut m, "invalid regex pattern: ");
    push_str(&mut m, pattern);
    Error::TreeSitter(string_of(&m))
}

/// What `regex::Regex::captures` returns: for the first match of `pattern`
/// in `text`, the text of each capture group in order (group 0 being the
/// whole match), `None` for a group that took no part in it.
pub uninterp spec fn regex_capture_groups(pattern: Seq<char>, text: Seq<char>) -> Option<
    Seq<Option<Seq<char>>>,
>;

/// The characters of each optional string.
pub open spec fn groups_view(g: Seq<Option<String>>) -> Seq<Option<Seq<char>>> {
    g.map_values(
        |x: Option<String>|
            match x {
                Some(s) => Some(s@),
                None => None,
            },
    )
}

/// Compiles `pattern` with `regex::Regex::new` and, when it compiles, returns
/// the capture groups of `Regex::captures(text)` (from `Captures::iter`).
/// Claims: `None` exactly when the pattern does not compile; otherwise the
/// groups, as named by [`regex_capture_groups`].
#[verifier::external_body]
pub(crate) fn regex_captures(pattern: &str, text: &str) -> (r: Option<Option<Vec<Option<String>>>>)
    ensures
        match r {
            Some(found) => regex_compiles(pattern@) && match found {
                Some(g) => regex_capture_groups(pattern@, text@) == Some(groups_view(g@)),
                None => regex_capture_groups(pattern@, text@) is None,
            },
            None => !regex_compiles(pattern@),
        },
{
    match regex::Regex::new(pattern) {
        Ok(re) => Some(
            re.captures(text).map(|c| c.iter().map(|m| m.map(|m| m.as_str().to_string())).collect()),
        ),
        Err(_) => None,
    }
}

} // verus!
