//! Loosening a bookmark's query: dropping its text predicates (tier 1 to
//! tier 2), or cutting it down to the pattern that carries `@target` (tier 1
//! to tier 3).

use vstd::prelude::*;

use crate::error::{Error, Result};
use crate::pattern::{
    bad_pattern, bad_pattern_message, regex_compiles, regex_find, regex_first_match,
    regex_replace_all, regex_replaced,
};
use crate::text::{
    chars_of, contains_seq, contains_str, find_seq, first_occurrence, occurs_at, join_spec,
    lemma_split_lines_progress, piece_end, push_chars, push_str, slice_to_vec, split_lines, string_of,
    trim_end, trim_end_bound,
};

verus! {

// ---------------------------------------------------------------------------
// Regular expressions
// ---------------------------------------------------------------------------

/// A text predicate of a query (`#eq?` or `#match?` on a capture, against a
/// quoted string), with the whitespace before it.
pub const TEXT_PREDICATE_PATTERN: &'static str = r#"\s*\(#(?:eq|match)\?\s+@\w+\s+"[^"]*"\)"#;

/// The `#eq?` predicate on the `@fn_name` capture.
pub const FN_NAME_PREDICATE_PATTERN: &'static str = r#"\(#eq\?\s+@fn_name\s+"[^"]*"\)"#;


// ---------------------------------------------------------------------------
// Whitespace clean-up
// ---------------------------------------------------------------------------

/// The lines with their trailing whitespace removed, blank ones dropped.
pub open spec fn kept_lines(lines: Seq<Seq<char>>) -> Seq<Seq<char>>
    decreases lines.len(),
{
    if lines.len() == 0 {
        Seq::empty()
    } else {
        let rest = kept_lines(lines.drop_last());
        let t = trim_end(lines.last());
        if t.len() == 0 {
            rest
        } else {
            rest.push(t)
        }
    }
}

/// `s` with trailing whitespace removed from each line, blank lines dropped,
/// and the lines joined by single `\n`.
#[verifier::opaque]
pub open spec fn cleaned(s: Seq<char>) -> Seq<char> {
    join_spec(kept_lines(split_lines(s)), seq!['\n'])
}

/// One line more: how the kept lines and their join grow.
proof fn lemma_keep_step(done: Seq<Seq<char>>, line: Seq<char>)
    ensures
        kept_lines(done.push(line)) == (if trim_end(line).len() == 0 {
            kept_lines(done)
        } else {
            kept_lines(done).push(trim_end(line))
        }),
        trim_end(line).len() > 0 ==> join_spec(kept_lines(done.push(line)), seq!['\n']) == (if kept_lines(
            done,
        ).len() == 0 {
            trim_end(line)
        } else {
            join_spec(kept_lines(done), seq!['\n']) + seq!['\n'] + trim_end(line)
        }),
{
    assert(done.push(line).drop_last() =~= done);
    let k = kept_lines(done);
    let t = trim_end(line);
    if t.len() > 0 {
        assert(k.push(t).drop_last() =~= k);
        if k.len() == 0 {
            assert(k.push(t).len() == 1);
        }
    }
}

/// Remove trailing whitespace from every line and drop blank lines.
pub fn clean_whitespace(query: &str) -> (r: String)
    ensures
        r@ == cleaned(query@),
{
    let s = chars_of(query);
    let mut out: Vec<char> = Vec::new();
    let mut any = false;
    let mut pos: usize = 0;
    let ghost mut done: Seq<Seq<char>> = Seq::empty();
    assert(s@.skip(0) =~= s@);
    assert(done + split_lines(s@) =~= split_lines(s@));
    while pos < s.len()
        invariant
            pos <= s.len(),
            split_lines(s@) == done + split_lines(s@.skip(pos as int)),
            out@ == join_spec(kept_lines(done), seq!['\n']),
            any == (kept_lines(done).len() > 0),
        decreases s.len() - pos,
    {
        let nl = piece_end(&s, '\n', pos);
        let e = trim_end_bound(&s, pos, nl);
        let ghost line = s@.subrange(pos as int, nl as int);
        proof {
            lemma_split_lines_progress(s@, done, pos as int, nl as int);
            lemma_keep_step(done, line);
        }
        if e > pos {
            if any {
                out.push('\n');
            }
            let piece = slice_to_vec(&s, pos, e);
            push_chars(&mut out, &piece);
            any = true;
        }
        proof {
            done = done.push(line);
        }
        if nl == s.len() {
            pos = nl;
        } else {
            pos = nl + 1;
        }
    }
    proof {
        reveal(cleaned);
        assert(s@.skip(pos as int) =~= Seq::<char>::empty());
        assert(done + split_lines(s@.skip(pos as int)) =~= done);
    }
    string_of(&out)
}

// ---------------------------------------------------------------------------
// Tier 2: without text predicates
// ---------------------------------------------------------------------------

/// Strip the text predicates (`#eq?`, `#match?`) from a query, keeping its
/// structure and captures, then clean up its whitespace.
pub fn relax_query(query: &str) -> (r: Result<String>)
    ensures
        regex_compiles(TEXT_PREDICATE_PATTERN@) ==> (r matches Ok(s) && s@ == cleaned(
            regex_replaced(TEXT_PREDICATE_PATTERN@, query@, ""@),
        )),
        !regex_compiles(TEXT_PREDICATE_PATTERN@) ==> (r matches Err(Error::TreeSitter(m)) && m@
            == bad_pattern_message(TEXT_PREDICATE_PATTERN@)),
{
    match regex_replace_all(TEXT_PREDICATE_PATTERN, query, "") {
        Some(relaxed) => Ok(clean_whitespace(relaxed.as_str())),
        None => Err(bad_pattern(TEXT_PREDICATE_PATTERN)),
    }
}

// ---------------------------------------------------------------------------
// Tier 3: the target pattern alone
// ---------------------------------------------------------------------------

/// `)` raises the nesting depth by one and `(` lowers it.
pub open spec fn paren_delta(c: char) -> int {
    if c == ')' {
        1
    } else if c == '(' {
        -1
    } else {
        0
    }
}

/// Closing minus opening parentheses in `s[i..e]`.
pub open spec fn paren_depth(s: Seq<char>, i: int, e: int) -> int
    decreases e - i,
{
    if i >= e {
        0
    } else {
        paren_delta(s[i]) + paren_depth(s, i + 1, e)
    }
}

/// `s[i]` is a `(` that balances everything after it up to `e`.
pub open spec fn opens_pattern(s: Seq<char>, i: int, e: int) -> bool {
    0 <= i < e && s[i] == '(' && paren_depth(s, i, e) == 0
}

/// `i` is the last position before `e` that [`opens_pattern`].
pub open spec fn is_pattern_start(s: Seq<char>, e: int, i: int) -> bool {
    opens_pattern(s, i, e) && forall|j: int| i < j < e ==> !opens_pattern(s, j, e)
}

/// Where the pattern that ends at `e` (exclusive) begins: the last `(` that
/// balances the text up to `e`, or the start of the text when none does.
pub open spec fn pattern_start(s: Seq<char>, e: int) -> int {
    if exists|i: int| is_pattern_start(s, e, i) {
        choose|i: int| is_pattern_start(s, e, i)
    } else {
        0
    }
}

/// Scan backward from `e` for the `(` that opens the pattern ending there.
fn scan_pattern_start(s: &[char], e: usize) -> (start: usize)
    requires
        1 <= e <= s.len(),
        s@[e - 1] == ')',
    ensures
        start == pattern_start(s@, e as int),
        start < e,
{
    let mut i: usize = e;
    let mut depth: usize = 0;
    while i > 0
        invariant
            i <= e <= s.len(),
            s@[e - 1] == ')',
            depth == paren_depth(s@, i as int, e as int),
            depth <= e - i,
            i < e ==> depth >= 1,
            forall|j: int| i <= j < e ==> !opens_pattern(s@, j, e as int),
        decreases i,
    {
        let c = s[i - 1];
        assert(paren_depth(s@, i - 1, e as int) == paren_delta(c) + paren_depth(s@, i as int, e as int));
        if c == ')' {
            depth = depth + 1;
        } else if c == '(' {
            depth = depth - 1;
            if depth == 0 {
                proof {
                    let k = (i - 1) as int;
                    assert(is_pattern_start(s@, e as int, k));
                    assert forall|m: int| is_pattern_start(s@, e as int, m) implies m == k by {
                        if m < k {
                            assert(opens_pattern(s@, k, e as int));
                        } else if m > k {
                            assert(!opens_pattern(s@, m, e as int));
                        }
                    }
                }
                return i - 1;
            }
        }
        i = i - 1;
    }
    assert forall|m: int| !is_pattern_start(s@, e as int, m) by {
        if is_pattern_start(s@, e as int, m) {
            assert(opens_pattern(s@, m, e as int));
        }
    }
    0
}

/// The marker that ends the target pattern.
pub open spec fn target_marker() -> Seq<char> {
    ") @target"@
}

/// The pattern that ends at the `)` at `t`, with `@target` after it and,
/// when it uses `@fn_name`, the predicate `fn_pred` on the next line.
pub open spec fn target_query(query: Seq<char>, t: int, fn_pred: Option<Seq<char>>) -> Seq<char> {
    let pattern = query.subrange(pattern_start(query, t + 1), t + 1);
    let base = pattern + " @target"@;
    match fn_pred {
        Some(m) => if contains_seq(pattern, "@fn_name"@) {
            base + seq!['\n'] + m
        } else {
            base
        },
        None => base,
    }
}

/// The minimal query for `query`, given the `@fn_name` predicate found in
/// it: [`target_query`] at the first `) @target`, whitespace cleaned. `None`
/// when `query` has no `) @target`.
pub open spec fn minimal_spec(query: Seq<char>, fn_pred: Option<Seq<char>>) -> Option<Seq<char>> {
    match first_occurrence(query, target_marker()) {
        None => None,
        Some(t) => Some(cleaned(target_query(query, t, fn_pred))),
    }
}

/// The error for a query without `@target`.
fn no_target() -> (e: Error)
    ensures
        e matches Error::TreeSitter(m) && m@ == "no @target in query"@,
{
    Error::TreeSitter(string_of(&chars_of("no @target in query")))
}

/// The position of the first `) @target` in `q`.
fn find_target(q: &[char]) -> (r: Option<usize>)
    ensures
        r matches Some(t) ==> first_occurrence(q@, target_marker()) == Some(t as int) && t + 9
            <= q.len() && q@[t as int] == ')',
        r is None ==> first_occurrence(q@, target_marker()) is None,
{
    let mark = chars_of(") @target");
    proof {
        reveal_strlit(") @target");
        assert(mark@.len() == 9);
        assert(mark@[0] == ')');
    }
    let r = find_seq(q, &mark);
    match r {
        Some(t) => {
            assert(occurs_at(q@, mark@, t as int));
            assert(q@.subrange(t as int, t + 9)[0] == q@[t as int]);
        },
        None => {},
    }
    r
}

/// [`target_query`] for the `)` at `e - 1`, as a `String`.
fn build_target_query(q: &[char], e: usize, fn_name_predicate: Option<&str>) -> (r: String)
    requires
        1 <= e <= q.len(),
        q@[e - 1] == ')',
    ensures
        r@ == target_query(
            q@,
            e - 1,
            match fn_name_predicate {
                Some(p) => Some(p@),
                None => None,
            },
        ),
{
    let start = scan_pattern_start(q, e);
    let pattern = slice_to_vec(q, start, e);
    let mut m: Vec<char> = pattern.clone();
    push_str(&mut m, " @target");
    match fn_name_predicate {
        Some(p) => {
            if contains_str(&pattern, "@fn_name") {
                m.push('\n');
                push_str(&mut m, p);
            }
        },
        None => {},
    }
    string_of(&m)
}

/// Cut `query` down to the pattern that carries `@target`, keeping
/// `fn_name_predicate` (the `@fn_name` predicate found in the query) when
/// that pattern uses `@fn_name`.
pub fn minimize_with(query: &str, fn_name_predicate: Option<&str>) -> (r: Result<String>)
    ensures
        match minimal_spec(
            query@,
            match fn_name_predicate {
                Some(p) => Some(p@),
                None => None,
            },
        ) {
            Some(m) => r matches Ok(s) && s@ == m,
            None => r matches Err(Error::TreeSitter(e)) && e@ == "no @target in query"@,
        },
{
    let q = chars_of(query);
    match find_target(&q) {
        None => Err(no_target()),
        Some(t) => {
            let full = build_target_query(&q, t + 1, fn_name_predicate);
            Ok(clean_whitespace(full.as_str()))
        },
    }
}

/// Extract only the innermost `@target` pattern, with its `@fn_name`
/// predicate when it uses one (tier 1 to tier 3).
pub fn minimize_query(query: &str) -> (r: Result<String>)
    ensures
        !contains_seq(query@, target_marker()) ==> (r matches Err(Error::TreeSitter(m)) && m@
            == "no @target in query"@),
        contains_seq(query@, target_marker()) && !regex_compiles(FN_NAME_PREDICATE_PATTERN@) ==> (
        r matches Err(Error::TreeSitter(m)) && m@ == bad_pattern_message(
            FN_NAME_PREDICATE_PATTERN@,
        )),
        contains_seq(query@, target_marker()) && regex_compiles(FN_NAME_PREDICATE_PATTERN@) ==> (
        r matches Ok(s) && minimal_spec(
            query@,
            regex_first_match(FN_NAME_PREDICATE_PATTERN@, query@),
        ) == Some(s@)),
{
    let q = chars_of(query);
    if !contains_str(&q, ") @target") {
        return Err(no_target());
    }
    match regex_find(FN_NAME_PREDICATE_PATTERN, query) {
        None => Err(bad_pattern(FN_NAME_PREDICATE_PATTERN)),
        Some(found) => {
            let r = match found {
                Some(m) => minimize_with(query, Some(m.as_str())),
                None => minimize_with(query, None),
            };
            r
        },
    }
}

/// The relaxed form of `query` that [`relax_query`] gives, or `None` where
/// it fails.
pub open spec fn relaxed_query_spec(query: Seq<char>) -> Option<Seq<char>> {
    if regex_compiles(TEXT_PREDICATE_PATTERN@) {
        Some(cleaned(regex_replaced(TEXT_PREDICATE_PATTERN@, query, ""@)))
    } else {
        None
    }
}

/// The minimal form of `query` that [`minimize_query`] gives, or `None`
/// where it fails.
pub open spec fn minimal_query_spec(query: Seq<char>) -> Option<Seq<char>> {
    if contains_seq(query, target_marker()) && regex_compiles(FN_NAME_PREDICATE_PATTERN@) {
        minimal_spec(query, regex_first_match(FN_NAME_PREDICATE_PATTERN@, query))
    } else {
        None
    }
}

} // verus!
