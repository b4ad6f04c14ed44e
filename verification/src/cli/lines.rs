//! Lines of a source text, by byte offset.
//!
//! A source is taken as its UTF-8 bytes; lines are the pieces that
//! `str::split_inclusive('\n')` yields: each runs up to and including a
//! newline, and a last piece without one follows when the text does not end
//! in a newline. Byte 10 (`\n`) never occurs inside a multi-byte character,
//! so counting it in the bytes counts the text's newlines.

use vstd::prelude::*;

verus! {

/// The number of newline bytes in `s`.
pub open spec fn count_nl(s: Seq<u8>) -> nat
    decreases s.len(),
{
    if s.len() == 0 {
        0
    } else {
        count_nl(s.drop_last()) + if s.last() == 10u8 {
            1nat
        } else {
            0nat
        }
    }
}

/// The number of lines of `s`: its newlines, plus one for a last line
/// without a newline.
pub open spec fn line_count(s: Seq<u8>) -> nat {
    count_nl(s) + if s.len() > 0 && s.last() != 10u8 {
        1nat
    } else {
        0nat
    }
}

/// `q` is where line `k` (from 0) starts: just after the `k`-th newline.
pub open spec fn starts_line(s: Seq<u8>, q: int, k: nat) -> bool {
    &&& 0 <= q <= s.len()
    &&& count_nl(s.take(q)) == k
    &&& (q == 0 || s[q - 1] == 10u8)
}

/// `e` is where line `k` (from 0) ends: just after its last byte, which is
/// its newline or the text's last byte.
pub open spec fn ends_line(s: Seq<u8>, e: int, k: nat) -> bool {
    &&& 0 < e <= s.len()
    &&& count_nl(s.take(e - 1)) == k
    &&& (s[e - 1] == 10u8 || e == s.len())
}

/// `s` without its trailing `\n` and `\r` bytes.
pub open spec fn trim_line_end(s: Seq<u8>) -> Seq<u8>
    decreases s.len(),
{
    if s.len() > 0 && (s.last() == 10u8 || s.last() == 13u8) {
        trim_line_end(s.drop_last())
    } else {
        s
    }
}

/// Newlines of a prefix: one more prefix byte adds one exactly when it is a
/// newline.
pub proof fn lemma_count_step(s: Seq<u8>, q: int)
    requires
        0 <= q < s.len(),
    ensures
        count_nl(s.take(q + 1)) == count_nl(s.take(q)) + if s[q] == 10u8 {
            1nat
        } else {
            0nat
        },
{
    assert(s.take(q + 1).drop_last() =~= s.take(q));
}

/// A stretch without newlines adds none.
pub proof fn lemma_count_flat(s: Seq<u8>, a: int, b: int)
    requires
        0 <= a <= b <= s.len(),
        forall|k: int| a <= k < b ==> s[k] != 10u8,
    ensures
        count_nl(s.take(b)) == count_nl(s.take(a)),
    decreases b - a,
{
    if b > a {
        lemma_count_flat(s, a, b - 1);
        lemma_count_step(s, b - 1);
    }
}

/// Newlines of prefixes only grow.
pub proof fn lemma_count_monotone(s: Seq<u8>, a: int, b: int)
    requires
        0 <= a <= b <= s.len(),
    ensures
        count_nl(s.take(a)) <= count_nl(s.take(b)),
    decreases b - a,
{
    if b > a {
        lemma_count_monotone(s, a, b - 1);
        lemma_count_step(s, b - 1);
    }
}

/// The whole text is its longest prefix.
pub proof fn lemma_take_all(s: Seq<u8>)
    ensures
        s.take(s.len() as int) == s,
{
    assert(s.take(s.len() as int) =~= s);
}

/// The index of the first newline at or after `pos`, or the length.
pub fn next_newline(s: &[u8], pos: usize) -> (j: usize)
    requires
        pos <= s.len(),
    ensures
        pos <= j <= s.len(),
        forall|k: int| pos <= k < j ==> s@[k] != 10u8,
        j < s.len() ==> s@[j as int] == 10u8,
{
    let mut j = pos;
    while j < s.len() && s[j] != 10u8
        invariant
            pos <= j <= s.len(),
            forall|k: int| pos <= k < j ==> s@[k] != 10u8,
        decreases s.len() - j,
    {
        j = j + 1;
    }
    j
}

/// The start and end of line `k` (from 0), or `None` when the text has no
/// such line.
pub fn find_line(s: &[u8], k: usize) -> (r: Option<(usize, usize)>)
    ensures
        r matches Some((a, e)) ==> starts_line(s@, a as int, k as nat) && a < s.len() && ends_line(
            s@,
            e as int,
            k as nat,
        ) && a < e && k < line_count(s@) && a == line_start_of(s@, k as nat) && e == line_end_of(
            s@,
            k as nat,
        ),
        r is None <==> k >= line_count(s@),
{
    let mut pos: usize = 0;
    let mut line: usize = 0;
    while line < k
        invariant
            line <= k,
            starts_line(s@, pos as int, line as nat),
            pos < s.len() || line == k || pos == s.len(),
        decreases k - line,
    {
        let j = next_newline(s, pos);
        proof {
            lemma_count_flat(s@, pos as int, j as int);
        }
        if j == s.len() {
            proof {
                lemma_take_all(s@);
                if s.len() > 0 && s@.last() != 10u8 {
                    assert(count_nl(s@) == line);
                } else if s.len() > 0 {
                    assert(j == pos);
                }
            }
            return None;
        }
        proof {
            lemma_count_step(s@, j as int);
        }
        pos = j + 1;
        line = line + 1;
    }
    if pos >= s.len() {
        proof {
            lemma_take_all(s@);
        }
        return None;
    }
    let j = next_newline(s, pos);
    proof {
        lemma_count_flat(s@, pos as int, j as int);
        lemma_take_all(s@);
    }
    let e = if j < s.len() {
        j + 1
    } else {
        j
    };
    proof {
        if j < s.len() {
            lemma_count_step(s@, j as int);
            lemma_count_monotone(s@, j + 1, s.len() as int);
        } else {
            assert(s@.last() != 10u8);
        }
    }
    proof {
        lemma_found_line(s@, k as nat, pos as int, e as int);
    }
    Some((pos, e))
}

/// The length of `s@.subrange(a, e)` without its trailing `\n` and `\r`
/// bytes.
pub fn trimmed_line_len(s: &[u8], a: usize, e: usize) -> (n: usize)
    requires
        a <= e <= s.len(),
    ensures
        n == trim_line_end(s@.subrange(a as int, e as int)).len(),
        n <= e - a,
{
    let mut j = e;
    while j > a && (s[j - 1] == 10u8 || s[j - 1] == 13u8)
        invariant
            a <= j <= e <= s.len(),
            trim_line_end(s@.subrange(a as int, j as int)) == trim_line_end(
                s@.subrange(a as int, e as int),
            ),
        decreases j,
    {
        assert(s@.subrange(a as int, j as int).drop_last() == s@.subrange(a as int, j - 1));
        j = j - 1;
    }
    j - a
}

/// A text has no more newlines than bytes.
pub proof fn lemma_count_bound(s: Seq<u8>)
    ensures
        count_nl(s) <= s.len(),
    decreases s.len(),
{
    if s.len() > 0 {
        lemma_count_bound(s.drop_last());
    }
}

/// Where line `k` starts, for a line that exists.
pub open spec fn line_start_of(s: Seq<u8>, k: nat) -> int {
    choose|q: int| starts_line(s, q, k) && q < s.len()
}

/// Where line `k` ends, for a line that exists.
pub open spec fn line_end_of(s: Seq<u8>, k: nat) -> int {
    choose|e: int| ends_line(s, e, k)
}

/// A line starts at one place only.
pub proof fn lemma_start_unique(s: Seq<u8>, q1: int, q2: int, k: nat)
    requires
        starts_line(s, q1, k),
        starts_line(s, q2, k),
    ensures
        q1 == q2,
{
    if q1 < q2 {
        lemma_count_monotone(s, q1, q2 - 1);
        lemma_count_step(s, q2 - 1);
    } else if q2 < q1 {
        lemma_count_monotone(s, q2, q1 - 1);
        lemma_count_step(s, q1 - 1);
    }
}

/// A line ends at one place only.
pub proof fn lemma_end_unique(s: Seq<u8>, e1: int, e2: int, k: nat)
    requires
        ends_line(s, e1, k),
        ends_line(s, e2, k),
    ensures
        e1 == e2,
{
    if e1 < e2 {
        lemma_count_step(s, e1 - 1);
        lemma_count_monotone(s, e1, e2 - 1);
    } else if e2 < e1 {
        lemma_count_step(s, e2 - 1);
        lemma_count_monotone(s, e2, e1 - 1);
    }
}

/// The bounds [`find_line`] finds are the line's.
pub proof fn lemma_found_line(s: Seq<u8>, k: nat, a: int, e: int)
    requires
        starts_line(s, a, k),
        a < s.len(),
        ends_line(s, e, k),
    ensures
        line_start_of(s, k) == a,
        line_end_of(s, k) == e,
{
    let q = line_start_of(s, k);
    lemma_start_unique(s, a, q, k);
    let f = line_end_of(s, k);
    lemma_end_unique(s, e, f, k);
}

/// Every line of the text has a start before the text's end and an end
/// after its start.
proof fn lemma_line_witness(s: Seq<u8>, k: nat)
    requires
        k < line_count(s),
    ensures
        exists|a: int, e: int| starts_line(s, a, k) && a < s.len() && ends_line(s, e, k),
    decreases s.len(),
{
    let t = s.drop_last();
    assert(s.len() > 0);
    assert(t.take(t.len() as int) =~= t);
    assert(s.take(t.len() as int) =~= t);
    if k < line_count(t) {
        lemma_line_witness(t, k);
        let (a, e) = choose|a: int, e: int| starts_line(t, a, k) && a < t.len() && ends_line(t, e, k);
        assert(s.take(a) =~= t.take(a));
        assert(s.take(e - 1) =~= t.take(e - 1));
        if t[e - 1] == 10u8 {
            assert(ends_line(s, e, k));
        } else {
            assert(e == t.len());
            lemma_count_step(t, e - 1);
            assert(t.take(e) =~= t);
            assert(ends_line(s, s.len() as int, k));
        }
        assert(starts_line(s, a, k));
    } else {
        if t.len() > 0 && t.last() != 10u8 {
            assert(false);
        }
        let a = t.len() as int;
        assert(starts_line(s, a, k));
        assert(ends_line(s, s.len() as int, k));
    }
}

/// Where line `k` starts and ends, for a line of the text: the start lies
/// before the end, and before the text's end.
pub proof fn lemma_line_bounds(s: Seq<u8>, k: nat)
    requires
        k < line_count(s),
    ensures
        starts_line(s, line_start_of(s, k), k),
        ends_line(s, line_end_of(s, k), k),
        0 <= line_start_of(s, k) < line_end_of(s, k) <= s.len(),
{
    lemma_line_witness(s, k);
    let a = line_start_of(s, k);
    let e = line_end_of(s, k);
    if e <= a {
        if s[e - 1] == 10u8 {
            lemma_count_step(s, e - 1);
            lemma_count_monotone(s, e, a);
        }
    }
}

/// Every byte of a line lies on that line: for each byte from the start of
/// line `k` (from 0) up to its end, [`byte_to_line_spec`] gives `k + 1`.
pub proof fn lemma_byte_on_its_line(s: Seq<u8>, k: nat, b: int)
    requires
        k < line_count(s),
        line_start_of(s, k) <= b < line_end_of(s, k),
    ensures
        b < s.len(),
        count_nl(s.take(b)) == k,
{
    lemma_line_bounds(s, k);
    let e = line_end_of(s, k);
    lemma_count_monotone(s, line_start_of(s, k), b);
    lemma_count_monotone(s, b, e - 1);
}

/// The byte length of line `k` (from 0), its line break included.
pub open spec fn line_len(s: Seq<u8>, k: nat) -> int {
    line_end_of(s, k) - line_start_of(s, k)
}

/// The byte lengths of the first `k` lines, added up.
pub open spec fn lines_len(s: Seq<u8>, k: nat) -> int
    decreases k,
{
    if k == 0 {
        0
    } else {
        lines_len(s, (k - 1) as nat) + line_len(s, (k - 1) as nat)
    }
}

/// Lines follow one another: line `k` starts where the lines before it,
/// added up, end, and ends after its own length.
pub proof fn lemma_lines_are_sums(s: Seq<u8>, k: nat)
    requires
        k < line_count(s),
    ensures
        line_start_of(s, k) == lines_len(s, k),
        line_end_of(s, k) == lines_len(s, k + 1),
    decreases k,
{
    lemma_line_bounds(s, k);
    if k == 0 {
        lemma_start_unique(s, 0, line_start_of(s, 0), 0);
    } else {
        let j = (k - 1) as nat;
        lemma_lines_are_sums(s, j);
        lemma_line_bounds(s, j);
        let e = line_end_of(s, j);
        lemma_count_step(s, e - 1);
        if s[e - 1] != 10u8 {
            assert(e == s.len());
            lemma_take_all(s);
            assert(s.take(e) =~= s);
            assert(line_start_of(s, k) < s.len());
            lemma_count_monotone(s, line_start_of(s, k), s.len() as int);
        }
        assert(starts_line(s, e, k));
        lemma_start_unique(s, e, line_start_of(s, k), k);
    }
}

} // verus!
