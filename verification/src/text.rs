//! Character-level text helpers.
//!
//! Strings are modelled as `Seq<char>` (the view of `str`/`String`); the
//! executable helpers here work on `&[char]` and are proved against the spec
//! functions that describe what std's string methods of the same name do.

use vstd::prelude::*;

verus! {

// ---------------------------------------------------------------------------
// Conversions
// ---------------------------------------------------------------------------

/// The characters of `s`, in order.
pub fn chars_of(s: &str) -> (out: Vec<char>)
    ensures
        out@ == s@,
{
    let mut out: Vec<char> = Vec::new();
    for c in it: s.chars()
        invariant
            out@ == it.seq().take(it.index() as int),
            it.seq() == s@,
    {
        out.push(c);
    }
    out
}

/// A `String` holding exactly the characters of `v` (`String::from_iter`).
#[verifier::external_body]
pub(crate) fn string_of(v: &[char]) -> (out: String)
    ensures
        out@ == v@,
{
    String::from_iter(v.iter())
}

/// Append the characters of `s` to `v`.
pub fn push_str(v: &mut Vec<char>, s: &str)
    ensures
        final(v)@ == old(v)@ + s@,
{
    let cs = chars_of(s);
    push_chars(v, &cs);
}

/// Append the characters of `s` to `v`.
pub fn push_chars(v: &mut Vec<char>, s: &[char])
    ensures
        final(v)@ == old(v)@ + s@,
{
    let ghost start = v@;
    let mut i: usize = 0;
    while i < s.len()
        invariant
            i <= s.len(),
            v@ == start + s@.take(i as int),
        decreases s.len() - i,
    {
        v.push(s[i]);
        i = i + 1;
        assert(s@.take(i as int) == s@.take((i - 1) as int).push(s@[i - 1]));
    }
    assert(s@.take(s.len() as int) == s@);
}

/// A fresh vector holding `s@.subrange(start, end)`.
pub fn slice_to_vec(s: &[char], start: usize, end: usize) -> (out: Vec<char>)
    requires
        start <= end <= s.len(),
    ensures
        out@ == s@.subrange(start as int, end as int),
{
    let mut out: Vec<char> = Vec::new();
    let mut i: usize = start;
    while i < end
        invariant
            start <= i <= end <= s.len(),
            out@ == s@.subrange(start as int, i as int),
        decreases end - i,
    {
        out.push(s[i]);
        i = i + 1;
        assert(s@.subrange(start as int, i as int) == s@.subrange(start as int, (i - 1) as int).push(
            s@[i - 1],
        ));
    }
    out
}

/// Owned `String` for the subrange `start..end` of `s`.
pub fn substring(s: &[char], start: usize, end: usize) -> (out: String)
    requires
        start <= end <= s.len(),
    ensures
        out@ == s@.subrange(start as int, end as int),
{
    let v = slice_to_vec(s, start, end);
    string_of(&v)
}

// ---------------------------------------------------------------------------
// Lower-casing
// ---------------------------------------------------------------------------

/// What `str::to_lowercase` returns for a string with characters `s` that
/// are not all ASCII.
pub uninterp spec fn unicode_lowercase(s: Seq<char>) -> Seq<char>;

/// Whether every character is ASCII.
pub open spec fn all_ascii(s: Seq<char>) -> bool {
    forall|i: int| 0 <= i < s.len() ==> (#[trigger] s[i] as u32) < 128
}

/// What `str::to_lowercase` returns: for ASCII text its ASCII lower-casing,
/// otherwise [`unicode_lowercase`].
pub open spec fn lowercase(s: Seq<char>) -> Seq<char> {
    if all_ascii(s) {
        ascii_lowercase(s)
    } else {
        unicode_lowercase(s)
    }
}

/// `str::to_lowercase` (full Unicode lower-casing). On ASCII text it maps
/// `A`-`Z` to `a`-`z` and keeps every other character, as Unicode's lower
/// case mappings of ASCII letters are ASCII; other text gives the result
/// named by [`unicode_lowercase`], which depends on the characters alone.
/// What the Unicode tables map non-ASCII characters to is not restated.
#[verifier::external_body]
pub(crate) fn to_lowercase(s: &[char]) -> (out: Vec<char>)
    ensures
        all_ascii(s@) ==> out@ == ascii_lowercase(s@),
        !all_ascii(s@) ==> out@ == unicode_lowercase(s@),
        out@ == lowercase(s@),
{
    String::from_iter(s.iter()).to_lowercase().chars().collect()
}

/// ASCII lower-casing of one character (`char::to_ascii_lowercase`).
pub open spec fn ascii_lower(c: char) -> char {
    if 'A' <= c && c <= 'Z' {
        ((c as u32) + 32) as char
    } else {
        c
    }
}

/// ASCII lower-casing of every character (`str::to_ascii_lowercase`).
pub open spec fn ascii_lowercase(s: Seq<char>) -> Seq<char> {
    Seq::new(s.len(), |i: int| ascii_lower(s[i]))
}

/// `str::to_ascii_lowercase` over characters.
pub fn to_ascii_lowercase(s: &[char]) -> (out: Vec<char>)
    ensures
        out@ == ascii_lowercase(s@),
{
    let mut out: Vec<char> = Vec::new();
    let mut i: usize = 0;
    while i < s.len()
        invariant
            i <= s.len(),
            out@ == ascii_lowercase(s@.take(i as int)),
        decreases s.len() - i,
    {
        let c = s[i];
        let l = if 'A' <= c && c <= 'Z' {
            let n: u32 = (c as u32) + 32;
            assert(0x61 <= n <= 0x7a);
            char_from_ascii(n)
        } else {
            c
        };
        out.push(l);
        i = i + 1;
        assert(ascii_lowercase(s@.take(i as int)) == ascii_lowercase(s@.take((i - 1) as int)).push(
            ascii_lower(s@[i - 1]),
        ));
    }
    assert(s@.take(s.len() as int) == s@);
    out
}

/// The character with code `n`, for `n` in the ASCII range.
fn char_from_ascii(n: u32) -> (c: char)
    requires
        n < 128,
    ensures
        c == n as char,
{
    let b: u8 = n as u8;
    b as char
}

// ---------------------------------------------------------------------------
// Whitespace and trimming
// ---------------------------------------------------------------------------

/// `char::is_whitespace`: the Unicode `White_Space` property.
pub open spec fn is_ws(c: char) -> bool {
    let n = c as u32;
    ||| 0x09 <= n <= 0x0d
    ||| n == 0x20
    ||| n == 0x85
    ||| n == 0xa0
    ||| n == 0x1680
    ||| 0x2000 <= n <= 0x200a
    ||| n == 0x2028
    ||| n == 0x2029
    ||| n == 0x202f
    ||| n == 0x205f
    ||| n == 0x3000
}

/// `char::is_whitespace`.
pub fn is_whitespace(c: char) -> (b: bool)
    ensures
        b == is_ws(c),
{
    let n = c as u32;
    (0x09 <= n && n <= 0x0d) || n == 0x20 || n == 0x85 || n == 0xa0 || n == 0x1680 || (0x2000
        <= n && n <= 0x200a) || n == 0x2028 || n == 0x2029 || n == 0x202f || n == 0x205f || n
        == 0x3000
}

/// `str::trim_start`: drop leading whitespace.
pub open spec fn trim_start(s: Seq<char>) -> Seq<char>
    decreases s.len(),
{
    if s.len() > 0 && is_ws(s[0]) {
        trim_start(s.drop_first())
    } else {
        s
    }
}

/// `str::trim_end`: drop trailing whitespace.
pub open spec fn trim_end(s: Seq<char>) -> Seq<char>
    decreases s.len(),
{
    if s.len() > 0 && is_ws(s.last()) {
        trim_end(s.drop_last())
    } else {
        s
    }
}

/// `str::trim`: drop leading and trailing whitespace.
pub open spec fn trim(s: Seq<char>) -> Seq<char> {
    trim_end(trim_start(s))
}

/// `trim` leaves a text whose first and last characters are not whitespace
/// unchanged.
pub proof fn lemma_trim_plain_ends(s: Seq<char>)
    requires
        s.len() == 0 || (!is_ws(s[0]) && !is_ws(s.last())),
    ensures
        trim(s) == s,
{
}

/// Index of the first character of `trim_start(s)`.
pub fn trim_start_index(s: &[char]) -> (i: usize)
    ensures
        i <= s.len(),
        s@.skip(i as int) == trim_start(s@),
{
    let mut i: usize = 0;
    assert(s@.skip(0) == s@);
    while i < s.len() && is_whitespace(s[i])
        invariant
            i <= s.len(),
            trim_start(s@.skip(i as int)) == trim_start(s@),
        decreases s.len() - i,
    {
        assert(s@.skip(i as int).drop_first() == s@.skip(i + 1));
        i = i + 1;
    }
    i
}

/// Index just past the last character of `trim_end(s@.take(upto))`.
pub fn trim_end_index(s: &[char], upto: usize) -> (j: usize)
    requires
        upto <= s.len(),
    ensures
        j <= upto,
        s@.take(j as int) == trim_end(s@.take(upto as int)),
{
    let mut j: usize = upto;
    while j > 0 && is_whitespace(s[j - 1])
        invariant
            j <= upto <= s.len(),
            trim_end(s@.take(j as int)) == trim_end(s@.take(upto as int)),
        decreases j,
    {
        assert(s@.take(j as int).drop_last() == s@.take(j - 1));
        j = j - 1;
    }
    j
}

/// End of `trim_end(s@.subrange(start, end))` inside `s`.
pub fn trim_end_bound(s: &[char], start: usize, end: usize) -> (e: usize)
    requires
        start <= end <= s.len(),
    ensures
        start <= e <= end,
        s@.subrange(start as int, e as int) == trim_end(s@.subrange(start as int, end as int)),
{
    let mut e: usize = end;
    while e > start && is_whitespace(s[e - 1])
        invariant
            start <= e <= end <= s.len(),
            trim_end(s@.subrange(start as int, e as int)) == trim_end(
                s@.subrange(start as int, end as int),
            ),
        decreases e,
    {
        assert(s@.subrange(start as int, e as int).drop_last() == s@.subrange(
            start as int,
            e - 1,
        ));
        e = e - 1;
    }
    e
}

/// Bounds `(start, end)` of `trim(s)` inside `s`.
pub fn trim_bounds(s: &[char]) -> (r: (usize, usize))
    ensures
        r.0 <= r.1 <= s.len(),
        s@.subrange(r.0 as int, r.1 as int) == trim(s@),
{
    let i = trim_start_index(s);
    let ghost t = s@.skip(i as int);
    let mut j: usize = s.len();
    while j > i && is_whitespace(s[j - 1])
        invariant
            i <= j <= s.len(),
            trim_end(s@.subrange(i as int, j as int)) == trim_end(t),
        decreases j,
    {
        assert(s@.subrange(i as int, j as int).drop_last() == s@.subrange(i as int, j - 1));
        j = j - 1;
    }
    assert(s@.subrange(i as int, s.len() as int) == t);
    (i, j)
}

/// `str::trim` as a fresh vector.
pub fn trimmed(s: &[char]) -> (out: Vec<char>)
    ensures
        out@ == trim(s@),
{
    let (a, b) = trim_bounds(s);
    slice_to_vec(s, a, b)
}

// ---------------------------------------------------------------------------
// Prefixes, suffixes and searching
// ---------------------------------------------------------------------------

/// `str::starts_with` for a string pattern.
pub open spec fn starts_with(s: Seq<char>, p: Seq<char>) -> bool {
    p.len() <= s.len() && s.take(p.len() as int) == p
}

/// `str::ends_with` for a string pattern.
pub open spec fn ends_with(s: Seq<char>, p: Seq<char>) -> bool {
    p.len() <= s.len() && s.skip(s.len() - p.len()) == p
}

/// `s` holds `p` as a contiguous run starting at `i`.
pub open spec fn occurs_at(s: Seq<char>, p: Seq<char>, i: int) -> bool {
    0 <= i && i + p.len() <= s.len() && s.subrange(i, i + p.len()) == p
}

/// `str::contains` for a string pattern.
pub open spec fn contains_seq(s: Seq<char>, p: Seq<char>) -> bool {
    exists|i: int| occurs_at(s, p, i)
}

/// `str::find` for a string pattern: the first position at which `p` occurs.
pub open spec fn first_occurrence(s: Seq<char>, p: Seq<char>) -> Option<int> {
    if contains_seq(s, p) {
        Some(choose|i: int| occurs_at(s, p, i) && forall|j: int| 0 <= j < i ==> !occurs_at(s, p, j))
    } else {
        None
    }
}

/// `str::find` for a single character: the index of its first occurrence.
pub open spec fn first_index_of(s: Seq<char>, c: char) -> Option<int> {
    if s.contains(c) {
        Some(choose|i: int| 0 <= i < s.len() && s[i] == c && forall|j: int| 0 <= j < i ==> s[j] != c)
    } else {
        None
    }
}

/// Element-wise equality of a character slice and a string.
pub fn eq_str(s: &[char], lit: &str) -> (b: bool)
    ensures
        b == (s@ == lit@),
{
    let l = chars_of(lit);
    eq_chars(s, &l)
}

/// Whether two strings hold the same characters.
pub fn same_text(a: &str, b: &str) -> (r: bool)
    ensures
        r == (a@ == b@),
{
    let x = chars_of(a);
    eq_str(&x, b)
}

/// Element-wise equality of two character slices.
pub fn eq_chars(a: &[char], b: &[char]) -> (r: bool)
    ensures
        r == (a@ == b@),
{
    if a.len() != b.len() {
        return false;
    }
    let mut i: usize = 0;
    while i < a.len()
        invariant
            a.len() == b.len(),
            i <= a.len(),
            forall|k: int| 0 <= k < i ==> a@[k] == b@[k],
        decreases a.len() - i,
    {
        if a[i] != b[i] {
            return false;
        }
        i = i + 1;
    }
    assert(a@ =~= b@);
    true
}

/// Whether `p` occurs in `s` at position `i`.
pub fn occurs_at_exec(s: &[char], p: &[char], i: usize) -> (b: bool)
    ensures
        b == occurs_at(s@, p@, i as int),
{
    if i > s.len() || p.len() > s.len() - i {
        return false;
    }
    let mut k: usize = 0;
    while k < p.len()
        invariant
            i + p.len() <= s.len(),
            k <= p.len(),
            forall|m: int| 0 <= m < k ==> s@[i + m] == p@[m],
        decreases p.len() - k,
    {
        if s[i + k] != p[k] {
            assert(s@.subrange(i as int, i + p.len())[k as int] != p@[k as int]);
            return false;
        }
        k = k + 1;
    }
    assert(s@.subrange(i as int, i + p.len()) =~= p@);
    true
}

/// `str::starts_with` over characters.
pub fn starts_with_exec(s: &[char], p: &[char]) -> (b: bool)
    ensures
        b == starts_with(s@, p@),
{
    let r = occurs_at_exec(s, p, 0);
    assert(s@.subrange(0, p@.len() as int) == s@.take(p@.len() as int));
    r
}

/// `str::starts_with` with a string literal pattern.
pub fn starts_with_str(s: &[char], p: &str) -> (b: bool)
    ensures
        b == starts_with(s@, p@),
{
    let pc = chars_of(p);
    starts_with_exec(s, &pc)
}

/// `str::ends_with` over characters.
pub fn ends_with_exec(s: &[char], p: &[char]) -> (b: bool)
    ensures
        b == ends_with(s@, p@),
{
    if p.len() > s.len() {
        return false;
    }
    let r = occurs_at_exec(s, p, s.len() - p.len());
    assert(s@.subrange(s.len() - p.len(), s.len() as int) == s@.skip(s.len() - p.len()));
    r
}

/// `str::ends_with` with a string literal pattern.
pub fn ends_with_str(s: &[char], p: &str) -> (b: bool)
    ensures
        b == ends_with(s@, p@),
{
    let pc = chars_of(p);
    ends_with_exec(s, &pc)
}

/// `str::find` for a character pattern.
pub fn find_char(s: &[char], c: char) -> (r: Option<usize>)
    ensures
        r matches Some(i) ==> i < s.len() && s@[i as int] == c && forall|j: int|
            0 <= j < i ==> s@[j] != c,
        r is None ==> !s@.contains(c),
        r matches Some(i) ==> first_index_of(s@, c) == Some(i as int),
        r is None ==> first_index_of(s@, c) is None,
{
    let mut i: usize = 0;
    while i < s.len()
        invariant
            i <= s.len(),
            forall|j: int| 0 <= j < i ==> s@[j] != c,
        decreases s.len() - i,
    {
        if s[i] == c {
            assert(s@.contains(c));
            let ghost k = choose|k: int|
                0 <= k < s@.len() && s@[k] == c && forall|j: int| 0 <= j < k ==> s@[j] != c;
            assert(k == i as int) by {
                if k < i {
                } else if k > i {
                    assert(s@[i as int] == c);
                }
            }
            return Some(i);
        }
        i = i + 1;
    }
    None
}

/// `str::contains` for a character pattern.
pub fn contains_char(s: &[char], c: char) -> (b: bool)
    ensures
        b == s@.contains(c),
{
    match find_char(s, c) {
        Some(_) => true,
        None => false,
    }
}

/// `str::find` for a string pattern: the first position of `p` in `s`.
pub fn find_seq(s: &[char], p: &[char]) -> (r: Option<usize>)
    ensures
        r matches Some(i) ==> occurs_at(s@, p@, i as int) && forall|j: int|
            0 <= j < i ==> !occurs_at(s@, p@, j),
        r is None ==> !contains_seq(s@, p@),
        r matches Some(i) ==> first_occurrence(s@, p@) == Some(i as int),
        r is None ==> first_occurrence(s@, p@) is None,
{
    if p.len() > s.len() {
        assert forall|j: int| !occurs_at(s@, p@, j) by {}
        return None;
    }
    let last = s.len() - p.len();
    let mut i: usize = 0;
    loop
        invariant
            last == s.len() - p.len(),
            i <= last,
            forall|j: int| 0 <= j < i ==> !occurs_at(s@, p@, j),
        ensures
            forall|j: int| 0 <= j <= last ==> !occurs_at(s@, p@, j),
        decreases last - i,
    {
        if occurs_at_exec(s, p, i) {
            let ghost k = choose|k: int|
                occurs_at(s@, p@, k) && forall|j: int| 0 <= j < k ==> !occurs_at(s@, p@, j);
            assert(k == i as int) by {
                if k > i {
                    assert(occurs_at(s@, p@, i as int));
                }
            }
            return Some(i);
        }
        if i == last {
            break;
        }
        i = i + 1;
    }
    assert forall|j: int| !occurs_at(s@, p@, j) by {
        if 0 <= j && j + p@.len() <= s@.len() {
            assert(j <= last);
        }
    }
    None
}

/// `str::rfind` for a string pattern: the last position at which `p` occurs.
pub open spec fn last_occurrence(s: Seq<char>, p: Seq<char>) -> Option<int> {
    if contains_seq(s, p) {
        Some(choose|i: int| occurs_at(s, p, i) && forall|j: int| i < j ==> !occurs_at(s, p, j))
    } else {
        None
    }
}

/// `str::rfind` for a string pattern: the last position of `p` in `s`.
pub fn rfind_seq(s: &[char], p: &[char]) -> (r: Option<usize>)
    ensures
        r matches Some(i) ==> last_occurrence(s@, p@) == Some(i as int) && occurs_at(
            s@,
            p@,
            i as int,
        ),
        r is None ==> last_occurrence(s@, p@) is None,
{
    if p.len() > s.len() {
        assert forall|j: int| !occurs_at(s@, p@, j) by {}
        return None;
    }
    let mut i: usize = s.len() - p.len();
    loop
        invariant
            i <= s.len() - p.len(),
            forall|j: int| i < j ==> !occurs_at(s@, p@, j),
        ensures
            forall|j: int| !occurs_at(s@, p@, j),
        decreases i,
    {
        if occurs_at_exec(s, p, i) {
            let ghost k = choose|k: int|
                occurs_at(s@, p@, k) && forall|j: int| k < j ==> !occurs_at(s@, p@, j);
            assert(k == i as int) by {
                if k < i {
                    assert(occurs_at(s@, p@, i as int));
                }
            }
            return Some(i);
        }
        if i == 0 {
            break;
        }
        i = i - 1;
    }
    None
}

/// `str::contains` for a string literal pattern.
pub fn contains_str(s: &[char], p: &str) -> (b: bool)
    ensures
        b == contains_seq(s@, p@),
{
    let pc = chars_of(p);
    match find_seq(s, &pc) {
        Some(_) => true,
        None => false,
    }
}

// ---------------------------------------------------------------------------
// Lines
// ---------------------------------------------------------------------------

/// `slice::join`: the strings joined with `sep` between them.
pub open spec fn join_spec(parts: Seq<Seq<char>>, sep: Seq<char>) -> Seq<char>
    decreases parts.len(),
{
    if parts.len() == 0 {
        seq![]
    } else if parts.len() == 1 {
        parts[0]
    } else {
        join_spec(parts.drop_last(), sep) + sep + parts.last()
    }
}


/// `str::lines` up to trailing `\r`: the pieces of `s` between `\n`
/// separators, without a final empty piece after a trailing `\n` (and none at
/// all for an empty text).
pub open spec fn split_lines(s: Seq<char>) -> Seq<Seq<char>>
    decreases s.len(),
{
    if s.len() == 0 {
        Seq::empty()
    } else {
        match first_index_of(s, '\n') {
            None => seq![s],
            Some(i) => if 0 <= i < s.len() {
                seq![s.take(i)] + split_lines(s.skip(i + 1))
            } else {
                seq![s]
            },
        }
    }
}

/// The first occurrence of `c` in `r` is at `k`.
pub proof fn lemma_first_index(r: Seq<char>, c: char, k: int)
    requires
        0 <= k < r.len(),
        r[k] == c,
        forall|j: int| 0 <= j < k ==> r[j] != c,
    ensures
        first_index_of(r, c) == Some(k),
{
    assert(r.contains(c));
    let i = choose|i: int| 0 <= i < r.len() && r[i] == c && forall|j: int| 0 <= j < i ==> r[j] != c;
    assert(i == k) by {
        if i < k {
        } else if i > k {
            assert(r[k] == c);
        }
    }
}

/// Unfolding [`split_lines`] at a position: the line runs up to the next
/// `\n` (or the end), and the rest starts after it.
pub proof fn lemma_split_lines_step(s: Seq<char>, pos: int, nl: int)
    requires
        0 <= pos <= nl <= s.len(),
        pos < s.len(),
        forall|k: int| pos <= k < nl ==> s[k] != '\n',
        nl < s.len() ==> s[nl] == '\n',
    ensures
        nl < s.len() ==> split_lines(s.skip(pos)) == seq![s.subrange(pos, nl)] + split_lines(
            s.skip(nl + 1),
        ),
        nl == s.len() ==> split_lines(s.skip(pos)) == seq![s.subrange(pos, nl)],
{
    let r = s.skip(pos);
    assert(r.len() > 0);
    if nl < s.len() {
        assert forall|j: int| 0 <= j < nl - pos implies r[j] != '\n' by {
            assert(r[j] == s[pos + j]);
        }
        assert(r[nl - pos] == s[nl]);
        lemma_first_index(r, '\n', nl - pos);
        assert(r.take(nl - pos) == s.subrange(pos, nl));
        assert(r.skip(nl - pos + 1) == s.skip(nl + 1));
    } else {
        assert(!r.contains('\n')) by {
            if r.contains('\n') {
                let k = choose|k: int| 0 <= k < r.len() && r[k] == '\n';
                assert(r[k] == s[pos + k]);
            }
        }
        assert(r == s.subrange(pos, nl));
    }
}


/// One line further through [`split_lines`]: the line from `pos` to `nl`
/// joins the lines done.
#[verifier::spinoff_prover]
pub proof fn lemma_split_lines_progress(s: Seq<char>, done: Seq<Seq<char>>, pos: int, nl: int)
    requires
        0 <= pos < s.len(),
        pos <= nl <= s.len(),
        forall|k: int| pos <= k < nl ==> s[k] != '\n',
        nl < s.len() ==> s[nl] == '\n',
        split_lines(s) == done + split_lines(s.skip(pos)),
    ensures
        nl < s.len() ==> split_lines(s) == done.push(s.subrange(pos, nl)) + split_lines(
            s.skip(nl + 1),
        ),
        nl == s.len() ==> split_lines(s) == done.push(s.subrange(pos, nl)) + split_lines(
            s.skip(nl),
        ),
{
    lemma_split_lines_step(s, pos, nl);
    let line = s.subrange(pos, nl);
    if nl < s.len() {
        let rest = split_lines(s.skip(nl + 1));
        assert(split_lines(s.skip(pos)) == seq![line] + rest);
        assert(done + (seq![line] + rest) =~= done.push(line) + rest);
    } else {
        let empty = s.skip(nl);
        assert(empty.len() == 0);
        assert(split_lines(empty) =~= Seq::<Seq<char>>::empty());
        assert(split_lines(s.skip(pos)) == seq![line]);
        assert(done + seq![line] =~= done.push(line) + split_lines(empty));
    }
}

/// A line without the `\r` that ends it, if one does.
pub open spec fn drop_cr(l: Seq<char>) -> Seq<char> {
    if l.len() > 0 && l.last() == '\r' {
        l.drop_last()
    } else {
        l
    }
}

/// Each line without the `\r` that ends it.
pub open spec fn drop_crs(ls: Seq<Seq<char>>) -> Seq<Seq<char>> {
    ls.map_values(|x: Seq<char>| drop_cr(x))
}

/// Pushing a line keeps the read lines and their views in step.
proof fn lemma_push_line(out: Seq<String>, x: String, done: Seq<Seq<char>>, line: Seq<char>, raw: bool)
    requires
        strings_view(out) == drop_crs(done),
        raw ==> x@ == line,
        !raw ==> x@ == drop_cr(line),
    ensures
        raw ==> strings_view(out.push(x)) == drop_crs(done).push(line),
        !raw ==> strings_view(out.push(x)) == drop_crs(done.push(line)),
{
    assert(strings_view(out.push(x)) =~= strings_view(out).push(x@));
    assert(drop_crs(done.push(line)) =~= drop_crs(done).push(drop_cr(line)));
}

/// `str::lines`: the text split at `\n`, with a `\r` just before a `\n`
/// removed, and no empty line after a final `\n`.
pub open spec fn str_lines(s: Seq<char>) -> Seq<Seq<char>> {
    let ls = split_lines(s);
    Seq::new(
        ls.len(),
        |k: int|
            if k + 1 < ls.len() || ends_with(s, seq!['\n']) {
                drop_cr(ls[k])
            } else {
                ls[k]
            },
    )
}

/// The characters of each string.
pub open spec fn strings_view(v: Seq<String>) -> Seq<Seq<char>> {
    v.map_values(|x: String| x@)
}

/// The lines read so far, `done`, followed by `last` when it is given,
/// as [`str_lines`] gives them for `s`.
proof fn lemma_lines_view(s: Seq<char>, done: Seq<Seq<char>>, last: Option<Seq<char>>, out: Seq<Seq<char>>)
    requires
        split_lines(s) == match last {
            Some(l) => done.push(l),
            None => done,
        },
        out == match last {
            Some(l) => drop_crs(done).push(l),
            None => drop_crs(done),
        },
        last is Some ==> !ends_with(s, seq!['\n']),
        last is None ==> (s.len() == 0 || ends_with(s, seq!['\n'])),
    ensures
        out == str_lines(s),
{
    let ls = split_lines(s);
    let want = str_lines(s);
    assert(want.len() == out.len());
    assert forall|k: int| 0 <= k < out.len() implies out[k] == want[k] by {
        if k < done.len() {
            assert(ls[k] == done[k]);
            if last is None && s.len() == 0 {
                assert(s =~= Seq::<char>::empty());
                assert(split_lines(s).len() == 0);
            }
        }
    }
    assert(out =~= want);
}

/// The last line of `s` runs from `pos` to its end, with no `\n` in it.
proof fn lemma_last_line(s: Seq<char>, done: Seq<Seq<char>>, pos: int, line: Seq<char>, out: Seq<Seq<char>>)
    requires
        0 <= pos < s.len(),
        line == s.subrange(pos, s.len() as int),
        forall|k: int| pos <= k < s.len() ==> s[k] != '\n',
        split_lines(s) == done.push(line) + split_lines(s.skip(s.len() as int)),
        out == drop_crs(done).push(line),
    ensures
        out == str_lines(s),
{
    assert(s.skip(s.len() as int) =~= Seq::<char>::empty());
    assert(split_lines(s) =~= done.push(line));
    assert(!ends_with(s, seq!['\n'])) by {
        if ends_with(s, seq!['\n']) {
            assert(s.skip(s.len() - 1)[0] == s[s.len() - 1]);
        }
    }
    lemma_lines_view(s, done, Some(line), out);
}

/// `line` without a final `\r`.
fn without_cr(line: Vec<char>) -> (r: Vec<char>)
    ensures
        r@ == drop_cr(line@),
{
    let mut l = line;
    if l.len() > 0 && l[l.len() - 1] == '\r' {
        l.pop();
    }
    l
}

/// The lines of `text`, as `str::lines` gives them.
#[verifier::spinoff_prover]
pub fn lines_of(text: &str) -> (r: Vec<String>)
    ensures
        strings_view(r@) == str_lines(text@),
{
    let s = chars_of(text);
    let mut out: Vec<String> = Vec::new();
    let mut pos: usize = 0;
    let ghost mut done: Seq<Seq<char>> = Seq::empty();
    assert(s@.skip(0) =~= s@);
    assert(done + split_lines(s@) =~= split_lines(s@));
    while pos < s.len()
        invariant
            pos <= s.len(),
            s@ == text@,
            split_lines(s@) == done + split_lines(s@.skip(pos as int)),
            strings_view(out@) == drop_crs(done),
            pos > 0 ==> s@[pos - 1] == '\n',
        decreases s.len() - pos,
    {
        let nl = piece_end(&s, '\n', pos);
        let line = slice_to_vec(&s, pos, nl);
        proof {
            lemma_split_lines_progress(s@, done, pos as int, nl as int);
        }
        if nl == s.len() {
            let ls = string_of(&line);
            proof {
                lemma_push_line(out@, ls, done, line@, true);
            }
            out.push(ls);
            proof {
                lemma_last_line(s@, done, pos as int, line@, strings_view(out@));
            }
            return out;
        }
        let l = without_cr(line);
        let ls = string_of(&l);
        proof {
            lemma_push_line(out@, ls, done, line@, false);
        }
        out.push(ls);
        proof {
            done = done.push(line@);
        }
        pos = nl + 1;
    }
    proof {
        assert(s@.skip(pos as int) =~= Seq::<char>::empty());
        assert(split_lines(s@) =~= done);
        if s@.len() > 0 {
            assert(s@.skip(s@.len() - 1) =~= seq!['\n']);
        }
        lemma_lines_view(s@, done, None, strings_view(out@));
    }
    out
}

// ---------------------------------------------------------------------------
// Stripping and splitting
// ---------------------------------------------------------------------------

/// `str::strip_prefix` for a string pattern.
pub open spec fn strip_prefix(s: Seq<char>, p: Seq<char>) -> Option<Seq<char>> {
    if starts_with(s, p) {
        Some(s.skip(p.len() as int))
    } else {
        None
    }
}

/// `str::strip_suffix` for a string pattern.
pub open spec fn strip_suffix(s: Seq<char>, p: Seq<char>) -> Option<Seq<char>> {
    if ends_with(s, p) {
        Some(s.take(s.len() - p.len()))
    } else {
        None
    }
}

/// `str::split_once` for a character: the text before and after its first
/// occurrence.
pub open spec fn split_once(s: Seq<char>, c: char) -> Option<(Seq<char>, Seq<char>)> {
    match first_index_of(s, c) {
        Some(i) => Some((s.take(i), s.skip(i + 1))),
        None => None,
    }
}

/// `str::rfind` for a single character: the index of its last occurrence.
pub open spec fn last_index_of(s: Seq<char>, c: char) -> Option<int> {
    if s.contains(c) {
        Some(choose|i: int| 0 <= i < s.len() && s[i] == c && forall|j: int| i < j < s.len() ==> s[j] != c)
    } else {
        None
    }
}

/// `str::rsplit_once` for a character: the text before and after its last
/// occurrence.
pub open spec fn rsplit_once(s: Seq<char>, c: char) -> Option<(Seq<char>, Seq<char>)> {
    match last_index_of(s, c) {
        Some(i) => Some((s.take(i), s.skip(i + 1))),
        None => None,
    }
}

/// The first field of `str::split(c)`: everything before the first `c`.
pub open spec fn before_first(s: Seq<char>, c: char) -> Seq<char> {
    match first_index_of(s, c) {
        Some(i) => s.take(i),
        None => s,
    }
}

/// `str::trim_end_matches` for a character.
pub open spec fn trim_end_matches(s: Seq<char>, c: char) -> Seq<char>
    decreases s.len(),
{
    if s.len() > 0 && s.last() == c {
        trim_end_matches(s.drop_last(), c)
    } else {
        s
    }
}

/// `str::trim_start_matches` for a character.
pub open spec fn trim_start_matches(s: Seq<char>, c: char) -> Seq<char>
    decreases s.len(),
{
    if s.len() > 0 && s[0] == c {
        trim_start_matches(s.drop_first(), c)
    } else {
        s
    }
}

/// `str::rfind` for a character pattern.
pub fn rfind_char(s: &[char], c: char) -> (r: Option<usize>)
    ensures
        r matches Some(i) ==> last_index_of(s@, c) == Some(i as int) && i < s.len() && s@[i as int]
            == c,
        r is None ==> last_index_of(s@, c) is None && !s@.contains(c),
{
    let mut i: usize = s.len();
    while i > 0
        invariant
            i <= s.len(),
            forall|j: int| i <= j < s.len() ==> s@[j] != c,
        decreases i,
    {
        if s[i - 1] == c {
            let k: usize = i - 1;
            assert(s@.contains(c));
            let ghost w = choose|w: int|
                0 <= w < s@.len() && s@[w] == c && forall|j: int| w < j < s@.len() ==> s@[j] != c;
            assert(w == k as int) by {
                if w < k {
                    assert(s@[k as int] == c);
                } else if w > k {
                }
            }
            return Some(k);
        }
        i = i - 1;
    }
    None
}

/// Length of `trim_end_matches(s@.take(upto), c)`.
pub fn trim_end_matches_len(s: &[char], upto: usize, c: char) -> (n: usize)
    requires
        upto <= s.len(),
    ensures
        n <= upto,
        s@.take(n as int) == trim_end_matches(s@.take(upto as int), c),
{
    let mut n = upto;
    while n > 0 && s[n - 1] == c
        invariant
            n <= upto <= s.len(),
            trim_end_matches(s@.take(n as int), c) == trim_end_matches(s@.take(upto as int), c),
        decreases n,
    {
        assert(s@.take(n as int).drop_last() == s@.take(n - 1));
        n = n - 1;
    }
    n
}

/// Index of the first character of `trim_start_matches(s, c)`.
pub fn trim_start_matches_index(s: &[char], c: char) -> (i: usize)
    ensures
        i <= s.len(),
        s@.skip(i as int) == trim_start_matches(s@, c),
{
    let mut i: usize = 0;
    assert(s@.skip(0) == s@);
    while i < s.len() && s[i] == c
        invariant
            i <= s.len(),
            trim_start_matches(s@.skip(i as int), c) == trim_start_matches(s@, c),
        decreases s.len() - i,
    {
        assert(s@.skip(i as int).drop_first() == s@.skip(i + 1));
        i = i + 1;
    }
    i
}

/// A fresh vector holding `s@.skip(from)`.
pub fn tail_from(s: &[char], from: usize) -> (out: Vec<char>)
    requires
        from <= s.len(),
    ensures
        out@ == s@.skip(from as int),
{
    let v = slice_to_vec(s, from, s.len());
    assert(s@.subrange(from as int, s.len() as int) == s@.skip(from as int));
    v
}

/// A fresh vector holding `s@.take(to)`.
pub fn head_to(s: &[char], to: usize) -> (out: Vec<char>)
    requires
        to <= s.len(),
    ensures
        out@ == s@.take(to as int),
{
    let v = slice_to_vec(s, 0, to);
    assert(s@.subrange(0, to as int) == s@.take(to as int));
    v
}

/// `str::strip_prefix` with a string literal pattern.
pub fn strip_prefix_str(s: &[char], p: &str) -> (r: Option<Vec<char>>)
    ensures
        r matches Some(v) ==> strip_prefix(s@, p@) == Some(v@),
        r is None <==> strip_prefix(s@, p@) is None,
{
    let pc = chars_of(p);
    if starts_with_exec(s, &pc) {
        Some(tail_from(s, pc.len()))
    } else {
        None
    }
}

/// `str::strip_suffix` with a string literal pattern.
pub fn strip_suffix_str(s: &[char], p: &str) -> (r: Option<Vec<char>>)
    ensures
        r matches Some(v) ==> strip_suffix(s@, p@) == Some(v@),
        r is None <==> strip_suffix(s@, p@) is None,
{
    let pc = chars_of(p);
    if ends_with_exec(s, &pc) {
        Some(head_to(s, s.len() - pc.len()))
    } else {
        None
    }
}

/// `str::split_once` for a character.
pub fn split_once_char(s: &[char], c: char) -> (r: Option<(Vec<char>, Vec<char>)>)
    ensures
        r matches Some((a, b)) ==> split_once(s@, c) == Some((a@, b@)),
        r is None <==> split_once(s@, c) is None,
{
    match find_char(s, c) {
        Some(i) => Some((head_to(s, i), tail_from(s, i + 1))),
        None => None,
    }
}

/// The first field of `str::split(c)`.
pub fn before_first_char(s: &[char], c: char) -> (r: Vec<char>)
    ensures
        r@ == before_first(s@, c),
{
    match find_char(s, c) {
        Some(i) => head_to(s, i),
        None => {
            assert(s@.subrange(0, s.len() as int) == s@);
            slice_to_vec(s, 0, s.len())
        },
    }
}

// ---------------------------------------------------------------------------
// Literal tables
// ---------------------------------------------------------------------------

/// The character view of a table of string pairs.
pub open spec fn pairs_view(t: Seq<(&str, &str)>) -> Seq<(Seq<char>, Seq<char>)> {
    t.map_values(|p: (&str, &str)| (p.0@, p.1@))
}

/// The value of the first entry of `t` whose key is `k`.
pub open spec fn table_lookup(t: Seq<(Seq<char>, Seq<char>)>, k: Seq<char>) -> Option<Seq<char>>
    decreases t.len(),
{
    if t.len() == 0 {
        None
    } else if t[0].0 == k {
        Some(t[0].1)
    } else {
        table_lookup(t.drop_first(), k)
    }
}

/// Look `k` up in a table of string pairs: the value of the first entry whose
/// key equals `k`.
pub fn lookup_pair<'a>(t: &[(&'a str, &'a str)], k: &[char]) -> (r: Option<&'a str>)
    ensures
        r matches Some(v) ==> table_lookup(pairs_view(t@), k@) == Some(v@),
        r is None <==> table_lookup(pairs_view(t@), k@) is None,
{
    let ghost all = pairs_view(t@);
    let mut i: usize = 0;
    assert(all.skip(0) == all);
    while i < t.len()
        invariant
            i <= t.len(),
            all == pairs_view(t@),
            table_lookup(all, k@) == table_lookup(all.skip(i as int), k@),
        decreases t.len() - i,
    {
        let (key, value) = t[i];
        assert(all.skip(i as int)[0] == (key@, value@));
        assert(all.skip(i as int).drop_first() == all.skip(i + 1));
        if eq_str(k, key) {
            return Some(value);
        }
        i = i + 1;
    }
    assert(all.skip(i as int).len() == 0);
    None
}

// ---------------------------------------------------------------------------
// Replacing
// ---------------------------------------------------------------------------

/// `str::replace` with a non-empty pattern: every occurrence of `from`, left
/// to right and not overlapping, replaced by `to`.
#[verifier::opaque]
pub open spec fn replace_spec(s: Seq<char>, from: Seq<char>, to: Seq<char>) -> Seq<char>
    decreases s.len(),
{
    match first_occurrence(s, from) {
        Some(i) => if from.len() > 0 && 0 <= i && i + from.len() <= s.len() {
            s.take(i) + to + replace_spec(s.skip(i + from.len()), from, to)
        } else {
            s
        },
        None => s,
    }
}

/// A text without the pattern is left as it is.
proof fn lemma_replace_none(s: Seq<char>, from: Seq<char>, to: Seq<char>)
    requires
        first_occurrence(s, from) is None,
    ensures
        replace_spec(s, from, to) == s,
{
    reveal(replace_spec);
}

/// Unfolding [`replace_spec`] at the first occurrence, `i`, of the pattern.
proof fn lemma_replace_unfold(s: Seq<char>, i: int, from: Seq<char>, to: Seq<char>)
    requires
        from.len() > 0,
        first_occurrence(s, from) == Some(i),
        occurs_at(s, from, i),
    ensures
        replace_spec(s, from, to) == s.take(i) + to + replace_spec(s.skip(i + from.len()), from, to),
{
    reveal(replace_spec);
}

/// Replacing up to and including the first occurrence, at `i`, of the
/// pattern in the text from `pos` on: what is done, the text before the
/// occurrence and the replacement, then the rest.
proof fn lemma_replace_step(
    c: Seq<char>,
    pos: int,
    rest: Seq<char>,
    i: int,
    from: Seq<char>,
    to: Seq<char>,
    out: Seq<char>,
)
    requires
        0 <= pos <= c.len(),
        rest == c.skip(pos),
        0 <= i,
        i + from.len() <= rest.len(),
        replace_spec(rest, from, to) == rest.take(i) + to + replace_spec(
            rest.skip(i + from.len()),
            from,
            to,
        ),
    ensures
        out + rest.take(i) + to + replace_spec(c.skip(pos + i + from.len()), from, to) == out
            + replace_spec(rest, from, to),
{
    let tail = replace_spec(rest.skip(i + from.len()), from, to);
    assert(rest.skip(i + from.len()) =~= c.skip(pos + i + from.len()));
    assert(out + rest.take(i) + to + tail =~= out + (rest.take(i) + to + tail));
}

/// `str::replace` for a non-empty pattern.
pub fn replace_all(s: &str, from: &str, to: &str) -> (r: String)
    requires
        from@.len() > 0,
    ensures
        r@ == replace_spec(s@, from@, to@),
{
    let c = chars_of(s);
    let f = chars_of(from);
    let t = chars_of(to);
    let mut out: Vec<char> = Vec::new();
    let mut pos: usize = 0;
    assert(c@.skip(0) =~= c@);
    assert(out@ + replace_spec(c@, f@, t@) =~= replace_spec(c@, f@, t@));
    loop
        invariant
            pos <= c.len(),
            c@ == s@,
            f@ == from@,
            t@ == to@,
            f@.len() > 0,
            out@ + replace_spec(c@.skip(pos as int), f@, t@) == replace_spec(c@, f@, t@),
        decreases c.len() - pos,
    {
        let rest = tail_from(&c, pos);
        match find_seq(&rest, &f) {
            None => {
                proof {
                    lemma_replace_none(rest@, f@, t@);
                    assert(rest@ == c@.skip(pos as int));
                }
                let ghost before = out@;
                push_chars(&mut out, &rest);
                assert(out@ == before + replace_spec(c@.skip(pos as int), f@, t@));
                return string_of(&out);
            },
            Some(i) => {
                let head = slice_to_vec(&rest, 0, i);
                proof {
                    assert(rest@.take(i as int) == head@);
                    lemma_replace_unfold(rest@, i as int, f@, t@);
                    lemma_replace_step(c@, pos as int, rest@, i as int, f@, t@, out@);
                }
                push_chars(&mut out, &head);
                push_chars(&mut out, &t);
                pos = pos + i + f.len();
            },
        }
    }
}

// ---------------------------------------------------------------------------
// Splitting on a separator
// ---------------------------------------------------------------------------

/// `str::split(c)`: the pieces of `s` between occurrences of `c`, empty
/// pieces included (one empty piece for an empty text).
#[verifier::opaque]
pub open spec fn split_char(s: Seq<char>, c: char) -> Seq<Seq<char>>
    decreases s.len(),
{
    match first_index_of(s, c) {
        Some(i) => if 0 <= i < s.len() {
            seq![s.take(i)] + split_char(s.skip(i + 1), c)
        } else {
            seq![s]
        },
        None => seq![s],
    }
}

/// Unfolding [`split_char`] at a position: the piece runs up to the next `c`
/// (or the end), and the rest starts after it.
pub proof fn lemma_split_char_step(s: Seq<char>, c: char, pos: int, next: int)
    requires
        0 <= pos <= next <= s.len(),
        forall|k: int| pos <= k < next ==> s[k] != c,
        next < s.len() ==> s[next] == c,
    ensures
        next < s.len() ==> split_char(s.skip(pos), c) == seq![s.subrange(pos, next)] + split_char(
            s.skip(next + 1),
            c,
        ),
        next == s.len() ==> split_char(s.skip(pos), c) == seq![s.subrange(pos, next)],
{
    reveal(split_char);
    let r = s.skip(pos);
    if next < s.len() {
        assert forall|j: int| 0 <= j < next - pos implies r[j] != c by {
            assert(r[j] == s[pos + j]);
        }
        assert(r[next - pos] == s[next]);
        lemma_first_index(r, c, next - pos);
        assert(r.take(next - pos) == s.subrange(pos, next));
        assert(r.skip(next - pos + 1) == s.skip(next + 1));
    } else {
        assert(!r.contains(c)) by {
            if r.contains(c) {
                let k = choose|k: int| 0 <= k < r.len() && r[k] == c;
                assert(r[k] == s[pos + k]);
            }
        }
        assert(r == s.subrange(pos, next));
    }
}

/// The end of the piece starting at `pos`: the index of the next `c`, or the
/// length.
pub fn piece_end(s: &[char], c: char, pos: usize) -> (next: usize)
    requires
        pos <= s.len(),
    ensures
        pos <= next <= s.len(),
        forall|k: int| pos <= k < next ==> s@[k] != c,
        next < s.len() ==> s@[next as int] == c,
{
    let mut j = pos;
    while j < s.len() && s[j] != c
        invariant
            pos <= j <= s.len(),
            forall|k: int| pos <= k < j ==> s@[k] != c,
        decreases s.len() - j,
    {
        j = j + 1;
    }
    j
}

/// One piece further through [`split_char`]: the piece up to `next` joins
/// the pieces done.
pub proof fn lemma_split_progress(s: Seq<char>, c: char, done: Seq<Seq<char>>, pos: int, next: int)
    requires
        0 <= pos <= next <= s.len(),
        forall|k: int| pos <= k < next ==> s[k] != c,
        next < s.len() ==> s[next] == c,
        split_char(s, c) == done + split_char(s.skip(pos), c),
    ensures
        next == s.len() ==> split_char(s, c) == done.push(s.subrange(pos, next)),
        next < s.len() ==> split_char(s, c) == done.push(s.subrange(pos, next)) + split_char(
            s.skip(next + 1),
            c,
        ),
{
    lemma_split_char_step(s, c, pos, next);
    let piece = s.subrange(pos, next);
    if next < s.len() {
        let rest = split_char(s.skip(next + 1), c);
        assert(done + (seq![piece] + rest) =~= done.push(piece) + rest);
    } else {
        assert(done + seq![piece] =~= done.push(piece));
    }
}

/// One line further through [`split_lines`]: line `k` starts at `pos` and
/// runs up to `nl`.
#[verifier::spinoff_prover]
proof fn lemma_nth_line_step(s: Seq<char>, pos: int, nl: int, k: int)
    requires
        0 <= pos < s.len(),
        pos <= nl <= s.len(),
        0 <= k <= split_lines(s).len(),
        forall|j: int| pos <= j < nl ==> s[j] != '\n',
        nl < s.len() ==> s[nl] == '\n',
        split_lines(s).skip(k) == split_lines(s.skip(pos)),
    ensures
        k < split_lines(s).len(),
        split_lines(s)[k] == s.subrange(pos, nl),
        nl == s.len() ==> split_lines(s).len() == k + 1,
        nl < s.len() ==> split_lines(s).skip(k + 1) == split_lines(s.skip(nl + 1)),
{
    lemma_split_lines_step(s, pos, nl);
    let a = split_lines(s);
    let b = split_lines(s.skip(pos));
    assert(b.len() >= 1);
    assert(a.skip(k).len() == b.len());
    assert(a.skip(k)[0] == b[0]);
    if nl < s.len() {
        assert(a.skip(k + 1) =~= b.drop_first());
        assert(b.drop_first() =~= split_lines(s.skip(nl + 1)));
    }
}

/// The `n`-th line of `s` (from 0), as [`split_lines`] splits it; empty when
/// there is no such line.
pub fn nth_line(s: &[char], n: usize) -> (r: Vec<char>)
    ensures
        n < split_lines(s@).len() ==> r@ == split_lines(s@)[n as int],
        n >= split_lines(s@).len() ==> r@.len() == 0,
{
    let mut pos: usize = 0;
    let mut k: usize = 0;
    assert(s@.skip(0) == s@);
    assert(split_lines(s@).skip(0) == split_lines(s@));
    loop
        invariant
            pos <= s.len(),
            k <= n,
            k <= split_lines(s@).len(),
            split_lines(s@).skip(k as int) == split_lines(s@.skip(pos as int)),
        decreases s.len() - pos,
    {
        if pos == s.len() {
            proof {
                assert(s@.skip(pos as int) =~= Seq::<char>::empty());
                assert(split_lines(s@).skip(k as int).len() == 0);
            }
            return Vec::new();
        }
        let nl = piece_end(s, '\n', pos);
        proof {
            lemma_nth_line_step(s@, pos as int, nl as int, k as int);
        }
        if k == n {
            return slice_to_vec(s, pos, nl);
        }
        if nl == s.len() {
            return Vec::new();
        }
        pos = nl + 1;
        k = k + 1;
    }
}

} // verus!
