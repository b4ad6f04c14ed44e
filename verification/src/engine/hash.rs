//! Whitespace-insensitive content hashing of bookmarked code.

use vstd::prelude::*;

use sha2::Digest;

use crate::engine::normal_text::{
    lemma_normalize_keeps_non_ws, lemma_normalized_single_spaced, non_ws, single_spaced,
};
use crate::text::{
    chars_of, is_whitespace, is_ws, lemma_split_lines_step, push_str, split_lines, string_of, trim,
};

verus! {

// ---------------------------------------------------------------------------
// Normalization
// ---------------------------------------------------------------------------

/// Replace every run of whitespace in `t` by a single space; `in_ws` tells
/// whether a whitespace run is already open before `t`.
pub open spec fn collapse_ws(t: Seq<char>, in_ws: bool) -> Seq<char>
    decreases t.len(),
{
    if t.len() == 0 {
        Seq::empty()
    } else if is_ws(t[0]) {
        if in_ws {
            collapse_ws(t.drop_first(), true)
        } else {
            seq![' '] + collapse_ws(t.drop_first(), true)
        }
    } else {
        seq![t[0]] + collapse_ws(t.drop_first(), false)
    }
}

/// Normalization state: the text produced so far and whether the last line
/// read was blank.
pub struct NormState {
    pub out: Seq<char>,
    pub prev_blank: bool,
}

/// Fold one line into the normalization state: blank lines collapse into a
/// single separator (and none at the start), other lines are trimmed, have
/// whitespace runs collapsed and are joined by `\n`.
pub open spec fn norm_step(st: NormState, line: Seq<char>) -> NormState {
    let t = trim(line);
    if t.len() == 0 {
        if !st.prev_blank && st.out.len() > 0 {
            NormState { out: st.out.push('\n'), prev_blank: true }
        } else {
            NormState { out: st.out, prev_blank: true }
        }
    } else {
        let sep = if st.out.len() > 0 {
            st.out.push('\n')
        } else {
            st.out
        };
        NormState { out: sep + collapse_ws(t, false), prev_blank: false }
    }
}

/// Fold the lines, first to last, into the state.
pub open spec fn norm_lines(lines: Seq<Seq<char>>, st: NormState) -> NormState
    decreases lines.len(),
{
    if lines.len() == 0 {
        st
    } else {
        norm_lines(lines.drop_first(), norm_step(st, lines[0]))
    }
}

/// The normalized text of `s`.
pub open spec fn normalize_spec(s: Seq<char>) -> Seq<char> {
    norm_lines(split_lines(s), NormState { out: Seq::empty(), prev_blank: false }).out
}

/// Append `collapse_ws(s[start..end], false)` to `out`.
fn push_collapsed(out: &mut Vec<char>, s: &[char], start: usize, end: usize)
    requires
        start <= end <= s.len(),
    ensures
        final(out)@ == old(out)@ + collapse_ws(s@.subrange(start as int, end as int), false),
{
    let ghost base = out@;
    let ghost whole = s@.subrange(start as int, end as int);
    let mut in_ws = false;
    let mut j: usize = start;
    while j < end
        invariant
            start <= j <= end <= s.len(),
            whole == s@.subrange(start as int, end as int),
            base + collapse_ws(whole, false) == out@ + collapse_ws(
                s@.subrange(j as int, end as int),
                in_ws,
            ),
        decreases end - j,
    {
        let ghost rest = s@.subrange(j as int, end as int);
        let ghost before = out@;
        assert(rest.drop_first() == s@.subrange(j + 1, end as int));
        assert(rest[0] == s@[j as int]);
        let c = s[j];
        if is_whitespace(c) {
            if !in_ws {
                out.push(' ');
                in_ws = true;
                assert(before + (seq![' '] + collapse_ws(rest.drop_first(), true)) == out@
                    + collapse_ws(rest.drop_first(), true));
            }
        } else {
            out.push(c);
            in_ws = false;
            assert(before + (seq![c] + collapse_ws(rest.drop_first(), false)) == out@
                + collapse_ws(rest.drop_first(), false));
        }
        j = j + 1;
    }
    assert(s@.subrange(end as int, end as int).len() == 0);
}

// ---------------------------------------------------------------------------
// Hashing
// ---------------------------------------------------------------------------

/// The SHA-256 digest of `data`.
pub uninterp spec fn sha256_digest(data: Seq<u8>) -> Seq<u8>;

/// `sha2::Sha256::digest`: the 32-byte SHA-256 digest of `data`, a function of
/// the bytes alone (named [`sha256_digest`]).
#[verifier::external_body]
fn sha256(data: &[u8]) -> (out: Vec<u8>)
    ensures
        out@ == sha256_digest(data@),
        out@.len() == 32,
{
    sha2::Sha256::digest(data).to_vec()
}

/// The lower-case hex digit for `n < 16`.
pub open spec fn hex_digit(n: u8) -> char {
    if n < 10 {
        ((n + 48) as u32) as char
    } else {
        ((n + 87) as u32) as char
    }
}

/// Two lower-case hex digits per byte, as `format!("{b:02x}")` writes them.
pub open spec fn hex_lower(bytes: Seq<u8>) -> Seq<char>
    decreases bytes.len(),
{
    if bytes.len() == 0 {
        Seq::empty()
    } else {
        hex_lower(bytes.drop_last()) + seq![hex_digit(bytes.last() / 16), hex_digit(bytes.last() % 16)]
    }
}

fn hex_char(n: u8) -> (c: char)
    requires
        n < 16,
    ensures
        c == hex_digit(n),
{
    if n < 10 {
        (n + 48) as char
    } else {
        (n + 87) as char
    }
}

/// The value of a lower-case hex digit: `0`-`9` count 0 to 9, `a`-`f` count
/// 10 to 15.
pub open spec fn hex_value(c: char) -> int {
    let v = c as u32 as int;
    if 48 <= v <= 57 {
        v - 48
    } else {
        v - 87
    }
}

/// A hex digit reads back as the value it was written for.
proof fn lemma_hex_digit_value(n: u8)
    requires
        n < 16,
    ensures
        hex_value(hex_digit(n)) == n,
        (hex_digit(n) as u32) < 128,
{
    if n < 10 {
        assert(((n + 48) as u32) as char as u32 == n + 48);
    } else {
        assert(((n + 87) as u32) as char as u32 == n + 87);
    }
}

/// Hex text denotes its bytes: the two characters written for byte `k`
/// read back, high digit first, as that byte's value.
pub proof fn lemma_hex_lower_denotes(bytes: Seq<u8>)
    ensures
        hex_lower(bytes).len() == 2 * bytes.len(),
        forall|k: int|
            0 <= k < bytes.len() ==> 16 * hex_value(#[trigger] hex_lower(bytes)[2 * k]) + hex_value(
                hex_lower(bytes)[2 * k + 1],
            ) == bytes[k],
    decreases bytes.len(),
{
    lemma_hex_lower_len(bytes);
    if bytes.len() > 0 {
        let init = bytes.drop_last();
        lemma_hex_lower_denotes(init);
        let b = bytes.last();
        lemma_hex_digit_value(b / 16);
        lemma_hex_digit_value(b % 16);
        let h = hex_lower(bytes);
        assert(h == hex_lower(init) + seq![hex_digit(b / 16), hex_digit(b % 16)]);
        assert forall|k: int| 0 <= k < bytes.len() implies 16 * hex_value(#[trigger] h[2 * k]) + hex_value(
            h[2 * k + 1],
        ) == bytes[k] by {
            if k < init.len() {
                assert(h[2 * k] == hex_lower(init)[2 * k]);
                assert(h[2 * k + 1] == hex_lower(init)[2 * k + 1]);
                assert(bytes[k] == init[k]);
            } else {
                assert(h[2 * k] == hex_digit(b / 16));
                assert(h[2 * k + 1] == hex_digit(b % 16));
                assert(16 * (b / 16) + b % 16 == b);
            }
        }
    }
}

/// The content hash is `sha256:` and 16 lower-case hex digits that read
/// back, two per byte and high digit first, as the first 8 bytes of the
/// SHA-256 digest of the normalized text's UTF-8 encoding (a SHA-256 digest
/// has 32 bytes).
pub proof fn lemma_content_hash_is_digest_hex(text: Seq<char>)
    ensures
        ({
            let d = sha256_digest(vstd::utf8::encode_utf8(normalize_spec(text)));
            let r = content_hash_spec(text);
            d.len() >= 8 ==> {
                &&& r.len() == 23
                &&& r.take(7) == "sha256:"@
                &&& forall|k: int|
                    0 <= k < 8 ==> 16 * hex_value(#[trigger] r[7 + 2 * k]) + hex_value(r[8 + 2 * k])
                        == d[k]
            }
        }),
{
    reveal_strlit("sha256:");
    let d = sha256_digest(vstd::utf8::encode_utf8(normalize_spec(text)));
    if d.len() >= 8 {
        let t = d.take(8);
        let hx = hex_lower(t);
        let r = content_hash_spec(text);
        lemma_hex_lower_denotes(t);
        assert(r.take(7) =~= "sha256:"@);
        assert forall|k: int| 0 <= k < 8 implies 16 * hex_value(#[trigger] r[7 + 2 * k]) + hex_value(
            r[8 + 2 * k],
        ) == d[k] by {
            assert(r[7 + 2 * k] == hx[2 * k]);
            assert(r[8 + 2 * k] == hx[2 * k + 1]);
            assert(t[k] == d[k]);
        }
    }
}

/// The content hash of `text`: `sha256:` followed by the hex of the first 8
/// bytes of the SHA-256 digest of the UTF-8 encoding of its normalization.
pub open spec fn content_hash_spec(text: Seq<char>) -> Seq<char> {
    "sha256:"@ + hex_lower(sha256_digest(vstd::utf8::encode_utf8(normalize_spec(text))).take(8))
}

/// Normalize text and compute SHA-256 hash, returning "sha256:<first 16 hex chars>".
pub fn content_hash(text: &str) -> (r: String)
    ensures
        r@ == content_hash_spec(text@),
        r@.len() == 23,
        r@.take(7) == "sha256:"@,
        forall|k: int|
            0 <= k < 8 ==> 16 * hex_value(#[trigger] r@[7 + 2 * k]) + hex_value(r@[8 + 2 * k])
                == sha256_digest(vstd::utf8::encode_utf8(normalize_spec(text@)))[k],
{
    let normalized = normalize_for_hash(text);
    let digest = sha256(normalized.as_str().as_bytes());
    let mut out: Vec<char> = Vec::new();
    push_str(&mut out, "sha256:");
    let ghost prefix = out@;
    let mut i: usize = 0;
    while i < 8
        invariant
            i <= 8,
            digest@.len() == 32,
            out@ == prefix + hex_lower(digest@.take(i as int)),
        decreases 8 - i,
    {
        let b = digest[i];
        out.push(hex_char(b / 16));
        out.push(hex_char(b % 16));
        i = i + 1;
        assert(digest@.take(i as int).drop_last() == digest@.take(i - 1));
    }
    proof {
        reveal_strlit("sha256:");
        lemma_hex_lower_len(digest@.take(8));
        let hx = hex_lower(digest@.take(8));
        lemma_hex_lower_denotes(digest@.take(8));
        assert(out@.take(7) =~= "sha256:"@);
        assert forall|k: int| 0 <= k < 8 implies 16 * hex_value(#[trigger] out@[7 + 2 * k]) + hex_value(
            out@[8 + 2 * k],
        ) == digest@[k] by {
            assert(out@[7 + 2 * k] == hx[2 * k]);
            assert(out@[8 + 2 * k] == hx[2 * k + 1]);
            assert(digest@.take(8)[k] == digest@[k]);
        }
    }
    string_of(&out)
}

/// Two hex digits per byte.
pub proof fn lemma_hex_lower_len(bytes: Seq<u8>)
    ensures
        hex_lower(bytes).len() == 2 * bytes.len(),
    decreases bytes.len(),
{
    if bytes.len() > 0 {
        lemma_hex_lower_len(bytes.drop_last());
    }
}

/// Normalize text for hashing: strip per-line whitespace, collapse blank lines,
/// replace whitespace runs with single space.
///
/// The result never starts with a line break or other whitespace, holds no
/// three line breaks in a row, has each line trimmed with whitespace only as
/// single spaces between words, and keeps every non-whitespace character of
/// `text`, in order, adding none.
pub fn normalize_for_hash(text: &str) -> (r: String)
    ensures
        r@ == normalize_spec(text@),
        r@.len() > 0 ==> r@[0] != '\n' && !is_ws(r@[0]),
        no_triple_break(r@),
        single_spaced(r@),
        non_ws(r@) == non_ws(text@),
{
    let s = chars_of(text);
    let v = normalize_chars(&s);
    proof {
        lemma_normalized_starts_clean(text@);
        lemma_normalized_no_triple_break(text@);
        lemma_normalized_single_spaced(text@);
        lemma_normalize_keeps_non_ws(text@);
    }
    string_of(&v)
}

/// Fold the line `s[pos..nl]` into the state held by `out` and `prev_blank`.
fn norm_line(out: &mut Vec<char>, prev_blank: &mut bool, s: &[char], pos: usize, nl: usize)
    requires
        pos <= nl <= s.len(),
    ensures
        (NormState { out: final(out)@, prev_blank: *final(prev_blank) }) == norm_step(
            NormState { out: old(out)@, prev_blank: *old(prev_blank) },
            s@.subrange(pos as int, nl as int),
        ),
{
    let ghost line = s@.subrange(pos as int, nl as int);
    let mut a: usize = pos;
    while a < nl && is_whitespace(s[a])
        invariant
            pos <= a <= nl <= s.len(),
            line == s@.subrange(pos as int, nl as int),
            crate::text::trim_start(s@.subrange(a as int, nl as int)) == crate::text::trim_start(
                line,
            ),
        decreases nl - a,
    {
        assert(s@.subrange(a as int, nl as int).drop_first() == s@.subrange(a + 1, nl as int));
        a = a + 1;
    }
    let mut b: usize = nl;
    while b > a && is_whitespace(s[b - 1])
        invariant
            pos <= a <= b <= nl <= s.len(),
            line == s@.subrange(pos as int, nl as int),
            crate::text::trim_end(s@.subrange(a as int, b as int)) == crate::text::trim_end(
                crate::text::trim_start(line),
            ),
        decreases b,
    {
        assert(s@.subrange(a as int, b as int).drop_last() == s@.subrange(a as int, b - 1));
        b = b - 1;
    }
    proof {
        lemma_trim_stops(s@, pos as int, nl as int, a as int, b as int);
    }
    if a == b {
        if !*prev_blank && out.len() > 0 {
            out.push('\n');
        }
        *prev_blank = true;
    } else {
        if out.len() > 0 {
            out.push('\n');
        }
        push_collapsed(out, s, a, b);
        *prev_blank = false;
    }
}

/// [`normalize_for_hash`] over characters.
pub fn normalize_chars(s: &[char]) -> (out: Vec<char>)
    ensures
        out@ == normalize_spec(s@),
{
    let mut out: Vec<char> = Vec::new();
    let mut prev_blank = false;
    let mut pos: usize = 0;
    assert(s@.skip(0) == s@);
    while pos < s.len()
        invariant
            pos <= s.len(),
            norm_lines(split_lines(s@.skip(pos as int)), NormState { out: out@, prev_blank })
                == norm_lines(
                split_lines(s@),
                NormState { out: Seq::empty(), prev_blank: false },
            ),
        decreases s.len() - pos,
    {
        let mut nl: usize = pos;
        while nl < s.len() && s[nl] != '\n'
            invariant
                pos <= nl <= s.len(),
                forall|k: int| pos <= k < nl ==> s@[k] != '\n',
            decreases s.len() - nl,
        {
            nl = nl + 1;
        }
        let ghost st0 = NormState { out: out@, prev_blank };
        proof {
            lemma_split_lines_step(s@, pos as int, nl as int);
        }
        norm_line(&mut out, &mut prev_blank, s, pos, nl);
        proof {
            let ls = split_lines(s@.skip(pos as int));
            assert(ls[0] == s@.subrange(pos as int, nl as int));
            if nl < s.len() {
                assert(ls.drop_first() == split_lines(s@.skip(nl + 1)));
            } else {
                assert(ls.drop_first() == Seq::<Seq<char>>::empty());
                assert(s@.skip(s.len() as int) == Seq::<char>::empty());
            }
        }
        if nl < s.len() {
            pos = nl + 1;
        } else {
            pos = nl;
        }
    }
    assert(s@.skip(pos as int).len() == 0);
    out
}

/// The trimmed line found by the two scans is `trim` of the line.
proof fn lemma_trim_stops(s: Seq<char>, pos: int, nl: int, a: int, b: int)
    requires
        0 <= pos <= a <= b <= nl <= s.len(),
        crate::text::trim_start(s.subrange(a, nl)) == crate::text::trim_start(s.subrange(pos, nl)),
        a == nl || !is_ws(s[a]),
        crate::text::trim_end(s.subrange(a, b)) == crate::text::trim_end(
            crate::text::trim_start(s.subrange(pos, nl)),
        ),
        b == a || !is_ws(s[b - 1]),
    ensures
        trim(s.subrange(pos, nl)) == s.subrange(a, b),
{
    let line = s.subrange(pos, nl);
    assert(crate::text::trim_start(s.subrange(a, nl)) == s.subrange(a, nl)) by {
        if a < nl {
            assert(s.subrange(a, nl)[0] == s[a]);
        }
    }
    assert(crate::text::trim_end(s.subrange(a, b)) == s.subrange(a, b)) by {
        if a < b {
            assert(s.subrange(a, b).last() == s[b - 1]);
        }
    }
}


// ---------------------------------------------------------------------------
// Laws
// ---------------------------------------------------------------------------

/// Folding only reads the trimmed lines.
proof fn lemma_norm_lines_trimmed(la: Seq<Seq<char>>, lb: Seq<Seq<char>>, st: NormState)
    requires
        la.len() == lb.len(),
        forall|i: int| 0 <= i < la.len() ==> trim(#[trigger] la[i]) == trim(lb[i]),
    ensures
        norm_lines(la, st) == norm_lines(lb, st),
    decreases la.len(),
{
    if la.len() > 0 {
        assert(trim(la[0]) == trim(lb[0]));
        assert(norm_step(st, la[0]) == norm_step(st, lb[0]));
        assert forall|i: int| 0 <= i < la.drop_first().len() implies trim(
            #[trigger] la.drop_first()[i],
        ) == trim(lb.drop_first()[i]) by {
            assert(la.drop_first()[i] == la[i + 1]);
            assert(lb.drop_first()[i] == lb[i + 1]);
        }
        lemma_norm_lines_trimmed(la.drop_first(), lb.drop_first(), norm_step(st, la[0]));
    }
}

/// Normalization, and so the content hash, ignores leading and trailing
/// whitespace on every line: two texts whose lines agree once trimmed
/// normalize and hash alike (re-indenting code or adding trailing spaces
/// keeps its hash).
pub proof fn lemma_hash_ignores_line_edge_whitespace(a: Seq<char>, b: Seq<char>)
    requires
        split_lines(a).len() == split_lines(b).len(),
        forall|i: int|
            0 <= i < split_lines(a).len() ==> trim(#[trigger] split_lines(a)[i]) == trim(
                split_lines(b)[i],
            ),
    ensures
        normalize_spec(a) == normalize_spec(b),
        content_hash_spec(a) == content_hash_spec(b),
{
    lemma_norm_lines_trimmed(
        split_lines(a),
        split_lines(b),
        NormState { out: Seq::empty(), prev_blank: false },
    );
}

/// Folding a concatenation folds the first part, then the second.
proof fn lemma_norm_lines_concat(p: Seq<Seq<char>>, q: Seq<Seq<char>>, st: NormState)
    ensures
        norm_lines(p + q, st) == norm_lines(q, norm_lines(p, st)),
    decreases p.len(),
{
    if p.len() > 0 {
        assert((p + q)[0] == p[0]);
        assert((p + q).drop_first() == p.drop_first() + q);
        lemma_norm_lines_concat(p.drop_first(), q, norm_step(st, p[0]));
    } else {
        assert(p + q == q);
    }
}

/// Runs of blank lines count once: a blank line directly after another blank
/// line leaves the normalized text unchanged.
pub proof fn lemma_hash_collapses_blank_runs(
    pre: Seq<Seq<char>>,
    blank1: Seq<char>,
    blank2: Seq<char>,
    post: Seq<Seq<char>>,
    st: NormState,
)
    requires
        trim(blank1).len() == 0,
        trim(blank2).len() == 0,
    ensures
        norm_lines(pre + seq![blank1, blank2] + post, st) == norm_lines(
            pre + seq![blank1] + post,
            st,
        ),
{
    let mid = norm_lines(pre, st);
    lemma_norm_lines_concat(pre, seq![blank1, blank2] + post, st);
    lemma_norm_lines_concat(pre, seq![blank1] + post, st);
    assert(pre + seq![blank1, blank2] + post == pre + (seq![blank1, blank2] + post));
    assert(pre + seq![blank1] + post == pre + (seq![blank1] + post));
    let s1 = norm_step(mid, blank1);
    assert(norm_step(s1, blank2) == s1);
    assert((seq![blank1, blank2] + post)[0] == blank1);
    assert((seq![blank1, blank2] + post).drop_first() == seq![blank2] + post);
    assert((seq![blank2] + post)[0] == blank2);
    assert((seq![blank2] + post).drop_first() == post);
    assert((seq![blank1] + post)[0] == blank1);
    assert((seq![blank1] + post).drop_first() == post);
    assert(norm_lines(seq![blank1, blank2] + post, mid) == norm_lines(seq![blank2] + post, s1));
    assert(norm_lines(seq![blank2] + post, s1) == norm_lines(post, norm_step(s1, blank2)));
    assert(norm_lines(seq![blank1] + post, mid) == norm_lines(post, s1));
}

/// `s` holds no three line breaks in a row.
pub open spec fn no_triple_break(s: Seq<char>) -> bool {
    forall|i: int| 0 <= i && i + 2 < s.len() ==> !(#[trigger] s[i] == '\n' && s[i + 1] == '\n' && s[i + 2] == '\n')
}

/// Collapsing whitespace leaves no line break (every whitespace run becomes
/// a space), and a non-empty text stays non-empty.
proof fn lemma_collapse_no_break(t: Seq<char>, in_ws: bool)
    ensures
        forall|i: int| 0 <= i < collapse_ws(t, in_ws).len() ==> #[trigger] collapse_ws(t, in_ws)[i] != '\n',
        t.len() > 0 && !in_ws ==> collapse_ws(t, in_ws).len() > 0,
    decreases t.len(),
{
    if t.len() > 0 {
        lemma_collapse_no_break(t.drop_first(), is_ws(t[0]));
        lemma_collapse_no_break(t.drop_first(), true);
        lemma_collapse_no_break(t.drop_first(), false);
        assert(is_ws('\n'));
    }
}

/// What every state of the fold keeps: no three breaks in a row; after a
/// text line the text does not end with a break; after a blank line it ends
/// with at most one.
pub open spec fn norm_state_ok(st: NormState) -> bool {
    &&& no_triple_break(st.out)
    &&& st.out.len() > 0 && !st.prev_blank ==> st.out.last() != '\n'
    &&& st.out.len() >= 2 && st.prev_blank ==> st.out[st.out.len() - 2] != '\n'
}

/// Folding lines keeps [`norm_state_ok`].
proof fn lemma_norm_lines_ok(ls: Seq<Seq<char>>, st: NormState)
    requires
        norm_state_ok(st),
    ensures
        norm_state_ok(norm_lines(ls, st)),
    decreases ls.len(),
{
    if ls.len() > 0 {
        let nx = norm_step(st, ls[0]);
        let t = trim(ls[0]);
        if t.len() == 0 {
            if !st.prev_blank && st.out.len() > 0 {
                let o = st.out;
                assert forall|i: int| 0 <= i && i + 2 < nx.out.len() implies !(#[trigger] nx.out[i] == '\n'
                    && nx.out[i + 1] == '\n' && nx.out[i + 2] == '\n') by {
                    if i + 2 == o.len() {
                        assert(nx.out[i + 1] == o.last());
                    } else {
                        assert(nx.out[i] == o[i] && nx.out[i + 1] == o[i + 1] && nx.out[i + 2] == o[i + 2]);
                    }
                }
            }
        } else {
            let c = collapse_ws(t, false);
            lemma_collapse_no_break(t, false);
            let sep = if st.out.len() > 0 { st.out.push('\n') } else { st.out };
            assert(nx.out == sep + c);
            assert forall|i: int| 0 <= i && i + 2 < nx.out.len() implies !(#[trigger] nx.out[i] == '\n'
                && nx.out[i + 1] == '\n' && nx.out[i + 2] == '\n') by {
                if i + 2 >= sep.len() {
                    assert(nx.out[i + 2] == c[i + 2 - sep.len()]);
                } else if st.out.len() > 0 && i + 2 == sep.len() - 1 {
                    assert(nx.out[i + 2] == '\n');
                    if st.prev_blank {
                        assert(nx.out[i + 1] == st.out.last());
                        assert(nx.out[i] == st.out[st.out.len() - 2]);
                    } else {
                        assert(nx.out[i + 1] == st.out.last());
                    }
                } else {
                    assert(nx.out[i] == st.out[i] && nx.out[i + 1] == st.out[i + 1] && nx.out[i + 2]
                        == st.out[i + 2]);
                }
            }
            assert(nx.out.last() == c.last());
        }
        lemma_norm_lines_ok(ls.drop_first(), nx);
    }
}

/// Runs of blank lines leave at most one empty line: the normalized text
/// never holds three line breaks in a row.
pub proof fn lemma_normalized_no_triple_break(s: Seq<char>)
    ensures
        no_triple_break(normalize_spec(s)),
{
    lemma_norm_lines_ok(split_lines(s), NormState { out: Seq::empty(), prev_blank: false });
}

/// The normalized text never starts with a line break or whitespace.
pub proof fn lemma_normalized_starts_clean(s: Seq<char>)
    ensures
        normalize_spec(s).len() > 0 ==> normalize_spec(s)[0] != '\n' && !is_ws(
            normalize_spec(s)[0],
        ),
{
    lemma_norm_lines_start(split_lines(s), NormState { out: Seq::empty(), prev_blank: false });
}

proof fn lemma_collapse_first(t: Seq<char>)
    requires
        t.len() > 0,
        !is_ws(t[0]),
    ensures
        collapse_ws(t, false).len() > 0,
        collapse_ws(t, false)[0] == t[0],
{
}

proof fn lemma_norm_lines_start(ls: Seq<Seq<char>>, st: NormState)
    requires
        st.out.len() > 0 ==> st.out[0] != '\n' && !is_ws(st.out[0]),
    ensures
        norm_lines(ls, st).out.len() > 0 ==> norm_lines(ls, st).out[0] != '\n' && !is_ws(
            norm_lines(ls, st).out[0],
        ),
        st.out.len() > 0 ==> norm_lines(ls, st).out.len() > 0 && norm_lines(ls, st).out[0]
            == st.out[0],
    decreases ls.len(),
{
    if ls.len() > 0 {
        let nx = norm_step(st, ls[0]);
        let t = trim(ls[0]);
        if t.len() > 0 && st.out.len() == 0 {
            lemma_trim_edges(ls[0]);
            lemma_collapse_first(t);
            assert(nx.out == collapse_ws(t, false));
        }
        lemma_norm_lines_start(ls.drop_first(), nx);
    }
}

/// A non-empty trimmed text starts and ends with non-whitespace.
pub proof fn lemma_trim_edges(s: Seq<char>)
    ensures
        trim(s).len() > 0 ==> !is_ws(trim(s)[0]) && !is_ws(trim(s).last()),
{
    lemma_trim_start_edge(s);
    lemma_trim_end_edge(crate::text::trim_start(s));
    let a = crate::text::trim_start(s);
    if trim(s).len() > 0 {
        lemma_trim_end_prefix(a);
        assert(trim(s)[0] == a[0]);
    }
}

proof fn lemma_trim_start_edge(s: Seq<char>)
    ensures
        crate::text::trim_start(s).len() > 0 ==> !is_ws(crate::text::trim_start(s)[0]),
    decreases s.len(),
{
    if s.len() > 0 && is_ws(s[0]) {
        lemma_trim_start_edge(s.drop_first());
    }
}

proof fn lemma_trim_end_edge(s: Seq<char>)
    ensures
        crate::text::trim_end(s).len() > 0 ==> !is_ws(crate::text::trim_end(s).last()),
    decreases s.len(),
{
    if s.len() > 0 && is_ws(s.last()) {
        lemma_trim_end_edge(s.drop_last());
    }
}

proof fn lemma_trim_end_prefix(s: Seq<char>)
    ensures
        crate::text::trim_end(s).len() <= s.len(),
        forall|i: int|
            0 <= i < crate::text::trim_end(s).len() ==> #[trigger] crate::text::trim_end(s)[i]
                == s[i],
    decreases s.len(),
{
    if s.len() > 0 && is_ws(s.last()) {
        lemma_trim_end_prefix(s.drop_last());
    }
}

} // verus!
