//! What normalizing code for hashing keeps: every character that is not
//! whitespace, in order.

use vstd::prelude::*;

use crate::engine::hash::{collapse_ws, norm_lines, norm_step, normalize_spec, NormState};
use crate::text::{is_ws, lemma_split_lines_step, split_lines, trim};

verus! {

/// The non-whitespace characters of `s`, in order.
pub open spec fn non_ws(s: Seq<char>) -> Seq<char>
    decreases s.len(),
{
    if s.len() == 0 {
        Seq::empty()
    } else if is_ws(s.last()) {
        non_ws(s.drop_last())
    } else {
        non_ws(s.drop_last()).push(s.last())
    }
}

/// [`non_ws`] of a concatenation.
proof fn lemma_non_ws_add(a: Seq<char>, b: Seq<char>)
    ensures
        non_ws(a + b) == non_ws(a) + non_ws(b),
    decreases b.len(),
{
    if b.len() == 0 {
        assert(a + b =~= a);
    } else {
        lemma_non_ws_add(a, b.drop_last());
        assert((a + b).drop_last() =~= a + b.drop_last());
        assert((a + b).last() == b.last());
    }
}

/// [`non_ws`] of one character.
proof fn lemma_non_ws_one(c: char)
    ensures
        non_ws(seq![c]) == (if is_ws(c) { Seq::<char>::empty() } else { seq![c] }),
{
    assert(seq![c].drop_last() =~= Seq::<char>::empty());
    assert(seq![c].last() == c);
    assert(non_ws(Seq::<char>::empty()) == Seq::<char>::empty());
    assert(Seq::<char>::empty().push(c) =~= seq![c]);
}

/// Collapsing whitespace keeps the non-whitespace characters.
proof fn lemma_non_ws_collapse(t: Seq<char>, in_ws: bool)
    ensures
        non_ws(collapse_ws(t, in_ws)) == non_ws(t),
    decreases t.len(),
{
    if t.len() > 0 {
        lemma_non_ws_collapse(t.drop_first(), true);
        lemma_non_ws_collapse(t.drop_first(), false);
        assert(t =~= seq![t[0]] + t.drop_first());
        lemma_non_ws_add(seq![t[0]], t.drop_first());
        lemma_non_ws_one(t[0]);
        lemma_non_ws_one(' ');
        if is_ws(t[0]) {
            if !in_ws {
                lemma_non_ws_add(seq![' '], collapse_ws(t.drop_first(), true));
            }
        } else {
            lemma_non_ws_add(seq![t[0]], collapse_ws(t.drop_first(), false));
        }
    }
}

/// Trimming keeps the non-whitespace characters.
proof fn lemma_non_ws_trim(t: Seq<char>)
    ensures
        non_ws(trim(t)) == non_ws(t),
{
    lemma_non_ws_trim_start(t);
    lemma_non_ws_trim_end(crate::text::trim_start(t));
}

proof fn lemma_non_ws_trim_start(t: Seq<char>)
    ensures
        non_ws(crate::text::trim_start(t)) == non_ws(t),
    decreases t.len(),
{
    if t.len() > 0 && is_ws(t[0]) {
        lemma_non_ws_trim_start(t.drop_first());
        assert(t =~= seq![t[0]] + t.drop_first());
        lemma_non_ws_add(seq![t[0]], t.drop_first());
        lemma_non_ws_one(t[0]);
        assert(Seq::<char>::empty() + non_ws(t.drop_first()) =~= non_ws(t.drop_first()));
    }
}

proof fn lemma_non_ws_trim_end(t: Seq<char>)
    ensures
        non_ws(crate::text::trim_end(t)) == non_ws(t),
    decreases t.len(),
{
    if t.len() > 0 && is_ws(t.last()) {
        lemma_non_ws_trim_end(t.drop_last());
    }
}

/// The non-whitespace characters of the pieces of `ls`, in order.
pub open spec fn lines_non_ws(ls: Seq<Seq<char>>) -> Seq<char>
    decreases ls.len(),
{
    if ls.len() == 0 {
        Seq::empty()
    } else {
        non_ws(ls[0]) + lines_non_ws(ls.drop_first())
    }
}

/// Folding lines appends their non-whitespace characters.
proof fn lemma_norm_lines_non_ws(ls: Seq<Seq<char>>, st: NormState)
    ensures
        non_ws(norm_lines(ls, st).out) == non_ws(st.out) + lines_non_ws(ls),
    decreases ls.len(),
{
    if ls.len() == 0 {
        assert(non_ws(st.out) + Seq::<char>::empty() =~= non_ws(st.out));
    } else {
        let nx = norm_step(st, ls[0]);
        let t = trim(ls[0]);
        lemma_non_ws_trim(ls[0]);
        lemma_non_ws_one('\n');
        assert(is_ws('\n'));
        if t.len() == 0 {
            assert(non_ws(t) =~= Seq::<char>::empty());
            if !st.prev_blank && st.out.len() > 0 {
                assert(st.out.push('\n') =~= st.out + seq!['\n']);
                lemma_non_ws_add(st.out, seq!['\n']);
                assert(non_ws(st.out) + Seq::<char>::empty() =~= non_ws(st.out));
            }
        } else {
            let sep = if st.out.len() > 0 { st.out.push('\n') } else { st.out };
            if st.out.len() > 0 {
                assert(st.out.push('\n') =~= st.out + seq!['\n']);
                lemma_non_ws_add(st.out, seq!['\n']);
                assert(non_ws(st.out) + Seq::<char>::empty() =~= non_ws(st.out));
            }
            lemma_non_ws_add(sep, collapse_ws(t, false));
            lemma_non_ws_collapse(t, false);
        }
        lemma_norm_lines_non_ws(ls.drop_first(), nx);
        assert(non_ws(st.out) + non_ws(ls[0]) + lines_non_ws(ls.drop_first()) =~= non_ws(st.out)
            + lines_non_ws(ls));
    }
}

/// The first line break at or after `k`, or the length when there is none.
pub open spec fn first_break_from(s: Seq<char>, k: int) -> int
    decreases s.len() - k,
{
    if k >= s.len() {
        s.len() as int
    } else if s[k] == '\n' {
        k
    } else {
        first_break_from(s, k + 1)
    }
}

proof fn lemma_first_break_from(s: Seq<char>, k: int)
    requires
        0 <= k <= s.len(),
    ensures
        k <= first_break_from(s, k) <= s.len(),
        first_break_from(s, k) < s.len() ==> s[first_break_from(s, k)] == '\n',
        forall|m: int| k <= m < first_break_from(s, k) ==> s[m] != '\n',
    decreases s.len() - k,
{
    if k < s.len() && s[k] != '\n' {
        lemma_first_break_from(s, k + 1);
    }
}

/// A line break splits the non-whitespace characters into those before and
/// after it.
proof fn lemma_non_ws_break(s: Seq<char>, nl: int)
    requires
        0 <= nl < s.len(),
        s[nl] == '\n',
    ensures
        non_ws(s) == non_ws(s.take(nl)) + non_ws(s.skip(nl + 1)),
{
    assert(s =~= s.take(nl) + (seq!['\n'] + s.skip(nl + 1)));
    lemma_non_ws_add(s.take(nl), seq!['\n'] + s.skip(nl + 1));
    lemma_non_ws_add(seq!['\n'], s.skip(nl + 1));
    lemma_non_ws_one('\n');
    assert(is_ws('\n'));
    assert(Seq::<char>::empty() + non_ws(s.skip(nl + 1)) =~= non_ws(s.skip(nl + 1)));
}

/// [`lines_non_ws`] of one line followed by more.
proof fn lemma_lines_non_ws_cons(l: Seq<char>, rest: Seq<Seq<char>>)
    ensures
        lines_non_ws(seq![l] + rest) == non_ws(l) + lines_non_ws(rest),
{
    let ls = seq![l] + rest;
    assert(ls[0] == l);
    assert(ls.drop_first() =~= rest);
}

/// Splitting into lines drops only line breaks.
#[verifier::rlimit(40)]
proof fn lemma_split_lines_non_ws(s: Seq<char>)
    ensures
        lines_non_ws(split_lines(s)) == non_ws(s),
    decreases s.len(),
{
    if s.len() > 0 {
        let nl = first_break_from(s, 0);
        lemma_first_break_from(s, 0);
        lemma_split_lines_step(s, 0, nl);
        assert(s.skip(0) =~= s);
        assert(s.subrange(0, nl) =~= s.take(nl));
        if nl < s.len() {
            lemma_split_lines_non_ws(s.skip(nl + 1));
            lemma_lines_non_ws_cons(s.take(nl), split_lines(s.skip(nl + 1)));
            lemma_non_ws_break(s, nl);
        } else {
            assert(s.take(nl) =~= s);
            lemma_lines_non_ws_cons(s, Seq::<Seq<char>>::empty());
            assert(seq![s] + Seq::<Seq<char>>::empty() =~= seq![s]);
            assert(non_ws(s) + Seq::<char>::empty() =~= non_ws(s));
        }
    }
}

/// Normalizing neither loses, adds nor reorders a non-whitespace character:
/// only whitespace changes.
pub proof fn lemma_normalize_keeps_non_ws(s: Seq<char>)
    ensures
        non_ws(normalize_spec(s)) == non_ws(s),
{
    let st = NormState { out: Seq::empty(), prev_blank: false };
    lemma_norm_lines_non_ws(split_lines(s), st);
    lemma_split_lines_non_ws(s);
    assert(non_ws(Seq::<char>::empty()) == Seq::<char>::empty());
    assert(Seq::<char>::empty() + lines_non_ws(split_lines(s)) =~= lines_non_ws(split_lines(s)));
}

/// Whether the character at `i` of `r` is whitespace only as a line break
/// or as a single space between two characters that are not whitespace.
pub open spec fn space_ok(r: Seq<char>, i: int) -> bool {
    &&& is_ws(r[i]) ==> r[i] == ' ' || r[i] == '\n'
    &&& r[i] == ' ' ==> 0 < i < r.len() - 1 && !is_ws(r[i - 1]) && !is_ws(r[i + 1])
}

/// Whether every character of `r` is [`space_ok`]: each line of `r` is
/// trimmed and holds whitespace only as single spaces between words.
pub open spec fn single_spaced(r: Seq<char>) -> bool {
    forall|i: int| 0 <= i < r.len() ==> #[trigger] space_ok(r, i)
}

/// The shape of collapsed whitespace: only single spaces, and the ends of
/// the text kept.
proof fn lemma_collapse_shape(t: Seq<char>, b: bool)
    ensures
        forall|i: int|
            0 <= i < collapse_ws(t, b).len() ==> is_ws(#[trigger] collapse_ws(t, b)[i]) ==> collapse_ws(t, b)[i] == ' ',
        forall|i: int|
            0 <= i < collapse_ws(t, b).len() - 1 ==> !(#[trigger] collapse_ws(t, b)[i] == ' ' && collapse_ws(t, b)[i + 1] == ' '),
        t.len() > 0 && !is_ws(t[0]) ==> collapse_ws(t, b).len() > 0 && collapse_ws(t, b)[0] == t[0],
        b && collapse_ws(t, b).len() > 0 ==> collapse_ws(t, b)[0] != ' ',
        t.len() > 0 && !is_ws(t.last()) ==> collapse_ws(t, b).len() > 0 && !is_ws(collapse_ws(t, b).last()),
    decreases t.len(),
{
    if t.len() > 0 {
        let rest = t.drop_first();
        lemma_collapse_shape(rest, true);
        lemma_collapse_shape(rest, false);
        assert(is_ws(' '));
        if rest.len() > 0 {
            assert(rest.last() == t.last());
        }
        let c = collapse_ws(t, b);
        if is_ws(t[0]) {
            if !b {
                let tail = collapse_ws(rest, true);
                assert(c == seq![' '] + tail);
                assert forall|i: int| 0 <= i < c.len() - 1 implies !(#[trigger] c[i] == ' ' && c[i + 1] == ' ') by {
                    if i > 0 {
                        assert(c[i] == tail[i - 1] && c[i + 1] == tail[i]);
                    }
                }
                assert forall|i: int| 0 <= i < c.len() && is_ws(#[trigger] c[i]) implies c[i] == ' ' by {
                    if i > 0 {
                        assert(c[i] == tail[i - 1]);
                    }
                }
                if rest.len() > 0 && !is_ws(t.last()) {
                    assert(c.last() == tail.last());
                }
            }
        } else {
            let tail = collapse_ws(rest, false);
            assert(c == seq![t[0]] + tail);
            assert forall|i: int| 0 <= i < c.len() - 1 implies !(#[trigger] c[i] == ' ' && c[i + 1] == ' ') by {
                if i > 0 {
                    assert(c[i] == tail[i - 1] && c[i + 1] == tail[i]);
                }
            }
            assert forall|i: int| 0 <= i < c.len() && is_ws(#[trigger] c[i]) implies c[i] == ' ' by {
                if i > 0 {
                    assert(c[i] == tail[i - 1]);
                }
            }
            if rest.len() > 0 {
                assert(c.last() == tail.last());
            } else {
                assert(c.last() == t[0]);
            }
        }
    }
}

/// A trimmed text that is not empty starts and ends with a character that
/// is not whitespace.
proof fn lemma_trim_ends(s: Seq<char>)
    ensures
        trim(s).len() > 0 ==> !is_ws(trim(s)[0]) && !is_ws(trim(s).last()),
{
    lemma_trim_start_head(s);
    lemma_trim_end_prefix(crate::text::trim_start(s));
}

proof fn lemma_trim_start_head(s: Seq<char>)
    ensures
        crate::text::trim_start(s).len() > 0 ==> !is_ws(crate::text::trim_start(s)[0]),
    decreases s.len(),
{
    if s.len() > 0 && is_ws(s[0]) {
        lemma_trim_start_head(s.drop_first());
    }
}

proof fn lemma_trim_end_prefix(u: Seq<char>)
    ensures
        crate::text::trim_end(u).len() <= u.len(),
        crate::text::trim_end(u) == u.take(crate::text::trim_end(u).len() as int),
        crate::text::trim_end(u).len() > 0 ==> !is_ws(crate::text::trim_end(u).last()),
    decreases u.len(),
{
    if u.len() > 0 && is_ws(u.last()) {
        lemma_trim_end_prefix(u.drop_last());
        assert(u.drop_last().take(crate::text::trim_end(u).len() as int) =~= u.take(
            crate::text::trim_end(u).len() as int,
        ));
    } else {
        assert(u.take(u.len() as int) =~= u);
    }
}

/// Two single-spaced texts joined, where no space meets the join, are
/// single-spaced.
proof fn lemma_spaced_concat(a: Seq<char>, b: Seq<char>)
    requires
        single_spaced(a),
        single_spaced(b),
        a.len() > 0 ==> a.last() != ' ',
        b.len() > 0 ==> b[0] != ' ',
    ensures
        single_spaced(a + b),
{
    let r = a + b;
    assert forall|i: int| 0 <= i < r.len() implies #[trigger] space_ok(r, i) by {
        if i < a.len() {
            assert(space_ok(a, i));
            assert(r[i] == a[i]);
            if a[i] == ' ' {
                assert(r[i - 1] == a[i - 1] && r[i + 1] == a[i + 1]);
            }
        } else {
            let j = i - a.len();
            assert(space_ok(b, j));
            assert(r[i] == b[j]);
            if b[j] == ' ' {
                assert(r[i - 1] == b[j - 1] && r[i + 1] == b[j + 1]);
            }
        }
    }
}

/// The collapsed form of a trimmed line that is not blank is single-spaced
/// and starts and ends with a character that is not whitespace.
proof fn lemma_segment_spaced(line: Seq<char>)
    requires
        trim(line).len() > 0,
    ensures
        single_spaced(collapse_ws(trim(line), false)),
        collapse_ws(trim(line), false).len() > 0,
        !is_ws(collapse_ws(trim(line), false)[0]),
        !is_ws(collapse_ws(trim(line), false).last()),
{
    let t = trim(line);
    lemma_trim_ends(line);
    lemma_collapse_shape(t, false);
    let c = collapse_ws(t, false);
    assert forall|i: int| 0 <= i < c.len() implies #[trigger] space_ok(c, i) by {
        if c[i] == ' ' {
            assert(is_ws(' '));
            if i > 0 && is_ws(c[i - 1]) {
                assert(c[i - 1] == ' ');
                assert(!(c[i - 1] == ' ' && c[i] == ' '));
            }
            if i < c.len() - 1 && is_ws(c[i + 1]) {
                assert(c[i + 1] == ' ');
                assert(!(c[i] == ' ' && c[i + 1] == ' '));
            }
        }
    }
}

/// Folding lines keeps the text single-spaced and never ending in a space.
proof fn lemma_norm_lines_spaced(ls: Seq<Seq<char>>, st: NormState)
    requires
        single_spaced(st.out),
        st.out.len() > 0 ==> st.out.last() != ' ',
    ensures
        single_spaced(norm_lines(ls, st).out),
    decreases ls.len(),
{
    if ls.len() > 0 {
        let nx = norm_step(st, ls[0]);
        let t = trim(ls[0]);
        let nl = seq!['\n'];
        assert(single_spaced(nl)) by {
            assert forall|i: int| 0 <= i < nl.len() implies #[trigger] space_ok(nl, i) by {
                assert(nl[i] == '\n');
            }
        }
        if t.len() == 0 {
            if !st.prev_blank && st.out.len() > 0 {
                assert(st.out.push('\n') =~= st.out + nl);
                lemma_spaced_concat(st.out, nl);
            }
        } else {
            lemma_segment_spaced(ls[0]);
            let seg = collapse_ws(t, false);
            assert(is_ws(' '));
            if st.out.len() > 0 {
                assert(st.out.push('\n') =~= st.out + nl);
                lemma_spaced_concat(st.out, nl);
                lemma_spaced_concat(st.out.push('\n'), seg);
            } else {
                assert(st.out + seg =~= seg);
            }
            assert((if st.out.len() > 0 { st.out.push('\n') } else { st.out } + seg).last() == seg.last());
        }
        lemma_norm_lines_spaced(ls.drop_first(), nx);
    }
}

/// Normalized text is single-spaced: each of its lines is trimmed, and holds
/// whitespace only as single spaces between characters that are not
/// whitespace (line breaks aside, no other whitespace is left).
pub proof fn lemma_normalized_single_spaced(text: Seq<char>)
    ensures
        single_spaced(normalize_spec(text)),
{
    let st = NormState { out: Seq::empty(), prev_blank: false };
    assert(single_spaced(st.out));
    lemma_norm_lines_spaced(split_lines(text), st);
}

} // verus!
