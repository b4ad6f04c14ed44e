//! Decimal integers in text: parsing as `str::parse` does, and printing as
//! `Display` does.

use vstd::prelude::*;

verus! {

/// An ASCII decimal digit.
pub open spec fn is_digit(c: char) -> bool {
    '0' <= c && c <= '9'
}

/// Value of an ASCII decimal digit.
pub open spec fn digit_val(c: char) -> int {
    (c as u32) - ('0' as u32)
}

/// Every character is an ASCII decimal digit.
pub open spec fn all_digits(s: Seq<char>) -> bool {
    forall|i: int| 0 <= i < s.len() ==> is_digit(#[trigger] s[i])
}

/// The number written by a run of decimal digits (most significant first).
pub open spec fn digits_value(s: Seq<char>) -> nat
    decreases s.len(),
{
    if s.len() == 0 {
        0
    } else {
        (digits_value(s.drop_last()) * 10 + digit_val(s.last())) as nat
    }
}

/// The magnitude accepted by `from_str` for unsigned integers: an optional
/// `+` followed by at least one digit.
pub open spec fn unsigned_magnitude(s: Seq<char>) -> Option<nat> {
    let body = if s.len() > 0 && s[0] == '+' {
        s.drop_first()
    } else {
        s
    };
    if body.len() > 0 && all_digits(body) {
        Some(digits_value(body))
    } else {
        None
    }
}

/// `usize::from_str`: `Some` exactly when the text is a (optionally `+`-signed)
/// decimal number that fits.
pub open spec fn parse_usize_spec(s: Seq<char>) -> Option<usize> {
    match unsigned_magnitude(s) {
        Some(v) => if v <= usize::MAX {
            Some(v as usize)
        } else {
            None
        },
        None => None,
    }
}

/// `i64::from_str`: an optional `+` or `-` sign followed by at least one digit,
/// in range.
pub open spec fn parse_i64_spec(s: Seq<char>) -> Option<i64> {
    if s.len() > 0 && s[0] == '-' {
        let body = s.drop_first();
        if body.len() > 0 && all_digits(body) && digits_value(body) <= 0x8000_0000_0000_0000 {
            Some((0 - digits_value(body)) as i64)
        } else {
            None
        }
    } else {
        match unsigned_magnitude(s) {
            Some(v) => if v <= i64::MAX {
                Some(v as i64)
            } else {
                None
            },
            None => None,
        }
    }
}

proof fn lemma_digits_prefix(s: Seq<char>, i: int)
    requires
        0 <= i <= s.len(),
        all_digits(s),
    ensures
        digits_value(s.take(i)) <= digits_value(s),
    decreases s.len() - i,
{
    if i < s.len() {
        lemma_digits_prefix(s, i + 1);
        let t = s.take(i + 1);
        assert(t.drop_last() == s.take(i));
        assert(is_digit(s[i]));
        assert(digits_value(t) == digits_value(s.take(i)) * 10 + digit_val(s[i]));
    } else {
        assert(s.take(i) == s);
    }
}

/// Value of the digits `s[start..]`, or `None` when it exceeds `u64::MAX`.
fn digits_to_u64(s: &[char], start: usize) -> (r: Option<u64>)
    requires
        start <= s.len(),
        all_digits(s@.skip(start as int)),
    ensures
        r matches Some(v) ==> v == digits_value(s@.skip(start as int)),
        r is None ==> digits_value(s@.skip(start as int)) > u64::MAX,
{
    let ghost body = s@.skip(start as int);
    let mut acc: u64 = 0;
    let mut i: usize = start;
    while i < s.len()
        invariant
            start <= i <= s.len(),
            body == s@.skip(start as int),
            all_digits(body),
            acc == digits_value(body.take(i - start)),
        decreases s.len() - i,
    {
        let c = s[i];
        assert(body[i - start] == c);
        assert(is_digit(body[i - start]));
        let d: u64 = ((c as u32) - ('0' as u32)) as u64;
        assert(body.take(i - start + 1).drop_last() == body.take(i - start));
        if acc > (u64::MAX - d) / 10 {
            proof {
                assert(acc * 10 + d > u64::MAX) by (nonlinear_arith)
                    requires
                        acc > (u64::MAX - d) / 10,
                        d <= 9,
                ;
                lemma_digits_prefix(body, i - start + 1);
            }
            return None;
        }
        assert(acc * 10 + d <= u64::MAX) by (nonlinear_arith)
            requires
                acc <= (u64::MAX - d) / 10,
                d <= 9,
        ;
        acc = acc * 10 + d;
        i = i + 1;
    }
    assert(body.take(s.len() - start) == body);
    Some(acc)
}

/// Checks that `s[start..]` is a non-empty run of digits and returns its
/// value, `None` when it is not or when it exceeds `u64::MAX`.
fn digits_at(s: &[char], start: usize) -> (r: Option<u64>)
    requires
        start <= s.len(),
    ensures
        r matches Some(v) ==> s.len() > start && all_digits(s@.skip(start as int)) && v
            == digits_value(s@.skip(start as int)),
        r is None ==> !(s.len() > start && all_digits(s@.skip(start as int))) || digits_value(
            s@.skip(start as int),
        ) > u64::MAX,
{
    if start == s.len() {
        return None;
    }
    let mut i: usize = start;
    while i < s.len()
        invariant
            start <= i <= s.len(),
            forall|k: int| start <= k < i ==> is_digit(s@[k]),
        decreases s.len() - i,
    {
        if !('0' <= s[i] && s[i] <= '9') {
            assert(!all_digits(s@.skip(start as int))) by {
                assert(s@.skip(start as int)[i - start] == s@[i as int]);
            }
            return None;
        }
        i = i + 1;
    }
    assert(all_digits(s@.skip(start as int))) by {
        assert forall|k: int| 0 <= k < s@.skip(start as int).len() implies is_digit(
            #[trigger] s@.skip(start as int)[k],
        ) by {
            assert(s@.skip(start as int)[k] == s@[start + k]);
        }
    }
    digits_to_u64(s, start)
}

/// The magnitude of an optionally `+`-signed number, within `u64`.
fn unsigned_u64(s: &[char]) -> (r: Option<u64>)
    ensures
        r matches Some(v) ==> unsigned_magnitude(s@) == Some(v as nat),
        r is None ==> unsigned_magnitude(s@) is None || unsigned_magnitude(s@).unwrap() > u64::MAX,
{
    let start: usize = if s.len() > 0 && s[0] == '+' {
        1
    } else {
        0
    };
    assert(start == 1 ==> s@.skip(1) == s@.drop_first());
    assert(start == 0 ==> s@.skip(0) == s@);
    digits_at(s, start)
}

/// `usize::from_str` over characters.
pub fn parse_usize(s: &[char]) -> (r: Option<usize>)
    ensures
        r == parse_usize_spec(s@),
{
    match unsigned_u64(s) {
        Some(v) => {
            if v <= usize::MAX as u64 {
                Some(v as usize)
            } else {
                None
            }
        },
        None => None,
    }
}

/// `i64::from_str` over characters.
pub fn parse_i64(s: &[char]) -> (r: Option<i64>)
    ensures
        r == parse_i64_spec(s@),
{
    if s.len() > 0 && s[0] == '-' {
        assert(s@.skip(1) == s@.drop_first());
        match digits_at(s, 1) {
            Some(m) => {
                if m < 0x8000_0000_0000_0000u64 {
                    Some(0 - (m as i64))
                } else if m == 0x8000_0000_0000_0000u64 {
                    Some(i64::MIN)
                } else {
                    None
                }
            },
            None => None,
        }
    } else {
        match unsigned_u64(s) {
            Some(v) => {
                if v <= i64::MAX as u64 {
                    Some(v as i64)
                } else {
                    None
                }
            },
            None => None,
        }
    }
}

/// The ASCII digit for `d < 10`.
pub open spec fn digit_char(d: nat) -> char {
    ((d + 48) as u32) as char
}

/// The decimal text `Display` prints for a natural number.
pub open spec fn decimal(n: nat) -> Seq<char>
    decreases n,
{
    if n < 10 {
        seq![digit_char(n)]
    } else {
        decimal(n / 10).push(digit_char(n % 10))
    }
}

/// Decimal text of `n`, as `n.to_string()` prints it.
pub fn usize_to_chars(n: usize) -> (out: Vec<char>)
    ensures
        out@ == decimal(n as nat),
    decreases n,
{
    let d: u8 = (n % 10) as u8;
    let c: char = (d + 48) as char;
    if n < 10 {
        let mut v: Vec<char> = Vec::new();
        v.push(c);
        assert(v@ == seq![digit_char(n as nat)]);
        v
    } else {
        let mut v = usize_to_chars(n / 10);
        v.push(c);
        v
    }
}

/// Append the decimal text of `n` to `v`.
pub fn push_usize(v: &mut Vec<char>, n: usize)
    ensures
        final(v)@ == old(v)@ + decimal(n as nat),
{
    let d = usize_to_chars(n);
    crate::text::push_chars(v, &d);
}

/// Decimal text of `n`, as `n.to_string()` prints it.
pub fn u64_to_chars(n: u64) -> (out: Vec<char>)
    ensures
        out@ == decimal(n as nat),
    decreases n,
{
    let d: u8 = (n % 10) as u8;
    let c: char = (d + 48) as char;
    if n < 10 {
        let mut v: Vec<char> = Vec::new();
        v.push(c);
        assert(v@ == seq![digit_char(n as nat)]);
        v
    } else {
        let mut v = u64_to_chars(n / 10);
        v.push(c);
        v
    }
}

/// Append the decimal text of `n` to `v`.
pub fn push_u64(v: &mut Vec<char>, n: u64)
    ensures
        final(v)@ == old(v)@ + decimal(n as nat),
{
    let d = u64_to_chars(n);
    crate::text::push_chars(v, &d);
}

} // verus!
