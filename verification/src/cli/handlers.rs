//! Argument parsing shared by the command handlers: ranges in a source file,
//! durations, health filters and bookmark ids.

use vstd::prelude::*;
use vstd::string::StringSliceAdditionalSpecFns;

use crate::cli::lines::{
    count_nl, find_line, lemma_byte_on_its_line, lemma_count_bound, lemma_count_step,
    lemma_lines_are_sums, lemma_take_all, line_count, lines_len,
    line_end_of, line_start_of, trim_line_end, trimmed_line_len,
};
use crate::engine::bookmark::{Bookmark, BookmarkHealth, Collection, CollectionHealth, Resolution};
use crate::error::{Error, Result};
use crate::pattern::{
    bad_pattern, bad_pattern_message, groups_view, regex_capture_groups, regex_captures,
    regex_compiles,
};
use crate::numbers::{
    decimal, parse_i64, parse_i64_spec, parse_usize, parse_usize_spec, push_usize, u64_to_chars,
};
use crate::text::{
    starts_with, starts_with_str, contains_seq, contains_str, same_text, before_first, before_first_char, chars_of, contains_char, head_to, lemma_split_progress,
    piece_end, push_chars, push_str, slice_to_vec, split_char, split_once, split_once_char,
    string_of, strip_suffix, tail_from, trim, trimmed, replace_all, replace_spec,
};

verus! {

/// A structured result for a single bookmark resolution.
#[derive(Debug, Clone)]
pub struct ResolutionRecord {
    pub id: String,
    pub file: String,
    pub line: usize,
    pub method: String,
    pub status: String,
}

/// An input error with the given message.
fn input_error(m: &Vec<char>) -> (e: Error)
    ensures
        e matches Error::Input(s) && s@ == m@,
{
    Error::Input(string_of(m))
}

// ---------------------------------------------------------------------------
// Lines and byte offsets
// ---------------------------------------------------------------------------

/// The 1-indexed line that byte `off` of `src` falls on; past the end, the
/// number of lines.
pub open spec fn byte_to_line_spec(src: Seq<u8>, off: int) -> int {
    if off < src.len() {
        count_nl(src.take(off)) + 1int
    } else {
        line_count(src) as int
    }
}

/// The byte range of the 1-indexed, inclusive line range `start..=end`, or
/// the error message.
pub open spec fn line_range_spec(src: Seq<u8>, start: usize, end: usize) -> core::result::Result<
    (int, int),
    Seq<char>,
> {
    if start == 0 || end == 0 {
        Err("line numbers are 1-indexed"@)
    } else if start > end {
        Err("start line "@ + decimal(start as nat) + " > end line "@ + decimal(end as nat))
    } else if end > line_count(src) {
        Err(
            "line range "@ + decimal(start as nat) + "-"@ + decimal(end as nat)
                + " is out of bounds (file has "@ + decimal(line_count(src)) + " lines)"@,
        )
    } else {
        Ok((line_start_of(src, (start - 1) as nat), line_end_of(src, (end - 1) as nat)))
    }
}

/// A line range reads as sums of line lengths: `start..=end` is valid
/// exactly when `1 <= start <= end <= ` the number of lines, and then it
/// runs from the lengths of the lines before `start`, added up, to the
/// lengths of the lines up to `end`, added up.
pub proof fn lemma_line_range_is_sums(src: Seq<u8>, start: usize, end: usize)
    ensures
        line_range_spec(src, start, end) is Ok <==> 1 <= start <= end <= line_count(src),
        1 <= start <= end <= line_count(src) ==> line_range_spec(src, start, end) == Ok::<
            (int, int),
            Seq<char>,
        >((lines_len(src, (start - 1) as nat), lines_len(src, end as nat))),
{
    if 1 <= start <= end <= line_count(src) {
        lemma_lines_are_sums(src, (start - 1) as nat);
        lemma_lines_are_sums(src, (end - 1) as nat);
    }
}

/// Every byte of line `n` (from 1) is on line `n`: where
/// `line_range_spec(src, n, n)` gives `(a, e)`, [`byte_to_line_spec`] gives
/// `n` for each byte from `a` up to `e`.
pub proof fn lemma_bytes_of_a_line(src: Seq<u8>, n: usize, b: int)
    requires
        line_range_spec(src, n, n) matches Ok((a, e)) && a <= b < e,
    ensures
        byte_to_line_spec(src, b) == n,
{
    lemma_byte_on_its_line(src, (n - 1) as nat, b);
}

/// The byte offset of the 1-indexed `line` and `col`, or the error message.
/// A column may point one past the line's last character (before its line
/// break).
pub open spec fn line_col_spec(src: Seq<u8>, line: usize, col: usize) -> core::result::Result<
    int,
    Seq<char>,
> {
    if line == 0 || col == 0 {
        Err("line and column numbers are 1-indexed"@)
    } else if line > line_count(src) {
        Err("line "@ + decimal(line as nat) + " is out of bounds"@)
    } else if col > trim_line_end(
        src.subrange(line_start_of(src, (line - 1) as nat), line_end_of(src, (line - 1) as nat)),
    ).len() + 1 {
        Err("column "@ + decimal(col as nat) + " is out of bounds for line "@ + decimal(line as nat))
    } else {
        Ok(line_start_of(src, (line - 1) as nat) + col - 1)
    }
}

/// Convert a byte offset to a 1-indexed line number.
pub fn byte_to_line(source: &str, byte_offset: usize) -> (r: usize)
    ensures
        r as int == byte_to_line_spec(source.spec_bytes(), byte_offset as int),
{
    let s = source.as_bytes();
    let upto = if byte_offset < s.len() {
        byte_offset
    } else {
        s.len()
    };
    let mut count: usize = 0;
    let mut i: usize = 0;
    while i < upto
        invariant
            i <= upto <= s.len(),
            count == count_nl(s@.take(i as int)),
            count <= i,
        decreases upto - i,
    {
        proof {
            lemma_count_step(s@, i as int);
        }
        if s[i] == 10u8 {
            count = count + 1;
        }
        i = i + 1;
    }
    if byte_offset < s.len() {
        count + 1
    } else {
        proof {
            lemma_take_all(s@);
            if s.len() > 0 {
                lemma_count_bound(s@.drop_last());
            }
        }
        if s.len() > 0 && s[s.len() - 1] != 10u8 {
            count + 1
        } else {
            count
        }
    }
}

/// Convert a 1-indexed inclusive line range to a byte range.
pub fn line_range_to_bytes(source: &str, start_line: usize, end_line: usize) -> (r: Result<
    (usize, usize),
>)
    ensures
        r matches Ok((a, b)) ==> line_range_spec(source.spec_bytes(), start_line, end_line) == Ok::<
            (int, int),
            Seq<char>,
        >((a as int, b as int)),
        r matches Err(e) ==> (e matches Error::Input(m) && line_range_spec(
            source.spec_bytes(),
            start_line,
            end_line,
        ) == Err::<(int, int), Seq<char>>(m@)),
{
    let s = source.as_bytes();
    if start_line == 0 || end_line == 0 {
        let mut m: Vec<char> = Vec::new();
        push_str(&mut m, "line numbers are 1-indexed");
        return Err(input_error(&m));
    }
    if start_line > end_line {
        let mut m: Vec<char> = Vec::new();
        push_str(&mut m, "start line ");
        push_usize(&mut m, start_line);
        push_str(&mut m, " > end line ");
        push_usize(&mut m, end_line);
        return Err(input_error(&m));
    }
    match find_line(s, end_line - 1) {
        Some((_, e)) => {
            match find_line(s, start_line - 1) {
                Some((a, _)) => Ok((a, e)),
                None => {
                    proof {
                        assert(false);
                    }
                    Err(Error::Input(String::new()))
                },
            }
        },
        None => {
            let n = line_count_exec(s);
            let mut m: Vec<char> = Vec::new();
            push_str(&mut m, "line range ");
            push_usize(&mut m, start_line);
            push_str(&mut m, "-");
            push_usize(&mut m, end_line);
            push_str(&mut m, " is out of bounds (file has ");
            push_usize(&mut m, n);
            push_str(&mut m, " lines)");
            Err(input_error(&m))
        },
    }
}

/// The number of lines of a text.
fn line_count_exec(s: &[u8]) -> (n: usize)
    ensures
        n == line_count(s@),
{
    let mut count: usize = 0;
    let mut i: usize = 0;
    while i < s.len()
        invariant
            i <= s.len(),
            count == count_nl(s@.take(i as int)),
            count <= i,
        decreases s.len() - i,
    {
        proof {
            lemma_count_step(s@, i as int);
        }
        if s[i] == 10u8 {
            count = count + 1;
        }
        i = i + 1;
    }
    proof {
        lemma_take_all(s@);
        if s.len() > 0 {
            lemma_count_bound(s@.drop_last());
        }
    }
    if s.len() > 0 && s[s.len() - 1] != 10u8 {
        count + 1
    } else {
        count
    }
}

/// Convert a 1-indexed line and column to a 0-indexed byte offset.
pub fn line_col_to_byte(source: &str, line: usize, col: usize) -> (r: Result<usize>)
    ensures
        r matches Ok(b) ==> line_col_spec(source.spec_bytes(), line, col) == Ok::<int, Seq<char>>(
            b as int,
        ),
        r matches Err(e) ==> (e matches Error::Input(m) && line_col_spec(
            source.spec_bytes(),
            line,
            col,
        ) == Err::<int, Seq<char>>(m@)),
{
    let s = source.as_bytes();
    if line == 0 || col == 0 {
        let mut m: Vec<char> = Vec::new();
        push_str(&mut m, "line and column numbers are 1-indexed");
        return Err(input_error(&m));
    }
    match find_line(s, line - 1) {
        Some((a, e)) => {
            let n = trimmed_line_len(s, a, e);
            if col - 1 > n {
                let mut m: Vec<char> = Vec::new();
                push_str(&mut m, "column ");
                push_usize(&mut m, col);
                push_str(&mut m, " is out of bounds for line ");
                push_usize(&mut m, line);
                return Err(input_error(&m));
            }
            Ok(a + (col - 1))
        },
        None => {
            let mut m: Vec<char> = Vec::new();
            push_str(&mut m, "line ");
            push_usize(&mut m, line);
            push_str(&mut m, " is out of bounds");
            Err(input_error(&m))
        },
    }
}

// ---------------------------------------------------------------------------
// Points and ranges
// ---------------------------------------------------------------------------

/// The two fields of `s` split at `c`, when `c` occurs exactly once.
pub open spec fn two_fields(s: Seq<char>, c: char) -> Option<(Seq<char>, Seq<char>)> {
    match split_once(s, c) {
        Some((a, b)) => if !b.contains(c) {
            Some((a, b))
        } else {
            None
        },
        None => None,
    }
}

/// The byte offset a point names, or the error message: `LINE:COL`, or
/// `LINE` alone for the line's start, or its end when the point ends an
/// inclusive range (`at_end`).
pub open spec fn parse_point_spec(src: Seq<u8>, s: Seq<char>, at_end: bool) -> core::result::Result<
    int,
    Seq<char>,
> {
    match two_fields(s, ':') {
        Some((l, c)) => match parse_usize_spec(l) {
            None => Err("invalid line"@),
            Some(line) => match parse_usize_spec(c) {
                None => Err("invalid col"@),
                Some(col) => line_col_spec(src, line, col),
            },
        },
        None => match parse_usize_spec(s) {
            None => Err("invalid line"@),
            Some(line) => match line_range_spec(src, line, line) {
                Ok((a, e)) => Ok(
                    if at_end {
                        e
                    } else {
                        a
                    },
                ),
                Err(m) => Err(m),
            },
        },
    }
}

/// The explicit byte range `START-END` (or `START:END`), or the error
/// message.
pub open spec fn parse_byte_range_spec(s: Seq<char>) -> core::result::Result<(int, int), Seq<char>> {
    let split = if split_once(s, '-') is Some {
        split_once(s, '-')
    } else {
        split_once(s, ':')
    };
    match split {
        None => Err("byte range must be start-end or start:end"@),
        Some((a, b)) => match parse_usize_spec(a) {
            None => Err("invalid byte range start"@),
            Some(x) => match parse_usize_spec(b) {
                None => Err("invalid byte range end"@),
                Some(y) => Ok((x as int, y as int)),
            },
        },
    }
}

/// The range `START-END` of two points, or the error message. The points
/// are compared where they start (a bare line at its first byte), so a
/// range whose end line comes before its start line is refused; a bare end
/// line then stands for its last byte, so the range includes that line.
pub open spec fn point_range_spec(src: Seq<u8>, a: Seq<char>, b: Seq<char>) -> core::result::Result<
    (int, int),
    Seq<char>,
> {
    match parse_point_spec(src, a, false) {
        Err(m) => Err(m),
        Ok(x) => match parse_point_spec(src, b, false) {
            Err(m) => Err(m),
            Ok(y) => if x > y {
                Err(
                    "invalid range: start byte "@ + decimal(x as nat) + " is greater than end byte "@
                        + decimal(y as nat),
                )
            } else {
                match parse_point_spec(src, b, true) {
                    Err(m) => Err(m),
                    Ok(z) => Ok((x, z)),
                }
            },
        },
    }
}

/// What [`parse_range`] returns for a range text and a source, or the error
/// message.
pub open spec fn parse_range_spec(range: Seq<char>, src: Seq<u8>) -> core::result::Result<
    (int, int),
    Seq<char>,
> {
    let r = trim(range);
    if r.len() > 0 && (r[0] == 'b' || r[0] == 'B') {
        parse_byte_range_spec(r.skip(1))
    } else if r.len() > 0 && (r.last() == 'b' || r.last() == 'B') {
        parse_byte_range_spec(r.drop_last())
    } else if split_once(r, '-') is Some {
        let (a, b) = split_once(r, '-').unwrap();
        point_range_spec(src, a, b)
    } else if split_once(r, ':') is Some {
        let (l, c) = split_once(r, ':').unwrap();
        match parse_usize_spec(l) {
            None => Err("invalid line number: "@ + l),
            Some(line) => match parse_usize_spec(c) {
                None => Err("invalid column number: "@ + c),
                Some(col) => match line_col_spec(src, line, col) {
                    Ok(b) => Ok((b, b)),
                    Err(m) => Err(m),
                },
            },
        }
    } else {
        match parse_usize_spec(r) {
            None => Err("invalid line number: "@ + r),
            Some(line) => line_range_spec(src, line, line),
        }
    }
}

/// The two fields of `s` split at `c`, when `c` occurs exactly once.
fn two_fields_exec(s: &[char], c: char) -> (r: Option<(Vec<char>, Vec<char>)>)
    ensures
        r matches Some((a, b)) ==> two_fields(s@, c) == Some((a@, b@)),
        r is None <==> two_fields(s@, c) is None,
{
    match split_once_char(s, c) {
        Some((a, b)) => if !contains_char(&b, c) {
            Some((a, b))
        } else {
            None
        },
        None => None,
    }
}

/// Parse a point string (`42:10` or `42`) and return its byte offset; a
/// bare line that ends a range (`at_end`) names the end of that line.
pub fn parse_point(source: &str, s: &str, at_end: bool) -> (r: Result<usize>)
    ensures
        r matches Ok(b) ==> parse_point_spec(source.spec_bytes(), s@, at_end) == Ok::<int, Seq<char>>(
            b as int,
        ),
        r matches Err(e) ==> (e matches Error::Input(m) && parse_point_spec(
            source.spec_bytes(),
            s@,
            at_end,
        ) == Err::<int, Seq<char>>(m@)),
{
    let cs = chars_of(s);
    match two_fields_exec(&cs, ':') {
        Some((l, c)) => {
            let line = match parse_usize(&l) {
                Some(v) => v,
                None => {
                    let mut m: Vec<char> = Vec::new();
                    push_str(&mut m, "invalid line");
                    return Err(input_error(&m));
                },
            };
            let col = match parse_usize(&c) {
                Some(v) => v,
                None => {
                    let mut m: Vec<char> = Vec::new();
                    push_str(&mut m, "invalid col");
                    return Err(input_error(&m));
                },
            };
            line_col_to_byte(source, line, col)
        },
        None => {
            let line = match parse_usize(&cs) {
                Some(v) => v,
                None => {
                    let mut m: Vec<char> = Vec::new();
                    push_str(&mut m, "invalid line");
                    return Err(input_error(&m));
                },
            };
            match line_range_to_bytes(source, line, line) {
                Ok((a, e)) => Ok(
                    if at_end {
                        e
                    } else {
                        a
                    },
                ),
                Err(e) => Err(e),
            }
        },
    }
}

/// Parse a byte range string (`100-200` or `100:200`).
pub fn parse_byte_range(s: &[char]) -> (r: Result<(usize, usize)>)
    ensures
        r matches Ok((a, b)) ==> parse_byte_range_spec(s@) == Ok::<(int, int), Seq<char>>(
            (a as int, b as int),
        ),
        r matches Err(e) ==> (e matches Error::Input(m) && parse_byte_range_spec(s@) == Err::<
            (int, int),
            Seq<char>,
        >(m@)),
{
    let split = match split_once_char(s, '-') {
        Some(p) => Some(p),
        None => split_once_char(s, ':'),
    };
    match split {
        None => {
            let mut m: Vec<char> = Vec::new();
            push_str(&mut m, "byte range must be start-end or start:end");
            Err(input_error(&m))
        },
        Some((a, b)) => {
            let start = match parse_usize(&a) {
                Some(v) => v,
                None => {
                    let mut m: Vec<char> = Vec::new();
                    push_str(&mut m, "invalid byte range start");
                    return Err(input_error(&m));
                },
            };
            let end = match parse_usize(&b) {
                Some(v) => v,
                None => {
                    let mut m: Vec<char> = Vec::new();
                    push_str(&mut m, "invalid byte range end");
                    return Err(input_error(&m));
                },
            };
            Ok((start, end))
        },
    }
}

/// A `START-END` range of two points.
fn parse_point_range(source: &str, a: &[char], b: &[char]) -> (r: Result<(usize, usize)>)
    ensures
        ({
            let spec = point_range_spec(source.spec_bytes(), a@, b@);
            &&& r matches Ok((x, y)) ==> spec == Ok::<(int, int), Seq<char>>((x as int, y as int))
            &&& r matches Err(e) ==> (e matches Error::Input(m) && spec == Err::<
                (int, int),
                Seq<char>,
            >(m@))
        }),
{
    let start = parse_point(source, string_of(a).as_str(), false)?;
    let end_start = parse_point(source, string_of(b).as_str(), false)?;
    if start > end_start {
        let mut m: Vec<char> = Vec::new();
        push_str(&mut m, "invalid range: start byte ");
        push_usize(&mut m, start);
        push_str(&mut m, " is greater than end byte ");
        push_usize(&mut m, end_start);
        return Err(input_error(&m));
    }
    let end = parse_point(source, string_of(b).as_str(), true)?;
    Ok((start, end))
}

/// A `LINE:COL` point as a one-byte-wide range.
fn parse_line_col(source: &str, l: &[char], c: &[char]) -> (r: Result<(usize, usize)>)
    ensures
        ({
            let spec = match parse_usize_spec(l@) {
                None => Err("invalid line number: "@ + l@),
                Some(line) => match parse_usize_spec(c@) {
                    None => Err("invalid column number: "@ + c@),
                    Some(col) => match line_col_spec(source.spec_bytes(), line, col) {
                        Ok(b) => Ok((b, b)),
                        Err(m) => Err(m),
                    },
                },
            };
            &&& r matches Ok((x, y)) ==> spec == Ok::<(int, int), Seq<char>>((x as int, y as int))
            &&& r matches Err(e) ==> (e matches Error::Input(m) && spec == Err::<
                (int, int),
                Seq<char>,
            >(m@))
        }),
{
    let line = match parse_usize(l) {
        Some(v) => v,
        None => {
            let mut m: Vec<char> = Vec::new();
            push_str(&mut m, "invalid line number: ");
            push_chars(&mut m, l);
            return Err(input_error(&m));
        },
    };
    let col = match parse_usize(c) {
        Some(v) => v,
        None => {
            let mut m: Vec<char> = Vec::new();
            push_str(&mut m, "invalid column number: ");
            push_chars(&mut m, c);
            return Err(input_error(&m));
        },
    };
    let b = line_col_to_byte(source, line, col)?;
    Ok((b, b))
}

/// Parse a range string. Supports:
/// - `42`: a single line
/// - `42:10`: line 42, column 10
/// - `42-67`: a line range, both lines included, or of two points
///   (`10:5-10:20`)
/// - `b42-67` or `42-67b`: an explicit byte range
pub fn parse_range(range: &str, source: &str) -> (r: Result<(usize, usize)>)
    ensures
        r matches Ok((a, b)) ==> parse_range_spec(range@, source.spec_bytes()) == Ok::<
            (int, int),
            Seq<char>,
        >((a as int, b as int)),
        r matches Err(e) ==> (e matches Error::Input(m) && parse_range_spec(
            range@,
            source.spec_bytes(),
        ) == Err::<(int, int), Seq<char>>(m@)),
{
    let r = trimmed(&chars_of(range));
    if r.len() > 0 && (r[0] == 'b' || r[0] == 'B') {
        return parse_byte_range(&tail_from(&r, 1));
    }
    if r.len() > 0 && (r[r.len() - 1] == 'b' || r[r.len() - 1] == 'B') {
        let body = head_to(&r, r.len() - 1);
        assert(r@.take(r.len() - 1) == r@.drop_last());
        return parse_byte_range(&body);
    }
    match split_once_char(&r, '-') {
        Some((a, b)) => {
            return parse_point_range(source, &a, &b);
        },
        None => {},
    }
    match split_once_char(&r, ':') {
        Some((l, c)) => parse_line_col(source, &l, &c),
        None => {
            let line = match parse_usize(&r) {
                Some(v) => v,
                None => {
                    let mut m: Vec<char> = Vec::new();
                    push_str(&mut m, "invalid line number: ");
                    push_chars(&mut m, &r);
                    return Err(input_error(&m));
                },
            };
            line_range_to_bytes(source, line, line)
        },
    }
}

// ---------------------------------------------------------------------------
// Filters, ids and durations
// ---------------------------------------------------------------------------

/// The healths named by the comma-separated tokens, each trimmed; tokens that
/// name no health are dropped.
pub open spec fn health_filter_spec(toks: Seq<Seq<char>>) -> Seq<BookmarkHealth>
    decreases toks.len(),
{
    if toks.len() == 0 {
        seq![]
    } else {
        match BookmarkHealth::from_name_spec(trim(toks.last())) {
            Some(h) => health_filter_spec(toks.drop_last()).push(h),
            None => health_filter_spec(toks.drop_last()),
        }
    }
}

/// Parse a `--health` filter: comma-separated health names; tokens that name
/// no health are dropped.
pub fn parse_status_filter(status: Option<&str>) -> (r: Option<Vec<BookmarkHealth>>)
    ensures
        status is None ==> r is None,
        status matches Some(s) ==> (r matches Some(v) && v@ == health_filter_spec(
            split_char(s@, ','),
        )),
{
    let st = match status {
        Some(st) => st,
        None => {
            return None;
        },
    };
    let s = chars_of(st);
    let mut out: Vec<BookmarkHealth> = Vec::new();
    let mut pos: usize = 0;
    let ghost mut done: Seq<Seq<char>> = seq![];
    assert(s@.skip(0) == s@);
    loop
        invariant_except_break
            pos <= s.len(),
            split_char(s@, ',') == done + split_char(s@.skip(pos as int), ','),
            out@ == health_filter_spec(done),
        ensures
            out@ == health_filter_spec(split_char(s@, ',')),
        decreases s.len() - pos,
    {
        let next = piece_end(&s, ',', pos);
        let piece = slice_to_vec(&s, pos, next);
        let t = trimmed(&piece);
        match BookmarkHealth::parse(string_of(&t).as_str()) {
            Ok(h) => out.push(h),
            Err(_) => {},
        }
        proof {
            lemma_split_progress(s@, ',', done, pos as int, next as int);
            let before = done;
            done = done.push(piece@);
            assert(done.drop_last() == before);
            assert(done.last() == piece@);
        }
        if next == s.len() {
            break;
        }
        pos = next + 1;
    }
    Some(out)
}

/// Extract the id from input that may be a line of `list` output: the text
/// before the first tab.
pub fn extract_id(id_or_line: &str) -> (r: String)
    ensures
        r@ == before_first(id_or_line@, '\t'),
{
    let cs = chars_of(id_or_line);
    string_of(&before_first_char(&cs, '\t'))
}

/// The middle of a `start-end` line range: `(start + end) / 2`, or `None`
/// when the text is not two numbers around one `-`.
pub open spec fn center_line_spec(line_range: Seq<char>) -> Option<int> {
    match two_fields(line_range, '-') {
        Some((a, b)) => match (parse_usize_spec(a), parse_usize_spec(b)) {
            (Some(x), Some(y)) => Some((x + y) / 2),
            _ => None,
        },
        None => None,
    }
}

/// The center line (1-indexed) of a bookmark's latest resolution, from its
/// `line_range` ("start-end", inclusive); `None` when there is no resolution
/// or no usable range.
pub fn get_bookmark_line(latest: Option<&Resolution>) -> (r: Option<usize>)
    ensures
        ({
            let spec = match latest {
                Some(res) => match res.line_range {
                    Some(lr) => center_line_spec(lr@),
                    None => None,
                },
                None => None,
            };
            &&& r matches Some(n) ==> spec == Some(n as int)
            &&& r is None <==> spec is None
        }),
{
    let res = match latest {
        Some(res) => res,
        None => {
            return None;
        },
    };
    let lr = match &res.line_range {
        Some(lr) => lr,
        None => {
            return None;
        },
    };
    let cs = chars_of(lr.as_str());
    let (a, b) = match two_fields_exec(&cs, '-') {
        Some(p) => p,
        None => {
            return None;
        },
    };
    let start = match parse_usize(&a) {
        Some(v) => v,
        None => {
            return None;
        },
    };
    let end = match parse_usize(&b) {
        Some(v) => v,
        None => {
            return None;
        },
    };
    // (start + end) / 2 without an intermediate sum that could overflow.
    let mid = start / 2 + end / 2 + (start % 2 + end % 2) / 2;
    assert(mid == (start + end) / 2) by (nonlinear_arith)
        requires
            mid == start / 2 + end / 2 + (start % 2 + end % 2) / 2,
    ;
    Some(mid)
}

/// The error for a bookmark id that matches nothing.
pub open spec fn not_found_spec(id: Seq<char>) -> Seq<char> {
    "bookmark not found: "@ + id
}

/// The "bookmark not found" error for an id.
fn not_found_error(id: &str) -> (e: Error)
    ensures
        e matches Error::Input(m) && m@ == not_found_spec(id@),
{
    let mut m: Vec<char> = Vec::new();
    push_str(&mut m, "bookmark not found: ");
    push_str(&mut m, id);
    input_error(&m)
}

/// Find a bookmark by id or prefix in one database: the exact match when
/// there is one, else the prefix match. `exact` and `by_prefix` are the
/// database's answers for the id that [`extract_id`] gives for `id`.
pub fn find_bookmark(id: &str, exact: Option<Bookmark>, by_prefix: Option<Bookmark>) -> (r:
    Result<Bookmark>)
    ensures
        exact matches Some(b) ==> r == Ok::<Bookmark, Error>(b),
        exact is None ==> (by_prefix matches Some(b) ==> r == Ok::<Bookmark, Error>(b)),
        exact is None && by_prefix is None ==> (r matches Err(Error::Input(m)) && m@
            == not_found_spec(before_first(id@, '\t'))),
{
    match exact {
        Some(b) => Ok(b),
        None => match by_prefix {
            Some(b) => Ok(b),
            None => {
                let key = extract_id(id);
                Err(not_found_error(key.as_str()))
            },
        },
    }
}

/// The answers of one database for a bookmark id: the exact lookup (which
/// may fail), and the prefix lookup (`None` also when it failed).
pub struct BookmarkLookup {
    pub exact: Result<Option<Bookmark>>,
    pub by_prefix: Option<Bookmark>,
}

/// What [`find_bookmark_across`] returns for the databases' answers from
/// index `i` on: the first exact match, or a prefix match when the id is at
/// least four bytes long, with its database's index; a failed exact lookup
/// stops the search.
pub open spec fn across_spec(
    lookups: Seq<BookmarkLookup>,
    prefix_allowed: bool,
    i: int,
) -> Option<core::result::Result<(Bookmark, int), Error>>
    decreases lookups.len() - i,
{
    if i < 0 || i >= lookups.len() {
        None
    } else {
        match lookups[i].exact {
            Err(e) => Some(Err(e)),
            Ok(Some(b)) => Some(Ok((b, i))),
            Ok(None) => if prefix_allowed && lookups[i].by_prefix is Some {
                Some(Ok((lookups[i].by_prefix.unwrap(), i)))
            } else {
                across_spec(lookups, prefix_allowed, i + 1)
            },
        }
    }
}

/// Whether `r` is what searching the answers `lookups` for the id in `id`
/// gives (see [`across_spec`]).
pub open spec fn across_outcome(
    r: Result<(Bookmark, usize)>,
    lookups: Seq<BookmarkLookup>,
    id: Seq<char>,
) -> bool {
    let key = before_first(id, '\t');
    let allowed = vstd::utf8::encode_utf8(key).len() >= 4;
    match across_spec(lookups, allowed, 0) {
        Some(Ok((b, i))) => r matches Ok((b2, i2)) && b2 == b && i2 == i,
        Some(Err(e)) => r == Err::<(Bookmark, usize), Error>(e),
        None => r matches Err(Error::Input(m)) && m@ == not_found_spec(key),
    }
}

/// Search for a bookmark across databases, in order; returns it with the
/// index of its database. `lookups[i]` are database `i`'s answers for the id
/// that [`extract_id`] gives for `id`; prefix matches count only for an id of
/// at least four bytes.
pub fn find_bookmark_across(id: &str, lookups: Vec<BookmarkLookup>) -> (r: Result<(Bookmark, usize)>)
    ensures
        across_outcome(r, lookups@, id@),
{
    let key = extract_id(id);
    let key_bytes = key.as_str().as_bytes();
    let allowed = key_bytes.len() >= 4;
    match first_hit(&lookups, allowed) {
        Some(i) => {
            let BookmarkLookup { exact, by_prefix } = take_at(lookups, i);
            match exact {
                Err(e) => Err(e),
                Ok(Some(b)) => Ok((b, i)),
                Ok(None) => match by_prefix {
                    Some(b) => Ok((b, i)),
                    None => Err(not_found_error(key.as_str())),
                },
            }
        },
        None => Err(not_found_error(key.as_str())),
    }
}

/// The index of the first database whose answers end the search.
fn first_hit(lookups: &Vec<BookmarkLookup>, allowed: bool) -> (r: Option<usize>)
    ensures
        r matches Some(i) ==> i < lookups@.len() && across_spec(lookups@, allowed, 0)
            == across_spec_at(lookups@, allowed, i as int) && across_spec_at(
            lookups@,
            allowed,
            i as int,
        ) is Some,
        r is None ==> across_spec(lookups@, allowed, 0) is None,
{
    let mut i: usize = 0;
    while i < lookups.len()
        invariant
            i <= lookups.len(),
            across_spec(lookups@, allowed, 0) == across_spec(lookups@, allowed, i as int),
        decreases lookups.len() - i,
    {
        let hit = match &lookups[i].exact {
            Err(_) => true,
            Ok(Some(_)) => true,
            Ok(None) => allowed && lookups[i].by_prefix.is_some(),
        };
        if hit {
            return Some(i);
        }
        i = i + 1;
    }
    None
}

/// The outcome at database `i`, when its answers end the search.
pub open spec fn across_spec_at(
    lookups: Seq<BookmarkLookup>,
    allowed: bool,
    i: int,
) -> Option<core::result::Result<(Bookmark, int), Error>> {
    match lookups[i].exact {
        Err(e) => Some(Err(e)),
        Ok(Some(b)) => Some(Ok((b, i))),
        Ok(None) => if allowed && lookups[i].by_prefix is Some {
            Some(Ok((lookups[i].by_prefix.unwrap(), i)))
        } else {
            None
        },
    }
}

/// The element at `i`, taking the vector.
fn take_at<T>(v: Vec<T>, i: usize) -> (r: T)
    requires
        i < v@.len(),
    ensures
        r == v@[i as int],
{
    let mut v = v;
    v.swap_remove(i)
}

/// The duration in days a text gives: a number with a `d` (days), `w`
/// (weeks) or `m` (30-day months) suffix, after trimming; the error message
/// otherwise.
pub open spec fn duration_days_spec(d: Seq<char>) -> core::result::Result<int, Seq<char>> {
    let s = trim(d);
    if strip_suffix(s, "d"@) is Some {
        match parse_i64_spec(strip_suffix(s, "d"@).unwrap()) {
            Some(n) => Ok(n as int),
            None => Err("invalid duration"@),
        }
    } else if strip_suffix(s, "w"@) is Some {
        match parse_i64_spec(strip_suffix(s, "w"@).unwrap()) {
            Some(n) => Ok(n * 7),
            None => Err("invalid duration"@),
        }
    } else if strip_suffix(s, "m"@) is Some {
        match parse_i64_spec(strip_suffix(s, "m"@).unwrap()) {
            Some(n) => Ok(n * 30),
            None => Err("invalid duration"@),
        }
    } else {
        Err("duration must end with d, w, or m (e.g., 30d, 2w, 6m)"@)
    }
}

/// Parse a duration (`30d`, `2w`, `6m`) to days. A count of weeks or months
/// whose number of days does not fit in an `i64` is left out.
pub fn parse_duration_days(duration: &str) -> (r: Result<i64>)
    requires
        duration_days_spec(duration@) matches Ok(n) ==> i64::MIN <= n <= i64::MAX,
    ensures
        r matches Ok(n) ==> duration_days_spec(duration@) == Ok::<int, Seq<char>>(n as int),
        r matches Err(e) ==> (e matches Error::Input(m) && duration_days_spec(duration@) == Err::<
            int,
            Seq<char>,
        >(m@)),
{
    let s = trimmed(&chars_of(duration));
    match crate::text::strip_suffix_str(&s, "d") {
        Some(d) => {
            return match parse_i64(&d) {
                Some(n) => Ok(n),
                None => Err(invalid_duration()),
            };
        },
        None => {},
    }
    match crate::text::strip_suffix_str(&s, "w") {
        Some(w) => {
            return match parse_i64(&w) {
                Some(n) => Ok(n * 7),
                None => Err(invalid_duration()),
            };
        },
        None => {},
    }
    match crate::text::strip_suffix_str(&s, "m") {
        Some(m) => {
            return match parse_i64(&m) {
                Some(n) => Ok(n * 30),
                None => Err(invalid_duration()),
            };
        },
        None => {},
    }
    let mut msg: Vec<char> = Vec::new();
    push_str(&mut msg, "duration must end with d, w, or m (e.g., 30d, 2w, 6m)");
    Err(input_error(&msg))
}

/// The "invalid duration" error.
fn invalid_duration() -> (e: Error)
    ensures
        e matches Error::Input(m) && m@ == "invalid duration"@,
{
    let mut m: Vec<char> = Vec::new();
    push_str(&mut m, "invalid duration");
    input_error(&m)
}

// ---------------------------------------------------------------------------
// Diff hunks
// ---------------------------------------------------------------------------

/// The new-file range of a diff hunk header: `+start`, then an optional
/// `,count`.
pub const HUNK_PATTERN: &'static str = r"\+(\d+)(?:,(\d+))?";

/// The message for a hunk without a `+start` range.
pub open spec fn bad_hunk_message(hunk: Seq<char>) -> Seq<char> {
    "invalid hunk format: "@ + hunk
}

/// The message for a hunk whose range does not fit in `usize`.
pub open spec fn hunk_overflow_message(hunk: Seq<char>) -> Seq<char> {
    "hunk range out of bounds: "@ + hunk
}

/// Group `i` of a match, `None` when there is no such group.
pub open spec fn hunk_group(g: Seq<Option<Seq<char>>>, i: int) -> Option<Seq<char>> {
    if 0 <= i < g.len() {
        g[i]
    } else {
        None
    }
}

/// The line count a hunk gives: its `,count` when that parses, else 1.
pub open spec fn hunk_count(g: Seq<Option<Seq<char>>>) -> int {
    match hunk_group(g, 2) {
        Some(t) => match parse_usize_spec(t) {
            Some(c) => c as int,
            None => 1,
        },
        None => 1,
    }
}

/// The last line of a hunk starting at `start` that spans `count` lines
/// (`start` itself for a count of 0).
pub open spec fn hunk_end(start: int, count: int) -> int {
    if count >= 1 {
        start + count - 1
    } else {
        start
    }
}

/// The inclusive line range a hunk's match groups give, or the message of
/// why they give none.
pub open spec fn hunk_range_spec(g: Seq<Option<Seq<char>>>) -> core::result::Result<
    (int, int),
    Seq<char>,
> {
    match hunk_group(g, 1) {
        Some(t) => match parse_usize_spec(t) {
            Some(start) => Ok((start as int, hunk_end(start as int, hunk_count(g)))),
            None => Err("invalid hunk start"@),
        },
        None => Err("invalid hunk start"@),
    }
}

/// The groups of a match have the start group, and the range they give fits
/// in `usize`.
pub open spec fn hunk_fits(g: Seq<Option<Seq<char>>>) -> bool {
    &&& hunk_group(g, 1) is Some
    &&& hunk_range_spec(g) matches Ok((_, end)) ==> end <= usize::MAX
}

/// The line range `(start, end)` given by the capture groups of the first
/// match of [`HUNK_PATTERN`] in `hunk`; `groups` is `None` when there is no
/// match.
pub fn hunk_range(hunk: &str, groups: Option<Vec<Option<String>>>) -> (r: Result<(usize, usize)>)
    requires
        groups matches Some(g) ==> hunk_fits(groups_view(g@)),
    ensures
        match groups {
            None => r matches Err(Error::Input(m)) && m@ == bad_hunk_message(hunk@),
            Some(g) => match hunk_range_spec(groups_view(g@)) {
                Ok((a, b)) => r matches Ok((x, y)) && x == a && y == b,
                Err(msg) => r matches Err(Error::Input(m)) && m@ == msg,
            },
        },
{
    let g = match groups {
        None => {
            let mut m: Vec<char> = Vec::new();
            push_str(&mut m, "invalid hunk format: ");
            push_str(&mut m, hunk);
            return Err(input_error(&m));
        },
        Some(g) => g,
    };
    let ghost gv = groups_view(g@);
    assert(gv[1] == hunk_group(gv, 1));
    let start_text = match &g[1] {
        Some(t) => chars_of(t.as_str()),
        None => Vec::new(),
    };
    let start = match parse_usize(&start_text) {
        Some(s) => s,
        None => {
            return Err(input_error(&chars_of("invalid hunk start")));
        },
    };
    let count: usize = if g.len() > 2 {
        assert(gv[2] == hunk_group(gv, 2));
        match &g[2] {
            Some(t) => match parse_usize(&chars_of(t.as_str())) {
                Some(c) => c,
                None => 1,
            },
            None => 1,
        }
    } else {
        1
    };
    let end = if count >= 1 {
        start + (count - 1)
    } else {
        start
    };
    Ok((start, end))
}

/// Whether the groups of a match give a range that fits ([`hunk_fits`]).
fn hunk_groups_fit(g: &Vec<Option<String>>) -> (b: bool)
    ensures
        b == hunk_fits(groups_view(g@)),
{
    let ghost gv = groups_view(g@);
    if g.len() < 2 {
        return false;
    }
    assert(gv[1] == hunk_group(gv, 1));
    let start = match &g[1] {
        Some(t) => match parse_usize(&chars_of(t.as_str())) {
            Some(s) => s,
            None => {
                return true;
            },
        },
        None => {
            return false;
        },
    };
    if g.len() > 2 {
        assert(gv[2] == hunk_group(gv, 2));
        match &g[2] {
            Some(t) => match parse_usize(&chars_of(t.as_str())) {
                Some(c) => {
                    return c == 0 || start <= usize::MAX - (c - 1);
                },
                None => {},
            },
            None => {},
        }
    }
    true
}

/// Parse a diff hunk header such as `@@ -10,3 +12,5 @@` into the inclusive
/// range of new-file lines it covers: `(12, 16)` here. A hunk without a
/// count covers one line.
pub fn parse_hunk(hunk: &str) -> (r: Result<(usize, usize)>)
    ensures
        !regex_compiles(HUNK_PATTERN@) ==> (r matches Err(Error::TreeSitter(m)) && m@
            == bad_pattern_message(HUNK_PATTERN@)),
        regex_compiles(HUNK_PATTERN@) ==> match regex_capture_groups(HUNK_PATTERN@, hunk@) {
            None => r matches Err(Error::Input(m)) && m@ == bad_hunk_message(hunk@),
            Some(g) => if hunk_fits(g) {
                match hunk_range_spec(g) {
                    Ok((a, b)) => r matches Ok((x, y)) && x == a && y == b,
                    Err(msg) => r matches Err(Error::Input(m)) && m@ == msg,
                }
            } else {
                r matches Err(Error::Input(m)) && m@ == hunk_overflow_message(hunk@)
            },
        },
{
    match regex_captures(HUNK_PATTERN, hunk) {
        None => Err(bad_pattern(HUNK_PATTERN)),
        Some(None) => hunk_range(hunk, None),
        Some(Some(g)) => {
            if hunk_groups_fit(&g) {
                hunk_range(hunk, Some(g))
            } else {
                let mut m: Vec<char> = Vec::new();
                push_str(&mut m, "hunk range out of bounds: ");
                push_str(&mut m, hunk);
                Err(input_error(&m))
            }
        },
    }
}

// ---------------------------------------------------------------------------
// Choosing databases
// ---------------------------------------------------------------------------

/// Whether a database is kept when listing for `email`, given what looking
/// up its owner gave: all are kept when no email is asked for; otherwise
/// one whose owner is that email, or whose repos table names no owner yet.
/// One whose lookup failed is dropped.
pub fn db_kept_for_email(email: Option<&str>, owner: &core::result::Result<Option<String>, String>) -> (b:
    bool)
    ensures
        b == match email {
            None => true,
            Some(e) => match owner {
                Ok(Some(o)) => o@ == e@,
                Ok(None) => true,
                Err(_) => false,
            },
        },
{
    match email {
        None => true,
        Some(e) => match owner {
            Ok(Some(o)) => same_text(o.as_str(), e),
            Ok(None) => true,
            Err(_) => false,
        },
    }
}

/// Whether a database is kept when listing for repositories whose owner
/// contains `pattern`, given the owners of the repos it records: all are
/// kept when no pattern is asked for; otherwise one with no repos, or with a
/// repo owner that contains the pattern. One whose lookup failed is dropped.
pub fn db_kept_for_repo_owner(pattern: Option<&str>, owners: &core::result::Result<Vec<String>, String>) -> (b:
    bool)
    ensures
        b == match pattern {
            None => true,
            Some(p) => match owners {
                Ok(v) => v.len() == 0 || exists|i: int| 0 <= i < v.len() && contains_seq(#[trigger] v@[i]@, p@),
                Err(_) => false,
            },
        },
{
    match pattern {
        None => true,
        Some(p) => match owners {
            Err(_) => false,
            Ok(v) => v.len() == 0 || any_contains(v, p),
        },
    }
}

/// Whether some string of `v` contains `p`.
fn any_contains(v: &Vec<String>, p: &str) -> (b: bool)
    ensures
        b == exists|i: int| 0 <= i < v.len() && contains_seq(#[trigger] v@[i]@, p@),
{
    let mut i: usize = 0;
    while i < v.len()
        invariant
            i <= v.len(),
            forall|k: int| 0 <= k < i ==> !contains_seq(#[trigger] v@[k]@, p@),
        decreases v.len() - i,
    {
        let o = chars_of(v[i].as_str());
        if contains_str(&o, p) {
            assert(contains_seq(v@[i as int]@, p@));
            return true;
        }
        i = i + 1;
    }
    false
}

// ---------------------------------------------------------------------------
// The resolution a preview shows
// ---------------------------------------------------------------------------

/// The short form of an id: its first 8 characters.
pub open spec fn short_id_spec(id: Seq<char>) -> Seq<char> {
    if id.len() <= 8 {
        id
    } else {
        id.take(8)
    }
}

/// The short form of an id: its first 8 characters.
pub fn short_id(id: &str) -> (r: String)
    ensures
        r@ == short_id_spec(id@),
{
    let c = chars_of(id);
    if c.len() <= 8 {
        string_of(&c)
    } else {
        let h = head_to(&c, 8);
        string_of(&h)
    }
}

/// The commit of a resolution, as characters.
pub open spec fn commit_of(r: Resolution) -> Option<Seq<char>> {
    match r.commit_hash {
        Some(c) => Some(c@),
        None => None,
    }
}

/// Resolution `r` is picked by `key`: recorded at commit `key` when
/// `by_prefix` is false (no commit matching no key), at a commit starting
/// with `key` otherwise.
pub open spec fn picked_commit(r: Resolution, key: Option<Seq<char>>, by_prefix: bool) -> bool {
    if by_prefix {
        match (commit_of(r), key) {
            (Some(c), Some(k)) => starts_with(c, k),
            _ => false,
        }
    } else {
        commit_of(r) == key
    }
}

/// `i` is the last (when `last`) or first position of `h` picked by `key`.
pub open spec fn is_pick(h: Seq<Resolution>, key: Option<Seq<char>>, by_prefix: bool, last: bool, i: int) -> bool {
    &&& 0 <= i < h.len()
    &&& picked_commit(h[i], key, by_prefix)
    &&& forall|k: int|
        0 <= k < h.len() && (if last {
            k > i
        } else {
            k < i
        }) ==> !picked_commit(#[trigger] h[k], key, by_prefix)
}

/// The last or first position of `h` picked by `key`.
pub open spec fn pick_in(h: Seq<Resolution>, key: Option<Seq<char>>, by_prefix: bool, last: bool) -> Option<int> {
    if exists|i: int| is_pick(h, key, by_prefix, last, i) {
        Some(choose|i: int| is_pick(h, key, by_prefix, last, i))
    } else {
        None
    }
}

/// The position [`pick_in`] names.
fn find_pick(h: &Vec<Resolution>, key: Option<&str>, by_prefix: bool, last: bool) -> (r: Option<usize>)
    ensures
        match r {
            Some(i) => pick_in(h@, opt_chars(key), by_prefix, last) == Some(i as int),
            None => pick_in(h@, opt_chars(key), by_prefix, last) is None,
        },
{
    let ghost s = h@;
    let ghost kv = opt_chars(key);
    let n = h.len();
    let mut step: usize = 0;
    while step < n
        invariant
            step <= n,
            n == s.len(),
            s == h@,
            kv == opt_chars(key),
            forall|k: int|
                0 <= k < n && (if last {
                    k >= n - step
                } else {
                    k < step
                }) ==> !picked_commit(#[trigger] s[k], kv, by_prefix),
        decreases n - step,
    {
        let i: usize = if last {
            n - 1 - step
        } else {
            step
        };
        let hit = match (&h[i].commit_hash, key) {
            (Some(c), Some(k)) => {
                let cc = chars_of(c.as_str());
                if by_prefix {
                    starts_with_str(&cc, k)
                } else {
                    same_text(c.as_str(), k)
                }
            },
            (None, None) => !by_prefix,
            _ => false,
        };
        if hit {
            proof {
                let ii = i as int;
                assert(picked_commit(s[ii], kv, by_prefix));
                assert(is_pick(s, kv, by_prefix, last, ii));
                assert forall|m: int| is_pick(s, kv, by_prefix, last, m) implies m == ii by {
                    if m != ii {
                        assert(!picked_commit(s[m], kv, by_prefix) || !picked_commit(s[ii], kv, by_prefix));
                    }
                }
            }
            return Some(i);
        }
        step = step + 1;
    }
    proof {
        assert forall|m: int| !is_pick(s, kv, by_prefix, last, m) by {
            if is_pick(s, kv, by_prefix, last, m) {
                assert(!picked_commit(s[m], kv, by_prefix));
            }
        }
    }
    None
}

/// The characters of an optional string.
pub open spec fn opt_chars(o: Option<&str>) -> Option<Seq<char>> {
    match o {
        Some(s) => Some(s@),
        None => None,
    }
}

/// The commits of a bookmark's resolutions, in order, for those that have
/// one: the candidates for the nearest ancestor of HEAD.
pub fn history_commits(history: &[Resolution]) -> (r: Vec<String>)
    ensures
        crate::text::strings_view(r@) == commits_of(history@),
{
    let mut out: Vec<String> = Vec::new();
    let mut i: usize = 0;
    while i < history.len()
        invariant
            i <= history.len(),
            crate::text::strings_view(out@) == commits_of(history@.take(i as int)),
        decreases history.len() - i,
    {
        assert(history@.take(i + 1).drop_last() =~= history@.take(i as int));
        match &history[i].commit_hash {
            Some(c) => {
                let ghost before = out@;
                out.push(c.clone());
                assert(crate::text::strings_view(out@) =~= crate::text::strings_view(before).push(c@));
            },
            None => {},
        }
        i = i + 1;
    }
    assert(history@.take(history.len() as int) =~= history@);
    out
}

/// The commits of resolutions, in order, for those that have one.
pub open spec fn commits_of(h: Seq<Resolution>) -> Seq<Seq<char>>
    decreases h.len(),
{
    if h.len() == 0 {
        Seq::empty()
    } else {
        let rest = commits_of(h.drop_last());
        match h.last().commit_hash {
            Some(c) => rest.push(c@),
            None => rest,
        }
    }
}

/// The message for a bookmark without resolutions.
pub open spec fn no_history_message(id: Seq<char>) -> Seq<char> {
    "bookmark "@ + short_id_spec(id) + " has no resolution history; run `codemark resolve "@
        + short_id_spec(id) + "` first"@
}

/// The resolution `preview` shows, or the error it reports as
/// `(is a resolution error, message)`: the one asked for by id
/// (`by_id`, what looking it up gave); the oldest recorded at the
/// bookmark's creation commit; the oldest at a commit starting with
/// `at_commit`; the newest at `nearest`, the nearest ancestor of HEAD among
/// the history's commits; else the newest of all. `history` runs newest
/// first.
pub open spec fn preview_pick_spec(
    resolution_id: Option<Seq<char>>,
    by_id: Option<Resolution>,
    at_creation: bool,
    at_commit: Option<Seq<char>>,
    history: Seq<Resolution>,
    nearest: Option<Seq<char>>,
    bookmark_commit: Option<Seq<char>>,
    bookmark_id: Seq<char>,
) -> core::result::Result<Resolution, (bool, Seq<char>)> {
    if resolution_id is Some {
        match by_id {
            Some(r) => Ok(r),
            None => Err((false, "resolution not found: "@ + resolution_id->0)),
        }
    } else if at_creation {
        match pick_in(history, bookmark_commit, false, true) {
            Some(i) => Ok(history[i]),
            None => Err((true, "no resolution found at creation time"@)),
        }
    } else if at_commit is Some {
        match pick_in(history, at_commit, true, true) {
            Some(i) => Ok(history[i]),
            None => Err((true, "no resolution found at commit "@ + at_commit->0)),
        }
    } else {
        match nearest {
            Some(c) => match pick_in(history, Some(c), false, false) {
                Some(i) => Ok(history[i]),
                None => Err((true, "resolution for commit "@ + c + " not found"@)),
            },
            None => if history.len() > 0 {
                Ok(history[0])
            } else {
                Err((false, no_history_message(bookmark_id)))
            },
        }
    }
}

/// Pick the resolution `preview` shows ([`preview_pick_spec`]).
pub fn pick_preview_resolution(
    resolution_id: Option<&str>,
    by_id: Option<Resolution>,
    at_creation: bool,
    at_commit: Option<&str>,
    history: Vec<Resolution>,
    nearest: Option<&str>,
    bookmark_commit: Option<&str>,
    bookmark_id: &str,
) -> (r: Result<Resolution>)
    ensures
        match preview_pick_spec(
            opt_chars(resolution_id),
            by_id,
            at_creation,
            opt_chars(at_commit),
            history@,
            opt_chars(nearest),
            opt_chars(bookmark_commit),
            bookmark_id@,
        ) {
            Ok(x) => r matches Ok(y) && y == x,
            Err((true, m)) => r matches Err(Error::Resolution(e)) && e@ == m,
            Err((false, m)) => r matches Err(Error::Input(e)) && e@ == m,
        },
{
    let mut history = history;
    match resolution_id {
        Some(id) => {
            return match by_id {
                Some(r) => Ok(r),
                None => {
                    let mut m: Vec<char> = Vec::new();
                    push_str(&mut m, "resolution not found: ");
                    push_str(&mut m, id);
                    Err(input_error(&m))
                },
            };
        },
        None => {},
    }
    if at_creation {
        return match find_pick(&history, bookmark_commit, false, true) {
            Some(i) => Ok(history.remove(i)),
            None => Err(Error::Resolution(string_of(&chars_of("no resolution found at creation time")))),
        };
    }
    match at_commit {
        Some(c) => {
            return match find_pick(&history, Some(c), true, true) {
                Some(i) => Ok(history.remove(i)),
                None => {
                    let mut m: Vec<char> = Vec::new();
                    push_str(&mut m, "no resolution found at commit ");
                    push_str(&mut m, c);
                    Err(Error::Resolution(string_of(&m)))
                },
            };
        },
        None => {},
    }
    match nearest {
        Some(c) => match find_pick(&history, Some(c), false, false) {
            Some(i) => Ok(history.remove(i)),
            None => {
                let mut m: Vec<char> = Vec::new();
                push_str(&mut m, "resolution for commit ");
                push_str(&mut m, c);
                push_str(&mut m, " not found");
                Err(Error::Resolution(string_of(&m)))
            },
        },
        None => {
            if history.len() > 0 {
                Ok(history.remove(0))
            } else {
                let short = short_id(bookmark_id);
                let mut m: Vec<char> = Vec::new();
                push_str(&mut m, "bookmark ");
                push_str(&mut m, short.as_str());
                push_str(&mut m, " has no resolution history; run `codemark resolve ");
                push_str(&mut m, short.as_str());
                push_str(&mut m, "` first");
                Err(input_error(&m))
            }
        },
    }
}

// ---------------------------------------------------------------------------
// Who is working
// ---------------------------------------------------------------------------

/// The view of an optional borrowed text.
pub open spec fn opt_text(o: Option<&str>) -> Option<Seq<char>> {
    match o {
        Some(s) => Some(s@),
        None => None,
    }
}

/// `(email, name)` of the current user: a forced identity is both; else the
/// configured name and email win over the detected ones, and with no email
/// at all one is made up from the detected name (`NAME@local`, or
/// `user@local`).
pub open spec fn identity_spec(
    forced: Option<Seq<char>>,
    config_name: Option<Seq<char>>,
    config_email: Option<Seq<char>>,
    detected_name: Option<Seq<char>>,
    detected_email: Option<Seq<char>>,
) -> (Seq<char>, Option<Seq<char>>) {
    match forced {
        Some(f) => (f, Some(f)),
        None => {
            let name = match config_name {
                Some(n) => Some(n),
                None => detected_name,
            };
            let email = match config_email {
                Some(e) => e,
                None => match detected_email {
                    Some(e) => e,
                    None => match detected_name {
                        Some(n) => n + "@local"@,
                        None => "user@local"@,
                    },
                },
            };
            (email, name)
        },
    }
}

/// An owned copy of an optional text.
fn owned_text(o: Option<&str>) -> (r: Option<String>)
    ensures
        match r {
            Some(s) => opt_text(o) == Some(s@),
            None => o is None,
        },
{
    match o {
        Some(s) => Some(string_of(&chars_of(s))),
        None => None,
    }
}

/// The identity recorded on bookmarks and repositories ([`identity_spec`]):
/// `forced`, `config_name` and `config_email` come from the configuration,
/// `detected_name` and `detected_email` from git (or, outside a repository,
/// from the system).
pub fn resolve_identity(
    forced: Option<&str>,
    config_name: Option<&str>,
    config_email: Option<&str>,
    detected_name: Option<&str>,
    detected_email: Option<&str>,
) -> (r: (String, Option<String>))
    ensures
        ({
            let v = identity_spec(
                opt_text(forced),
                opt_text(config_name),
                opt_text(config_email),
                opt_text(detected_name),
                opt_text(detected_email),
            );
            r.0@ == v.0 && opt_text_owned(r.1) == v.1
        }),
{
    match forced {
        Some(f) => {
            return (string_of(&chars_of(f)), Some(string_of(&chars_of(f))));
        },
        None => {},
    }
    let name = match config_name {
        Some(n) => owned_text(Some(n)),
        None => owned_text(detected_name),
    };
    let email = match config_email {
        Some(e) => string_of(&chars_of(e)),
        None => match detected_email {
            Some(e) => string_of(&chars_of(e)),
            None => match detected_name {
                Some(n) => {
                    let mut m: Vec<char> = Vec::new();
                    push_str(&mut m, n);
                    push_str(&mut m, "@local");
                    string_of(&m)
                },
                None => string_of(&chars_of("user@local")),
            },
        },
    };
    (email, name)
}

/// The view of an optional owned text.
pub open spec fn opt_text_owned(o: Option<String>) -> Option<Seq<char>> {
    match o {
        Some(s) => Some(s@),
        None => None,
    }
}

// ---------------------------------------------------------------------------
// Collection lines
// ---------------------------------------------------------------------------

/// An optional text, empty when absent.
pub open spec fn text_or_empty(o: Option<String>) -> Seq<char> {
    match o {
        Some(s) => s@,
        None => Seq::empty(),
    }
}

/// A collection's health as a list shows it: its name, or `-` when not yet
/// computed.
pub open spec fn collection_health_text(h: Option<CollectionHealth>) -> Seq<char> {
    match h {
        Some(x) => x.name_spec(),
        None => "-"@,
    }
}

/// `{KEY}` and `{key}` in `t` replaced by `v`, the upper-case form first.
pub open spec fn fill_key(t: Seq<char>, upper: Seq<char>, lower: Seq<char>, v: Seq<char>) -> Seq<char> {
    replace_spec(replace_spec(t, upper, v), lower, v)
}

/// The line a `--line-format` template gives for a collection: `{ID}`,
/// `{NAME}`, `{HEALTH}`, `{COUNT}` (only where a bookmark count is given),
/// `{DESCRIPTION}`, `{CREATED}` and `{BRANCH}`, in upper or lower case,
/// replaced in that order.
pub open spec fn collection_line_spec(template: Seq<char>, c: Collection, count: Option<u64>) -> Seq<char> {
    let t = fill_key(template, "{ID}"@, "{id}"@, short_id_spec(c.id@));
    let t = fill_key(t, "{NAME}"@, "{name}"@, c.name@);
    let t = fill_key(t, "{HEALTH}"@, "{health}"@, collection_health_text(c.health));
    let t = match count {
        Some(n) => fill_key(t, "{COUNT}"@, "{count}"@, decimal(n as nat)),
        None => t,
    };
    let t = fill_key(t, "{DESCRIPTION}"@, "{description}"@, text_or_empty(c.description));
    let t = fill_key(t, "{CREATED}"@, "{created}"@, c.created_at@);
    fill_key(t, "{BRANCH}"@, "{branch}"@, text_or_empty(c.created_branch))
}

/// Replace `{KEY}`, then `{key}`, in `t` by `v`.
fn fill(t: String, upper: &str, lower: &str, v: &str) -> (r: String)
    requires
        upper@.len() > 0,
        lower@.len() > 0,
    ensures
        r@ == fill_key(t@, upper@, lower@, v@),
{
    let a = replace_all(t.as_str(), upper, v);
    replace_all(a.as_str(), lower, v)
}

/// An optional text as a string, empty when absent.
fn opt_string(o: &Option<String>) -> (r: String)
    ensures
        r@ == text_or_empty(*o),
{
    match o {
        Some(s) => s.clone(),
        None => string_of(&Vec::new()),
    }
}

/// The line a `--line-format` template gives for collection `c`, with its
/// bookmark count where the listing has one (see [`collection_line_spec`]).
pub fn collection_line(template: &str, c: &Collection, count: Option<u64>) -> (r: String)
    ensures
        r@ == collection_line_spec(template@, *c, count),
{
    proof {
        reveal_strlit("{ID}");
        reveal_strlit("{id}");
        reveal_strlit("{NAME}");
        reveal_strlit("{name}");
        reveal_strlit("{HEALTH}");
        reveal_strlit("{health}");
        reveal_strlit("{COUNT}");
        reveal_strlit("{count}");
        reveal_strlit("{DESCRIPTION}");
        reveal_strlit("{description}");
        reveal_strlit("{CREATED}");
        reveal_strlit("{created}");
        reveal_strlit("{BRANCH}");
        reveal_strlit("{branch}");
    }
    let short = short_id(c.id.as_str());
    let health = match &c.health {
        Some(h) => string_of(&chars_of(h.as_str())),
        None => string_of(&chars_of("-")),
    };
    let t = string_of(&chars_of(template));
    let t = fill(t, "{ID}", "{id}", short.as_str());
    let t = fill(t, "{NAME}", "{name}", c.name.as_str());
    let t = fill(t, "{HEALTH}", "{health}", health.as_str());
    let t = match count {
        Some(n) => {
            let digits = string_of(&u64_to_chars(n));
            fill(t, "{COUNT}", "{count}", digits.as_str())
        },
        None => t,
    };
    let description = opt_string(&c.description);
    let t = fill(t, "{DESCRIPTION}", "{description}", description.as_str());
    let t = fill(t, "{CREATED}", "{created}", c.created_at.as_str());
    let branch = opt_string(&c.created_branch);
    fill(t, "{BRANCH}", "{branch}", branch.as_str())
}

// ---------------------------------------------------------------------------
// Bookmarks a change touches
// ---------------------------------------------------------------------------

/// The positions, in order, of the bookmarks among the first `k` of `bms`
/// whose file is one of `changed`.
pub open spec fn affected_spec(bms: Seq<Bookmark>, changed: Seq<Seq<char>>, k: int) -> Seq<int>
    decreases k,
{
    if k <= 0 {
        seq![]
    } else if changed.contains(bms[k - 1].file_path@) {
        affected_spec(bms, changed, k - 1).push(k - 1)
    } else {
        affected_spec(bms, changed, k - 1)
    }
}

/// Whether one of `changed` is `path`.
fn lists_path(changed: &[String], path: &str) -> (r: bool)
    ensures
        r == changed@.map_values(|s: String| s@).contains(path@),
{
    let ghost all = changed@.map_values(|s: String| s@);
    let mut i: usize = 0;
    while i < changed.len()
        invariant
            i <= changed.len(),
            all == changed@.map_values(|s: String| s@),
            forall|k: int| 0 <= k < i ==> all[k] != path@,
        decreases changed.len() - i,
    {
        if same_text(changed[i].as_str(), path) {
            assert(all[i as int] == path@);
            return true;
        }
        i = i + 1;
    }
    false
}

/// The positions of the bookmarks whose file changed, in order: those a
/// diff reports.
pub fn affected_bookmarks(bookmarks: &[Bookmark], changed: &[String]) -> (r: Vec<usize>)
    ensures
        r@.map_values(|i: usize| i as int) == affected_spec(
            bookmarks@,
            changed@.map_values(|s: String| s@),
            bookmarks@.len() as int,
        ),
{
    let ghost ch = changed@.map_values(|s: String| s@);
    let mut out: Vec<usize> = Vec::new();
    let mut i: usize = 0;
    while i < bookmarks.len()
        invariant
            i <= bookmarks.len(),
            ch == changed@.map_values(|s: String| s@),
            out@.map_values(|i: usize| i as int) == affected_spec(bookmarks@, ch, i as int),
        decreases bookmarks.len() - i,
    {
        if lists_path(changed, bookmarks[i].file_path.as_str()) {
            out.push(i);
            assert(out@.map_values(|i: usize| i as int) =~= affected_spec(bookmarks@, ch, i as int).push(
                i as int,
            ));
        }
        i = i + 1;
    }
    out
}

/// How a diff shows a bookmark's health: `before -> after` when it
/// changes, else the health it keeps.
pub open spec fn status_change_spec(before: BookmarkHealth, after: BookmarkHealth) -> Seq<char> {
    if before.name_spec() != after.name_spec() {
        before.name_spec() + " -> "@ + after.name_spec()
    } else {
        after.name_spec()
    }
}

/// The health change a diff reports for a bookmark (see
/// [`status_change_spec`]).
pub fn status_change(before: BookmarkHealth, after: BookmarkHealth) -> (r: String)
    ensures
        r@ == status_change_spec(before, after),
{
    let mut out: Vec<char> = Vec::new();
    if same_text(before.as_str(), after.as_str()) {
        push_str(&mut out, after.as_str());
    } else {
        push_str(&mut out, before.as_str());
        push_str(&mut out, " -> ");
        push_str(&mut out, after.as_str());
    }
    string_of(&out)
}

// ---------------------------------------------------------------------------
// Where a search goes
// ---------------------------------------------------------------------------

/// Where a search goes: to collections, to the semantic index with its
/// query, or to the full-text index of bookmarks.
#[derive(Debug)]
pub enum SearchRoute {
    Collections,
    Semantic(String),
    FullText,
}

/// The first of the texts that is given.
pub open spec fn first_given(a: Option<String>, b: Option<String>, c: Option<String>) -> Option<Seq<char>> {
    match a {
        Some(x) => Some(x@),
        None => match b {
            Some(x) => Some(x@),
            None => match c {
                Some(x) => Some(x@),
                None => None,
            },
        },
    }
}

/// Route a search from its arguments: `--collections` searches collections;
/// `--tag` without it is an input error; a semantic search needs semantic
/// search enabled and a query (the query, else the note, else the context
/// text); anything else is a full-text search of bookmarks.
pub fn search_route(
    collections: bool,
    has_tag: bool,
    semantic: bool,
    semantic_enabled: bool,
    query: Option<String>,
    note: Option<String>,
    context: Option<String>,
) -> (r: Result<SearchRoute>)
    ensures
        collections ==> r matches Ok(SearchRoute::Collections),
        !collections && has_tag ==> (r matches Err(Error::Input(m)) && m@ == "--tag requires --collections"@),
        !collections && !has_tag && semantic && !semantic_enabled ==> (r matches Err(Error::Input(m))
            && m@ == "Semantic search is not enabled in config"@),
        !collections && !has_tag && semantic && semantic_enabled ==> match first_given(query, note, context) {
            Some(q) => r matches Ok(SearchRoute::Semantic(t)) && t@ == q,
            None => r matches Err(Error::Input(m)) && m@ == "Semantic search requires a query"@,
        },
        !collections && !has_tag && !semantic ==> r matches Ok(SearchRoute::FullText),
{
    if collections {
        return Ok(SearchRoute::Collections);
    }
    if has_tag {
        return Err(Error::Input(string_of(&chars_of("--tag requires --collections"))));
    }
    if semantic {
        if !semantic_enabled {
            return Err(Error::Input(string_of(&chars_of("Semantic search is not enabled in config"))));
        }
        let given = match query {
            Some(q) => Some(q),
            None => match note {
                Some(n) => Some(n),
                None => context,
            },
        };
        return match given {
            Some(q) => Ok(SearchRoute::Semantic(q)),
            None => Err(Error::Input(string_of(&chars_of("Semantic search requires a query")))),
        };
    }
    Ok(SearchRoute::FullText)
}

} // verus!
