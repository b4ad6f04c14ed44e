//! Breadcrumbs: the structural ancestors of a bookmarked node (enclosing
//! functions, classes, modules), shown as sticky headers.

use vstd::prelude::*;

use crate::numbers::{decimal, push_usize};
use crate::parser::languages::Language;
use crate::text::strings_view;
use crate::text::{chars_of, nth_line, push_chars, push_str, split_lines, string_of, trim_end, trim_end_index};

verus! {

/// A single breadcrumb entry representing a structural ancestor.
#[derive(Debug, Clone, PartialEq, Eq)]
pub struct Breadcrumb {
    /// The 1-based line number where this ancestor starts.
    pub line: usize,
    /// The text of the first line of this ancestor (e.g. the signature).
    pub text: String,
}

/// The node kinds of a language that make useful breadcrumbs: a built-in
/// language's list, or a dynamic grammar's profile containers.
pub open spec fn whitelist_spec(language: Language) -> Seq<Seq<char>> {
    match language {
        Language::Rust => seq!["mod_item"@, "impl_item"@, "trait_item"@, "function_item"@],
        Language::Swift => seq!["class_declaration"@, "extension_declaration"@, "protocol_declaration"@, "function_declaration"@, "struct_declaration"@, "enum_declaration"@],
        Language::TypeScript => seq!["namespace_declaration"@, "class_declaration"@, "interface_declaration"@, "method_definition"@, "function_declaration"@, "type_alias_declaration"@, "enum_declaration"@],
        Language::Python => seq!["class_definition"@, "function_definition"@, "async_function_definition"@],
        Language::Go => seq!["type_declaration"@, "function_declaration"@, "method_declaration"@],
        Language::Java => seq!["class_declaration"@, "interface_declaration"@, "enum_declaration"@, "method_declaration"@],
        Language::CSharp => seq!["class_declaration"@, "interface_declaration"@, "struct_declaration"@, "enum_declaration"@, "method_declaration"@, "namespace_declaration"@],
        Language::Dart => seq!["class_definition"@, "mixin_definition"@, "extension_definition"@, "enum_definition"@, "function_signature"@, "method_declaration"@],
        Language::Dynamic(dl) => dl.profile.containers_view().map_values(
            |p: (Seq<char>, Seq<char>)| p.0,
        ),
    }
}

/// The language-specific node kinds that make useful breadcrumbs.
pub fn get_whitelist(language: &Language) -> (r: Vec<String>)
    ensures
        strings_view(r@) == whitelist_spec(*language),
{
    let mut out: Vec<String> = Vec::new();
    match language {
        Language::Rust => {
            out.push("mod_item".to_owned());
            out.push("impl_item".to_owned());
            out.push("trait_item".to_owned());
            out.push("function_item".to_owned());
        },
        Language::Swift => {
            out.push("class_declaration".to_owned());
            out.push("extension_declaration".to_owned());
            out.push("protocol_declaration".to_owned());
            out.push("function_declaration".to_owned());
            out.push("struct_declaration".to_owned());
            out.push("enum_declaration".to_owned());
        },
        Language::TypeScript => {
            out.push("namespace_declaration".to_owned());
            out.push("class_declaration".to_owned());
            out.push("interface_declaration".to_owned());
            out.push("method_definition".to_owned());
            out.push("function_declaration".to_owned());
            out.push("type_alias_declaration".to_owned());
            out.push("enum_declaration".to_owned());
        },
        Language::Python => {
            out.push("class_definition".to_owned());
            out.push("function_definition".to_owned());
            out.push("async_function_definition".to_owned());
        },
        Language::Go => {
            out.push("type_declaration".to_owned());
            out.push("function_declaration".to_owned());
            out.push("method_declaration".to_owned());
        },
        Language::Java => {
            out.push("class_declaration".to_owned());
            out.push("interface_declaration".to_owned());
            out.push("enum_declaration".to_owned());
            out.push("method_declaration".to_owned());
        },
        Language::CSharp => {
            out.push("class_declaration".to_owned());
            out.push("interface_declaration".to_owned());
            out.push("struct_declaration".to_owned());
            out.push("enum_declaration".to_owned());
            out.push("method_declaration".to_owned());
            out.push("namespace_declaration".to_owned());
        },
        Language::Dart => {
            out.push("class_definition".to_owned());
            out.push("mixin_definition".to_owned());
            out.push("extension_definition".to_owned());
            out.push("enum_definition".to_owned());
            out.push("function_signature".to_owned());
            out.push("method_declaration".to_owned());
        },
        Language::Dynamic(dl) => {
            let mut i: usize = 0;
            while i < dl.profile.containers.len()
                invariant
                    i <= dl.profile.containers.len(),
                    strings_view(out@) == dl.profile.containers_view().map_values(
                        |p: (Seq<char>, Seq<char>)| p.0,
                    ).take(i as int),
                decreases dl.profile.containers.len() - i,
            {
                out.push(dl.profile.containers[i].0.clone());
                i = i + 1;
                proof {
                    let all = dl.profile.containers_view().map_values(
                        |p: (Seq<char>, Seq<char>)| p.0,
                    );
                    assert(all.take(i as int) == all.take(i - 1).push(all[i - 1]));
                    assert(strings_view(out@) == strings_view(out@.drop_last()).push(out@.last()@));
                }
            }
            proof {
                let all = dl.profile.containers_view().map_values(|p: (Seq<char>, Seq<char>)| p.0);
                assert(all.take(i as int) == all);
            }
        },
    }
    proof {
        assert(strings_view(out@) =~= whitelist_spec(*language));
    }
    out
}

/// Line `row` (from 0) of `source`, without trailing whitespace; empty when
/// the source has no such line.
pub open spec fn line_text_spec(source: Seq<char>, row: int) -> Seq<char> {
    if 0 <= row < split_lines(source).len() {
        trim_end(split_lines(source)[row])
    } else {
        seq![]
    }
}

/// Line `row` of `source`, without trailing whitespace.
pub fn line_text(source: &[char], row: usize) -> (r: String)
    ensures
        r@ == line_text_spec(source@, row as int),
{
    let line = nth_line(source, row);
    let end = trim_end_index(&line, line.len());
    proof {
        assert(line@.take(line.len() as int) == line@);
    }
    let mut out: Vec<char> = Vec::new();
    let mut i: usize = 0;
    while i < end
        invariant
            i <= end <= line.len(),
            out@ == line@.take(i as int),
        decreases end - i,
    {
        out.push(line[i]);
        i = i + 1;
        assert(line@.take(i as int) == line@.take(i - 1).push(line@[i - 1]));
    }
    proof {
        if row as int >= split_lines(source@).len() {
            assert(line@.take(0) =~= Seq::<char>::empty());
        }
    }
    string_of(&out)
}

/// The breadcrumbs of a node from its ancestors, nearest first: those whose
/// kind is in `whitelist`, at most `max_count` of them, outermost first.
pub open spec fn breadcrumbs_spec(
    ancestors: Seq<(Seq<char>, usize)>,
    whitelist: Seq<Seq<char>>,
    source: Seq<char>,
    max_count: nat,
) -> Seq<(int, Seq<char>)>
    decreases ancestors.len(),
{
    if ancestors.len() == 0 || max_count == 0 {
        seq![]
    } else if whitelist.contains(ancestors[0].0) {
        breadcrumbs_spec(ancestors.drop_first(), whitelist, source, (max_count - 1) as nat).push(
            (ancestors[0].1 + 1, line_text_spec(source, ancestors[0].1 as int)),
        )
    } else {
        breadcrumbs_spec(ancestors.drop_first(), whitelist, source, max_count)
    }
}

/// The `(line, text)` view of breadcrumbs.
pub open spec fn crumbs_view(b: Seq<Breadcrumb>) -> Seq<(int, Seq<char>)> {
    b.map_values(|c: Breadcrumb| (c.line as int, c.text@))
}

/// Whether `kind` is in the whitelist.
fn whitelisted(whitelist: &Vec<String>, kind: &String) -> (b: bool)
    ensures
        b == strings_view(whitelist@).contains(kind@),
{
    let k = chars_of(kind.as_str());
    let mut i: usize = 0;
    while i < whitelist.len()
        invariant
            i <= whitelist.len(),
            k@ == kind@,
            forall|j: int| 0 <= j < i ==> whitelist@[j]@ != kind@,
        decreases whitelist.len() - i,
    {
        let w = chars_of(whitelist[i].as_str());
        assert(w@ == whitelist@[i as int]@);
        assert(strings_view(whitelist@)[i as int] == whitelist@[i as int]@);
        if crate::text::eq_chars(&w, &k) {
            assert(strings_view(whitelist@)[i as int] == kind@);
            return true;
        }
        i = i + 1;
    }
    assert(!strings_view(whitelist@).contains(kind@)) by {
        if strings_view(whitelist@).contains(kind@) {
            let j = choose|j: int| 0 <= j < strings_view(whitelist@).len() && strings_view(whitelist@)[j] == kind@;
        }
    }
    false
}

/// Extract breadcrumbs for a node from its chain of ancestors (kind and
/// 0-indexed start row, nearest first), for the language's whitelist.
/// Rows are below `usize::MAX`.
pub fn extract_breadcrumbs(
    ancestors: &[(String, usize)],
    source: &str,
    language: &Language,
    max_count: usize,
) -> (r: Vec<Breadcrumb>)
    requires
        forall|i: int| 0 <= i < ancestors@.len() ==> #[trigger] ancestors@[i].1 < usize::MAX,
    ensures
        crumbs_view(r@) == breadcrumbs_spec(
            ancestors@.map_values(|a: (String, usize)| (a.0@, a.1)),
            whitelist_spec(*language),
            source@,
            max_count as nat,
        ),
{
    let whitelist = get_whitelist(language);
    let src = chars_of(source);
    let r = collect_crumbs(ancestors, 0, &whitelist, &src, max_count);
    proof {
        let all = ancestors@.map_values(|a: (String, usize)| (a.0@, a.1));
        assert(all.skip(0) == all);
    }
    r
}

/// The breadcrumbs of `ancestors[from..]`.
fn collect_crumbs(
    ancestors: &[(String, usize)],
    from: usize,
    whitelist: &Vec<String>,
    source: &[char],
    max_count: usize,
) -> (r: Vec<Breadcrumb>)
    requires
        from <= ancestors@.len(),
        forall|i: int| 0 <= i < ancestors@.len() ==> #[trigger] ancestors@[i].1 < usize::MAX,
    ensures
        crumbs_view(r@) == breadcrumbs_spec(
            ancestors@.map_values(|a: (String, usize)| (a.0@, a.1)).skip(from as int),
            strings_view(whitelist@),
            source@,
            max_count as nat,
        ),
    decreases ancestors@.len() - from,
{
    let ghost all = ancestors@.map_values(|a: (String, usize)| (a.0@, a.1));
    if from == ancestors.len() || max_count == 0 {
        proof {
            assert(all.skip(from as int).len() == 0 || max_count == 0);
        }
        return Vec::new();
    }
    let (kind, row) = (&ancestors[from].0, ancestors[from].1);
    proof {
        assert(all.skip(from as int)[0] == (kind@, row));
        assert(all.skip(from as int).drop_first() == all.skip(from + 1));
    }
    if whitelisted(whitelist, kind) {
        let mut rest = collect_crumbs(ancestors, from + 1, whitelist, source, max_count - 1);
        rest.push(Breadcrumb { line: row + 1, text: line_text(source, row) });
        proof {
            assert(crumbs_view(rest@) == crumbs_view(rest@.drop_last()).push(
                (rest@.last().line as int, rest@.last().text@),
            ));
        }
        rest
    } else {
        collect_crumbs(ancestors, from + 1, whitelist, source, max_count)
    }
}

// ---------------------------------------------------------------------------
// JSON
// ---------------------------------------------------------------------------

/// The lower-case hex digit of `n < 16`.
pub open spec fn hex_char(n: u32) -> char {
    if n < 10 {
        ((n + 48) as u8) as char
    } else {
        ((n + 87) as u8) as char
    }
}

/// A character as it appears inside a JSON string (as `serde_json` writes
/// it): `"` and `\\` escaped, the control characters as `\\b`, `\\t`, `\\n`,
/// `\\f`, `\\r` or `\\u00XX`, everything else as is.
pub open spec fn json_escape_char(c: char) -> Seq<char> {
    let n = c as u32;
    if c == '"' {
        seq!['\\', '"']
    } else if c == '\\' {
        seq!['\\', '\\']
    } else if n == 8 {
        seq!['\\', 'b']
    } else if n == 9 {
        seq!['\\', 't']
    } else if n == 10 {
        seq!['\\', 'n']
    } else if n == 12 {
        seq!['\\', 'f']
    } else if n == 13 {
        seq!['\\', 'r']
    } else if n < 0x20 {
        seq!['\\', 'u', '0', '0', hex_char(n / 16), hex_char(n % 16)]
    } else {
        seq![c]
    }
}

/// The escaped contents of a JSON string.
pub open spec fn json_escape(s: Seq<char>) -> Seq<char>
    decreases s.len(),
{
    if s.len() == 0 {
        seq![]
    } else {
        json_escape(s.drop_last()) + json_escape_char(s.last())
    }
}

/// One breadcrumb as a JSON object: `{"line":N,"text":"..."}`.
pub open spec fn crumb_json(c: (int, Seq<char>)) -> Seq<char> {
    "{\"line\":"@ + decimal(c.0 as nat) + ",\"text\":\""@ + json_escape(c.1) + "\"}"@
}

/// The JSON objects of breadcrumbs, comma-separated.
pub open spec fn crumbs_json_items(b: Seq<(int, Seq<char>)>) -> Seq<char>
    decreases b.len(),
{
    if b.len() == 0 {
        seq![]
    } else if b.len() == 1 {
        crumb_json(b[0])
    } else {
        crumbs_json_items(b.drop_last()) + ","@ + crumb_json(b.last())
    }
}

/// Breadcrumbs as a JSON array, as `serde_json::to_string` writes them.
pub open spec fn crumbs_json(b: Seq<(int, Seq<char>)>) -> Seq<char> {
    "["@ + crumbs_json_items(b) + "]"@
}

/// Append the JSON escape of one character.
fn push_escaped_char(out: &mut Vec<char>, c: char)
    ensures
        final(out)@ == old(out)@ + json_escape_char(c),
{
    let n = c as u32;
    if c == '"' {
        out.push('\\');
        out.push('"');
    } else if c == '\\' {
        out.push('\\');
        out.push('\\');
    } else if n == 8 {
        out.push('\\');
        out.push('b');
    } else if n == 9 {
        out.push('\\');
        out.push('t');
    } else if n == 10 {
        out.push('\\');
        out.push('n');
    } else if n == 12 {
        out.push('\\');
        out.push('f');
    } else if n == 13 {
        out.push('\\');
        out.push('r');
    } else if n < 0x20 {
        out.push('\\');
        out.push('u');
        out.push('0');
        out.push('0');
        out.push(hex_char_exec(n / 16));
        out.push(hex_char_exec(n % 16));
    } else {
        out.push(c);
    }
    proof {
        assert(final(out)@ =~= old(out)@ + json_escape_char(c));
    }
}

/// The lower-case hex digit of `n < 16`.
fn hex_char_exec(n: u32) -> (c: char)
    requires
        n < 16,
    ensures
        c == hex_char(n),
{
    if n < 10 {
        ((n + 48) as u8) as char
    } else {
        ((n + 87) as u8) as char
    }
}

/// Append the JSON escape of a text.
fn push_escaped(out: &mut Vec<char>, s: &[char])
    ensures
        final(out)@ == old(out)@ + json_escape(s@),
{
    let ghost start = out@;
    let mut i: usize = 0;
    while i < s.len()
        invariant
            i <= s.len(),
            out@ == start + json_escape(s@.take(i as int)),
        decreases s.len() - i,
    {
        push_escaped_char(out, s[i]);
        i = i + 1;
        proof {
            assert(s@.take(i as int).drop_last() == s@.take(i - 1));
            assert(s@.take(i as int).last() == s@[i - 1]);
        }
    }
    proof {
        assert(s@.take(s.len() as int) == s@);
    }
}

/// Breadcrumbs as JSON (`[{"line":N,"text":"..."},...]`), as stored with a
/// resolution.
pub fn breadcrumbs_json(crumbs: &[Breadcrumb]) -> (r: String)
    ensures
        r@ == crumbs_json(crumbs_view(crumbs@)),
{
    let mut out: Vec<char> = Vec::new();
    out.push('[');
    let mut i: usize = 0;
    proof {
        reveal_strlit("[");
        assert(crumbs_view(crumbs@.take(0)) =~= Seq::<(int, Seq<char>)>::empty());
        assert(out@ =~= "["@ + crumbs_json_items(crumbs_view(crumbs@.take(0))));
    }
    while i < crumbs.len()
        invariant
            i <= crumbs.len(),
            out@ == "["@ + crumbs_json_items(crumbs_view(crumbs@.take(i as int))),
        decreases crumbs.len() - i,
    {
        let ghost before = out@;
        if i > 0 {
            out.push(',');
        }
        push_str(&mut out, "{\"line\":");
        push_usize(&mut out, crumbs[i].line);
        push_str(&mut out, ",\"text\":\"");
        push_escaped(&mut out, &chars_of(crumbs[i].text.as_str()));
        push_str(&mut out, "\"}");
        i = i + 1;
        proof {
            let v = crumbs_view(crumbs@.take(i as int));
            assert(v.drop_last() == crumbs_view(crumbs@.take(i - 1)));
            assert(v.last() == (crumbs@[i - 1].line as int, crumbs@[i - 1].text@));
            if i == 1 {
                assert(before == "["@) by {
                    assert(crumbs_view(crumbs@.take(0)) =~= Seq::<(int, Seq<char>)>::empty());
                }
                reveal_strlit(",");
                assert(out@ =~= "["@ + crumb_json(v[0]));
            } else {
                reveal_strlit(",");
                assert(out@ =~= "["@ + crumbs_json_items(v.drop_last()) + ","@ + crumb_json(v.last()));
            }
        }
    }
    out.push(']');
    proof {
        assert(crumbs@.take(crumbs.len() as int) == crumbs@);
        reveal_strlit("[");
        reveal_strlit("]");
        assert(out@ =~= "["@ + crumbs_json_items(crumbs_view(crumbs@)) + "]"@);
    }
    string_of(&out)
}

} // verus!
