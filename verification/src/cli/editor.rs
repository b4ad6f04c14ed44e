//! The command that opens a bookmarked file in an editor: a template with
//! placeholders for the file, the lines and the bookmark, split into words
//! as a POSIX shell would.

use vstd::prelude::*;

use crate::error::{Error, Result};
use crate::numbers::{decimal, usize_to_chars};
use crate::text::{
    chars_of, push_str, replace_all, replace_spec, string_of, strings_view,
};

verus! {

/// The template used when none is configured: the editor (`vim` when
/// `$EDITOR` is unset) followed by the file.
pub open spec fn default_template_spec(editor: Option<Seq<char>>) -> Seq<char> {
    let program = match editor {
        Some(e) => e,
        None => "vim"@,
    };
    program + " {FILE}"@
}

/// The command template used when none is configured for the file.
pub fn default_editor_template(editor: Option<&str>) -> (r: String)
    ensures
        r@ == default_template_spec(
            match editor {
                Some(e) => Some(e@),
                None => None,
            },
        ),
{
    let mut m: Vec<char> = Vec::new();
    match editor {
        Some(e) => push_str(&mut m, e),
        None => push_str(&mut m, "vim"),
    }
    push_str(&mut m, " {FILE}");
    string_of(&m)
}

/// The template with `{FILE}`, `{LINE_START}`, `{LINE_END}` and `{ID}`
/// replaced, in that order, by the file, the first and last lines (from 1)
/// and the bookmark id.
pub open spec fn substituted_spec(
    template: Seq<char>,
    file: Seq<char>,
    line_start: nat,
    line_end: nat,
    id: Seq<char>,
) -> Seq<char> {
    replace_spec(
        replace_spec(
            replace_spec(
                replace_spec(template, "{FILE}"@, file),
                "{LINE_START}"@,
                decimal(line_start),
            ),
            "{LINE_END}"@,
            decimal(line_end),
        ),
        "{ID}"@,
        id,
    )
}

/// Fill in the placeholders of an editor command template.
pub fn substitute_placeholders(
    template: &str,
    file: &str,
    line_start: usize,
    line_end: usize,
    id: &str,
) -> (r: String)
    ensures
        r@ == substituted_spec(template@, file@, line_start as nat, line_end as nat, id@),
{
    proof {
        reveal_strlit("{FILE}");
        reveal_strlit("{LINE_START}");
        reveal_strlit("{LINE_END}");
        reveal_strlit("{ID}");
        assert("{FILE}"@[0] == '{');
        assert("{LINE_START}"@[0] == '{');
        assert("{LINE_END}"@[0] == '{');
        assert("{ID}"@[0] == '{');
    }
    let start = string_of(&usize_to_chars(line_start));
    let end = string_of(&usize_to_chars(line_end));
    let a = replace_all(template, "{FILE}", file);
    let b = replace_all(a.as_str(), "{LINE_START}", start.as_str());
    let c = replace_all(b.as_str(), "{LINE_END}", end.as_str());
    replace_all(c.as_str(), "{ID}", id)
}

/// What `shlex::split` returns for `s`: the words of `s` read as a POSIX
/// shell command line, or `None` when its quoting is broken.
pub uninterp spec fn shell_words(s: Seq<char>) -> Option<Seq<Seq<char>>>;

/// `shlex::split`. Claims that the result is [`shell_words`] of `s`.
#[verifier::external_body]
fn split_shell_words(s: &str) -> (r: Option<Vec<String>>)
    ensures
        match r {
            Some(v) => shell_words(s@) == Some(strings_view(v@)),
            None => shell_words(s@) is None,
        },
{
    shlex::split(s)
}

/// The message for a template whose quoting is broken.
pub open spec fn bad_template_message(template: Seq<char>) -> Seq<char> {
    "invalid command template: "@ + template
}

/// The program and its arguments, from the words of a filled-in template
/// (`None` when its quoting is broken); `template` names the template in
/// the error.
pub fn editor_program(template: &str, words: Option<Vec<String>>) -> (r: Result<(String, Vec<String>)>)
    ensures
        match words {
            None => r matches Err(Error::Input(m)) && m@ == bad_template_message(template@),
            Some(w) => if w@.len() == 0 {
                r matches Err(Error::Input(m)) && m@ == "empty command after tokenization"@
            } else {
                r matches Ok((p, args)) && p@ == w@[0]@ && strings_view(args@) == strings_view(
                    w@,
                ).skip(1)
            },
        },
{
    match words {
        None => {
            let mut m: Vec<char> = Vec::new();
            push_str(&mut m, "invalid command template: ");
            push_str(&mut m, template);
            Err(Error::Input(string_of(&m)))
        },
        Some(w) => {
            let mut w = w;
            if w.len() == 0 {
                return Err(Error::Input(string_of(&chars_of("empty command after tokenization"))));
            }
            let ghost all = w@;
            let program = w.remove(0);
            assert(strings_view(w@) =~= strings_view(all).skip(1));
            Ok((program, w))
        },
    }
}

/// The program and arguments that open a bookmarked file: `template` with
/// its placeholders filled in, split into words.
pub fn editor_command(
    template: &str,
    file: &str,
    line_start: usize,
    line_end: usize,
    id: &str,
) -> (r: Result<(String, Vec<String>)>)
    ensures
        match shell_words(substituted_spec(template@, file@, line_start as nat, line_end as nat, id@)) {
            None => r matches Err(Error::Input(m)) && m@ == bad_template_message(template@),
            Some(w) => if w.len() == 0 {
                r matches Err(Error::Input(m)) && m@ == "empty command after tokenization"@
            } else {
                r matches Ok((p, args)) && p@ == w[0] && strings_view(args@) == w.skip(1)
            },
        },
{
    let line = substitute_placeholders(template, file, line_start, line_end, id);
    let words = split_shell_words(line.as_str());
    proof {
        if words is Some && words->0@.len() > 0 {
            assert(strings_view(words->0@)[0] == words->0@[0]@);
        }
    }
    editor_program(template, words)
}

} // verus!
