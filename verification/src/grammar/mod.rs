//! Installing and validating dynamic WASM grammars.
//!
//! This is the writer half of the grammar lifecycle. The checks here run
//! before any file is written, so a request that could never resolve is
//! rejected instead of truncating an existing install; the file work itself
//! (staging, locking, swapping) is the caller's.

pub mod protocol;
pub mod source;

use vstd::prelude::*;

use crate::error::{Error, Result};
use crate::parser::languages::{Language, static_ext_spec, static_name_spec};
use crate::text::strings_view;
use crate::text::{
    chars_of, lemma_split_progress, lowercase, piece_end, push_chars, push_str, slice_to_vec,
    split_char, string_of, tail_from, to_lowercase, trim, trim_start_matches,
    trim_start_matches_index, trimmed,
};

verus! {

/// Caller-supplied overrides that win over whatever a grammar source
/// resolves. Both optional; a local file requires them (it carries no
/// metadata).
#[derive(Debug)]
pub struct InstallOverrides {
    pub name: Option<String>,
    pub extensions: Option<String>,
}

impl Default for InstallOverrides {
    /// No overrides.
    fn default() -> (r: InstallOverrides)
        ensures
            r.name is None,
            r.extensions is None,
    {
        InstallOverrides { name: None, extensions: None }
    }
}

/// The outcome of a successful install, returned so the caller can format it
/// (human or JSON).
#[derive(Debug)]
pub struct InstallOutcome {
    /// The grammar name it was installed under.
    pub name: String,
    /// The directory the grammar now lives in.
    pub directory: String,
    /// The normalized extensions it claims.
    pub extensions: Vec<String>,
    /// Whether this build can load the grammar at runtime (the `wasm`
    /// feature). When false the files are installed but inert.
    pub runtime_enabled: bool,
}

/// One comma-separated extension token, normalized: trimmed, leading dots
/// removed, lower-cased.
pub open spec fn normalize_ext(tok: Seq<char>) -> Seq<char> {
    lowercase(trim_start_matches(trim(tok), '.'))
}

/// The normalized tokens, empty ones dropped, in order.
pub open spec fn normalized_exts(toks: Seq<Seq<char>>) -> Seq<Seq<char>>
    decreases toks.len(),
{
    if toks.len() == 0 {
        seq![]
    } else if normalize_ext(toks.last()).len() > 0 {
        normalized_exts(toks.drop_last()).push(normalize_ext(toks.last()))
    } else {
        normalized_exts(toks.drop_last())
    }
}

/// The normalized extensions of a raw comma-separated list.
pub open spec fn extensions_spec(raw: Seq<char>) -> Seq<Seq<char>> {
    normalized_exts(split_char(raw, ','))
}

/// The first extension of `exts` that a built-in language owns.
pub open spec fn first_builtin_ext(exts: Seq<Seq<char>>) -> Option<Seq<char>>
    decreases exts.len(),
{
    if exts.len() == 0 {
        None
    } else if static_ext_spec(lowercase(exts[0])) is Some {
        Some(exts[0])
    } else {
        first_builtin_ext(exts.drop_first())
    }
}

/// The error for a grammar name that a built-in language claims.
pub open spec fn builtin_name_message(name: Seq<char>) -> Seq<char> {
    "Invalid grammar name '"@ + name
        + "': it is (or aliases) a built-in language and would never resolve"@
}

/// The error for a list without a usable extension.
pub open spec fn no_extensions_message() -> Seq<char> {
    "No valid extensions given: provide a comma-separated list like `lua,luau`"@
}

/// The error for an extension that a built-in language owns.
pub open spec fn builtin_ext_message(ext: Seq<char>) -> Seq<char> {
    "Extension '."@ + ext
        + "' is owned by a built-in language and can't be claimed by a dynamic grammar"@
}

/// What [`validate_name_and_extensions`] returns, the extensions as
/// characters.
pub open spec fn validate_spec(name: Seq<char>, raw: Seq<char>) -> core::result::Result<
    Seq<Seq<char>>,
    Seq<char>,
> {
    if static_name_spec(lowercase(name)) is Some {
        Err(builtin_name_message(name))
    } else if extensions_spec(raw).len() == 0 {
        Err(no_extensions_message())
    } else if first_builtin_ext(extensions_spec(raw)) is Some {
        Err(builtin_ext_message(first_builtin_ext(extensions_spec(raw)).unwrap()))
    } else {
        Ok(extensions_spec(raw))
    }
}

/// Normalize one extension token.
fn normalize_piece(tok: &[char]) -> (r: Vec<char>)
    ensures
        r@ == normalize_ext(tok@),
{
    let t = trimmed(tok);
    let i = trim_start_matches_index(&t, '.');
    let rest = tail_from(&t, i);
    to_lowercase(&rest)
}

/// Append the normalized form of `piece` to `out` unless it is empty.
fn push_normalized(out: &mut Vec<String>, piece: &[char])
    ensures
        normalize_ext(piece@).len() > 0 ==> strings_view(final(out)@) == strings_view(
            old(out)@,
        ).push(normalize_ext(piece@)),
        normalize_ext(piece@).len() == 0 ==> strings_view(final(out)@) == strings_view(old(out)@),
{
    let norm = normalize_piece(piece);
    if norm.len() > 0 {
        out.push(string_of(&norm));
        assert(strings_view(out@) == strings_view(out@.drop_last()).push(out@.last()@));
    }
}

/// The normalized list of one more token.
proof fn lemma_normalized_push(done: Seq<Seq<char>>, piece: Seq<char>)
    ensures
        normalized_exts(done.push(piece)) == if normalize_ext(piece).len() > 0 {
            normalized_exts(done).push(normalize_ext(piece))
        } else {
            normalized_exts(done)
        },
{
    assert(done.push(piece).drop_last() == done);
    assert(done.push(piece).last() == piece);
}

/// The normalized extensions of a raw comma-separated list.
pub fn normalize_extensions(raw: &str) -> (r: Vec<String>)
    ensures
        strings_view(r@) == extensions_spec(raw@),
{
    let s = chars_of(raw);
    let mut out: Vec<String> = Vec::new();
    let mut pos: usize = 0;
    let ghost mut done: Seq<Seq<char>> = seq![];
    assert(s@.skip(0) == s@);
    loop
        invariant_except_break
            pos <= s.len(),
            split_char(s@, ',') == done + split_char(s@.skip(pos as int), ','),
            strings_view(out@) == normalized_exts(done),
        ensures
            strings_view(out@) == normalized_exts(split_char(s@, ',')),
        decreases s.len() - pos,
    {
        let next = piece_end(&s, ',', pos);
        let piece = slice_to_vec(&s, pos, next);
        push_normalized(&mut out, &piece);
        proof {
            lemma_split_progress(s@, ',', done, pos as int, next as int);
            lemma_normalized_push(done, piece@);
            done = done.push(piece@);
        }
        if next == s.len() {
            break;
        }
        pos = next + 1;
    }
    out
}

/// The first extension that a built-in language owns.
fn find_builtin_ext(exts: &Vec<String>) -> (r: Option<usize>)
    ensures
        r matches Some(i) ==> i < exts.len() && first_builtin_ext(strings_view(exts@)) == Some(
            exts@[i as int]@,
        ),
        r is None ==> first_builtin_ext(strings_view(exts@)) is None,
{
    let ghost all = strings_view(exts@);
    let mut i: usize = 0;
    assert(all.skip(0) == all);
    while i < exts.len()
        invariant
            i <= exts.len(),
            all == strings_view(exts@),
            first_builtin_ext(all) == first_builtin_ext(all.skip(i as int)),
        decreases exts.len() - i,
    {
        assert(all.skip(i as int)[0] == exts@[i as int]@);
        assert(all.skip(i as int).drop_first() == all.skip(i + 1));
        if Language::static_from_extension(exts[i].as_str()).is_some() {
            return Some(i);
        }
        i = i + 1;
    }
    assert(all.skip(i as int).len() == 0);
    None
}

/// Validate a grammar `name` and raw comma-separated `raw_extensions`,
/// returning the normalized (trimmed, dot-stripped, lowercased, non-empty)
/// extensions.
///
/// Rejected, in this order: a name that is (or aliases) a built-in language,
/// a list without a usable extension, and an extension a built-in owns.
pub fn validate_name_and_extensions(name: &str, raw_extensions: &str) -> (r: Result<Vec<String>>)
    ensures
        validate_spec(name@, raw_extensions@) matches Ok(exts) ==> (r matches Ok(v)
            && strings_view(v@) == exts),
        validate_spec(name@, raw_extensions@) matches Err(msg) ==> (r matches Err(Error::Input(m))
            && m@ == msg),
{
    if Language::static_from_name(name).is_some() {
        let mut m: Vec<char> = Vec::new();
        push_str(&mut m, "Invalid grammar name '");
        push_str(&mut m, name);
        push_str(&mut m, "': it is (or aliases) a built-in language and would never resolve");
        return Err(Error::Input(string_of(&m)));
    }
    let extensions = normalize_extensions(raw_extensions);
    if extensions.len() == 0 {
        let mut m: Vec<char> = Vec::new();
        push_str(&mut m, "No valid extensions given: provide a comma-separated list like `lua,luau`");
        return Err(Error::Input(string_of(&m)));
    }
    match find_builtin_ext(&extensions) {
        Some(i) => {
            let mut m: Vec<char> = Vec::new();
            push_str(&mut m, "Extension '.");
            push_str(&mut m, extensions[i].as_str());
            push_str(
                &mut m,
                "' is owned by a built-in language and can't be claimed by a dynamic grammar",
            );
            Err(Error::Input(string_of(&m)))
        },
        None => Ok(extensions),
    }
}

/// The error when no name is known.
pub open spec fn missing_name_message() -> Seq<char> {
    "could not determine the language name; pass --name explicitly"@
}

/// The error when no extensions are known.
pub open spec fn missing_extensions_message() -> Seq<char> {
    "could not determine file extensions; pass --extensions (they are required for a local file)"@
}

/// The name and normalized extensions an install uses: the overrides win
/// over what the source reported; both must be known, then
/// [`validate_name_and_extensions`] decides. Runs before any file is
/// written.
pub fn install_metadata(
    overrides: InstallOverrides,
    source_name: Option<String>,
    source_extensions: Option<String>,
) -> (r: Result<(String, Vec<String>)>)
    ensures
        ({
            let name = match overrides.name {
                Some(n) => Some(n),
                None => source_name,
            };
            let raw = match overrides.extensions {
                Some(e) => Some(e),
                None => source_extensions,
            };
            &&& name is None ==> (r matches Err(Error::Input(m)) && m@ == missing_name_message())
            &&& name is Some && raw is None ==> (r matches Err(Error::Input(m)) && m@
                == missing_extensions_message())
            &&& name is Some && raw is Some ==> match validate_spec(
                name.unwrap()@,
                raw.unwrap()@,
            ) {
                Ok(exts) => r matches Ok((n, v)) && n@ == name.unwrap()@ && strings_view(v@) == exts,
                Err(msg) => r matches Err(Error::Input(m)) && m@ == msg,
            }
        }),
{
    let name = match overrides.name {
        Some(n) => n,
        None => match source_name {
            Some(n) => n,
            None => {
                let mut m: Vec<char> = Vec::new();
                push_str(&mut m, "could not determine the language name; pass --name explicitly");
                return Err(Error::Input(string_of(&m)));
            },
        },
    };
    let raw = match overrides.extensions {
        Some(e) => e,
        None => match source_extensions {
            Some(e) => e,
            None => {
                let mut m: Vec<char> = Vec::new();
                push_str(
                    &mut m,
                    "could not determine file extensions; pass --extensions (they are required for a local file)",
                );
                return Err(Error::Input(string_of(&m)));
            },
        },
    };
    match validate_name_and_extensions(name.as_str(), raw.as_str()) {
        Ok(exts) => Ok((name, exts)),
        Err(e) => Err(e),
    }
}

} // verus!
