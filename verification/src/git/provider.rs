//! What the git commands of a git provider report: the commit a reference
//! resolves to (`git rev-parse`), or the files of a commit (`git ls-tree -r
//! --name-only`). The caller runs the command and hands over whether it
//! succeeded and what it printed.

use vstd::prelude::*;

use crate::error::{Error, Result};
use crate::text::{chars_of, lines_of, push_str, str_lines, string_of, strings_view, trim, trimmed};

verus! {

/// The message of a failed `git rev-parse`.
pub open spec fn resolve_failed_message(reference: Seq<char>, stderr: Seq<char>) -> Seq<char> {
    "failed to resolve ref "@ + reference + ": "@ + stderr
}

/// The message of a failed `git ls-tree`.
pub open spec fn list_failed_message(commit: Seq<char>, stderr: Seq<char>) -> Seq<char> {
    "failed to list files for "@ + commit + ": "@ + stderr
}

/// What `git rev-parse <reference>` reported: the trimmed commit id it
/// printed, or a git error with what it printed on its error stream.
pub fn resolve_ref_outcome(reference: &str, succeeded: bool, stdout: &str, stderr: &str) -> (r:
    Result<String>)
    ensures
        succeeded ==> (r matches Ok(sha) && sha@ == trim(stdout@)),
        !succeeded ==> (r matches Err(Error::Git(m)) && m@ == resolve_failed_message(
            reference@,
            stderr@,
        )),
{
    if !succeeded {
        let mut m: Vec<char> = Vec::new();
        push_str(&mut m, "failed to resolve ref ");
        push_str(&mut m, reference);
        push_str(&mut m, ": ");
        push_str(&mut m, stderr);
        return Err(Error::Git(string_of(&m)));
    }
    let out = chars_of(stdout);
    let sha = trimmed(&out);
    Ok(string_of(&sha))
}

/// What `git ls-tree -r --name-only <commit>` reported: the paths it
/// printed, one per line, or a git error with what it printed on its error
/// stream.
pub fn list_files_outcome(commit: &str, succeeded: bool, stdout: &str, stderr: &str) -> (r: Result<
    Vec<String>,
>)
    ensures
        succeeded ==> (r matches Ok(files) && strings_view(files@) == str_lines(stdout@)),
        !succeeded ==> (r matches Err(Error::Git(m)) && m@ == list_failed_message(
            commit@,
            stderr@,
        )),
{
    if !succeeded {
        let mut m: Vec<char> = Vec::new();
        push_str(&mut m, "failed to list files for ");
        push_str(&mut m, commit);
        push_str(&mut m, ": ");
        push_str(&mut m, stderr);
        return Err(Error::Git(string_of(&m)));
    }
    Ok(lines_of(stdout))
}

} // verus!
