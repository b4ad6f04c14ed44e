//! External subcommand dispatch (Git/Cargo plugin model).
//!
//! A `codemark <subcommand>` that isn't a built-in command is dispatched to
//! an external executable named `codemark-<subcommand>`, forwarding all
//! trailing arguments, the way `git foo` runs `git-foo`. The decisions are
//! here; launching the executable is the caller's.

use vstd::prelude::*;

use crate::text::{chars_of, eq_str, push_str, string_of};

verus! {

/// Executable backing the `tui` subcommand. Special-cased only to provide a
/// friendlier "not installed" hint, since it's an optional component.
pub const TUI_EXECUTABLE: &'static str = "codemark-tui";

/// Exit code when the external executable cannot be found (the shell's 127,
/// "command not found").
pub const EXIT_NOT_FOUND: i32 = 127;

/// Exit code when the executable exists but could not be launched (the
/// shell's 126, "cannot execute").
pub const EXIT_LAUNCH_FAILED: i32 = 126;

/// A failure to dispatch an external subcommand: a user-facing message
/// (printed verbatim to stderr) and the process exit code.
#[derive(Debug)]
pub struct DispatchError {
    pub message: String,
    pub code: i32,
}

/// The executable for a subcommand: `codemark-<subcommand>`.
pub open spec fn executable_name_spec(subcommand: Seq<char>) -> Seq<char> {
    "codemark-"@ + subcommand
}

/// The "executable not found" message, special-casing the TUI.
pub open spec fn not_found_message_spec(exe: Seq<char>, subcommand: Seq<char>) -> Seq<char> {
    if exe == "codemark-tui"@ {
        "The TUI is not installed.\n\nInstall it with:\n\n    cargo install "@ + exe
    } else {
        "Unknown command: "@ + subcommand
            + "\n\nNo built-in command or external executable named:\n\n    "@ + exe
    }
}

/// The message for an executable that exists but could not be launched.
pub open spec fn launch_failed_message_spec(exe: Seq<char>, err: Seq<char>) -> Seq<char> {
    "codemark: failed to launch "@ + exe + ": "@ + err
}

/// Resolve the external executable name for a subcommand, per the plugin
/// convention `codemark-<subcommand>`.
pub fn executable_name(subcommand: &str) -> (r: String)
    ensures
        r@ == executable_name_spec(subcommand@),
{
    let mut m: Vec<char> = Vec::new();
    push_str(&mut m, "codemark-");
    push_str(&mut m, subcommand);
    string_of(&m)
}

/// The subcommand and its forwarded arguments of an external command's
/// parts (`codemark <subcommand> <args>...`); `None` for no parts.
pub fn split_external(parts: &[String]) -> (r: Option<(&String, &[String])>)
    ensures
        parts@.len() == 0 ==> r is None,
        parts@.len() > 0 ==> (r matches Some((s, rest)) && *s == parts@[0] && rest@
            == parts@.skip(1)),
{
    if parts.len() == 0 {
        None
    } else {
        let rest = crate::cli::external::tail_slice(parts);
        Some((&parts[0], rest))
    }
}

/// The parts after the first.
fn tail_slice(parts: &[String]) -> (r: &[String])
    requires
        parts@.len() > 0,
    ensures
        r@ == parts@.skip(1),
{
    let (_, rest) = parts.split_at(1);
    assert(parts@.subrange(1, parts@.len() as int) == parts@.skip(1));
    rest
}

/// Turn a spawn/exec failure into a user-facing [`DispatchError`]:
/// "not found" (`not_found`, the error's kind) gives the install or
/// unknown-command hint and 127; any other failure, described by
/// `err_text`, gives 126.
pub fn spawn_error(not_found: bool, err_text: &str, exe: &str, subcommand: &str) -> (r:
    DispatchError)
    ensures
        not_found ==> r.message@ == not_found_message_spec(exe@, subcommand@) && r.code
            == EXIT_NOT_FOUND,
        !not_found ==> r.message@ == launch_failed_message_spec(exe@, err_text@) && r.code
            == EXIT_LAUNCH_FAILED,
{
    if not_found {
        DispatchError { message: not_found_message(exe, subcommand), code: EXIT_NOT_FOUND }
    } else {
        let mut m: Vec<char> = Vec::new();
        push_str(&mut m, "codemark: failed to launch ");
        push_str(&mut m, exe);
        push_str(&mut m, ": ");
        push_str(&mut m, err_text);
        DispatchError { message: string_of(&m), code: EXIT_LAUNCH_FAILED }
    }
}

/// Build the "executable not found" message, special-casing the TUI so it
/// points users at the right install command.
pub fn not_found_message(exe: &str, subcommand: &str) -> (r: String)
    ensures
        r@ == not_found_message_spec(exe@, subcommand@),
{
    let e = chars_of(exe);
    let mut m: Vec<char> = Vec::new();
    if eq_str(&e, TUI_EXECUTABLE) {
        push_str(&mut m, "The TUI is not installed.\n\nInstall it with:\n\n    cargo install ");
        push_str(&mut m, exe);
    } else {
        push_str(&mut m, "Unknown command: ");
        push_str(&mut m, subcommand);
        push_str(&mut m, "\n\nNo built-in command or external executable named:\n\n    ");
        push_str(&mut m, exe);
    }
    string_of(&m)
}

} // verus!
