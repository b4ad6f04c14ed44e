//! The on-disk install-swap protocol: the file names and lock semantics that
//! the grammar installer and the registry's recovery pass agree on.
//!
//! Installing a grammar is a move-aside / rename-in / drop-backup sequence
//! that isn't atomic across a crash. To let a later run recover an
//! interrupted swap, both sides share a fixed naming scheme
//! (`.staging-<name>-<pid>`, `.bak-<name>`, `.lock-<name>`) and one
//! definition of when a lock is stale.
//!
//! Paths are handled as text: a path is joined to a file name with `/`.

use vstd::prelude::*;

use crate::numbers::{decimal, push_usize};
use crate::text::{chars_of, push_str, string_of, strip_prefix, strip_prefix_str};

verus! {

/// How long, in seconds, a `.lock-<name>` install lock is honored before it
/// is treated as orphaned (from a killed installer) and reaped.
pub const INSTALL_LOCK_TIMEOUT_SECS: u64 = 10;

/// Filename prefix for the deterministic move-aside backup of an install
/// being replaced.
pub const BACKUP_PREFIX: &'static str = ".bak-";

/// `dir` joined with the file name `name`: `dir/name`, with no second `/`
/// when `dir` already ends in one, and `name` alone for an empty `dir`.
pub open spec fn join_spec(dir: Seq<char>, name: Seq<char>) -> Seq<char> {
    if dir.len() == 0 {
        name
    } else if dir.last() == '/' {
        dir + name
    } else {
        dir + "/"@ + name
    }
}

/// The last `/`-separated component of a path.
pub open spec fn last_component(path: Seq<char>) -> Seq<char>
    decreases path.len(),
{
    if path.len() == 0 {
        path
    } else if path.last() == '/' {
        seq![]
    } else {
        last_component(path.drop_last()).push(path.last())
    }
}

/// The grammar name a `.bak-<name>` entry holds.
pub open spec fn backup_name_spec(file_name: Seq<char>) -> Option<Seq<char>> {
    strip_prefix(file_name, ".bak-"@)
}

/// Join a directory and a file name.
pub fn join_path(dir: &str, name: &[char]) -> (r: String)
    ensures
        r@ == join_spec(dir@, name@),
{
    let mut out = chars_of(dir);
    if out.len() > 0 && out[out.len() - 1] != '/' {
        out.push('/');
    }
    let ghost before = out@;
    crate::text::push_chars(&mut out, name);
    proof {
        if dir@.len() > 0 && dir@.last() != '/' {
            assert(before == dir@ + "/"@) by {
                reveal_strlit("/");
                assert(before =~= dir@ + "/"@);
            }
        }
    }
    string_of(&out)
}

/// Recover the grammar `name` from a `.bak-<name>` entry, if `file_name` is
/// one.
pub fn backup_name(file_name: &str) -> (r: Option<String>)
    ensures
        r matches Some(n) ==> backup_name_spec(file_name@) == Some(n@),
        r is None <==> backup_name_spec(file_name@) is None,
{
    let cs = chars_of(file_name);
    match strip_prefix_str(&cs, BACKUP_PREFIX) {
        Some(rest) => Some(string_of(&rest)),
        None => None,
    }
}

/// Per-name exclusive-install lock path: `<cache>/.lock-<name>`.
pub fn lock_path(grammar_dir: &str, safe_name: &str) -> (r: String)
    ensures
        r@ == join_spec(grammar_dir@, ".lock-"@ + safe_name@),
{
    let mut n: Vec<char> = Vec::new();
    push_str(&mut n, ".lock-");
    push_str(&mut n, safe_name);
    join_path(grammar_dir, &n)
}

/// Deterministic backup path for an install being replaced:
/// `<cache>/.bak-<name>`. It is not pid-suffixed: if the process dies
/// mid-swap, the next run must find and restore this exact path.
pub fn backup_path(grammar_dir: &str, safe_name: &str) -> (r: String)
    ensures
        r@ == join_spec(grammar_dir@, ".bak-"@ + safe_name@),
{
    let mut n: Vec<char> = Vec::new();
    push_str(&mut n, BACKUP_PREFIX);
    push_str(&mut n, safe_name);
    join_path(grammar_dir, &n)
}

/// Unique staging path for a name's in-progress install:
/// `<cache>/.staging-<name>-<pid>`.
pub fn staging_path(grammar_dir: &str, safe_name: &str, pid: u32) -> (r: String)
    ensures
        r@ == join_spec(grammar_dir@, ".staging-"@ + safe_name@ + "-"@ + decimal(pid as nat)),
{
    let mut n: Vec<char> = Vec::new();
    push_str(&mut n, ".staging-");
    push_str(&mut n, safe_name);
    push_str(&mut n, "-");
    push_usize(&mut n, pid as usize);
    join_path(grammar_dir, &n)
}

/// Whether a lock is stale after `timeout_nanos`: its age (nanoseconds since
/// its modification time) is known and exceeds the timeout. A lock whose age
/// can't be read is fresh, so a live installer is never reaped.
pub fn lock_is_stale_after(age_nanos: Option<u128>, timeout_nanos: u128) -> (b: bool)
    ensures
        b == (age_nanos matches Some(a) && a > timeout_nanos),
{
    match age_nanos {
        Some(a) => a > timeout_nanos,
        None => false,
    }
}

/// Whether a lock is stale: older than [`INSTALL_LOCK_TIMEOUT_SECS`].
pub fn lock_is_stale(age_nanos: Option<u128>) -> (b: bool)
    ensures
        b == (age_nanos matches Some(a) && a > INSTALL_LOCK_TIMEOUT_SECS * 1_000_000_000),
{
    lock_is_stale_after(age_nanos, 10_000_000_000)
}

/// The file name of a backup path is the backup entry of its grammar: the
/// recoverer's [`backup_name`] gives back the name the writer's
/// [`backup_path`] was built from, for a name without `/`.
pub proof fn lemma_backup_round_trip(dir: Seq<char>, name: Seq<char>)
    requires
        !name.contains('/'),
    ensures
        backup_name_spec(last_component(join_spec(dir, ".bak-"@ + name))) == Some(name),
{
    reveal_strlit(".bak-");
    reveal_strlit("/");
    assert(".bak-"@.len() == 5);
    assert(".bak-"@[0] == '.');
    assert(".bak-"@[1] == 'b');
    assert(".bak-"@[2] == 'a');
    assert(".bak-"@[3] == 'k');
    assert(".bak-"@[4] == '-');
    assert("/"@.len() == 1);
    assert("/"@[0] == '/');
    let file = ".bak-"@ + name;
    assert(!file.contains('/')) by {
        if file.contains('/') {
            let i = choose|i: int| 0 <= i < file.len() && file[i] == '/';
            if i >= 5 {
                assert(name[i - 5] == '/');
            }
        }
    }
    lemma_last_component_of_join(dir, file);
    assert(file.take(5) =~= ".bak-"@);
    assert(file.skip(5) =~= name);
}

/// The last component of `dir` joined with a file name without `/` is that
/// file name.
pub proof fn lemma_last_component_of_join(dir: Seq<char>, file: Seq<char>)
    requires
        !file.contains('/'),
    ensures
        last_component(join_spec(dir, file)) == file,
{
    reveal_strlit("/");
    assert("/"@.len() == 1);
    assert("/"@[0] == '/');
    let p = join_spec(dir, file);
    let prefix = p.take(p.len() - file.len());
    assert(p =~= prefix + file);
    assert(prefix.len() == 0 || prefix.last() == '/');
    lemma_last_component_suffix(prefix, file);
}

/// Appending `/`-free text to a path ending at a separator (or to nothing)
/// makes that text the last component.
pub proof fn lemma_last_component_suffix(prefix: Seq<char>, file: Seq<char>)
    requires
        !file.contains('/'),
        prefix.len() == 0 || prefix.last() == '/',
    ensures
        last_component(prefix + file) == file,
    decreases file.len(),
{
    if file.len() == 0 {
        assert(prefix + file =~= prefix);
    } else {
        let shorter = file.drop_last();
        assert(!shorter.contains('/')) by {
            if shorter.contains('/') {
                let i = choose|i: int| 0 <= i < shorter.len() && shorter[i] == '/';
                assert(file[i] == '/');
            }
        }
        assert(file.last() != '/') by {
            assert(file[file.len() - 1] == file.last());
        }
        lemma_last_component_suffix(prefix, shorter);
        assert((prefix + file).drop_last() =~= prefix + shorter);
        assert(shorter.push(file.last()) =~= file);
    }
}

} // verus!
