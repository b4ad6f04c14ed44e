//! Resolving a grammar from a source into installable bytes and metadata.
//!
//! The only source today is a local, compiled `.wasm` file
//! (`codemark languages add`). The caller opens and reads it; the checks on
//! what was read are here.

use vstd::prelude::*;

use crate::error::{Error, Result};
use crate::numbers::{decimal, push_usize};
use crate::text::{push_str, string_of};

verus! {

/// A JSON value, carried through unread.
#[verifier::external_type_specification]
#[verifier::external_body]
pub struct ExJsonValue(serde_json::Value);

/// Cap on a local `grammar.wasm` (32 MiB). Real grammars are well under
/// this; a larger file means a wrong or corrupt artifact.
pub const MAX_WASM_BYTES: u64 = 33554432;

/// A grammar resolved from some source, ready to install.
#[derive(Debug)]
pub struct ResolvedGrammar {
    /// The language name to install under (may be overridden by the caller).
    pub name: Option<String>,
    /// Raw, comma-separated extensions as the source reported them (may be
    /// overridden by the caller).
    pub raw_extensions: Option<String>,
    /// Curated structural profile to write into the manifest; `None` means
    /// an empty profile.
    pub profile: Option<serde_json::Value>,
    /// The grammar's `grammar.wasm` bytes.
    pub wasm: WasmPayload,
}

/// Where a resolved grammar's `grammar.wasm` bytes come from.
#[derive(Debug)]
pub enum WasmPayload {
    /// Already in hand (a local `add`).
    Bytes(Vec<u8>),
}

impl WasmPayload {
    /// Materialize the bytes.
    pub fn into_bytes(self) -> (r: Result<Vec<u8>>)
        ensures
            r matches Ok(b) && (self matches WasmPayload::Bytes(v) && b@ == v@),
    {
        match self {
            WasmPayload::Bytes(b) => Ok(b),
        }
    }
}

/// Options that steer resolving a grammar beyond the bare spec.
#[derive(Debug, Clone, Copy)]
pub struct ResolveOptions<'a> {
    /// The caller's `--name` override; unused by the local-file source.
    pub requested_name: Option<&'a str>,
}

impl<'a> Default for ResolveOptions<'a> {
    /// No options.
    fn default() -> (r: ResolveOptions<'a>)
        ensures
            r.requested_name is None,
    {
        ResolveOptions { requested_name: None }
    }
}

/// A grammar on the local filesystem as a compiled `.wasm`. It carries no
/// metadata beyond the bytes, so name and extensions come from the caller.
#[derive(Debug)]
pub struct LocalFileSource;

impl LocalFileSource {
    /// The grammar a local file resolves to, from the bytes that
    /// [`check_wasm_metadata`] and [`check_wasm_read`] accepted: no name, no
    /// extensions, no profile.
    pub fn resolve_path(&self, bytes: Vec<u8>) -> (r: Result<ResolvedGrammar>)
        ensures
            r matches Ok(g) && g.name is None && g.raw_extensions is None && g.profile is None
                && (g.wasm matches WasmPayload::Bytes(b) && b@ == bytes@),
    {
        Ok(
            ResolvedGrammar {
                name: None,
                raw_extensions: None,
                profile: None,
                wasm: WasmPayload::Bytes(bytes),
            },
        )
    }
}

/// The error for a path that is not a regular file.
pub open spec fn not_regular_message(path: Seq<char>) -> Seq<char> {
    path + " is not a regular file — pass a compiled .wasm grammar"@
}

/// The error for a file whose metadata gives a size over the cap.
pub open spec fn too_large_message(path: Seq<char>, len: nat) -> Seq<char> {
    path + " is too large ("@ + decimal(len) + " bytes, limit "@ + decimal(MAX_WASM_BYTES as nat)
        + ")"@
}

/// The error for a read that went past the cap.
pub open spec fn grew_message(path: Seq<char>) -> Seq<char> {
    path + " is too large (exceeds limit "@ + decimal(MAX_WASM_BYTES as nat) + " bytes)"@
}

/// Check the opened file's metadata: it must be a regular file of at most
/// [`MAX_WASM_BYTES`] bytes. `path` is the path as displayed.
pub fn check_wasm_metadata(path: &str, is_file: bool, len: u64) -> (r: Result<()>)
    ensures
        !is_file ==> (r matches Err(Error::Input(m)) && m@ == not_regular_message(path@)),
        is_file && len > MAX_WASM_BYTES ==> (r matches Err(Error::Input(m)) && m@
            == too_large_message(path@, len as nat)),
        is_file && len <= MAX_WASM_BYTES ==> r is Ok,
{
    if !is_file {
        let mut m: Vec<char> = Vec::new();
        push_str(&mut m, path);
        push_str(&mut m, " is not a regular file — pass a compiled .wasm grammar");
        return Err(Error::Input(string_of(&m)));
    }
    if len > MAX_WASM_BYTES {
        let mut m: Vec<char> = Vec::new();
        push_str(&mut m, path);
        push_str(&mut m, " is too large (");
        crate::numbers::push_u64(&mut m, len);
        push_str(&mut m, " bytes, limit ");
        crate::numbers::push_u64(&mut m, MAX_WASM_BYTES);
        push_str(&mut m, ")");
        return Err(Error::Input(string_of(&m)));
    }
    Ok(())
}

/// Check the number of bytes read through a reader capped at one byte over
/// [`MAX_WASM_BYTES`]: more than the cap means the file grew after it was
/// checked.
pub fn check_wasm_read(path: &str, read_len: usize) -> (r: Result<()>)
    ensures
        read_len > MAX_WASM_BYTES ==> (r matches Err(Error::Input(m)) && m@ == grew_message(path@)),
        read_len <= MAX_WASM_BYTES ==> r is Ok,
{
    if read_len as u64 > MAX_WASM_BYTES {
        let mut m: Vec<char> = Vec::new();
        push_str(&mut m, path);
        push_str(&mut m, " is too large (exceeds limit ");
        crate::numbers::push_u64(&mut m, MAX_WASM_BYTES);
        push_str(&mut m, " bytes)");
        return Err(Error::Input(string_of(&m)));
    }
    Ok(())
}

} // verus!
