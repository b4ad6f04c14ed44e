//! Structural bookmarks for source code: the data model, the health and
//! status rules, and the text handling that the command line and the
//! dashboard share.

pub mod cli;
pub mod embeddings;
pub mod engine;
pub mod error;
pub mod git;
pub mod grammar;
pub mod numbers;
pub mod parser;
pub mod pattern;
pub mod query;
pub mod sort;
pub mod text;

use vstd::prelude::*;

verus! {

/// The Codetours server used when none is named (as by `auth login`).
pub const DEFAULT_SERVER_URL: &'static str = "https://codetours.fly.dev";

} // verus!
