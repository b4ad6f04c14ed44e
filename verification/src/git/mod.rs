//! Git-related helpers: remote URL parsing, forge identification, and what
//! the git commands behind a git provider report.

pub mod forge;
pub mod provider;
pub mod remote;
