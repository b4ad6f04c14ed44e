//! Languages, their structural profiles and the registry of dynamic grammars.

pub mod profile;
pub mod languages;
pub mod registry;
pub mod syntax;
