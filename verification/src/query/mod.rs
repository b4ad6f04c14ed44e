//! Query helpers: node classification.

pub mod classifier;
pub mod matcher;
pub mod relaxer;
pub mod summarizer;
