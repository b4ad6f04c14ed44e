//! Semantic search configuration and the text that embeddings are made of.

pub mod config;
pub mod provider;
