//! Command-line logic that does not need the terminal: external subcommand
//! dispatch and the argument parsers of the command handlers.

pub mod external;
pub mod lines;
pub mod handlers;
pub mod auth;
pub mod editor;
pub mod login;
pub mod pull;
