//! The bookmark engine: domain records, health rules and resolution results.

pub mod bookmark;
pub mod breadcrumbs;
pub mod hash;
pub mod normal_text;
pub mod heal;
pub mod projection;
pub mod resolution;
pub mod snapshot;
pub mod health;
