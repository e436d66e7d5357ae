//! Dynamic DNS updating: decides when the public address of this host has
//! to be pushed to a DNS authority, and keeps the record of what was pushed.
pub mod cache;
pub mod config;
pub mod cycle;
pub mod records;
pub mod url;

pub use config::{default_duration, no, yes};
