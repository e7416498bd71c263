//! A personal playtime tracker: a registry of named applications, each with a
//! ledger of recorded play sessions, and the rules that aggregate and record
//! those sessions.
pub mod args;
pub mod error;
pub mod config;
pub mod span;
pub mod zoned;
