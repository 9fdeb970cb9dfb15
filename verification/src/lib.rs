//! A cache for the secrets that the 1Password `op` binary reads: what is cached and
//! for how long, what the daemon that holds it answers, how a `read` goes through
//! it, and how it is configured.

pub mod cache;
pub mod cli;
pub mod client;
pub mod config;
pub mod daemon;
pub mod notes;
pub mod op;
pub mod overrides;
pub mod prompt;
pub mod protocol;
pub mod report;
pub mod resolve;
pub mod settings;
pub mod spans;
pub mod style;
pub mod text;
pub mod time;
pub mod wizard;
