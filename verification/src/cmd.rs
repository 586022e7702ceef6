//! The subcommands.
pub mod config;
pub mod pull;
pub mod status;
