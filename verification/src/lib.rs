//! Verified core of `unipac`, a front end that drives package-manager plugins.
pub mod args;
pub mod cli;
pub mod commands;
pub mod config;
pub mod dummy;
pub mod package;
pub mod plugin;
pub mod protocol;
pub mod shared;
pub mod table;
pub mod text;
