//! Verified core of a dotfile ("rice") manager.

pub mod text;
pub mod models;
pub mod index;
pub mod error;
pub mod clock;
pub mod installed;
pub mod paths;
pub mod config;
pub mod system;
pub mod backup;
pub mod deploy;
pub mod pipeline;
pub mod packages;
pub mod sorting;
pub mod registry;
pub mod ui;
pub mod cli;
pub mod git;
pub mod install_flow;
pub mod remove_flow;
