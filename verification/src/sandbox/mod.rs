//! Where an agent's commands and file operations take place.
pub mod bash;
pub mod config;
pub mod docker;
pub mod files;
pub mod host;
pub mod resolve;
pub mod shell;
