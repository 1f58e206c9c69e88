//! Skills: instructions that are kept in files and loaded when they are needed.
pub mod builtin;
pub mod laws;
pub mod markdown;
pub mod names;
pub mod ranking;
pub mod scan;
pub mod store;
pub mod tools;
pub mod types;
