//! Verified core of a chat agent: prompt assembly, skills, search queries,
//! sandbox rules and the state machines that drive a conversation turn.
pub mod error;
pub mod text_map;
pub mod json;
pub mod message;
pub mod order;
pub mod outside;
pub mod paths;
pub mod profile;
pub mod runtime;
pub mod sandbox;
pub mod search;
pub mod search_query;
pub mod skill;
pub mod text;
pub mod tokens;
pub mod workflow;
