//! The agent runtime: what a conversation turn does, step by step.
pub mod acp;
pub mod acp_turn;
pub mod background;
pub mod bot;
pub mod budget;
pub mod builder;
pub mod content_log;
pub mod delegates;
pub mod effective;
pub mod environment;
pub mod lowering;
pub mod markers;
pub mod memory;
pub mod options;
pub mod pinned;
pub mod preparation;
pub mod prompting;
pub mod recorder;
pub mod round;
pub mod round_run;
pub mod rounds;
pub mod snapshot;
pub mod steer;
pub mod subagent;
pub mod subagent_turn;
pub mod supervisor;
pub mod supervisor_node;
pub mod tools;
pub mod turn;
pub mod turn_input;
pub mod turn_laws;
pub mod workflow_turn;
