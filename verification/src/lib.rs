//! Verified core of the PocketFlow workflow framework: state machines, flow
//! engines, agent and cognitive data structures, and the decision logic that
//! drives them.

pub mod agent_error;
pub mod agent_types;
pub mod cognitive;
pub mod error;
pub mod multi_agent;
pub mod plan_parsing;
pub mod planning;
pub mod execution;
pub mod flow_advanced;
pub mod json;
pub mod mcp;
pub mod memory;
pub mod flow_simple;
pub mod state;
pub mod streaming;
pub mod table;
pub mod text;
