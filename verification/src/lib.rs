//! Orchestration of a tool-using conversation with a streamed completion
//! service: frame parsing, turn accumulation, capability dispatch and the
//! loop that ties them together, with every rule stated as a contract.

pub mod accumulator;
pub mod frame;
pub mod json;
pub mod laws;
pub mod message;
pub mod orchestrator;
pub mod search;
pub mod text;
pub mod tools;
pub mod wire;
pub mod workspace;
