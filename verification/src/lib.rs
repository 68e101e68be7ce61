//! Node-IDE core: the protocol, lifecycle and graph rules of a visual
//! node-edge workflow runtime, the schema migrations of its project file,
//! and the in-memory application state, each with a verified contract.
pub mod seqs;
pub mod ids;
pub mod text;
pub mod json;
pub mod runtime;
pub mod migration;
pub mod persistence;
pub mod state;
pub mod cli;
pub mod ipc;
