//! Core of a local multi-service process supervisor: the command-line
//! scanner, the per-process log store and its block text buffer, the events
//! that feed the store, and the decisions of the supervisor and of each
//! managed process.
pub mod block;
pub mod block_store;
pub mod command;
pub mod config;
pub mod event;
pub mod log;
pub mod memory;
pub mod process;
pub mod server;
pub mod store;
pub mod supervisor;
