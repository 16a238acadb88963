//! A line-oriented JSON-RPC tool server for a note vault.
//!
//! The crate holds the verified core of the server: a JSON codec for the
//! wire format, the request dispatcher with its session state machine, a
//! registry of callable tools, and the vault writer's decision logic
//! (filename validation, path containment, no-clobber).  All file and
//! stream I/O is performed by the embedding program, which feeds the
//! results of its filesystem probes back into the decision functions.

pub mod config;
pub mod json;
pub mod registry;
pub mod rpc;
pub mod server;
pub mod tools;
pub mod vault;
