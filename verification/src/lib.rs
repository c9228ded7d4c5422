//! Core logic of a minimal multi-client line-oriented chat relay.
//!
//! The library holds everything that can be verified: the id counter, the
//! session registry (id -> display name), the rendering of chat lines and of
//! the welcome text, the per-line message-handling rule (nickname command vs.
//! chat broadcast), the per-session event step with its self-exclusion rule,
//! and an in-memory model of the broadcast fan-out. The surrounding program
//! (socket accept loop, async reads and writes, the real broadcast channel)
//! lives outside the library and only carries events in and actions out.

pub mod bus;
pub mod registry;
pub mod server;
pub mod session;
pub mod text;
