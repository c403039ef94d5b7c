//! Opening a terminal-multiplexer workspace: a session, a window and its panes
//! bound to a directory.
//!
//! The library holds the decisions. It names sessions, windows and panes, reads
//! a view of the server's state, and says which primitive operation comes next.
//! Performing the operations is left to the caller.

pub mod args;
pub mod client;
pub mod engine;
pub mod layout;
pub mod listing;
pub mod names;
pub mod repo;
pub mod runs;
pub mod select;
pub mod snapshot;
pub mod target;
pub mod workspace;
