//! Verified core of a desktop supervisor that runs many concurrent
//! AI-assistant sessions against one Git repository.
//!
//! The crate covers the supervisor's logic: a streaming UTF-8 decoder for
//! terminal output, the session registry and id allocation, worktree path
//! derivation and the preparation state machine, the process-tree inspector,
//! the atomic per-directory config merge, the status ingress routing rules,
//! and the sidecar's line protocol decisions.  All I/O (PTY, subprocesses,
//! files, HTTP) stays outside, in the application shell that drives this
//! library.

pub mod decimal;
pub mod config_writer;
pub mod errors;
pub mod fonts;
pub mod gitmodel;
pub mod plugin_model;
pub mod githubmodel;
pub mod hashing;
pub mod mcp_model;
pub mod process_tree;
pub mod pty_core;
pub mod registry;
pub mod sidecar;
pub mod status_server;
pub mod strutil;
pub mod utf8_stream;
pub mod worktree;
