//! Structured error taxonomy of the supervisor.
//!
//! One tagged variant set covers the process-management surface, a second
//! covers Git operations, a third the GitHub CLI, a fourth the process-tree
//! inspector, and small ones the terminal backends and status reporting.
//! Each error carries a machine-readable discriminant plus a human-readable
//! message, so callers can tell "session gone" from "write failed"
//! programmatically.

use vstd::prelude::*;
use crate::decimal::{dec_str, u32_to_string};

verus! {

/// Discriminant for PTY errors, exposed across the IPC boundary for
/// programmatic error handling.
#[derive(Clone, Copy, Debug, PartialEq, Eq, Structural)]
pub enum PtyErrorCode {
    SpawnFailed,
    SessionNotFound,
    WriteFailed,
    ResizeFailed,
    KillFailed,
    IdOverflow,
}

/// Structured PTY error with a machine-readable code and human-readable
/// message.  Constructors are provided for each variant to keep call sites
/// concise.
#[derive(Clone, Debug)]
pub struct PtyError {
    pub code: PtyErrorCode,
    pub message: String,
}

impl PtyError {
    /// PTY or shell process could not be created.
    pub fn spawn_failed(msg: String) -> (e: Self)
        ensures
            e.code == PtyErrorCode::SpawnFailed,
            e.message == msg,
    {
        PtyError { code: PtyErrorCode::SpawnFailed, message: msg }
    }

    /// No session exists with the given ID (already killed or never created).
    pub fn session_not_found(id: u32) -> (e: Self)
        ensures
            e.code == PtyErrorCode::SessionNotFound,
            e.message@ == "Session "@ + dec_str(id as nat) + " not found"@,
    {
        let mut m = String::new();
        m.append("Session ");
        let digits = u32_to_string(id);
        m.append(digits.as_str());
        m.append(" not found");
        proof {
            assert(m@ =~= "Session "@ + dec_str(id as nat) + " not found"@);
        }
        PtyError { code: PtyErrorCode::SessionNotFound, message: m }
    }

    /// Writing to the PTY stdin failed (lock poison or I/O error).
    pub fn write_failed(msg: String) -> (e: Self)
        ensures
            e.code == PtyErrorCode::WriteFailed,
            e.message == msg,
    {
        PtyError { code: PtyErrorCode::WriteFailed, message: msg }
    }

    /// PTY resize (window-change propagation) failed.
    pub fn resize_failed(msg: String) -> (e: Self)
        ensures
            e.code == PtyErrorCode::ResizeFailed,
            e.message == msg,
    {
        PtyError { code: PtyErrorCode::ResizeFailed, message: msg }
    }

    /// Session termination (signal delivery) failed.
    pub fn kill_failed(msg: String) -> (e: Self)
        ensures
            e.code == PtyErrorCode::KillFailed,
            e.message == msg,
    {
        PtyError { code: PtyErrorCode::KillFailed, message: msg }
    }

    /// Atomic session ID counter overflowed u32::MAX.
    pub fn id_overflow() -> (e: Self)
        ensures
            e.code == PtyErrorCode::IdOverflow,
            e.message@ == "Session ID counter overflowed u32::MAX"@,
    {
        let m = "Session ID counter overflowed u32::MAX";
        PtyError { code: PtyErrorCode::IdOverflow, message: m.to_owned() }
    }
}

/// All possible errors from git operations.
///
/// Variants cover the full lifecycle: binary not found, spawn failures,
/// non-zero exits, output encoding issues, and domain-specific errors like
/// duplicate worktree checkouts.
#[derive(Clone, Debug)]
pub enum GitError {
    /// The `git` binary was not found on the search path.
    GitNotFound,
    /// A git command exited with a non-zero status code.
    CommandFailed { code: i32, stderr: String, command: String },
    /// A git command was terminated by a signal before completing.
    Killed { command: String },
    /// The git process could not be spawned; carries the I/O error text.
    SpawnError { detail: String, command: String },
    /// Git produced output that is not valid UTF-8.
    InvalidUtf8,
    /// Structured output from git could not be parsed as expected.
    ParseError { message: String },
    /// The specified path is not a git repository.
    NotARepo { path: String },
    /// The target branch is already checked out in another worktree.
    BranchAlreadyCheckedOut { branch: String, path: String },
    /// The specified worktree path does not exist in git's worktree list.
    WorktreeNotFound(String),
}

/// All possible errors from GitHub CLI operations.
#[derive(Clone, Debug)]
pub enum GitHubError {
    /// The `gh` binary was not found on the search path.
    GhNotFound,
    /// The user is not authenticated; `gh auth login` is required.
    NotAuthenticated,
    /// The GitHub API rate limit was exceeded.
    RateLimitExceeded,
    /// The directory is not a GitHub-backed repository.
    NotGitHubRepo,
    /// A gh command exited with a non-zero status code.
    CommandFailed { code: i32, stderr: String, command: String },
    /// The gh process could not be spawned; carries the I/O error text.
    SpawnError { detail: String, command: String },
    /// gh produced output that is not valid UTF-8.
    InvalidUtf8,
    /// JSON from gh could not be parsed as expected.
    ParseError { message: String },
}

/// Errors from process-tree operations.
#[derive(Clone, Debug)]
pub enum ProcessError {
    /// The process with the given pid was not found.
    NotFound(u32),
    /// The pid is a session-root process; `kill_session` must be used instead.
    CannotKillRoot,
    /// Signal delivery to the process failed.
    KillFailed { pid: u32, reason: String },
}

/// Errors from terminal backend operations.
#[derive(Clone, Debug)]
pub enum TerminalError {
    InitFailed(String),
    WriteFailed(String),
    ResizeFailed(String),
    NotInitialized,
    ShutdownFailed(String),
    PtyError(String),
    FfiError(String),
}

impl TerminalError {
    /// Wraps a PTY error, keeping its message.
    pub fn from_pty_error(e: PtyError) -> (r: Self)
        ensures
            r == TerminalError::PtyError(e.message),
    {
        TerminalError::PtyError(e.message)
    }
}

/// Errors from the sidecar's status reporting.
#[derive(Clone, Debug)]
pub enum StatusError {
    /// The HTTP transport failed; carries the error text.
    HttpError(String),
    /// The endpoint answered with a non-success HTTP status.
    HttpStatus(u16),
}

} // verus!
