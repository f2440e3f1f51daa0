//! Data model of the Git collaborator.
//!
//! The supervisor shells out for every Git operation; running `git` is I/O
//! and lives in the application shell.  This module holds the typed values
//! that cross that boundary — branches, worktrees, commits, file changes,
//! remotes — and the verified helpers on captured command output.

use vstd::prelude::*;
use crate::strutil::{nonempty_lines, split_nonempty_lines};

verus! {

/// A local or remote branch.  Remote branches have names like
/// `origin/main`; synthetic `HEAD` pointer entries never appear.
#[derive(Clone, Debug)]
pub struct BranchInfo {
    pub name: String,
    pub is_remote: bool,
    pub is_current: bool,
}

impl BranchInfo {
    /// An exact copy of the record.
    pub fn duplicate(&self) -> (r: BranchInfo)
        ensures
            r == *self,
    {
        BranchInfo {
            name: self.name.clone(),
            is_remote: self.is_remote,
            is_current: self.is_current,
        }
    }
}

/// Metadata for a single git worktree.  `branch` is `None` for detached
/// HEAD states; the main worktree is the repository's own checkout and is
/// never reused by the orchestrator.
#[derive(Clone, Debug)]
pub struct WorktreeInfo {
    pub path: String,
    pub head: String,
    pub branch: Option<String>,
    pub is_bare: bool,
    pub is_main_worktree: bool,
}

/// A single commit entry.  `parent_hashes` is empty for root commits;
/// `timestamp` is a Unix epoch value; `summary` is the first message line.
#[derive(Clone, Debug)]
pub struct CommitInfo {
    pub hash: String,
    pub short_hash: String,
    pub parent_hashes: Vec<String>,
    pub author_name: String,
    pub author_email: String,
    pub timestamp: i64,
    pub summary: String,
}

/// The type of change made to a file in a commit.
#[derive(Clone, Copy, Debug, PartialEq, Eq, Structural)]
pub enum FileChangeStatus {
    Added,
    Modified,
    Deleted,
    Renamed,
    Copied,
    Unknown,
}

/// A file changed in a commit; `old_path` is set for renames and copies.
#[derive(Clone, Debug)]
pub struct FileChange {
    pub path: String,
    pub status: FileChangeStatus,
    pub old_path: Option<String>,
}

/// Git user configuration (name and email), either may be unset.
#[derive(Clone, Debug)]
pub struct GitUserConfig {
    pub name: Option<String>,
    pub email: Option<String>,
}

/// A configured git remote.
#[derive(Clone, Debug)]
pub struct RemoteInfo {
    pub name: String,
    pub url: String,
}

/// A detected git repository within a workspace.
#[derive(Clone, Debug)]
pub struct RepositoryInfo {
    /// Absolute path to the repository root.
    pub path: String,
    /// Display name (folder name).
    pub name: String,
    /// Current branch name, if available.
    pub current_branch: Option<String>,
    /// Primary remote URL (origin, or first remote if no origin).
    pub remote_url: Option<String>,
}

/// Captured stdout/stderr from a completed git subprocess.
#[derive(Debug)]
pub struct GitOutput {
    pub stdout: String,
    pub stderr: String,
}

impl GitOutput {
    /// Splits stdout into lines, dropping blank ones.
    pub fn lines(&self) -> (r: Vec<String>)
        ensures
            r.deep_view() == nonempty_lines(self.stdout@),
    {
        split_nonempty_lines(self.stdout.as_str())
    }

    /// Stdout with leading and trailing ASCII whitespace removed.
    pub fn trimmed(&self) -> (r: String)
        ensures
            r@ == crate::strutil::trim_spec(self.stdout@),
    {
        crate::strutil::trim_ascii(self.stdout.as_str())
    }
}

/// Low-level git command runner bound to a repository path.  The
/// application shell invokes `git -C <repo> …` for it; the library only
/// carries the target path.
#[derive(Clone, Debug)]
pub struct Git {
    repo_path: String,
}

impl Git {
    /// The repository path this runner targets.
    pub closed spec fn spec_repo_path(&self) -> Seq<char> {
        self.repo_path@
    }

    /// Creates a runner targeting the given repository directory.
    pub fn new(repo_path: String) -> (r: Self)
        ensures
            r.spec_repo_path() == repo_path@,
    {
        Git { repo_path }
    }

    /// The repository path this runner targets.
    pub fn repo_path(&self) -> (r: &str)
        ensures
            r@ == self.spec_repo_path(),
    {
        self.repo_path.as_str()
    }
}

/// Returns `Err(GitError::NotARepo)` exactly when the path string is empty.
pub fn validate_repo_path(repo_path: &str) -> (r: Result<(), crate::errors::GitError>)
    ensures
        r is Ok <==> repo_path@.len() > 0,
        r is Err ==> (r->Err_0 matches crate::errors::GitError::NotARepo { path } && path@
            == Seq::<char>::empty()),
{
    if repo_path.is_empty() {
        Err(crate::errors::GitError::NotARepo { path: String::new() })
    } else {
        Ok(())
    }
}

} // verus!
