//! Data model of the GitHub CLI collaborator.
//!
//! Forge operations are shelled out to `gh` by the application shell;
//! this module holds the typed values crossing that boundary and the
//! verified helpers on captured command output.

use vstd::prelude::*;
use crate::strutil::{nonempty_lines, split_nonempty_lines, trim_spec, trim_ascii};

verus! {

/// Authentication state reported by `gh auth status`.
#[derive(Clone, Debug)]
pub struct AuthStatus {
    pub logged_in: bool,
    pub username: Option<String>,
    pub scopes: Vec<String>,
}

/// A pull request in list output.
#[derive(Clone, Debug)]
pub struct PullRequestInfo {
    pub number: u64,
    pub title: String,
    pub state: String,
    pub author: PrAuthor,
    pub created_at: String,
    pub updated_at: String,
    pub head_ref_name: String,
    pub base_ref_name: String,
    pub is_draft: bool,
    pub additions: u64,
    pub deletions: u64,
    pub url: String,
    pub labels: Vec<PrLabel>,
    pub merged_at: Option<String>,
    pub closed_at: Option<String>,
}

/// The author of a pull request, issue or comment.
#[derive(Clone, Debug)]
pub struct PrAuthor {
    pub login: String,
}

/// A label on a pull request or issue.
#[derive(Clone, Debug)]
pub struct PrLabel {
    pub name: String,
    pub color: String,
}

/// A pull request in detail output.
#[derive(Clone, Debug)]
pub struct PullRequestDetail {
    pub number: u64,
    pub title: String,
    pub body: String,
    pub state: String,
    pub author: PrAuthor,
    pub created_at: String,
    pub updated_at: String,
    pub head_ref_name: String,
    pub base_ref_name: String,
    pub is_draft: bool,
    pub additions: u64,
    pub deletions: u64,
    pub changed_files: u64,
    pub url: String,
    pub labels: Vec<PrLabel>,
    pub merged_at: Option<String>,
    pub closed_at: Option<String>,
    pub mergeable: String,
    pub review_decision: Option<String>,
    pub comments: Vec<Comment>,
}

/// An issue in list output.
#[derive(Clone, Debug)]
pub struct IssueInfo {
    pub number: u64,
    pub title: String,
    pub state: String,
    pub author: PrAuthor,
    pub created_at: String,
    pub updated_at: String,
    pub url: String,
    pub labels: Vec<PrLabel>,
    pub closed_at: Option<String>,
}

/// A discussion in list output.
#[derive(Clone, Debug)]
pub struct DiscussionInfo {
    pub number: u64,
    pub title: String,
    pub category: DiscussionCategory,
    pub author: PrAuthor,
    pub created_at: String,
    pub url: String,
    pub answer_chosen_at: Option<String>,
}

/// A discussion category.
#[derive(Clone, Debug)]
pub struct DiscussionCategory {
    pub name: String,
    pub emoji: String,
}

/// A comment on an issue or discussion.
#[derive(Clone, Debug)]
pub struct Comment {
    pub id: String,
    pub author: PrAuthor,
    pub body: String,
    pub created_at: String,
    pub updated_at: Option<String>,
    pub reactions: CommentReactions,
    pub is_answer: bool,
}

/// Reaction counts on a comment.
#[derive(Clone, Copy, Debug, PartialEq, Eq, Structural)]
pub struct CommentReactions {
    pub total_count: u64,
    pub thumbs_up: u64,
    pub thumbs_down: u64,
    pub laugh: u64,
    pub hooray: u64,
    pub confused: u64,
    pub heart: u64,
    pub rocket: u64,
    pub eyes: u64,
}

impl Default for CommentReactions {
    /// All counts start at zero.
    fn default() -> (r: Self)
        ensures
            r.total_count == 0 && r.thumbs_up == 0 && r.thumbs_down == 0 && r.laugh == 0
                && r.hooray == 0 && r.confused == 0 && r.heart == 0 && r.rocket == 0 && r.eyes
                == 0,
    {
        CommentReactions {
            total_count: 0,
            thumbs_up: 0,
            thumbs_down: 0,
            laugh: 0,
            hooray: 0,
            confused: 0,
            heart: 0,
            rocket: 0,
            eyes: 0,
        }
    }
}

/// An issue in detail output.
#[derive(Clone, Debug)]
pub struct IssueDetail {
    pub number: u64,
    pub title: String,
    pub body: String,
    pub state: String,
    pub author: PrAuthor,
    pub created_at: String,
    pub updated_at: String,
    pub url: String,
    pub labels: Vec<PrLabel>,
    pub closed_at: Option<String>,
    pub comments: Vec<Comment>,
}

/// A discussion in detail output.
#[derive(Clone, Debug)]
pub struct DiscussionDetail {
    pub number: u64,
    pub title: String,
    pub body: String,
    pub category: DiscussionCategory,
    pub author: PrAuthor,
    pub created_at: String,
    pub url: String,
    pub answer_chosen_at: Option<String>,
    pub comments: Vec<Comment>,
}

/// Filter options for listing pull requests.
#[derive(Clone, Debug)]
pub struct PullRequestFilter {
    /// `open`, `closed`, `merged`, or `all`.
    pub state: Option<String>,
    pub limit: Option<u32>,
    pub search: Option<String>,
}

impl Default for PullRequestFilter {
    /// No state, no limit, no search.
    fn default() -> (r: Self)
        ensures
            r.state is None && r.limit is None && r.search is None,
    {
        PullRequestFilter { state: None, limit: None, search: None }
    }
}

/// Filter options for listing issues.
#[derive(Clone, Debug)]
pub struct IssueFilter {
    /// `open`, `closed`, or `all`.
    pub state: Option<String>,
    pub limit: Option<u32>,
    pub search: Option<String>,
}

impl Default for IssueFilter {
    /// No state, no limit, no search.
    fn default() -> (r: Self)
        ensures
            r.state is None && r.limit is None && r.search is None,
    {
        IssueFilter { state: None, limit: None, search: None }
    }
}

/// Merge method for pull requests.
#[derive(Clone, Copy, Debug, PartialEq, Eq, Structural)]
pub enum MergeMethod {
    Merge,
    Squash,
    Rebase,
}

impl MergeMethod {
    /// The CLI flag selecting this method.
    pub fn as_flag(&self) -> (r: &'static str)
        ensures
            *self == MergeMethod::Merge ==> r@ == "--merge"@,
            *self == MergeMethod::Squash ==> r@ == "--squash"@,
            *self == MergeMethod::Rebase ==> r@ == "--rebase"@,
    {
        match self {
            MergeMethod::Merge => "--merge",
            MergeMethod::Squash => "--squash",
            MergeMethod::Rebase => "--rebase",
        }
    }
}

/// Options for creating a pull request.
#[derive(Clone, Debug)]
pub struct CreatePullRequestOptions {
    pub title: String,
    pub body: String,
    pub base: String,
    pub head: String,
    pub draft: bool,
}

/// Captured stdout/stderr from a completed `gh` subprocess.
#[derive(Debug)]
pub struct GitHubOutput {
    pub stdout: String,
    pub stderr: String,
}

impl GitHubOutput {
    /// Splits stdout into lines, dropping blank ones.
    pub fn lines(&self) -> (r: Vec<String>)
        ensures
            r.deep_view() == nonempty_lines(self.stdout@),
    {
        split_nonempty_lines(self.stdout.as_str())
    }

    /// Stdout with leading and trailing ASCII whitespace removed.
    pub fn trimmed(&self) -> (r: String)
        ensures
            r@ == trim_spec(self.stdout@),
    {
        trim_ascii(self.stdout.as_str())
    }
}

/// Low-level GitHub CLI runner bound to a repository path.  The
/// application shell invokes `gh` for it; the library only carries the
/// target path.
#[derive(Clone, Debug)]
pub struct GitHub {
    repo_path: String,
}

impl GitHub {
    /// The repository path this runner targets.
    pub closed spec fn spec_repo_path(&self) -> Seq<char> {
        self.repo_path@
    }

    /// Creates a runner targeting the given repository directory.
    pub fn new(repo_path: String) -> (r: Self)
        ensures
            r.spec_repo_path() == repo_path@,
    {
        GitHub { repo_path }
    }

    /// The repository path this runner targets.
    pub fn repo_path(&self) -> (r: &str)
        ensures
            r@ == self.spec_repo_path(),
    {
        self.repo_path.as_str()
    }
}

} // verus!
