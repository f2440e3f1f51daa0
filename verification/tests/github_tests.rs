//! Tests for the GitHub CLI model: output helpers, merge flags, and
//! filter defaults.

use maestro_core::githubmodel::{
    GitHub, GitHubOutput, IssueFilter, MergeMethod, PullRequestFilter,
};

#[test]
fn test_github_output_lines() {
    let output = GitHubOutput {
        stdout: "line1\nline2\n\nline3\n".to_string(),
        stderr: String::new(),
    };
    assert_eq!(
        output.lines(),
        vec!["line1".to_string(), "line2".to_string(), "line3".to_string()]
    );
}

#[test]
fn test_github_output_lines_empty() {
    let output = GitHubOutput { stdout: String::new(), stderr: String::new() };
    assert!(output.lines().is_empty());
}

#[test]
fn test_github_output_trimmed() {
    let output = GitHubOutput { stdout: "  hello world  \n".to_string(), stderr: String::new() };
    assert_eq!(output.trimmed(), "hello world");
}

#[test]
fn test_github_output_crlf_lines() {
    let output = GitHubOutput { stdout: "a\r\nb\r\n".to_string(), stderr: String::new() };
    assert_eq!(output.lines(), vec!["a".to_string(), "b".to_string()]);
}

#[test]
fn test_merge_method_flag() {
    assert_eq!(MergeMethod::Merge.as_flag(), "--merge");
    assert_eq!(MergeMethod::Squash.as_flag(), "--squash");
    assert_eq!(MergeMethod::Rebase.as_flag(), "--rebase");
}

#[test]
fn test_pr_filter_default() {
    let filter = PullRequestFilter::default();
    assert!(filter.state.is_none());
    assert!(filter.limit.is_none());
    assert!(filter.search.is_none());
}

#[test]
fn test_issue_filter_default() {
    let filter = IssueFilter::default();
    assert!(filter.state.is_none());
    assert!(filter.limit.is_none());
    assert!(filter.search.is_none());
}

#[test]
fn test_github_runner_keeps_path() {
    let gh = GitHub::new("/repo".to_string());
    assert_eq!(gh.repo_path(), "/repo");
}
