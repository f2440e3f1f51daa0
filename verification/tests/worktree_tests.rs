//! Tests for branch resolution, name sanitizing, fallback choice, and the
//! worktree preparation state machine.

use maestro_core::gitmodel::{BranchInfo, WorktreeInfo};
use maestro_core::worktree::{
    choose_fallback_branch, derive_worktree_path, ensure_branch_plan, find_reusable_worktree,
    prepare_start, prepare_step, resolve_local_branch_name, sanitize_branch, BranchPlan,
    PrepareAction, PrepareEvent, PrepareState,
};

fn local_branch(name: &str) -> BranchInfo {
    BranchInfo { name: name.to_string(), is_remote: false, is_current: false }
}

fn remote_branch(name: &str) -> BranchInfo {
    BranchInfo { name: name.to_string(), is_remote: true, is_current: false }
}

#[test]
fn test_resolve_local_branch_name_local() {
    let branches = vec![local_branch("main"), local_branch("feature-x")];
    assert_eq!(resolve_local_branch_name("main", &branches), "main");
    assert_eq!(resolve_local_branch_name("feature-x", &branches), "feature-x");
}

#[test]
fn test_resolve_local_branch_name_remote() {
    let branches = vec![local_branch("main")];
    assert_eq!(resolve_local_branch_name("origin/feature-x", &branches), "feature-x");
    assert_eq!(resolve_local_branch_name("origin/main", &branches), "main");
    assert_eq!(resolve_local_branch_name("upstream/fix/nested", &branches), "fix/nested");
}

#[test]
fn test_resolve_local_branch_name_slash_branch_exists_locally() {
    // feature/foo exists as a local branch and must not be stripped
    let branches = vec![
        local_branch("main"),
        local_branch("feature/foo"),
        local_branch("fix/bar/baz"),
    ];
    assert_eq!(resolve_local_branch_name("feature/foo", &branches), "feature/foo");
    assert_eq!(resolve_local_branch_name("fix/bar/baz", &branches), "fix/bar/baz");
}

#[test]
fn test_resolve_local_branch_name_slash_branch_not_local() {
    // feature-x does not exist locally: treat as remote ref, strip first segment
    let branches = vec![local_branch("main")];
    assert_eq!(resolve_local_branch_name("origin/feature-x", &branches), "feature-x");
}

#[test]
fn test_sanitize_branch_replaces_unsafe_characters() {
    assert_eq!(sanitize_branch("feature/foo"), "feature-foo");
    assert_eq!(sanitize_branch("a\\b:c*d?e\"f<g>h|i"), "a-b-c-d-e-f-g-h-i");
    assert_eq!(sanitize_branch("plain-name"), "plain-name");
}

#[test]
fn test_sanitize_branch_special_names() {
    assert_eq!(sanitize_branch(""), "unnamed-branch");
    assert_eq!(sanitize_branch("."), "unnamed-branch");
    assert_eq!(sanitize_branch(".."), "unnamed-branch");
}

#[test]
fn test_get_fallback_branch_avoids_target() {
    let branches = vec![local_branch("main"), local_branch("other")];
    let fallback = choose_fallback_branch(&None, &branches, "main");
    assert!(fallback.is_some());
    assert_ne!(fallback.unwrap(), "main");
}

#[test]
fn test_get_fallback_branch_none_for_single_branch() {
    let branches = vec![local_branch("main")];
    let fallback = choose_fallback_branch(&None, &branches, "main");
    assert!(fallback.is_none(), "single-branch repo has no fallback");
}

#[test]
fn test_get_fallback_branch_prefers_configured_default() {
    let branches = vec![local_branch("main"), local_branch("trunk"), local_branch("dev")];
    let fallback = choose_fallback_branch(&Some("trunk".to_string()), &branches, "main");
    assert_eq!(fallback.unwrap(), "trunk");
}

#[test]
fn test_ensure_branch_plan_cases() {
    let branches = vec![local_branch("main"), remote_branch("origin/feature-x")];
    assert!(matches!(ensure_branch_plan("main", "main", &branches), BranchPlan::AlreadyLocal));
    match ensure_branch_plan("origin/feature-x", "feature-x", &branches) {
        BranchPlan::CreateTracking { start_point } => assert_eq!(start_point, "origin/feature-x"),
        other => panic!("expected tracking plan, got {:?}", other),
    }
    assert!(matches!(
        ensure_branch_plan("brand-new", "brand-new", &branches),
        BranchPlan::CreateFromHead
    ));
}

fn wt(path: &str, branch: Option<&str>, main: bool) -> WorktreeInfo {
    WorktreeInfo {
        path: path.to_string(),
        head: "0000".to_string(),
        branch: branch.map(|b| b.to_string()),
        is_bare: false,
        is_main_worktree: main,
    }
}

#[test]
fn test_find_reusable_worktree_skips_main() {
    let worktrees = vec![wt("/r", Some("feat"), true), wt("/w/feat", Some("feat"), false)];
    assert_eq!(find_reusable_worktree(&worktrees, "feat"), Some("/w/feat".to_string()));
    // only the main worktree has the branch: nothing to reuse
    let only_main = vec![wt("/r", Some("feat"), true)];
    assert_eq!(find_reusable_worktree(&only_main, "feat"), None);
}

#[test]
fn test_prepare_no_branch_returns_project_path() {
    let (state, action) = prepare_start("/repo".to_string(), None, "/data/worktrees".to_string());
    assert!(matches!(state, PrepareState::Finished));
    match action {
        PrepareAction::Finish { result } => {
            assert_eq!(result.working_directory, "/repo");
            assert!(result.worktree_path.is_none());
            assert!(!result.created);
            assert!(result.warning.is_none());
        }
        other => panic!("expected finish, got {:?}", other),
    }
}

#[test]
fn test_prepare_empty_branch_returns_project_path() {
    let (state, action) =
        prepare_start("/repo".to_string(), Some("".to_string()), "/data/worktrees".to_string());
    assert!(matches!(state, PrepareState::Finished));
    match action {
        PrepareAction::Finish { result } => {
            assert_eq!(result.working_directory, "/repo");
            assert!(result.worktree_path.is_none());
            assert!(!result.created);
        }
        other => panic!("expected finish, got {:?}", other),
    }
}

/// Drives the machine over scripted Git answers and returns the result.
fn run_machine(
    project: &str,
    branch: &str,
    branches: Vec<BranchInfo>,
    worktrees: Option<Vec<WorktreeInfo>>,
    current: Option<&str>,
    add_result: Result<String, String>,
) -> maestro_core::worktree::WorktreePreparationResult {
    let (mut state, mut action) = prepare_start(
        project.to_string(),
        Some(branch.to_string()),
        "/data/worktrees".to_string(),
    );
    for _step in 0..16 {
        let event = match &action {
            PrepareAction::Finish { result } => return result.clone(),
            PrepareAction::ListBranches => PrepareEvent::Branches { branches: branches.clone() },
            PrepareAction::ListWorktrees => PrepareEvent::Worktrees {
                worktrees: worktrees.clone(),
            },
            PrepareAction::GetCurrentBranch => PrepareEvent::CurrentBranch {
                current: current.map(|c| c.to_string()),
            },
            PrepareAction::GetDefaultBranch => PrepareEvent::DefaultBranch { default: None },
            PrepareAction::Checkout { .. } => PrepareEvent::SwitchDone { error: None },
            PrepareAction::DetachHead => PrepareEvent::SwitchDone { error: None },
            PrepareAction::CreateBranch { .. } => PrepareEvent::BranchCreated { error: None },
            PrepareAction::AddWorktree { path, .. } => PrepareEvent::WorktreeAdded {
                result: add_result.clone().map(|_| path.clone()),
            },
        };
        let next = prepare_step(state, event);
        state = next.0;
        action = next.1;
    }
    panic!("machine did not finish");
}

#[test]
fn test_prepare_reuses_existing_managed_worktree() {
    let branches = vec![local_branch("main"), local_branch("reuse-test")];
    let existing = vec![
        wt("/r", Some("main"), true),
        wt("/w/reuse-test", Some("reuse-test"), false),
    ];
    let result = run_machine(
        "/r",
        "reuse-test",
        branches,
        Some(existing),
        Some("main"),
        Ok(String::new()),
    );
    assert!(!result.created);
    assert_eq!(result.worktree_path, Some("/w/reuse-test".to_string()));
    assert_eq!(result.working_directory, "/w/reuse-test");
}

#[test]
fn test_prepare_same_inputs_reach_same_path() {
    // two runs over identical answers create the worktree at the same path
    let mk = || {
        run_machine(
            "/r",
            "feat",
            vec![local_branch("main"), local_branch("feat")],
            Some(vec![wt("/r", Some("main"), true)]),
            Some("main"),
            Ok(String::new()),
        )
    };
    let a = mk();
    let b = mk();
    assert!(a.created && b.created);
    assert_eq!(a.working_directory, b.working_directory);
    assert_eq!(a.worktree_path, b.worktree_path);
}

#[test]
fn test_prepare_current_branch_switches_main() {
    // HEAD is on the requested branch: the machine asks for the default
    // branch, checks out the fallback, and still creates the worktree
    let branches = vec![local_branch("main"), local_branch("other")];
    let (state, action) = prepare_start(
        "/r".to_string(),
        Some("main".to_string()),
        "/data/worktrees".to_string(),
    );
    assert!(matches!(action, PrepareAction::ListBranches));
    let (state, action) = prepare_step(state, PrepareEvent::Branches { branches: branches.clone() });
    assert!(matches!(action, PrepareAction::ListWorktrees));
    let (state, action) = prepare_step(
        state,
        PrepareEvent::Worktrees { worktrees: Some(vec![wt("/r", Some("main"), true)]) },
    );
    assert!(matches!(action, PrepareAction::GetCurrentBranch));
    let (state, action) = prepare_step(
        state,
        PrepareEvent::CurrentBranch { current: Some("main".to_string()) },
    );
    assert!(matches!(action, PrepareAction::GetDefaultBranch));
    let (state, action) = prepare_step(state, PrepareEvent::DefaultBranch { default: None });
    match &action {
        PrepareAction::Checkout { branch } => assert_eq!(branch, "other"),
        other => panic!("expected checkout of the fallback, got {:?}", other),
    }
    let (state, action) = prepare_step(state, PrepareEvent::SwitchDone { error: None });
    let path = match &action {
        PrepareAction::AddWorktree { branch, path } => {
            assert_eq!(branch, "main");
            path.clone()
        }
        other => panic!("expected worktree creation, got {:?}", other),
    };
    let (_state, action) = prepare_step(
        state,
        PrepareEvent::WorktreeAdded { result: Ok(path.clone()) },
    );
    match action {
        PrepareAction::Finish { result } => {
            assert!(result.created);
            assert_eq!(result.working_directory, path);
            assert_ne!(result.working_directory, "/r");
        }
        other => panic!("expected finish, got {:?}", other),
    }
}

#[test]
fn test_prepare_single_branch_detaches() {
    // no other branch exists: the machine detaches HEAD instead
    let branches = vec![local_branch("main")];
    let (state, _) = prepare_start(
        "/r".to_string(),
        Some("main".to_string()),
        "/data/worktrees".to_string(),
    );
    let (state, _) = prepare_step(state, PrepareEvent::Branches { branches: branches.clone() });
    let (state, _) = prepare_step(
        state,
        PrepareEvent::Worktrees { worktrees: Some(vec![wt("/r", Some("main"), true)]) },
    );
    let (state, _) = prepare_step(
        state,
        PrepareEvent::CurrentBranch { current: Some("main".to_string()) },
    );
    let (_state, action) = prepare_step(state, PrepareEvent::DefaultBranch { default: None });
    assert!(matches!(action, PrepareAction::DetachHead));
}

#[test]
fn test_prepare_invalid_repo_falls_back_with_warning() {
    // every Git answer fails: the session still gets the project path
    let result = run_machine(
        "/not-a-repo",
        "main",
        Vec::new(),
        None,
        None,
        Err("not a git repository".to_string()),
    );
    assert_eq!(result.working_directory, "/not-a-repo");
    assert!(result.worktree_path.is_none());
    assert!(!result.created);
    assert!(result.warning.is_some());
}

#[test]
fn test_prepare_nonexistent_branch_creates_from_head() {
    let (state, _) = prepare_start(
        "/r".to_string(),
        Some("brand-new-branch".to_string()),
        "/data/worktrees".to_string(),
    );
    let (state, _) = prepare_step(
        state,
        PrepareEvent::Branches { branches: vec![local_branch("main")] },
    );
    let (state, _) = prepare_step(
        state,
        PrepareEvent::Worktrees { worktrees: Some(vec![wt("/r", Some("main"), true)]) },
    );
    let (state, action) = prepare_step(
        state,
        PrepareEvent::CurrentBranch { current: Some("main".to_string()) },
    );
    match &action {
        PrepareAction::CreateBranch { name, start_point } => {
            assert_eq!(name, "brand-new-branch");
            assert!(start_point.is_none());
        }
        other => panic!("expected branch creation from HEAD, got {:?}", other),
    }
    let (state, action) = prepare_step(state, PrepareEvent::BranchCreated { error: None });
    let path = match &action {
        PrepareAction::AddWorktree { path, .. } => path.clone(),
        other => panic!("expected worktree creation, got {:?}", other),
    };
    let (_state, action) = prepare_step(
        state,
        PrepareEvent::WorktreeAdded { result: Ok(path.clone()) },
    );
    match action {
        PrepareAction::Finish { result } => {
            assert!(result.created);
            assert_eq!(result.worktree_path, Some(path));
        }
        other => panic!("expected finish, got {:?}", other),
    }
}

#[test]
fn test_orphaned_entries_selects_missing() {
    let entries = vec![
        "/w/feat-a".to_string(),
        "/w/feat-b".to_string(),
        "/w/feat-c".to_string(),
    ];
    let active = vec!["/r".to_string(), "/w/feat-b".to_string()];
    let orphans = maestro_core::worktree::orphaned_entries(&entries, &active);
    assert_eq!(orphans, vec!["/w/feat-a".to_string(), "/w/feat-c".to_string()]);
    // nothing to prune when everything is active
    assert!(maestro_core::worktree::orphaned_entries(&active, &active).is_empty());
}

#[test]
fn test_branch_checkout_conflict() {
    let worktrees = vec![wt("/r", Some("main"), true), wt("/w/feat", Some("feat"), false)];
    match maestro_core::worktree::branch_checkout_conflict("feat", &worktrees) {
        Some(maestro_core::errors::GitError::BranchAlreadyCheckedOut { branch, path }) => {
            assert_eq!(branch, "feat");
            assert_eq!(path, "/w/feat");
        }
        other => panic!("expected the typed conflict, got {:?}", other),
    }
    assert!(maestro_core::worktree::branch_checkout_conflict("other", &worktrees).is_none());
}

#[test]
fn test_sidecar_candidate_paths_order() {
    let candidates = maestro_core::config_writer::sidecar_candidate_paths(
        Some("/opt/app/target/debug/supervisor"),
        Some("/home/u/.local/share"),
        Some("/home/u/.local/share"),
    );
    assert_eq!(
        candidates,
        vec![
            "/opt/app/target/debug/maestro-mcp-server".to_string(),
            "/opt/app/target/Resources/maestro-mcp-server".to_string(),
            "/opt/app/target/release/maestro-mcp-server".to_string(),
            "/opt/app/target/debug/maestro-mcp-server".to_string(),
            "/opt/maestro-mcp-server/target/release/maestro-mcp-server".to_string(),
            "/opt/maestro-mcp-server/target/debug/maestro-mcp-server".to_string(),
            "/home/u/.local/share/Maestro/maestro-mcp-server".to_string(),
            "/home/u/.local/share/maestro/maestro-mcp-server".to_string(),
        ]
    );
    // without an executable path only the data directories remain
    let fallback = maestro_core::config_writer::sidecar_candidate_paths(
        None,
        Some("/d"),
        None,
    );
    assert_eq!(fallback, vec!["/d/Maestro/maestro-mcp-server".to_string()]);
}

#[test]
fn test_derived_path_layout() {
    let p = derive_worktree_path("/data/worktrees", "/repo", "feature/foo");
    assert!(p.starts_with("/data/worktrees/"));
    assert!(p.ends_with("/feature-foo"));
    // the repository key is 16 hex characters
    let start = "/data/worktrees/".len();
    let middle = &p[start..start + 16];
    assert!(middle.chars().all(|c| c.is_ascii_hexdigit()));
    assert_eq!(p.as_bytes()[start + 16], b'/');
}
