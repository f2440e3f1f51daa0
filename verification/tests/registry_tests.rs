//! Tests for the session registry, the id allocator, resize validation,
//! and the process-tree inspector.

use maestro_core::errors::PtyErrorCode;
use maestro_core::process_tree::{build_process_tree, kill_process_decision, ProcessInfo};
use maestro_core::pty_core::{validate_resize, PtyRecord, PtyRegistry};
use maestro_core::registry::{AiMode, SessionManager, SessionStatus};

#[test]
fn test_create_then_get_returns_same_record() {
    let mut mgr = SessionManager::new();
    let created = mgr.create_session(7, AiMode::Claude, "/repo".to_string()).unwrap();
    assert_eq!(created.id, 7);
    assert!(matches!(created.status, SessionStatus::Starting));
    assert!(created.branch.is_none());

    let got = mgr.get_session(7).unwrap();
    assert_eq!(got.id, created.id);
    assert_eq!(got.project_path, created.project_path);

    // removing makes the id unknown again
    let removed = mgr.remove_session(7).unwrap();
    assert_eq!(removed.id, 7);
    assert!(mgr.get_session(7).is_none());
}

#[test]
fn test_create_duplicate_id_fails() {
    let mut mgr = SessionManager::new();
    mgr.create_session(1, AiMode::Plain, "/a".to_string()).unwrap();
    let err = mgr.create_session(1, AiMode::Claude, "/b".to_string()).unwrap_err();
    assert_eq!(err.project_path, "/a", "the existing record is returned");
}

#[test]
fn test_update_status_and_assign_branch() {
    let mut mgr = SessionManager::new();
    mgr.create_session(4, AiMode::Claude, "/p".to_string()).unwrap();
    assert!(mgr.update_status(4, SessionStatus::Working));
    assert!(!mgr.update_status(99, SessionStatus::Done));

    let updated = mgr
        .assign_branch(4, "feat".to_string(), Some("/w/feat".to_string()))
        .unwrap();
    assert_eq!(updated.branch.as_deref(), Some("feat"));
    assert_eq!(updated.worktree_path.as_deref(), Some("/w/feat"));
    assert!(matches!(updated.status, SessionStatus::Working));
}

#[test]
fn test_sessions_for_project_filter_and_remove() {
    let mut mgr = SessionManager::new();
    mgr.create_session(1, AiMode::Claude, "/a".to_string()).unwrap();
    mgr.create_session(2, AiMode::Claude, "/b".to_string()).unwrap();
    mgr.create_session(3, AiMode::Plain, "/a".to_string()).unwrap();

    let for_a = mgr.get_sessions_for_project("/a");
    assert_eq!(for_a.iter().map(|s| s.id).collect::<Vec<_>>(), vec![1, 3]);

    let removed = mgr.remove_sessions_for_project("/a");
    assert_eq!(removed.iter().map(|s| s.id).collect::<Vec<_>>(), vec![1, 3]);
    assert_eq!(mgr.all_sessions().iter().map(|s| s.id).collect::<Vec<_>>(), vec![2]);
}

#[test]
fn test_id_allocation_is_strictly_increasing() {
    let mut reg = PtyRegistry::new();
    let a = reg.allocate_id().unwrap();
    let b = reg.allocate_id().unwrap();
    let c = reg.allocate_id().unwrap();
    assert_eq!((a, b, c), (1, 2, 3));
    // removing a session never recycles its id
    reg.register(a, PtyRecord { child_pid: 100, pgid: 100 }).unwrap();
    reg.take_session(a).unwrap();
    let d = reg.allocate_id().unwrap();
    assert!(d > c);
}

#[test]
fn test_take_session_removes_before_second_kill() {
    let mut reg = PtyRegistry::new();
    let id = reg.allocate_id().unwrap();
    reg.register(id, PtyRecord { child_pid: 4242, pgid: 4242 }).unwrap();
    assert_eq!(reg.lookup(id).unwrap().child_pid, 4242);

    let rec = reg.take_session(id).unwrap();
    assert_eq!(rec.pgid, 4242);
    // a concurrent second kill sees the session gone
    let err = reg.take_session(id).unwrap_err();
    assert_eq!(err.code, PtyErrorCode::SessionNotFound);
    assert!(reg.lookup(id).is_none());
}

#[test]
fn test_resize_validation_boundaries() {
    assert!(validate_resize(1, 1).is_ok());
    assert!(validate_resize(24, 80).is_ok());
    assert!(validate_resize(500, 500).is_ok());
    assert_eq!(validate_resize(0, 80).unwrap_err().code, PtyErrorCode::ResizeFailed);
    assert_eq!(validate_resize(24, 0).unwrap_err().code, PtyErrorCode::ResizeFailed);
    assert_eq!(validate_resize(501, 80).unwrap_err().code, PtyErrorCode::ResizeFailed);
    assert_eq!(validate_resize(24, 501).unwrap_err().code, PtyErrorCode::ResizeFailed);
}

fn proc(pid: u32, parent: Option<u32>, name: &str) -> ProcessInfo {
    ProcessInfo {
        pid,
        name: name.to_string(),
        command: vec![name.to_string()],
        parent_pid: parent,
        cpu_permille: 0,
        memory_bytes: 1024,
    }
}

#[test]
fn test_build_process_tree_collects_descendants() {
    let table = vec![
        proc(1, None, "init"),
        proc(100, Some(1), "shell"),
        proc(200, Some(100), "assistant"),
        proc(300, Some(200), "tool"),
        proc(400, Some(1), "unrelated"),
    ];
    let tree = build_process_tree(42, 100, &table).unwrap();
    assert_eq!(tree.session_id, 42);
    assert_eq!(tree.root_pid, 100);
    let mut pids: Vec<u32> = tree.processes.iter().map(|p| p.pid).collect();
    pids.sort();
    assert_eq!(pids, vec![100, 200, 300]);
}

#[test]
fn test_build_process_tree_missing_root() {
    let table = vec![proc(1, None, "init")];
    assert!(build_process_tree(1, 999, &table).is_none());
}

#[test]
fn test_kill_process_refuses_session_roots() {
    let roots = vec![100, 200];
    match kill_process_decision(100, &roots, true) {
        Err(maestro_core::errors::ProcessError::CannotKillRoot) => {}
        other => panic!("session root must be refused, got {:?}", other),
    }
    match kill_process_decision(55, &roots, false) {
        Err(maestro_core::errors::ProcessError::NotFound(pid)) => assert_eq!(pid, 55),
        other => panic!("missing pid must be NotFound, got {:?}", other),
    }
    assert!(kill_process_decision(55, &roots, true).is_ok());
}

#[test]
fn test_session_not_found_message() {
    let e = maestro_core::errors::PtyError::session_not_found(12);
    assert_eq!(e.message, "Session 12 not found");
    assert_eq!(e.code, PtyErrorCode::SessionNotFound);
}
