//! Tests for the status ingress routing rules: instance isolation,
//! buffering before registration, the flush on registration, and the
//! buffer bound.

use maestro_core::status_server::{map_state, StatusIngress, StatusRequest};

fn make_status(session_id: u32, instance_id: &str, state: &str, message: &str) -> StatusRequest {
    StatusRequest {
        session_id,
        instance_id: instance_id.to_string(),
        state: state.to_string(),
        message: message.to_string(),
        needs_input_prompt: None,
        timestamp: "2024-01-01T00:00:00Z".to_string(),
    }
}

#[test]
fn test_multi_session_different_projects() {
    let mut ingress = StatusIngress::new("inst-1".to_string());
    assert!(ingress.register_session(1, "/path/project-a".to_string()).is_none());
    assert!(ingress.register_session(2, "/path/project-b".to_string()).is_none());

    let (code, event) = ingress.handle_status(make_status(1, "inst-1", "working", "Building"));
    assert_eq!(code, 200);
    let event = event.unwrap();
    assert_eq!(event.session_id, 1);
    assert_eq!(event.project_path, "/path/project-a");
    assert_eq!(event.status, "Working");

    let (code, event) = ingress.handle_status(make_status(2, "inst-1", "idle", "Ready"));
    assert_eq!(code, 200);
    let event = event.unwrap();
    assert_eq!(event.session_id, 2);
    assert_eq!(event.project_path, "/path/project-b");
    assert_eq!(event.status, "Idle");
}

#[test]
fn test_multi_session_same_project() {
    let mut ingress = StatusIngress::new("inst-1".to_string());
    ingress.register_session(1, "/path/shared-project".to_string());
    ingress.register_session(2, "/path/shared-project".to_string());

    let (code, event) = ingress.handle_status(make_status(1, "inst-1", "working", "Task A"));
    assert_eq!(code, 200);
    let event = event.unwrap();
    assert_eq!(event.session_id, 1);
    assert_eq!(event.project_path, "/path/shared-project");
    assert_eq!(event.status, "Working");

    let (code, event) = ingress.handle_status(make_status(2, "inst-1", "idle", "Waiting"));
    assert_eq!(code, 200);
    let event = event.unwrap();
    assert_eq!(event.session_id, 2);
    assert_eq!(event.project_path, "/path/shared-project");
    assert_eq!(event.status, "Idle");
}

#[test]
fn test_wrong_instance_returns_403() {
    let mut ingress = StatusIngress::new("inst-current".to_string());
    ingress.register_session(1, "/path/project".to_string());

    let (code, event) = ingress.handle_status(make_status(1, "inst-old", "working", "Stale"));
    assert_eq!(code, 403);
    assert!(event.is_none(), "no event for a foreign instance");
}

#[test]
fn test_unregistered_session_returns_202_and_buffers() {
    let mut ingress = StatusIngress::new("inst-1".to_string());

    let (code, event) = ingress.handle_status(make_status(5, "inst-1", "idle", "Early bird"));
    assert_eq!(code, 202);
    assert!(event.is_none());

    // the buffered report is flushed on registration, proving it was kept
    let flushed = ingress.register_session(5, "/path/project".to_string()).unwrap();
    assert_eq!(flushed.session_id, 5);
    assert_eq!(flushed.status, "Idle");
    assert_eq!(flushed.message, "Early bird");
}

#[test]
fn test_register_flushes_buffered_status() {
    let mut ingress = StatusIngress::new("inst-1".to_string());
    let (code, _) = ingress.handle_status(make_status(7, "inst-1", "idle", "Buffered hello"));
    assert_eq!(code, 202);

    let flushed = ingress.register_session(7, "/path/project-x".to_string());
    let event = flushed.unwrap();
    assert_eq!(event.session_id, 7);
    assert_eq!(event.project_path, "/path/project-x");
    assert_eq!(event.status, "Idle");
    assert_eq!(event.message, "Buffered hello");

    // the buffer entry is gone: registering again flushes nothing
    ingress.unregister_session(7);
    assert!(ingress.register_session(7, "/path/project-x".to_string()).is_none());
}

#[test]
fn test_register_without_buffer_emits_nothing() {
    let mut ingress = StatusIngress::new("inst-1".to_string());
    assert!(ingress.register_session(1, "/path/project".to_string()).is_none());
    assert_eq!(ingress.registered_sessions(), vec![1]);
}

#[test]
fn test_unregister_does_not_affect_other_sessions() {
    let mut ingress = StatusIngress::new("inst-1".to_string());
    ingress.register_session(1, "/path/a".to_string());
    ingress.register_session(2, "/path/b".to_string());
    ingress.unregister_session(1);

    let (code, event) = ingress.handle_status(make_status(2, "inst-1", "working", "Still here"));
    assert_eq!(code, 200);
    assert_eq!(event.unwrap().session_id, 2);

    let (code, event) = ingress.handle_status(make_status(1, "inst-1", "idle", "Gone"));
    assert_eq!(code, 202);
    assert!(event.is_none());
}

#[test]
fn test_unregister_cleans_up_buffer() {
    let mut ingress = StatusIngress::new("inst-1".to_string());
    ingress.handle_status(make_status(3, "inst-1", "working", "Will be cleaned"));
    let _ = ingress.register_session(3, "/path/project".to_string());
    ingress.unregister_session(3);

    assert!(ingress.registered_sessions().is_empty());
    assert!(ingress.register_session(3, "/path/project".to_string()).is_none());
}

#[test]
fn test_multiple_projects_register_unregister_isolation() {
    let mut ingress = StatusIngress::new("inst-1".to_string());
    ingress.register_session(1, "/project/alpha".to_string());
    ingress.register_session(2, "/project/beta".to_string());
    ingress.register_session(3, "/project/alpha".to_string());
    ingress.handle_status(make_status(4, "inst-1", "idle", "Waiting"));

    ingress.unregister_session(1);
    let registered = ingress.registered_sessions();
    assert!(registered.contains(&2));
    assert!(registered.contains(&3));
    assert!(!registered.contains(&1));

    let flushed = ingress.register_session(4, "/project/gamma".to_string()).unwrap();
    assert_eq!(flushed.session_id, 4);
    assert_eq!(flushed.project_path, "/project/gamma");
}

#[test]
fn test_all_state_mappings() {
    let mut ingress = StatusIngress::new("inst-1".to_string());
    ingress.register_session(1, "/path/p".to_string());
    for (raw, expected) in [
        ("idle", "Idle"),
        ("working", "Working"),
        ("needs_input", "NeedsInput"),
        ("finished", "Done"),
        ("error", "Error"),
    ] {
        let (code, event) = ingress.handle_status(make_status(1, "inst-1", raw, "msg"));
        assert_eq!(code, 200);
        assert_eq!(event.unwrap().status, expected, "state {} maps wrong", raw);
    }
    assert_eq!(map_state("anything-else"), "Unknown");
}

#[test]
fn test_pending_buffer_bound_drops_newest() {
    let mut ingress = StatusIngress::new("inst-1".to_string());
    // fill the buffer with reports for 100 distinct unregistered sessions
    for id in 1..=100u32 {
        let (code, _) = ingress.handle_status(make_status(id, "inst-1", "working", "w"));
        assert_eq!(code, 202);
    }
    // the 101st new entry is dropped
    let (code, event) = ingress.handle_status(make_status(101, "inst-1", "working", "late"));
    assert_eq!(code, 202);
    assert!(event.is_none());
    assert!(ingress.register_session(101, "/p".to_string()).is_none(), "the 101st was dropped");
    // the first hundred were kept
    let flushed = ingress.register_session(100, "/p".to_string());
    assert!(flushed.is_some());
    // an existing entry is still replaced at the bound
    let (code, _) = ingress.handle_status(make_status(50, "inst-1", "error", "replaced"));
    assert_eq!(code, 202);
    let flushed = ingress.register_session(50, "/p".to_string()).unwrap();
    assert_eq!(flushed.status, "Error");
}
