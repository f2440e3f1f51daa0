//! Tests for the sidecar's protocol decisions and POST retry policy.

use maestro_core::sidecar::{
    backoff_ms, build_status_payload, classify_response, handle_rpc_request, JsonRpcRequest,
    RetryDecision, RpcReply, MAX_RETRIES,
};

fn request(id: Option<&str>, method: &str) -> JsonRpcRequest {
    JsonRpcRequest {
        id: id.map(|s| s.to_string()),
        method: method.to_string(),
        tool_name: None,
        tool_state: None,
        tool_message: None,
        tool_prompt: None,
    }
}

#[test]
fn test_notification_without_id_returns_none() {
    let (action, reply) = handle_rpc_request(&request(None, "notifications/initialized"));
    assert!(matches!(reply, RpcReply::NoReply), "notifications produce no reply");
    let action = action.expect("the initialized notification reports idle");
    assert_eq!(action.state, "idle");
    assert_eq!(action.message, "Ready");

    let (action, reply) = handle_rpc_request(&request(None, "notifications/other"));
    assert!(matches!(reply, RpcReply::NoReply));
    assert!(action.is_none());
}

#[test]
fn test_initialize_returns_capabilities() {
    let (action, reply) = handle_rpc_request(&request(Some("1"), "initialize"));
    assert!(action.is_none());
    match reply {
        RpcReply::Initialize { protocol_version, server_name } => {
            assert_eq!(protocol_version, "2024-11-05");
            assert_eq!(server_name, "maestro-mcp-server");
        }
        other => panic!("expected initialize reply, got {:?}", other),
    }
}

#[test]
fn test_tools_list_returns_maestro_status() {
    let (action, reply) = handle_rpc_request(&request(Some("2"), "tools/list"));
    assert!(action.is_none());
    match reply {
        RpcReply::ToolsList { tool_name, schema } => {
            assert_eq!(tool_name, "maestro_status");
            assert_eq!(
                schema.allowed_states,
                vec!["idle", "working", "needs_input", "finished", "error"]
            );
            assert_eq!(schema.required, vec!["state", "message"]);
            assert_eq!(schema.optional_prompt, "needsInputPrompt");
        }
        other => panic!("expected tool list, got {:?}", other),
    }
}

#[test]
fn test_unknown_method_returns_error() {
    let (action, reply) = handle_rpc_request(&request(Some("3"), "nonexistent/method"));
    assert!(action.is_none());
    match reply {
        RpcReply::MethodNotFound { code, message } => {
            assert_eq!(code, -32601);
            assert!(message.contains("nonexistent/method"));
        }
        other => panic!("expected method-not-found, got {:?}", other),
    }
}

#[test]
fn test_ping_returns_empty_object() {
    let (action, reply) = handle_rpc_request(&request(Some("4"), "ping"));
    assert!(action.is_none());
    assert!(matches!(reply, RpcReply::Ping));
}

#[test]
fn test_tool_call_reports_and_acknowledges() {
    let mut req = request(Some("5"), "tools/call");
    req.tool_name = Some("maestro_status".to_string());
    req.tool_state = Some("needs_input".to_string());
    req.tool_message = Some("Pick one".to_string());
    req.tool_prompt = Some("A or B?".to_string());
    let (action, reply) = handle_rpc_request(&req);
    let action = action.unwrap();
    assert_eq!(action.state, "needs_input");
    assert_eq!(action.message, "Pick one");
    assert_eq!(action.needs_input_prompt.as_deref(), Some("A or B?"));
    match reply {
        RpcReply::Ack { text } => assert_eq!(text, "Status reported: needs_input - Pick one"),
        other => panic!("expected acknowledgement, got {:?}", other),
    }
}

#[test]
fn test_tool_call_defaults_and_unknown_tool() {
    let mut req = request(Some("6"), "tools/call");
    req.tool_name = Some("maestro_status".to_string());
    let (action, _) = handle_rpc_request(&req);
    let action = action.unwrap();
    assert_eq!(action.state, "working", "missing state defaults to working");
    assert_eq!(action.message, "");

    let mut req = request(Some("7"), "tools/call");
    req.tool_name = Some("other_tool".to_string());
    let (action, reply) = handle_rpc_request(&req);
    assert!(action.is_none());
    assert!(matches!(reply, RpcReply::UnknownTool { .. }));
}

#[test]
fn test_retry_policy() {
    assert_eq!(MAX_RETRIES, 3);
    assert_eq!(classify_response(200), RetryDecision::Success);
    assert_eq!(classify_response(202), RetryDecision::Success);
    // a client error — for instance 403 from a stale instance id — is final
    assert_eq!(classify_response(403), RetryDecision::StopClientError);
    assert_eq!(classify_response(404), RetryDecision::StopClientError);
    assert_eq!(classify_response(500), RetryDecision::RetryServerError);
    assert_eq!(classify_response(503), RetryDecision::RetryServerError);
    assert_eq!(backoff_ms(1), 200);
    assert_eq!(backoff_ms(2), 400);
    assert_eq!(backoff_ms(3), 800);
}

#[test]
fn test_build_status_payload_defaults() {
    let p = build_status_payload("idle", "Ready", None, None, &None, "t0".to_string());
    assert_eq!(p.session_id, 0);
    assert_eq!(p.instance_id, "unknown");
    assert_eq!(p.state, "idle");
    assert_eq!(p.message, "Ready");
    assert!(p.needs_input_prompt.is_none());
    assert_eq!(p.timestamp, "t0");

    let p = build_status_payload(
        "working",
        "Busy",
        Some("q?".to_string()),
        Some(9),
        &Some("inst".to_string()),
        "t1".to_string(),
    );
    assert_eq!(p.session_id, 9);
    assert_eq!(p.instance_id, "inst");
    assert_eq!(p.needs_input_prompt.as_deref(), Some("q?"));
}

#[test]
fn test_project_hash_shape() {
    let h = maestro_core::hashing::generate_project_hash("/Users/test/project");
    assert_eq!(h.len(), 12);
    assert!(h.chars().all(|c| c.is_ascii_hexdigit()));
    let h2 = maestro_core::hashing::generate_project_hash("/Users/test/project");
    assert_eq!(h, h2, "the hash is stable");
    let h3 = maestro_core::hashing::generate_project_hash("/other");
    assert_ne!(h, h3);
}

#[test]
fn test_decimal_rendering() {
    assert_eq!(maestro_core::decimal::u32_to_string(0), "0");
    assert_eq!(maestro_core::decimal::u32_to_string(42), "42");
    assert_eq!(maestro_core::decimal::u32_to_string(4294967295), "4294967295");
    assert_eq!(maestro_core::decimal::u64_to_string(1234567890123), "1234567890123");
}
