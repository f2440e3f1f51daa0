//! Tests for the MCP entry parser and the per-directory config merge.

use maestro_core::config_writer::{
    remove_session_mcp_config_content, should_remove_server, write_session_mcp_config_content,
};
use maestro_core::mcp_model::{
    default_project_source, parse_mcp_entries, McpCustomServer, McpServerConfig, McpServerEntry,
    McpServerSource, McpServerType,
};

#[test]
fn test_parse_mcp_entries() {
    let entries = vec![(
        "test-server".to_string(),
        McpServerEntry {
            server_type: "stdio".to_string(),
            command: Some("/usr/bin/test".to_string()),
            args: Some(vec!["--arg1".to_string()]),
            env: None,
            url: None,
        },
    )];

    let servers = parse_mcp_entries(entries, McpServerSource::Project);
    assert_eq!(servers.len(), 1);
    assert_eq!(servers[0].name, "test-server");
    assert_eq!(servers[0].source, McpServerSource::Project);
    match &servers[0].server_type {
        McpServerType::Stdio { command, args, env } => {
            assert_eq!(command, "/usr/bin/test");
            assert_eq!(args, &vec!["--arg1".to_string()]);
            assert!(env.is_empty());
        }
        other => panic!("expected stdio entry, got {:?}", other),
    }
}

#[test]
fn test_parse_mcp_entries_drops_invalid() {
    let entries = vec![
        (
            "no-command".to_string(),
            McpServerEntry {
                server_type: "stdio".to_string(),
                command: None,
                args: None,
                env: None,
                url: None,
            },
        ),
        (
            "web".to_string(),
            McpServerEntry {
                server_type: "http".to_string(),
                command: None,
                args: None,
                env: None,
                url: Some("http://localhost:3000".to_string()),
            },
        ),
        (
            "weird".to_string(),
            McpServerEntry {
                server_type: "carrier-pigeon".to_string(),
                command: None,
                args: None,
                env: None,
                url: None,
            },
        ),
    ];
    let servers = parse_mcp_entries(entries, default_project_source());
    assert_eq!(servers.len(), 1);
    assert_eq!(servers[0].name, "web");
    match &servers[0].server_type {
        McpServerType::Http { url } => assert_eq!(url, "http://localhost:3000"),
        other => panic!("expected http entry, got {:?}", other),
    }
}

#[test]
fn test_should_remove_server_names() {
    assert!(should_remove_server("maestro-status"));
    assert!(should_remove_server("maestro-status-1"));
    assert!(should_remove_server("maestro-7"));
    assert!(should_remove_server("maestro"));
    assert!(!should_remove_server("user-server"));
    assert!(!should_remove_server("maestroid"));
}

fn servers_of(content: &str) -> serde_json::Map<String, serde_json::Value> {
    let v: serde_json::Value = serde_json::from_str(content).expect("output is valid JSON");
    v.get("mcpServers").and_then(|s| s.as_object()).expect("has mcpServers").clone()
}

#[test]
fn test_write_session_mcp_config_creates_file() {
    let content = write_session_mcp_config_content(
        None,
        Some("/opt/bin/sidecar"),
        1,
        "http://127.0.0.1:9900/status",
        "test-instance-id",
        &Vec::new(),
        &Vec::new(),
    )
    .unwrap();
    let servers = servers_of(&content);
    let entry = servers.get("maestro-status").expect("managed entry written");
    assert_eq!(entry["type"], "stdio");
    assert_eq!(entry["command"], "/opt/bin/sidecar");
    assert_eq!(entry["env"]["MAESTRO_SESSION_ID"], "1");
    assert_eq!(entry["env"]["MAESTRO_STATUS_URL"], "http://127.0.0.1:9900/status");
    assert_eq!(entry["env"]["MAESTRO_INSTANCE_ID"], "test-instance-id");
}

#[test]
fn test_merge_preserves_user_servers_removes_all_maestro() {
    let existing = r#"{
        "mcpServers": {
            "user-server": {"type": "stdio", "command": "/usr/bin/user-server", "args": []},
            "maestro": {"type": "stdio", "command": "/usr/bin/old-maestro", "args": []},
            "maestro-status-1": {"type": "stdio", "command": "/usr/bin/m1", "args": []},
            "maestro-status-2": {"type": "stdio", "command": "/usr/bin/m2", "args": []},
            "maestro-status": {"type": "stdio", "command": "/usr/bin/old", "args": []}
        }
    }"#;
    let content = write_session_mcp_config_content(
        Some(existing),
        Some("/usr/bin/new-maestro-status"),
        3,
        "http://127.0.0.1:9900/status",
        "test-instance",
        &Vec::new(),
        &Vec::new(),
    )
    .unwrap();
    let servers = servers_of(&content);
    assert!(servers.contains_key("user-server"), "user server preserved");
    assert_eq!(servers["user-server"]["command"], "/usr/bin/user-server");
    assert!(!servers.contains_key("maestro"), "legacy bare entry removed");
    assert!(!servers.contains_key("maestro-status-1"), "legacy per-session entry removed");
    assert!(!servers.contains_key("maestro-status-2"), "legacy per-session entry removed");
    assert_eq!(servers["maestro-status"]["command"], "/usr/bin/new-maestro-status");
    assert_eq!(servers["maestro-status"]["env"]["MAESTRO_SESSION_ID"], "3");
}

#[test]
fn test_write_then_remove_restores_user_entries() {
    let original = r#"{"mcpServers": {"user-server": {"type": "http", "url": "http://x"}}}"#;
    let written = write_session_mcp_config_content(
        Some(original),
        Some("/opt/bin/sidecar"),
        9,
        "http://127.0.0.1:9901/status",
        "inst",
        &Vec::new(),
        &Vec::new(),
    )
    .unwrap();
    assert!(servers_of(&written).contains_key("maestro-status"));

    let removed = remove_session_mcp_config_content(&written).unwrap();
    let after = servers_of(&removed);
    assert_eq!(after.len(), 1);
    assert_eq!(after["user-server"]["url"], "http://x");

    // removing from the pristine document gives the same entries
    let baseline = remove_session_mcp_config_content(original).unwrap();
    assert_eq!(removed, baseline, "write-then-remove equals remove alone");
}

#[test]
fn test_ten_distinct_writers_all_land() {
    // ten writers each merge one distinct server entry into the same
    // document, in some serialized order; all ten and the user entry stay
    let mut content = r#"{"mcpServers": {"user-server": {"type": "http", "url": "http://x"}}}"#
        .to_string();
    for i in 0..10u32 {
        let server = McpServerConfig {
            name: format!("server-{}", i),
            server_type: McpServerType::Stdio {
                command: format!("/bin/server-{}", i),
                args: Vec::new(),
                env: Vec::new(),
            },
            source: McpServerSource::Custom,
        };
        content = write_session_mcp_config_content(
            Some(&content),
            None,
            i,
            "http://127.0.0.1:9900/status",
            "inst",
            &vec![server],
            &Vec::new(),
        )
        .unwrap();
    }
    let servers = servers_of(&content);
    assert!(servers.contains_key("user-server"));
    for i in 0..10u32 {
        assert!(servers.contains_key(&format!("server-{}", i)), "missing server-{}", i);
    }
    assert_eq!(servers.len(), 11);
}

#[test]
fn test_malformed_document_fails_write() {
    let r = write_session_mcp_config_content(
        Some("{not json"),
        Some("/opt/bin/sidecar"),
        1,
        "http://u",
        "i",
        &Vec::new(),
        &Vec::new(),
    );
    assert!(r.is_err(), "a malformed document must not be clobbered");
}

#[test]
fn test_custom_server_entry_written() {
    let custom = McpCustomServer {
        id: "c1".to_string(),
        name: "my-tool".to_string(),
        command: "npx".to_string(),
        args: vec!["serve".to_string()],
        env: vec![("KEY".to_string(), "value".to_string())],
        working_directory: None,
        is_enabled: true,
        created_at: "2024-01-01T00:00:00Z".to_string(),
    };
    let content = write_session_mcp_config_content(
        None,
        None,
        2,
        "http://u",
        "i",
        &Vec::new(),
        &vec![custom],
    )
    .unwrap();
    let servers = servers_of(&content);
    assert_eq!(servers["my-tool"]["command"], "npx");
    assert_eq!(servers["my-tool"]["args"][0], "serve");
    assert_eq!(servers["my-tool"]["env"]["KEY"], "value");
}
