use agent::approval::ToolError;
use agent::json::Json;
use agent::mcp::config::{
    header_map, merge_plugin_declarations, retain_enabled, DeclaredServer, McpConfig,
    McpServerConfig, McpServerTransportConfig,
};
use agent::mcp::registry::{load_merged_config, servers_to_connect};
use agent::mcp::tool::{
    call_arguments, flatten_call_tool_result, tool_id, tool_outcome, CallEnd, CallToolResult,
    McpContent, McpTool,
};
use agent::table::Table;

fn stdio(command: &str) -> McpServerConfig {
    McpServerConfig {
        transport: McpServerTransportConfig::Stdio {
            command: command.into(),
            args: vec![],
            env: None,
            cwd: None,
        },
    }
}

fn command_of(config: &McpConfig, name: &str) -> String {
    match &config.mcp_servers.get(name).unwrap().transport {
        McpServerTransportConfig::Stdio { command, .. } => command.clone(),
        _ => panic!("expected stdio"),
    }
}

#[test]
fn retain_enabled_drops_disabled_servers_only() {
    let mut config = McpConfig::default();
    config.mcp_servers.insert("alpha".into(), stdio("true"));
    config.mcp_servers.insert("beta".into(), stdio("true"));
    config.mcp_servers.insert("gamma".into(), stdio("true"));
    retain_enabled(&mut config, &vec!["beta".to_string()]);
    assert_eq!(config.mcp_servers.len(), 2);
    assert!(config.mcp_servers.contains_key("alpha"));
    assert!(config.mcp_servers.contains_key("gamma"));
}

#[test]
fn retain_enabled_noop_on_empty_disabled_list() {
    let mut config = McpConfig::default();
    config.mcp_servers.insert("alpha".into(), stdio("true"));
    retain_enabled(&mut config, &vec![]);
    assert_eq!(config.mcp_servers.len(), 1);
}

#[test]
fn pi_tool_tool_id_format() {
    assert_eq!(
        tool_id("filesystem", "read_file"),
        "mcp_filesystem_read_file"
    );
    assert_eq!(
        tool_id("my-server", "create_issue"),
        "mcp_my-server_create_issue"
    );
}

#[test]
fn tool_tool_id_format() {
    let tool = |server: &str, name: &str| {
        McpTool::new(server.into(), name.into(), None, vec![]).tool_id()
    };
    assert_eq!(tool("filesystem", "read_file"), "mcp_filesystem_read_file");
    assert_eq!(
        tool("my-server", "create_issue"),
        "mcp_my-server_create_issue"
    );
}

fn two_blocks() -> CallToolResult {
    CallToolResult {
        content: vec![
            McpContent::Text("hello".into()),
            McpContent::Text("world".into()),
        ],
        is_error: Some(false),
    }
}

fn boom() -> CallToolResult {
    CallToolResult {
        content: vec![McpContent::Text("boom".into())],
        is_error: Some(true),
    }
}

#[test]
fn mod_flatten_text_blocks() {
    let out = flatten_call_tool_result(&two_blocks());
    assert_eq!(out.text, "hello\nworld");
    assert!(!out.is_error);
}

#[test]
fn mod_flatten_error_result() {
    let out = flatten_call_tool_result(&boom());
    assert!(out.is_error);
    assert_eq!(out.text, "boom");
}

#[test]
fn tool_flatten_text_blocks() {
    let out = flatten_call_tool_result(&two_blocks());
    assert_eq!(out.text, "hello\nworld");
    assert!(!out.is_error);
    assert_eq!(
        tool_outcome(CallEnd::Answered(two_blocks())),
        Ok("hello\nworld".to_string())
    );
}

#[test]
fn tool_flatten_error_result() {
    let out = flatten_call_tool_result(&boom());
    assert!(out.is_error);
    assert_eq!(out.text, "boom");
    assert_eq!(
        tool_outcome(CallEnd::Answered(boom())),
        Err(ToolError::ExecutionFailed("boom".to_string()))
    );
    assert_eq!(
        tool_outcome(CallEnd::Failed("gone".into())),
        Err(ToolError::ExecutionFailed("MCP tools/call failed: gone".into()))
    );
    assert_eq!(tool_outcome(CallEnd::Cancelled), Err(ToolError::Aborted));
}

#[test]
fn merge_plugin_declarations_namespaces_and_does_not_clobber_user() {
    let mut config = McpConfig::default();
    config
        .mcp_servers
        .insert("fs".to_string(), stdio("user-binary"));
    merge_plugin_declarations(
        &mut config,
        vec![DeclaredServer {
            plugin: "gitwork".to_string(),
            name: "fs".to_string(),
            config: McpServerConfig {
                transport: McpServerTransportConfig::Stdio {
                    command: "npx".to_string(),
                    args: vec!["-y".to_string(), "fs-server".to_string()],
                    env: None,
                    cwd: None,
                },
            },
        }],
    );
    // User's `fs` survives untouched.
    assert_eq!(command_of(&config, "fs"), "user-binary");
    // Plugin's `fs` landed under the namespaced key.
    assert!(config.mcp_servers.contains_key("gitwork__fs"));
    assert_eq!(command_of(&config, "gitwork__fs"), "npx");
}

#[test]
fn disabled_servers_are_not_connected() {
    let user = || {
        let mut config = McpConfig::default();
        config.mcp_servers.insert("fs".into(), stdio("user-binary"));
        config.mcp_servers.insert("off".into(), stdio("never"));
        Some(config)
    };
    let declared = || {
        vec![DeclaredServer {
            plugin: "p".into(),
            name: "fs".into(),
            config: stdio("npx"),
        }]
    };
    let merged = load_merged_config(user(), declared());
    assert_eq!(merged.mcp_servers.len(), 3);
    assert_eq!(command_of(&merged, "p__fs"), "npx");
    let alone = load_merged_config(None, declared());
    assert_eq!(alone.mcp_servers.len(), 1);

    let wanted = servers_to_connect(user(), declared(), &vec!["off".to_string()]);
    assert_eq!(wanted.mcp_servers.len(), 2);
    assert!(!wanted.mcp_servers.contains_key("off"));
    assert_eq!(command_of(&wanted, "fs"), "user-binary");
}

#[test]
fn header_names_come_in_lower_case() {
    let mut headers: Table<String> = Table::new();
    headers.insert("Authorization".into(), "Bearer xxx".into());
    let map = header_map(&headers).unwrap();
    assert_eq!(map.get("authorization").unwrap(), "Bearer xxx");
}

#[test]
fn bad_headers_are_reported() {
    let mut headers: Table<String> = Table::new();
    headers.insert("bad name".into(), "x".into());
    assert_eq!(
        header_map(&headers).unwrap_err(),
        "invalid header name `bad name`: invalid HTTP header name"
    );
    let mut headers: Table<String> = Table::new();
    headers.insert("ok".into(), "a\nb".into());
    assert_eq!(
        header_map(&headers).unwrap_err(),
        "invalid header value for `ok`: failed to parse header value"
    );
}

#[test]
fn empty_arguments_are_left_out() {
    assert!(call_arguments(Json::Object(vec![])).is_none());
    assert!(call_arguments(Json::Null).is_none());
    let args = Json::Object(vec![("a".into(), Json::Bool(true))]);
    assert!(call_arguments(args).is_some());
}
