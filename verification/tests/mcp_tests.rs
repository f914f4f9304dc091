use pocketflow::json::{JsonNumber, JsonValue};
use pocketflow::mcp::{
    database_tool, filesystem_tool, http_tool, resource_output, stdio_tool, text_value, tool_output, web_search_tool,
    McpClientNode, McpClientNodeBuilder, McpContext, McpError, McpRegistry, McpServerConfig, McpTransportConfig,
};
use pocketflow::state::SimpleState;

fn s(x: &str) -> String {
    x.to_string()
}

#[test]
fn test_mcp_server_config_default() {
    let config = McpServerConfig::default();
    assert_eq!(config.name, "pocketflow-mcp");
    assert_eq!(config.version, "0.1.0");
    assert_eq!(config.max_concurrent_requests, 10);
    assert_eq!(config.request_timeout_seconds, 30);
}

#[test]
fn test_registry_creation() {
    let registry: McpRegistry<u32, u32> = McpRegistry::new();
    assert_eq!(registry.client_count(), 0);
    assert_eq!(registry.server_count(), 0);
}

#[test]
fn test_registry_operations() {
    let mut registry: McpRegistry<u32, u32> = McpRegistry::new();
    let (clients, servers) = registry.list_all();
    assert!(clients.is_empty());
    assert!(servers.is_empty());
    assert!(!registry.has_client("test_client"));
    assert!(!registry.has_server("test_server"));
    assert_eq!(registry.client_count(), 0);
    assert_eq!(registry.server_count(), 0);

    registry.register_client(s("test_client"), 1).unwrap();
    registry.register_server(s("test_server"), 2).unwrap();
    assert!(registry.has_client("test_client"));
    assert_eq!(registry.get_client("test_client"), Some(&1));
    assert_eq!(registry.get_server("test_server"), Some(&2));
    registry.remove_client("test_client").unwrap();
    assert!(!registry.has_client("test_client"));
    registry.clear_all().unwrap();
    assert_eq!(registry.server_count(), 0);
}

#[test]
fn test_mcp_context_extensions() {
    let mut context: McpContext<u32> = McpContext::new();
    context.register_mcp_client("test", 5).unwrap();
    assert!(context.get_mcp_client("test").is_some());
    assert_eq!(context.list_mcp_clients(), vec![s("test")]);
    assert_eq!(context.client_for_call("test").ok(), Some(&5));
    match context.client_for_call("nobody") {
        Err(McpError::ClientNotFound { client_name }) => assert_eq!(client_name, "nobody"),
        _ => panic!("expected client not found"),
    }

    let result = JsonValue::Object(vec![(s("result"), JsonValue::String(s("Called test_tool from test_client")))]);
    context.set_mcp_result("test_result", result).unwrap();
    assert!(context.get_mcp_result("test_result").is_some());

    let resource = JsonValue::Object(vec![(s("content"), JsonValue::String(s("test resource")))]);
    context.cache_mcp_resource("test://resource", resource).unwrap();
    assert!(context.get_cached_resource("test://resource").is_some());

    context.clear_mcp_cache();
    assert!(context.get_mcp_result("test_result").is_none());
    assert!(context.get_cached_resource("test://resource").is_none());
    assert!(context.get_mcp_client("test").is_some());
    assert_eq!(context.remove_mcp_client("test"), Some(5));
}

#[test]
fn client_node_builder_requires_transport_and_tool() {
    let b: McpClientNodeBuilder<SimpleState> = McpClientNodeBuilder::new("n");
    match b.build() {
        Err(McpError::InvalidArguments { message }) => assert_eq!(message, "Transport configuration is required"),
        _ => panic!("expected missing transport"),
    }
    let b: McpClientNodeBuilder<SimpleState> = McpClientNode::builder("n").with_stdio();
    match b.build() {
        Err(McpError::InvalidArguments { message }) => assert_eq!(message, "Tool name is required"),
        _ => panic!("expected missing tool"),
    }
    let node = McpClientNode::<SimpleState>::builder("n")
        .with_http("http://localhost:8080")
        .tool("search")
        .output_to("out")
        .on_success(SimpleState::Success)
        .on_error(SimpleState::Error)
        .build()
        .unwrap();
    assert_eq!(node.tool_name, "search");
    assert!(matches!(node.transport_config, McpTransportConfig::Http { ref url } if url == "http://localhost:8080"));
    assert_eq!(node.output_key, Some(s("out")));
}

#[test]
fn client_node_maps_context_values_to_arguments() {
    let node = McpClientNode::<SimpleState>::builder("n")
        .with_stdio()
        .tool("t")
        .map_input("query_key", "query")
        .map_input("limit_key", "limit")
        .map_input("missing_key", "other")
        .build()
        .unwrap();
    let found = vec![
        Some(JsonValue::String(s("rust"))),
        Some(JsonValue::Number(JsonNumber::PosInt(5))),
        None,
    ];
    let args = node.tool_arguments(&found);
    assert_eq!(args.get("query").and_then(|v| v.as_str()).map(|x| x.as_str()), Some("rust"));
    assert_eq!(args.get("limit").and_then(|v| v.as_u64()), Some(5));
    assert!(args.get("other").is_none());
}

#[test]
fn client_node_later_mappings_overwrite_arguments() {
    let node = McpClientNode::<SimpleState>::builder("n")
        .with_stdio()
        .tool("t")
        .map_input("a", "x")
        .map_input("b", "x")
        .build()
        .unwrap();
    let args = node.tool_arguments(&vec![Some(JsonValue::Bool(true)), Some(JsonValue::Bool(false))]);
    match args {
        JsonValue::Object(ms) => {
            assert_eq!(ms.len(), 1);
            assert!(matches!(ms[0].1, JsonValue::Bool(false)));
        },
        _ => panic!("expected an object"),
    }
}

#[test]
fn client_node_next_state() {
    let node = McpClientNode::<SimpleState>::builder("n")
        .with_stdio()
        .tool("t")
        .on_success(SimpleState::Success)
        .on_error(SimpleState::Error)
        .build()
        .unwrap();
    assert!(matches!(node.next_state(true), SimpleState::Success));
    assert!(matches!(node.next_state(false), SimpleState::Error));
}

#[test]
fn helper_builders() {
    let f: McpClientNodeBuilder<SimpleState> = filesystem_tool("fs", "read_file");
    assert!(matches!(f.transport_config, Some(McpTransportConfig::Stdio)));
    assert_eq!(f.tool_name, Some(s("read_file")));
    let w: McpClientNodeBuilder<SimpleState> = web_search_tool("w", "search", "http://s");
    assert!(matches!(w.transport_config, Some(McpTransportConfig::Http { ref url }) if url == "http://s"));
    let d: McpClientNodeBuilder<SimpleState> = database_tool("d", "query", "http://db");
    assert_eq!(d.tool_name, Some(s("query")));
    let h: McpClientNodeBuilder<SimpleState> = http_tool("h", "x", "http://h");
    assert_eq!(h.name, "h");
    let st: McpClientNodeBuilder<SimpleState> = stdio_tool("st", "y");
    assert!(matches!(st.transport_config, Some(McpTransportConfig::Stdio)));
}

#[test]
fn custom_transport_is_refused() {
    assert!(McpTransportConfig::Stdio.check_supported().is_ok());
    match (McpTransportConfig::Custom { config: s("c") }).check_supported() {
        Err(McpError::InvalidArguments { message }) => assert_eq!(message, "Custom configuration not yet implemented"),
        _ => panic!("expected a refusal"),
    }
}

#[test]
fn replies_become_json_or_text() {
    assert!(matches!(text_value("{\"a\": 1}"), JsonValue::Object(_)));
    assert!(matches!(text_value("plain words"), JsonValue::String(ref t) if t == "plain words"));
    let joined = tool_output(&vec![s("[1,"), s(" 2]")]);
    assert!(matches!(joined, JsonValue::Array(ref a) if a.len() == 2));
    assert!(matches!(resource_output(None), JsonValue::Null));
    assert!(matches!(resource_output(Some("42")), JsonValue::Number(JsonNumber::PosInt(42))));
}

#[test]
fn mcp_error_messages() {
    assert_eq!(McpError::ToolNotFound { tool_name: s("x") }.message(), "Tool 'x' not found");
    assert_eq!(McpError::Protocol(s("p")).message(), "MCP protocol error: p");
    match (McpError::ConnectionFailed { message: s("down") }).into_flow_error() {
        pocketflow::error::FlowError::Context(m) => assert_eq!(m, "MCP error: MCP connection failed: down"),
        _ => panic!("expected a context error"),
    }
}
