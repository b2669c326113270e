use ccgo::config::Config;
use ccgo::mcp::{JsonRpcError, JsonRpcMessage, JsonRpcNotification, JsonRpcRequest,
    JsonRpcResponse};

#[test]
fn test_default_config_agents() {
    let c = Config::default();
    assert_eq!(c.server.port, 8765);
    assert_eq!(c.server.host, "127.0.0.1");
    assert_eq!(c.timeouts.default, 600);
    assert_eq!(c.timeouts.max_stuck_duration, 300);
    assert_eq!(c.web.output_buffer_size, 10 * 1024 * 1024);
    assert!(!c.web.input_enabled);
    let codex = c.get_agent("codex").unwrap();
    assert_eq!(codex.command, "codex");
    assert_eq!(codex.log_provider, "codex");
    assert!(c.get_agent("gemini").is_some());
    assert!(c.get_agent("opencode").is_some());
    assert!(c.get_agent("unknown").is_none());
}

#[test]
fn test_jsonrpc_message_accessors() {
    let req = JsonRpcMessage::Request(JsonRpcRequest {
        jsonrpc: String::from("2.0"),
        id: serde_json::Value::from(1u64),
        method: String::from("tools/call"),
        params: serde_json::Value::Null,
    });
    assert_eq!(req.method(), "tools/call");
    assert!(req.id().is_some());
    let note = JsonRpcMessage::Notification(JsonRpcNotification {
        jsonrpc: String::from("2.0"),
        method: String::from("notifications/progress"),
        params: serde_json::Value::Null,
    });
    assert_eq!(note.method(), "notifications/progress");
    assert!(note.id().is_none());
}

#[test]
fn test_jsonrpc_response_constructors() {
    let ok = JsonRpcResponse::success(serde_json::Value::from(3u64), serde_json::Value::from("done"));
    assert_eq!(ok.jsonrpc, "2.0");
    assert!(ok.result.is_some());
    assert!(ok.error.is_none());
    let err = JsonRpcResponse::error(
        serde_json::Value::from(4u64),
        JsonRpcError { code: -32601, message: String::from("method not found"), data: None },
    );
    assert!(err.result.is_none());
    assert_eq!(err.error.as_ref().unwrap().code, -32601);
    assert_eq!(err.error.unwrap().message, "method not found");
}
