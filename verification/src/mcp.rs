//! The client protocol's message shapes. Payloads ride through as opaque
//! JSON values; the accessors and response constructors are exact. Framing,
//! serialization and transport live outside the library.

use vstd::prelude::*;

verus! {

pub struct JsonRpcRequest {
    pub jsonrpc: String,
    pub id: serde_json::Value,
    pub method: String,
    pub params: serde_json::Value,
}

pub struct JsonRpcNotification {
    pub jsonrpc: String,
    pub method: String,
    pub params: serde_json::Value,
}

pub enum JsonRpcMessage {
    Request(JsonRpcRequest),
    Notification(JsonRpcNotification),
}

impl JsonRpcMessage {
    pub fn method(&self) -> (r: &str)
        ensures
            r@ == match self {
                JsonRpcMessage::Request(q) => q.method@,
                JsonRpcMessage::Notification(n) => n.method@,
            },
    {
        match self {
            JsonRpcMessage::Request(q) => q.method.as_str(),
            JsonRpcMessage::Notification(n) => n.method.as_str(),
        }
    }

    /// Only requests carry an id; a notification expects no response.
    pub fn id(&self) -> (r: Option<&serde_json::Value>)
        ensures
            self matches JsonRpcMessage::Request(q) ==> (r matches Some(v) && *v == q.id),
            self is Notification ==> r is None,
    {
        match self {
            JsonRpcMessage::Request(q) => Some(&q.id),
            JsonRpcMessage::Notification(_) => None,
        }
    }

    pub fn params(&self) -> (r: &serde_json::Value)
        ensures
            *r == match self {
                JsonRpcMessage::Request(q) => q.params,
                JsonRpcMessage::Notification(n) => n.params,
            },
    {
        match self {
            JsonRpcMessage::Request(q) => &q.params,
            JsonRpcMessage::Notification(n) => &n.params,
        }
    }
}

pub struct JsonRpcError {
    pub code: i32,
    pub message: String,
    pub data: Option<serde_json::Value>,
}

pub struct JsonRpcResponse {
    pub jsonrpc: String,
    pub id: serde_json::Value,
    pub result: Option<serde_json::Value>,
    pub error: Option<JsonRpcError>,
}

impl JsonRpcResponse {
    /// A success response: the result is set and the error slot empty.
    pub fn success(id: serde_json::Value, result: serde_json::Value) -> (r: Self)
        ensures
            r.jsonrpc@ == "2.0"@,
            r.id == id,
            r.result matches Some(v) && v == result,
            r.error is None,
    {
        JsonRpcResponse { jsonrpc: "2.0".to_owned(), id, result: Some(result), error: None }
    }

    /// An error response: the error is set and the result slot empty.
    pub fn error(id: serde_json::Value, error: JsonRpcError) -> (r: Self)
        ensures
            r.jsonrpc@ == "2.0"@,
            r.id == id,
            r.result is None,
            r.error is Some,
            r.error->Some_0.code == error.code,
            r.error->Some_0.message@ == error.message@,
    {
        JsonRpcResponse { jsonrpc: "2.0".to_owned(), id, result: None, error: Some(error) }
    }
}

pub struct InitializeResult {
    pub protocol_version: String,
    pub capabilities: ServerCapabilities,
    pub server_info: ServerInfo,
}

pub struct ServerCapabilities {
    pub tools: Option<ToolsCapability>,
}

pub struct ToolsCapability {
    pub list_changed: bool,
}

pub struct ServerInfo {
    pub name: String,
    pub version: String,
}

pub struct ToolsListResult {
    pub tools: Vec<ToolDefinition>,
}

pub struct ToolDefinition {
    pub name: String,
    pub description: String,
    pub input_schema: serde_json::Value,
}

pub struct ToolCallParams {
    pub name: String,
    pub arguments: serde_json::Value,
}

pub struct ToolCallResult {
    pub content: Vec<ToolContent>,
    pub is_error: bool,
}

pub enum ToolContent {
    Text { text: String },
}

} // verus!
