//! Model Context Protocol integration: the errors, transports and registries
//! of MCP clients and servers, the client node that calls an MCP tool from a
//! workflow, and what a tool's reply amounts to as JSON.
//!
//! Connecting to a server and calling its tools are the caller's work; the
//! library decides what is sent and what the replies become.

use vstd::prelude::*;
use vstd::string::*;

use crate::error::{flow_error_text, FlowError};
use crate::json::{
    key_position, lemma_first_position, lemma_member_models_index, lemma_member_models_len, lemma_member_models_update, member_models, model, parse_json,
    parsed_json, JsonModel, JsonValue,
};
use crate::state::FlowState;
use crate::table::NameTable;
use crate::text::{join, str_eq};

verus! {

/// Errors that can occur during MCP operations.
#[derive(Debug)]
pub enum McpError {
    ConnectionFailed { message: String },
    ToolNotFound { tool_name: String },
    ToolExecutionFailed { message: String },
    InvalidArguments { message: String },
    ResourceNotFound { uri: String },
    ServerStartupFailed { message: String },
    ClientNotFound { client_name: String },
    Serialization(serde_json::Error),
    Io(std::io::Error),
    Protocol(String),
}

/// `a`, then `b`, then `c`.
fn join3(a: &str, b: &str, c: &str) -> (r: String)
    ensures
        r@ == a@ + b@ + c@,
{
    let ab = join(a, b);
    join(ab.as_str(), c)
}

/// `s` is the display text of MCP error `e`. The text of a wrapped outside
/// error is what its `to_string` gives.
pub open spec fn mcp_error_text(e: McpError, s: Seq<char>) -> bool {
    match e {
        McpError::Serialization(j) => exists|t: String|
            s == "Serialization error: "@ + t@ && #[trigger] to_string_from_display_ensures::<serde_json::Error>(&j, t),
        McpError::Io(i) => exists|t: String|
            s == "IO error: "@ + t@ && #[trigger] to_string_from_display_ensures::<std::io::Error>(&i, t),
        _ => s == e.message_view(),
    }
}

impl McpError {
    /// The message of the error, as its display text reads.
    pub fn message(&self) -> (s: String)
        ensures
            self matches McpError::ConnectionFailed { message } ==> s@ == "MCP connection failed: "@ + message@,
            self matches McpError::ToolNotFound { tool_name } ==> s@ == "Tool '"@ + tool_name@ + "' not found"@,
            self matches McpError::ToolExecutionFailed { message } ==> s@ == "Tool execution failed: "@ + message@,
            self matches McpError::InvalidArguments { message } ==> s@ == "Invalid tool arguments: "@ + message@,
            self matches McpError::ResourceNotFound { uri } ==> s@ == "Resource '"@ + uri@ + "' not found"@,
            self matches McpError::ServerStartupFailed { message } ==> s@ == "MCP server startup failed: "@ + message@,
            self matches McpError::ClientNotFound { client_name } ==> s@ == "MCP client not found: "@ + client_name@,
            self matches McpError::Protocol(m) ==> s@ == "MCP protocol error: "@ + m@,
            !(self is Serialization) && !(self is Io) ==> s@ == self.message_view(),
            mcp_error_text(*self, s@),
    {
        match self {
            McpError::ConnectionFailed { message } => join("MCP connection failed: ", message.as_str()),
            McpError::ToolNotFound { tool_name } => join3("Tool '", tool_name.as_str(), "' not found"),
            McpError::ToolExecutionFailed { message } => join("Tool execution failed: ", message.as_str()),
            McpError::InvalidArguments { message } => join("Invalid tool arguments: ", message.as_str()),
            McpError::ResourceNotFound { uri } => join3("Resource '", uri.as_str(), "' not found"),
            McpError::ServerStartupFailed { message } => join("MCP server startup failed: ", message.as_str()),
            McpError::ClientNotFound { client_name } => join("MCP client not found: ", client_name.as_str()),
            McpError::Serialization(e) => join("Serialization error: ", e.to_string().as_str()),
            McpError::Io(e) => join("IO error: ", e.to_string().as_str()),
            McpError::Protocol(m) => join("MCP protocol error: ", m.as_str()),
        }
    }

    /// The flow error an MCP error becomes: a context error that quotes it.
    pub fn into_flow_error(&self) -> (e: FlowError)
        ensures
            e is Context,
            !(self is Serialization) && !(self is Io) ==> (e matches FlowError::Context(m) && m@ == "MCP error: "@
                + self.message_view()),
            e matches FlowError::Context(m) && exists|t: Seq<char>| m@ == "MCP error: "@ + t && #[trigger] mcp_error_text(
                *self,
                t,
            ),
    {
        let m = self.message();
        FlowError::context(join("MCP error: ", m.as_str()))
    }

    /// The display text of the error, where the contract of `message` fixes it.
    pub open spec fn message_view(&self) -> Seq<char> {
        match self {
            McpError::ConnectionFailed { message } => "MCP connection failed: "@ + message@,
            McpError::ToolNotFound { tool_name } => "Tool '"@ + tool_name@ + "' not found"@,
            McpError::ToolExecutionFailed { message } => "Tool execution failed: "@ + message@,
            McpError::InvalidArguments { message } => "Invalid tool arguments: "@ + message@,
            McpError::ResourceNotFound { uri } => "Resource '"@ + uri@ + "' not found"@,
            McpError::ServerStartupFailed { message } => "MCP server startup failed: "@ + message@,
            McpError::ClientNotFound { client_name } => "MCP client not found: "@ + client_name@,
            McpError::Protocol(m) => "MCP protocol error: "@ + m@,
            _ => Seq::empty(),
        }
    }

    /// The MCP error a flow error becomes: a protocol error that quotes it.
    pub fn from_flow_error(err: &FlowError) -> (e: McpError)
        ensures
            e matches McpError::Protocol(m) && exists|t: Seq<char>| m@ == "Flow error: "@ + t
                && #[trigger] flow_error_text(*err, t),
            err matches FlowError::Context(c) ==> e matches McpError::Protocol(m) && m@ == "Flow error: "@
                + "Context error: "@ + c@,
    {
        let m = err.message();
        McpError::Protocol(join("Flow error: ", m.as_str()))
    }
}

/// Configuration for MCP transport connections.
#[derive(Debug, Clone)]
pub enum McpTransportConfig {
    /// Connect to an MCP server via child process (stdio)
    Stdio,
    /// Connect to an MCP server via HTTP
    Http { url: String },
    /// Connect with custom configuration
    Custom { config: String },
}

impl McpTransportConfig {
    /// Whether a client can connect over this transport: stdio and HTTP can,
    /// a custom configuration is refused.
    pub fn check_supported(&self) -> (r: Result<(), McpError>)
        ensures
            r is Ok <==> !(self is Custom),
            r matches Err(e) ==> e matches McpError::InvalidArguments { message } && message@
                == "Custom configuration not yet implemented"@,
    {
        match self {
            McpTransportConfig::Custom { .. } => Err(
                McpError::InvalidArguments { message: String::from_str("Custom configuration not yet implemented") },
            ),
            _ => Ok(()),
        }
    }
}

/// A text as a tool's reply: the JSON it holds, else the text as a string.
pub open spec fn reply_value(text: Seq<char>) -> JsonModel {
    match parsed_json(text) {
        Some(v) => v,
        None => JsonModel::String(text),
    }
}

/// The value of a reply text: parsed as JSON when it is JSON, else kept as a
/// string.
pub fn text_value(text: &str) -> (v: JsonValue)
    ensures
        model(v) == reply_value(text@),
{
    match parse_json(text) {
        Some(v) => v,
        None => JsonValue::String(String::from_str(text)),
    }
}

/// All the texts, one after another.
pub open spec fn concat_texts(texts: Seq<String>) -> Seq<char>
    decreases texts.len(),
{
    if texts.len() == 0 {
        Seq::empty()
    } else {
        concat_texts(texts.drop_last()) + texts.last()@
    }
}

/// The value of a tool's reply: its text parts joined, then read as JSON
/// when they are JSON, else kept as a string.
pub fn tool_output(texts: &Vec<String>) -> (v: JsonValue)
    ensures
        model(v) == reply_value(concat_texts(texts@)),
{
    let mut all = String::new();
    let mut i: usize = 0;
    assert(texts@.subrange(0, 0) =~= Seq::<String>::empty());
    while i < texts.len()
        invariant
            i <= texts@.len(),
            all@ == concat_texts(texts@.subrange(0, i as int)),
        decreases texts@.len() - i,
    {
        assert(texts@.subrange(0, i as int + 1).drop_last() =~= texts@.subrange(0, i as int));
        all.append(texts[i].as_str());
        i = i + 1;
    }
    assert(texts@.subrange(0, i as int) =~= texts@);
    text_value(all.as_str())
}

/// The value of a resource: its first content read as a reply when it is
/// text, else null.
pub fn resource_output(first_text: Option<&str>) -> (v: JsonValue)
    ensures
        model(v) == (match first_text {
            Some(t) => reply_value(t@),
            None => JsonModel::Null,
        }),
{
    match first_text {
        Some(t) => text_value(t),
        None => JsonValue::Null,
    }
}

/// An object's members with `key` set to `value`: the first member of that
/// name takes the value in place, or a new member comes last.
pub open spec fn insert_member(ms: Seq<(Seq<char>, JsonModel)>, key: Seq<char>, value: JsonModel) -> Seq<
    (Seq<char>, JsonModel),
> {
    match key_position(ms, key) {
        Some(i) => ms.update(i, (key, value)),
        None => ms.push((key, value)),
    }
}

/// Set a member of an object's members: overwrite the first of that name, or
/// add it last.
fn put_member(ms: &mut Vec<(String, JsonValue)>, key: String, value: JsonValue)
    ensures
        member_models(final(ms)@) == insert_member(member_models(old(ms)@), key@, model(value)),
{
    let ghost before = ms@;
    proof {
        lemma_member_models_len(before);
    }
    let mut i: usize = 0;
    while i < ms.len()
        invariant
            ms@ == before,
            before == old(ms)@,
            member_models(before).len() == before.len(),
            i <= before.len(),
            forall|j: int| 0 <= j < i ==> member_models(before)[j].0 != key@,
        decreases before.len() - i,
    {
        proof {
            lemma_member_models_index(before, i as int);
        }
        if str_eq(ms[i].0.as_str(), key.as_str()) {
            proof {
                lemma_first_position(member_models(before), key@, i as int);
                lemma_member_models_update(before, i as int, (key, value));
            }
            let ghost pair = (key, value);
            ms.set(i, (key, value));
            assert(ms@ == before.update(i as int, pair));
            return;
        }
        i = i + 1;
    }
    proof {
        assert(!(exists|j: int| 0 <= j < member_models(before).len() && member_models(before)[j].0 == key@));
    }
    ms.push((key, value));
    proof {
        assert(ms@.drop_last() =~= before);
    }
}

/// The arguments a client node passes its tool: for each mapped context
/// key, in order, whose value was found, the value under the key's tool
/// argument name.
pub open spec fn mapped_arguments(tool_args: Seq<String>, found: Seq<Option<JsonValue>>, n: nat) -> Seq<
    (Seq<char>, JsonModel),
>
    decreases n,
{
    if n == 0 {
        Seq::empty()
    } else {
        let prev = mapped_arguments(tool_args, found, (n - 1) as nat);
        match found[n - 1] {
            Some(v) => insert_member(prev, tool_args[n - 1]@, model(v)),
            None => prev,
        }
    }
}

/// A workflow node that calls one tool of an MCP server. `S` is the state
/// type of the workflow.
#[derive(Debug)]
pub struct McpClientNode<S: FlowState> {
    pub name: String,
    pub transport_config: McpTransportConfig,
    pub tool_name: String,
    /// Context keys and the tool arguments they fill.
    pub input_mapping: NameTable<String>,
    pub output_key: Option<String>,
    pub on_success: Option<S>,
    pub on_error: Option<S>,
}

impl<S: FlowState> McpClientNode<S> {
    /// Create a new builder for McpClientNode.
    pub fn builder(name: &str) -> (b: McpClientNodeBuilder<S>)
        ensures
            b.name@ == name@,
            b.transport_config is None,
            b.tool_name is None,
            b.input_mapping.wf(),
            b.input_mapping.view_map().is_empty(),
            b.output_key is None,
            b.on_success is None,
            b.on_error is None,
    {
        McpClientNodeBuilder::new(name)
    }

    /// The tool's arguments, from the values found in the context for each
    /// mapped key (`found[i]` for the `i`-th key, `None` when absent).
    pub fn tool_arguments(&self, found: &Vec<Option<JsonValue>>) -> (args: JsonValue)
        requires
            self.input_mapping.wf(),
            found@.len() == self.input_mapping.names().len(),
        ensures
            model(args) == JsonModel::Object(
                mapped_arguments(self.input_mapping.vals(), found@, found@.len()),
            ),
    {
        let mut ms: Vec<(String, JsonValue)> = Vec::new();
        let n = self.input_mapping.len();
        let mut i: usize = 0;
        assert(member_models(ms@) =~= Seq::empty());
        while i < n
            invariant
                self.input_mapping.wf(),
                n == self.input_mapping.names().len(),
                found@.len() == n,
                i <= n,
                member_models(ms@) == mapped_arguments(self.input_mapping.vals(), found@, i as nat),
            decreases n - i,
        {
            match &found[i] {
                Some(v) => {
                    let arg = self.input_mapping.value_at(i).clone();
                    put_member(&mut ms, arg, v.duplicate());
                },
                None => {},
            }
            i = i + 1;
        }
        JsonValue::Object(ms)
    }

    /// The state after the tool call: the success state when it succeeded,
    /// the error state when it failed.
    pub fn next_state(&self, succeeded: bool) -> (s: S)
        requires
            succeeded ==> self.on_success is Some,
            !succeeded ==> self.on_error is Some,
        ensures
            succeeded ==> s@ == self.on_success->0@,
            !succeeded ==> s@ == self.on_error->0@,
    {
        if succeeded {
            match &self.on_success {
                Some(st) => st.clone_state(),
                None => {
                    assert(false);
                    self.on_error.as_ref().unwrap().clone_state()
                },
            }
        } else {
            match &self.on_error {
                Some(st) => st.clone_state(),
                None => {
                    assert(false);
                    self.on_success.as_ref().unwrap().clone_state()
                },
            }
        }
    }
}

/// Builder for McpClientNode.
#[derive(Debug)]
pub struct McpClientNodeBuilder<S: FlowState> {
    pub name: String,
    pub transport_config: Option<McpTransportConfig>,
    pub tool_name: Option<String>,
    pub input_mapping: NameTable<String>,
    pub output_key: Option<String>,
    pub on_success: Option<S>,
    pub on_error: Option<S>,
}

impl<S: FlowState> McpClientNodeBuilder<S> {
    pub fn new(name: &str) -> (b: Self)
        ensures
            b.name@ == name@,
            b.transport_config is None,
            b.tool_name is None,
            b.input_mapping.wf(),
            b.input_mapping.view_map().is_empty(),
            b.output_key is None,
            b.on_success is None,
            b.on_error is None,
    {
        McpClientNodeBuilder {
            name: String::from_str(name),
            transport_config: None,
            tool_name: None,
            input_mapping: NameTable::new(),
            output_key: None,
            on_success: None,
            on_error: None,
        }
    }

    /// Configure the node to use stdio transport.
    pub fn with_stdio(self) -> (b: Self)
        ensures
            b == (McpClientNodeBuilder { transport_config: Some(McpTransportConfig::Stdio), ..self }),
    {
        McpClientNodeBuilder { transport_config: Some(McpTransportConfig::Stdio), ..self }
    }

    /// Configure the node to use HTTP transport.
    pub fn with_http(self, url: &str) -> (b: Self)
        ensures
            b.transport_config matches Some(McpTransportConfig::Http { url: u }) && u@ == url@,
            b == (McpClientNodeBuilder { transport_config: b.transport_config, ..self }),
    {
        McpClientNodeBuilder { transport_config: Some(McpTransportConfig::Http { url: String::from_str(url) }), ..self }
    }

    /// Configure the node to use custom transport.
    pub fn with_custom(self, config: &str) -> (b: Self)
        ensures
            b.transport_config matches Some(McpTransportConfig::Custom { config: c }) && c@ == config@,
            b == (McpClientNodeBuilder { transport_config: b.transport_config, ..self }),
    {
        McpClientNodeBuilder {
            transport_config: Some(McpTransportConfig::Custom { config: String::from_str(config) }),
            ..self
        }
    }

    /// Set the tool name to call.
    pub fn tool(self, name: &str) -> (b: Self)
        ensures
            b.tool_name matches Some(t) && t@ == name@,
            b == (McpClientNodeBuilder { tool_name: b.tool_name, ..self }),
    {
        McpClientNodeBuilder { tool_name: Some(String::from_str(name)), ..self }
    }

    /// Map a context key to a tool argument.
    pub fn map_input(self, context_key: &str, tool_arg: &str) -> (b: Self)
        requires
            self.input_mapping.wf(),
        ensures
            b.input_mapping.wf(),
            b.input_mapping.view_map().dom() == self.input_mapping.view_map().dom().insert(context_key@),
            b.input_mapping.view_map()[context_key@]@ == tool_arg@,
            forall|k: Seq<char>| k != context_key@ && #[trigger] self.input_mapping.view_map().contains_key(k)
                ==> b.input_mapping.view_map()[k] == self.input_mapping.view_map()[k],
            b == (McpClientNodeBuilder { input_mapping: b.input_mapping, ..self }),
    {
        let mut b = self;
        b.input_mapping.insert(String::from_str(context_key), String::from_str(tool_arg));
        b
    }

    /// Set the context key to store the tool result.
    pub fn output_to(self, key: &str) -> (b: Self)
        ensures
            b.output_key matches Some(k) && k@ == key@,
            b == (McpClientNodeBuilder { output_key: b.output_key, ..self }),
    {
        McpClientNodeBuilder { output_key: Some(String::from_str(key)), ..self }
    }

    /// Set the state to transition to on success.
    pub fn on_success(self, state: S) -> (b: Self)
        ensures
            b == (McpClientNodeBuilder { on_success: Some(state), ..self }),
    {
        McpClientNodeBuilder { on_success: Some(state), ..self }
    }

    /// Set the state to transition to on error.
    pub fn on_error(self, state: S) -> (b: Self)
        ensures
            b == (McpClientNodeBuilder { on_error: Some(state), ..self }),
    {
        McpClientNodeBuilder { on_error: Some(state), ..self }
    }

    /// The node, which needs a transport and a tool name.
    pub fn build(self) -> (r: Result<McpClientNode<S>, McpError>)
        ensures
            r is Ok <==> self.transport_config is Some && self.tool_name is Some,
            self.transport_config is None ==> (r matches Err(McpError::InvalidArguments { message }) && message@
                == "Transport configuration is required"@),
            self.transport_config is Some && self.tool_name is None ==> (r matches Err(
                McpError::InvalidArguments { message },
            ) && message@ == "Tool name is required"@),
            r matches Ok(n) ==> n == (McpClientNode {
                name: self.name,
                transport_config: self.transport_config->0,
                tool_name: self.tool_name->0,
                input_mapping: self.input_mapping,
                output_key: self.output_key,
                on_success: self.on_success,
                on_error: self.on_error,
            }),
    {
        let transport_config = match self.transport_config {
            Some(t) => t,
            None => {
                return Err(McpError::InvalidArguments { message: String::from_str("Transport configuration is required") });
            },
        };
        let tool_name = match self.tool_name {
            Some(t) => t,
            None => {
                return Err(McpError::InvalidArguments { message: String::from_str("Tool name is required") });
            },
        };
        Ok(McpClientNode {
            name: self.name,
            transport_config,
            tool_name,
            input_mapping: self.input_mapping,
            output_key: self.output_key,
            on_success: self.on_success,
            on_error: self.on_error,
        })
    }
}

/// A client node builder for a filesystem tool, over stdio.
pub fn filesystem_tool<S: FlowState>(name: &str, tool_name: &str) -> (b: McpClientNodeBuilder<S>)
    ensures
        b.name@ == name@,
        b.transport_config == Some(McpTransportConfig::Stdio),
        b.tool_name matches Some(t) && t@ == tool_name@,
        b.input_mapping.wf(),
        b.input_mapping.view_map().is_empty(),
        b.output_key is None,
        b.on_success is None,
        b.on_error is None,
{
    McpClientNode::builder(name).with_stdio().tool(tool_name)
}

/// A client node builder for a web search tool, over HTTP.
pub fn web_search_tool<S: FlowState>(name: &str, tool_name: &str, server_url: &str) -> (b: McpClientNodeBuilder<S>)
    ensures
        b.name@ == name@,
        b.transport_config matches Some(McpTransportConfig::Http { url }) && url@ == server_url@,
        b.tool_name matches Some(t) && t@ == tool_name@,
        b.input_mapping.wf(),
        b.input_mapping.view_map().is_empty(),
        b.output_key is None,
        b.on_success is None,
        b.on_error is None,
{
    McpClientNode::builder(name).with_http(server_url).tool(tool_name)
}

/// A client node builder for a database tool, over HTTP.
pub fn database_tool<S: FlowState>(name: &str, tool_name: &str, server_url: &str) -> (b: McpClientNodeBuilder<S>)
    ensures
        b.name@ == name@,
        b.transport_config matches Some(McpTransportConfig::Http { url }) && url@ == server_url@,
        b.tool_name matches Some(t) && t@ == tool_name@,
        b.input_mapping.wf(),
        b.input_mapping.view_map().is_empty(),
        b.output_key is None,
        b.on_success is None,
        b.on_error is None,
{
    McpClientNode::builder(name).with_http(server_url).tool(tool_name)
}

/// A client node builder for a general HTTP MCP server.
pub fn http_tool<S: FlowState>(name: &str, tool_name: &str, url: &str) -> (b: McpClientNodeBuilder<S>)
    ensures
        b.name@ == name@,
        b.transport_config matches Some(McpTransportConfig::Http { url: u }) && u@ == url@,
        b.tool_name matches Some(t) && t@ == tool_name@,
        b.input_mapping.wf(),
        b.input_mapping.view_map().is_empty(),
        b.output_key is None,
        b.on_success is None,
        b.on_error is None,
{
    McpClientNode::builder(name).with_http(url).tool(tool_name)
}

/// A client node builder for a stdio MCP server.
pub fn stdio_tool<S: FlowState>(name: &str, tool_name: &str) -> (b: McpClientNodeBuilder<S>)
    ensures
        b.name@ == name@,
        b.transport_config == Some(McpTransportConfig::Stdio),
        b.tool_name matches Some(t) && t@ == tool_name@,
        b.input_mapping.wf(),
        b.input_mapping.view_map().is_empty(),
        b.output_key is None,
        b.on_success is None,
        b.on_error is None,
{
    McpClientNode::builder(name).with_stdio().tool(tool_name)
}

/// Status of workflow execution.
#[derive(Debug, Clone, Copy, PartialEq, Eq, Structural)]
pub enum WorkflowStatus {
    Success,
    Failed,
    Running,
    Cancelled,
}

/// Configuration for MCP server setup.
#[derive(Debug, Clone)]
pub struct McpServerConfig {
    pub name: String,
    pub version: String,
    pub max_concurrent_requests: usize,
    pub request_timeout_seconds: u64,
}

impl Default for McpServerConfig {
    /// A server named `pocketflow-mcp`, version 0.1.0, taking ten requests
    /// at once with a 30 s timeout.
    fn default() -> (c: Self)
        ensures
            c.name@ == "pocketflow-mcp"@,
            c.version@ == "0.1.0"@,
            c.max_concurrent_requests == 10,
            c.request_timeout_seconds == 30,
    {
        McpServerConfig {
            name: String::from_str("pocketflow-mcp"),
            version: String::from_str("0.1.0"),
            max_concurrent_requests: 10,
            request_timeout_seconds: 30,
        }
    }
}

/// Parameters for workflow execution via MCP.
#[derive(Debug)]
pub struct WorkflowExecutionParams {
    pub workflow_name: String,
    pub input: JsonValue,
    pub context_overrides: Option<NameTable<JsonValue>>,
}

/// Result of workflow execution via MCP.
#[derive(Debug)]
pub struct WorkflowExecutionResult {
    pub status: WorkflowStatus,
    pub output: Option<JsonValue>,
    pub error: Option<String>,
    pub metadata: NameTable<JsonValue>,
}

/// A workflow node exposed as an MCP tool.
#[derive(Debug)]
pub struct McpToolNode {
    pub name: String,
    pub description: String,
    pub input_schema: JsonValue,
}

impl McpToolNode {
    pub fn new(name: String, description: String, input_schema: JsonValue) -> (n: Self)
        ensures
            n == (McpToolNode { name, description, input_schema }),
    {
        McpToolNode { name, description, input_schema }
    }
}

/// Registry of MCP clients and servers by name. `C` is a client, `H` a
/// server handler.
#[derive(Debug)]
pub struct McpRegistry<C, H> {
    clients: NameTable<C>,
    servers: NameTable<H>,
}

impl<C, H> McpRegistry<C, H> {
    /// The clients by name.
    pub closed spec fn client_map(&self) -> Map<Seq<char>, C> {
        self.clients.view_map()
    }

    /// The servers by name.
    pub closed spec fn server_map(&self) -> Map<Seq<char>, H> {
        self.servers.view_map()
    }

    /// Both tables are well formed.
    pub closed spec fn wf(&self) -> bool {
        self.clients.wf() && self.servers.wf()
    }

    /// An empty registry.
    pub fn new() -> (r: Self)
        ensures
            r.wf(),
            r.client_map().is_empty(),
            r.server_map().is_empty(),
    {
        McpRegistry { clients: NameTable::new(), servers: NameTable::new() }
    }

    /// Register a client under a name, replacing any of that name.
    pub fn register_client(&mut self, name: String, client: C) -> (r: Result<(), McpError>)
        requires
            old(self).wf(),
        ensures
            r is Ok,
            final(self).wf(),
            final(self).client_map() == old(self).client_map().insert(name@, client),
            final(self).server_map() == old(self).server_map(),
    {
        self.clients.insert(name, client);
        Ok(())
    }

    /// The client registered under a name.
    pub fn get_client(&self, name: &str) -> (r: Option<&C>)
        requires
            self.wf(),
        ensures
            match r {
                Some(c) => self.client_map().contains_key(name@) && *c == self.client_map()[name@],
                None => !self.client_map().contains_key(name@),
            },
    {
        self.clients.get(name)
    }

    /// The names of the registered clients.
    pub fn list_clients(&self) -> (v: Vec<String>)
        requires
            self.wf(),
        ensures
            forall|k: Seq<char>| self.client_map().contains_key(k) <==> exists|i: int| 0 <= i < v@.len() && #[trigger] v@[i]@ == k,
            v@.len() == self.client_map().dom().len(),
    {
        let v = self.clients.name_list();
        proof {
            self.clients.lemma_dom_len();
        }
        v
    }

    /// Remove a client.
    pub fn remove_client(&mut self, name: &str) -> (r: Result<(), McpError>)
        requires
            old(self).wf(),
        ensures
            r is Ok,
            final(self).wf(),
            final(self).client_map() == old(self).client_map().remove(name@),
            final(self).server_map() == old(self).server_map(),
    {
        let _ = self.clients.remove(name);
        Ok(())
    }

    /// Register a server under a name, replacing any of that name.
    pub fn register_server(&mut self, name: String, server: H) -> (r: Result<(), McpError>)
        requires
            old(self).wf(),
        ensures
            r is Ok,
            final(self).wf(),
            final(self).server_map() == old(self).server_map().insert(name@, server),
            final(self).client_map() == old(self).client_map(),
    {
        self.servers.insert(name, server);
        Ok(())
    }

    /// The server registered under a name.
    pub fn get_server(&self, name: &str) -> (r: Option<&H>)
        requires
            self.wf(),
        ensures
            match r {
                Some(h) => self.server_map().contains_key(name@) && *h == self.server_map()[name@],
                None => !self.server_map().contains_key(name@),
            },
    {
        self.servers.get(name)
    }

    /// The names of the registered servers.
    pub fn list_servers(&self) -> (v: Vec<String>)
        requires
            self.wf(),
        ensures
            forall|k: Seq<char>| self.server_map().contains_key(k) <==> exists|i: int| 0 <= i < v@.len() && #[trigger] v@[i]@ == k,
            v@.len() == self.server_map().dom().len(),
    {
        let v = self.servers.name_list();
        proof {
            self.servers.lemma_dom_len();
        }
        v
    }

    /// Remove a server.
    pub fn remove_server(&mut self, name: &str) -> (r: Result<(), McpError>)
        requires
            old(self).wf(),
        ensures
            r is Ok,
            final(self).wf(),
            final(self).server_map() == old(self).server_map().remove(name@),
            final(self).client_map() == old(self).client_map(),
    {
        let _ = self.servers.remove(name);
        Ok(())
    }

    /// The names of all clients and of all servers.
    pub fn list_all(&self) -> (r: (Vec<String>, Vec<String>))
        requires
            self.wf(),
        ensures
            forall|k: Seq<char>| self.client_map().contains_key(k) <==> exists|i: int| 0 <= i < r.0@.len() && #[trigger] r.0@[i]@ == k,
            forall|k: Seq<char>| self.server_map().contains_key(k) <==> exists|i: int| 0 <= i < r.1@.len() && #[trigger] r.1@[i]@ == k,
    {
        let c = self.list_clients();
        let s = self.list_servers();
        let r = (c, s);
        assert(r.0@ == c@ && r.1@ == s@);
        r
    }

    /// Forget every client and server.
    pub fn clear_all(&mut self) -> (r: Result<(), McpError>)
        requires
            old(self).wf(),
        ensures
            r is Ok,
            final(self).wf(),
            final(self).client_map().is_empty(),
            final(self).server_map().is_empty(),
    {
        self.clients.clear();
        self.servers.clear();
        Ok(())
    }

    pub fn has_client(&self, name: &str) -> (b: bool)
        requires
            self.wf(),
        ensures
            b == self.client_map().contains_key(name@),
    {
        self.clients.contains_key(name)
    }

    pub fn has_server(&self, name: &str) -> (b: bool)
        requires
            self.wf(),
        ensures
            b == self.server_map().contains_key(name@),
    {
        self.servers.contains_key(name)
    }

    pub fn client_count(&self) -> (n: usize)
        requires
            self.wf(),
        ensures
            n == self.client_map().dom().len(),
    {
        self.clients.len()
    }

    pub fn server_count(&self) -> (n: usize)
        requires
            self.wf(),
        ensures
            n == self.server_map().dom().len(),
    {
        self.servers.len()
    }
}

/// The MCP data a workflow context carries: clients by name, tool results
/// and cached resources.
#[derive(Debug)]
pub struct McpContext<C> {
    pub clients: NameTable<C>,
    pub tool_results: NameTable<JsonValue>,
    pub resource_cache: NameTable<JsonValue>,
}

impl<C> McpContext<C> {
    pub open spec fn wf(&self) -> bool {
        self.clients.wf() && self.tool_results.wf() && self.resource_cache.wf()
    }

    /// No clients, results or cached resources.
    pub fn new() -> (c: Self)
        ensures
            c.wf(),
            c.clients.view_map().is_empty(),
            c.tool_results.view_map().is_empty(),
            c.resource_cache.view_map().is_empty(),
    {
        McpContext { clients: NameTable::new(), tool_results: NameTable::new(), resource_cache: NameTable::new() }
    }

    /// Register a client under a name.
    pub fn register_mcp_client(&mut self, name: &str, client: C) -> (r: Result<(), McpError>)
        requires
            old(self).wf(),
        ensures
            r is Ok,
            final(self).wf(),
            final(self).clients.view_map() == old(self).clients.view_map().insert(name@, client),
            final(self).tool_results == old(self).tool_results,
            final(self).resource_cache == old(self).resource_cache,
    {
        self.clients.insert(String::from_str(name), client);
        Ok(())
    }

    /// The client registered under a name.
    pub fn get_mcp_client(&self, name: &str) -> (r: Option<&C>)
        requires
            self.wf(),
        ensures
            match r {
                Some(c) => self.clients.view_map().contains_key(name@) && *c == self.clients.view_map()[name@],
                None => !self.clients.view_map().contains_key(name@),
            },
    {
        self.clients.get(name)
    }

    /// Remove the client registered under a name, giving it back.
    pub fn remove_mcp_client(&mut self, name: &str) -> (r: Option<C>)
        requires
            old(self).wf(),
        ensures
            final(self).wf(),
            final(self).clients.view_map() == old(self).clients.view_map().remove(name@),
            match r {
                Some(c) => old(self).clients.view_map().contains_key(name@) && c == old(self).clients.view_map()[name@],
                None => !old(self).clients.view_map().contains_key(name@),
            },
            final(self).tool_results == old(self).tool_results,
            final(self).resource_cache == old(self).resource_cache,
    {
        self.clients.remove(name)
    }

    /// The names of the registered clients.
    pub fn list_mcp_clients(&self) -> (v: Vec<String>)
        requires
            self.wf(),
        ensures
            forall|k: Seq<char>| self.clients.view_map().contains_key(k) <==> exists|i: int| 0 <= i < v@.len() && #[trigger] v@[i]@ == k,
    {
        self.clients.name_list()
    }

    /// The client to call a tool with: the one registered under the name, or
    /// a client-not-found error.
    pub fn client_for_call(&self, client_name: &str) -> (r: Result<&C, McpError>)
        requires
            self.wf(),
        ensures
            match r {
                Ok(c) => self.clients.view_map().contains_key(client_name@) && *c == self.clients.view_map()[client_name@],
                Err(e) => !self.clients.view_map().contains_key(client_name@) && (e matches McpError::ClientNotFound {
                    client_name: n,
                } && n@ == client_name@),
            },
    {
        match self.clients.get(client_name) {
            Some(c) => Ok(c),
            None => Err(McpError::ClientNotFound { client_name: String::from_str(client_name) }),
        }
    }

    /// Store a tool result under a key.
    pub fn set_mcp_result(&mut self, key: &str, result: JsonValue) -> (r: Result<(), McpError>)
        requires
            old(self).wf(),
        ensures
            r is Ok,
            final(self).wf(),
            final(self).tool_results.view_map() == old(self).tool_results.view_map().insert(key@, result),
            final(self).clients == old(self).clients,
            final(self).resource_cache == old(self).resource_cache,
    {
        self.tool_results.insert(String::from_str(key), result);
        Ok(())
    }

    /// The tool result stored under a key.
    pub fn get_mcp_result(&self, key: &str) -> (r: Option<&JsonValue>)
        requires
            self.wf(),
        ensures
            match r {
                Some(v) => self.tool_results.view_map().contains_key(key@) && *v == self.tool_results.view_map()[key@],
                None => !self.tool_results.view_map().contains_key(key@),
            },
    {
        self.tool_results.get(key)
    }

    /// Cache a resource under its URI.
    pub fn cache_mcp_resource(&mut self, uri: &str, data: JsonValue) -> (r: Result<(), McpError>)
        requires
            old(self).wf(),
        ensures
            r is Ok,
            final(self).wf(),
            final(self).resource_cache.view_map() == old(self).resource_cache.view_map().insert(uri@, data),
            final(self).clients == old(self).clients,
            final(self).tool_results == old(self).tool_results,
    {
        self.resource_cache.insert(String::from_str(uri), data);
        Ok(())
    }

    /// The resource cached under a URI.
    pub fn get_cached_resource(&self, uri: &str) -> (r: Option<&JsonValue>)
        requires
            self.wf(),
        ensures
            match r {
                Some(v) => self.resource_cache.view_map().contains_key(uri@) && *v == self.resource_cache.view_map()[uri@],
                None => !self.resource_cache.view_map().contains_key(uri@),
            },
    {
        self.resource_cache.get(uri)
    }

    /// Forget every tool result and cached resource; the clients stay.
    pub fn clear_mcp_cache(&mut self)
        requires
            old(self).wf(),
        ensures
            final(self).wf(),
            final(self).tool_results.view_map().is_empty(),
            final(self).resource_cache.view_map().is_empty(),
            final(self).clients == old(self).clients,
    {
        self.tool_results.clear();
        self.resource_cache.clear();
    }
}

/// What a registry gives back for a name is what was last registered under
/// it; other names keep what they had, and removing a name forgets it.
pub proof fn registry_read_after_write<C>(before: Map<Seq<char>, C>, name: Seq<char>, client: C, other: Seq<char>)
    ensures
        before.insert(name, client).contains_key(name),
        before.insert(name, client)[name] == client,
        other != name ==> before.insert(name, client).contains_key(other) == before.contains_key(other),
        other != name && before.contains_key(other) ==> before.insert(name, client)[other] == before[other],
        !before.remove(name).contains_key(name),
{
}


/// The text of a reply is its parts laid end to end: the text of two runs of
/// parts, one after the other, is the text of the first run followed by the
/// text of the second, with nothing put between them.
pub proof fn reply_text_concatenates(a: Seq<String>, b: Seq<String>)
    ensures
        concat_texts(a + b) == concat_texts(a) + concat_texts(b),
    decreases b.len(),
{
    if b.len() == 0 {
        assert(a + b =~= a);
        assert(concat_texts(a) + concat_texts(b) =~= concat_texts(a));
    } else {
        reply_text_concatenates(a, b.drop_last());
        assert((a + b).drop_last() =~= a + b.drop_last());
        assert((a + b).last() == b.last());
        assert(concat_texts(a + b) =~= concat_texts(a) + concat_texts(b));
    }
}

/// The text of a reply of one part is that part; of two parts, the first
/// followed at once by the second.
pub proof fn reply_text_of_parts(x: String, y: String)
    ensures
        concat_texts(seq![x]) == x@,
        concat_texts(seq![x, y]) == x@ + y@,
{
    assert(seq![x].drop_last() =~= Seq::<String>::empty());
    assert(seq![x].last() == x);
    assert(concat_texts(Seq::<String>::empty()) == Seq::<char>::empty());
    assert(concat_texts(seq![x]) == concat_texts(Seq::<String>::empty()) + x@);
    assert(concat_texts(seq![x]) =~= x@);
    assert(seq![x, y].drop_last() =~= seq![x]);
    assert(seq![x, y].last() == y);
    assert(concat_texts(seq![x, y]) =~= x@ + y@);
}

} // verus!
