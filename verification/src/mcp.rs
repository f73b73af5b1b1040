//! Identity-bound MCP 2025-06-18 stdio bridge for Coordinator tools.
use vstd::prelude::*;

use crate::activation::{DesiredActivation, WorkspaceActivationView};
use crate::capability::{
    host_shape_refusal, session_shape_refusal, ActorContext, HostConnectionCapability,
    SessionCapability,
};
use crate::contract::{HarnessTier, SCHEMA_VERSION};
use crate::digest::digest_shaped;
use crate::error::{CoordinatorError, ErrorCategory};
use crate::herdr::{pairs, PaneRequest, PluginPaneOpenParams, PLUGIN_ID, WORKER_ENTRYPOINT};
use crate::host::{read_variable, value_of};
use crate::identity::HarnessId;
use crate::json::{
    copy_value, field, get_element, get_member, is_array, json_in, member, parse_bytes, parts,
    text_member, tree, JsonTree,
};
use crate::mcp_tools::{find_tool, host_tools, is_tool, offered, Tool, TOOLS};
use crate::paths::{below, join_path, parent, parent_of};
use crate::profile::{HarnessDefinitionV1, ResolvedLaunchProfile};
use crate::provider_session::{required_tool, required_tools};
use crate::select::{first_found, first_missing, first_where, some_where};
use crate::text::{byte_count, byte_len, copy_text, join3, optional_text, same_text};

verus! {

/// MCP revision implemented by the stdio bridge.
pub const MCP_PROTOCOL_VERSION: &'static str = "2025-06-18";

/// The longest frame, in bytes.
pub const MAX_FRAME_BYTES: usize = 1024 * 1024;

/// The longest inline Attachment, in bytes.
pub const MAX_INLINE_BYTES: usize = 512 * 1024;

/// The longest media type or file name of an inline Attachment, in bytes.
pub const MAX_NAME_BYTES: usize = 255;

/// How often the start of a Worker is asked for before its failure is reported.
pub const START_ATTEMPTS: u32 = 3;

// ---------------------------------------------------------------------------------------------
// The server
// ---------------------------------------------------------------------------------------------

/// One identity-bound stdio MCP server.
#[derive(Debug)]
pub struct McpServer {
    pub socket: String,
    pub actor: ActorContext,
    pub workspace_state_dir: Option<String>,
    pub herdr_socket: Option<String>,
    pub native_turn_id: Option<String>,
}

impl McpServer {
    /// A bridge whose every call is attributed to one Harness Session.
    pub fn new(socket: String, capability: SessionCapability) -> (r: McpServer)
        ensures
            r == (McpServer {
                socket,
                actor: ActorContext::Session { capability },
                workspace_state_dir: None,
                herdr_socket: None,
                native_turn_id: None,
            }),
    {
        McpServer {
            socket,
            actor: ActorContext::Session { capability },
            workspace_state_dir: None,
            herdr_socket: None,
            native_turn_id: None,
        }
    }

    /// A bridge with an explicit durable workspace state directory.
    pub fn for_workspace(
        socket: String,
        capability: SessionCapability,
        workspace_state_dir: String,
    ) -> (r: McpServer)
        ensures
            r == (McpServer {
                socket,
                actor: ActorContext::Session { capability },
                workspace_state_dir: Some(workspace_state_dir),
                herdr_socket: None,
                native_turn_id: None,
            }),
    {
        McpServer {
            socket,
            actor: ActorContext::Session { capability },
            workspace_state_dir: Some(workspace_state_dir),
            herdr_socket: None,
            native_turn_id: None,
        }
    }

    /// A bridge fenced to one current Host connection generation.
    pub fn for_host(
        socket: String,
        capability: HostConnectionCapability,
        workspace_state_dir: Option<String>,
    ) -> (r: McpServer)
        ensures
            r == (McpServer {
                socket,
                actor: ActorContext::Host { capability },
                workspace_state_dir,
                herdr_socket: None,
                native_turn_id: None,
            }),
    {
        McpServer {
            socket,
            actor: ActorContext::Host { capability },
            workspace_state_dir,
            herdr_socket: None,
            native_turn_id: None,
        }
    }

    /// Binds Herdr pane operations to the socket that identifies this workspace session.
    pub fn with_herdr_socket(self, herdr_socket: String) -> (r: McpServer)
        ensures
            r == (McpServer { herdr_socket: Some(herdr_socket), ..self }),
    {
        McpServer {
            socket: self.socket,
            actor: self.actor,
            workspace_state_dir: self.workspace_state_dir,
            herdr_socket: Some(herdr_socket),
            native_turn_id: self.native_turn_id,
        }
    }

    /// Correlates provider host-tool completion when its protocol omits turn identifiers.
    pub fn with_native_turn_id(self, native_turn_id: String) -> (r: McpServer)
        ensures
            r == (McpServer { native_turn_id: Some(native_turn_id), ..self }),
    {
        McpServer {
            socket: self.socket,
            actor: self.actor,
            workspace_state_dir: self.workspace_state_dir,
            herdr_socket: self.herdr_socket,
            native_turn_id: Some(native_turn_id),
        }
    }
}

/// What is said of a server that was made from a bearer of a Session.
pub open spec fn bridges_session(
    r: Result<McpServer, CoordinatorError>,
    socket: Seq<char>,
    bearer: Seq<char>,
    state_dir: Option<Seq<char>>,
) -> bool {
    match r {
        Ok(server) => {
            &&& digest_shaped(bearer)
            &&& server.socket@ == socket
            &&& server.actor is Session
            &&& server.actor->Session_capability@ == bearer
            &&& optional_text(server.workspace_state_dir) == state_dir
            &&& server.herdr_socket is None
            &&& server.native_turn_id is None
        },
        Err(e) => !digest_shaped(bearer) && e@ == session_shape_refusal(),
    }
}

/// What is said of a server that was made from a bearer of a Host connection.
pub open spec fn bridges_host(
    r: Result<McpServer, CoordinatorError>,
    socket: Seq<char>,
    bearer: Seq<char>,
    state_dir: Option<Seq<char>>,
) -> bool {
    match r {
        Ok(server) => {
            &&& digest_shaped(bearer)
            &&& server.socket@ == socket
            &&& server.actor is Host
            &&& server.actor->Host_capability@ == bearer
            &&& optional_text(server.workspace_state_dir) == state_dir
            &&& server.herdr_socket is None
            &&& server.native_turn_id is None
        },
        Err(e) => !digest_shaped(bearer) && e@ == host_shape_refusal(),
    }
}

/// A bridge for the bearer of a Session.
pub fn from_bearer(socket: &str, bearer: String) -> (r: Result<McpServer, CoordinatorError>)
    ensures
        bridges_session(r, socket@, bearer@, None),
{
    match SessionCapability::from_bearer(bearer) {
        Err(e) => Err(e),
        Ok(capability) => Ok(McpServer::new(socket.to_owned(), capability)),
    }
}

/// A provider bridge fenced to a current Host connection generation.
pub fn from_host_bearer(socket: &str, bearer: String) -> (r: Result<McpServer, CoordinatorError>)
    ensures
        bridges_host(r, socket@, bearer@, None),
{
    match HostConnectionCapability::from_bearer(bearer) {
        Err(e) => Err(e),
        Ok(capability) => Ok(McpServer::for_host(socket.to_owned(), capability, None)),
    }
}

/// A bridge for short runtime sockets outside the durable state directory.
pub fn from_bearer_for_workspace(socket: &str, bearer: String, workspace_state_dir: String) -> (r:
    Result<McpServer, CoordinatorError>)
    ensures
        bridges_session(r, socket@, bearer@, Some(workspace_state_dir@)),
{
    match SessionCapability::from_bearer(bearer) {
        Err(e) => Err(e),
        Ok(capability) => Ok(
            McpServer::for_workspace(socket.to_owned(), capability, workspace_state_dir),
        ),
    }
}

/// A workspace-aware provider bridge fenced to one Host generation.
pub fn from_host_bearer_for_workspace(
    socket: &str,
    bearer: String,
    workspace_state_dir: String,
) -> (r: Result<McpServer, CoordinatorError>)
    ensures
        bridges_host(r, socket@, bearer@, Some(workspace_state_dir@)),
{
    match HostConnectionCapability::from_bearer(bearer) {
        Err(e) => Err(e),
        Ok(capability) => Ok(
            McpServer::for_host(socket.to_owned(), capability, Some(workspace_state_dir)),
        ),
    }
}

/// The bridge of a provider's own tools, where its environment names a Coordinator and a bearer of a
/// Host connection.
pub fn coordinator_bridge(env: &Vec<(String, String)>) -> (r: Option<McpServer>)
    ensures
        match (
            value_of(env@, "HERDR_COORDINATOR_SOCKET"@),
            value_of(env@, "HERDR_HARNESS_CAPABILITY"@),
        ) {
            (Some(socket), Some(bearer)) => if digest_shaped(bearer) {
                &&& r is Some
                &&& r->0.socket@ == socket
                &&& r->0.actor is Host
                &&& r->0.actor->Host_capability@ == bearer
                &&& r->0.workspace_state_dir is None
                &&& r->0.herdr_socket is None
                &&& optional_text(r->0.native_turn_id) == Some("provider-turn"@)
            } else {
                r is None
            },
            _ => r is None,
        },
{
    let socket = match read_variable(env, "HERDR_COORDINATOR_SOCKET") {
        None => {
            return None;
        },
        Some(socket) => socket,
    };
    let bearer = match read_variable(env, "HERDR_HARNESS_CAPABILITY") {
        None => {
            return None;
        },
        Some(bearer) => bearer,
    };
    match from_host_bearer(socket, bearer.to_owned()) {
        Err(_) => None,
        Ok(server) => Some(server.with_native_turn_id("provider-turn".to_owned())),
    }
}

// ---------------------------------------------------------------------------------------------
// Requests
// ---------------------------------------------------------------------------------------------

/// An error of the protocol.
#[derive(Debug)]
pub struct ProtocolError {
    pub code: i32,
    pub message: String,
}

/// Reads one frame.
pub fn read_frame(frame: &[u8]) -> (r: Result<serde_json::Value, ProtocolError>)
    ensures
        if frame@.len() > MAX_FRAME_BYTES {
            r is Err && r->Err_0.code == -32600 && r->Err_0.message@ == "MCP frame exceeds 1 MiB"@
        } else {
            match json_in(frame@) {
                Ok(t) => r is Ok && tree(r->Ok_0) == t,
                Err(message) => r is Err && r->Err_0.code == -32700 && r->Err_0.message@
                    == message,
            }
        },
{
    if frame.len() > MAX_FRAME_BYTES {
        return Err(
            ProtocolError { code: -32600, message: "MCP frame exceeds 1 MiB".to_owned() },
        );
    }
    match parse_bytes(frame) {
        Ok(value) => Ok(value),
        Err(message) => Err(ProtocolError { code: -32700, message }),
    }
}

/// What a request asks for.
#[derive(Debug, Clone, Copy, PartialEq, Eq, Structural)]
pub enum Method {
    Initialize,
    Ping,
    ListTools,
    CallTool,
    /// Answered by [`method_not_found`].
    Unknown,
}

/// The method with a name.
pub open spec fn method_of(name: Seq<char>) -> Method {
    if name == "initialize"@ {
        Method::Initialize
    } else if name == "ping"@ {
        Method::Ping
    } else if name == "tools/list"@ {
        Method::ListTools
    } else if name == "tools/call"@ {
        Method::CallTool
    } else {
        Method::Unknown
    }
}

/// The method of a request.
pub open spec fn requested(request: JsonTree) -> Method {
    method_of(
        match text_member(request, "method"@) {
            Some(name) => name,
            None => ""@,
        },
    )
}

/// Decides what a request asks for; a notification, which has no identifier, is not answered.
pub fn route(request: &serde_json::Value) -> (r: Option<Method>)
    ensures
        r == (match member(tree(*request), "id"@) {
            None => None,
            Some(_) => Some(requested(tree(*request))),
        }),
{
    if get_member(request, "id").is_none() {
        return None;
    }
    let name = match field(request, "method") {
        Some(name) => name,
        None => "".to_owned(),
    };
    if same_text(name.as_str(), "initialize") {
        Some(Method::Initialize)
    } else if same_text(name.as_str(), "ping") {
        Some(Method::Ping)
    } else if same_text(name.as_str(), "tools/list") {
        Some(Method::ListTools)
    } else if same_text(name.as_str(), "tools/call") {
        Some(Method::CallTool)
    } else {
        Some(Method::Unknown)
    }
}

/// The answer to an unknown method.
pub fn method_not_found() -> (r: ProtocolError)
    ensures
        r.code == -32601,
        r.message@ == "method not found"@,
{
    ProtocolError { code: -32601, message: "method not found".to_owned() }
}

/// A tool call: the tool, and its arguments where any are given.
#[derive(Debug)]
pub struct ToolCall {
    pub tool: Tool,
    pub arguments: Option<serde_json::Value>,
}

pub open spec fn optional_tree(value: Option<serde_json::Value>) -> Option<JsonTree> {
    match value {
        Some(v) => Some(tree(v)),
        None => None,
    }
}

/// The parameters of a request; nothing where there are none.
pub open spec fn params_of(request: JsonTree) -> JsonTree {
    match member(request, "params"@) {
        Some(params) => params,
        None => JsonTree::Null,
    }
}

/// Reads the tool call of a request.
pub fn read_tool_call(request: &serde_json::Value) -> (r: Result<ToolCall, String>)
    ensures
        match text_member(params_of(tree(*request)), "name"@) {
            None => r is Err && r->Err_0@ == "tool name is required"@,
            Some(name) => match r {
                Ok(call) => call.tool.name() == name && optional_tree(call.arguments) == member(
                    params_of(tree(*request)),
                    "arguments"@,
                ),
                Err(text) => is_tool(name, None) && text@ == "unknown Coordinator tool `"@ + name
                    + "`"@,
            },
        },
{
    let params = match get_member(request, "params") {
        None => {
            return Err("tool name is required".to_owned());
        },
        Some(params) => params,
    };
    match field(params, "name") {
        None => Err("tool name is required".to_owned()),
        Some(name) => match find_tool(name.as_str()) {
            None => Err(join3("unknown Coordinator tool `", name.as_str(), "`")),
            Some(tool) => {
                let arguments = match get_member(params, "arguments") {
                    Some(value) => Some(copy_value(value)),
                    None => None,
                };
                Ok(ToolCall { tool, arguments })
            },
        },
    }
}

/// What an answer says.
#[derive(Debug)]
pub enum AnswerBody {
    /// The protocol is agreed on.
    Initialized { protocol_version: &'static str, list_changed: bool, instructions: &'static str },
    /// The server is there.
    Pong,
    /// The tools of the server.
    Tools { tools: Vec<Tool> },
    /// The structured result of a tool, which is no error.
    ToolResult { value: serde_json::Value },
    /// A result that is flagged as an error: what was wrong with a call of a tool.
    ToolError { text: String },
    /// An error of the protocol, in place of a result.
    Refused { error: ProtocolError },
}

/// What an [`AnswerBody`] says.
#[allow(inconsistent_fields)]
pub enum AnswerBodyView {
    Initialized { protocol_version: Seq<char>, list_changed: bool, instructions: Seq<char> },
    Pong,
    Tools { tools: Seq<Tool> },
    ToolResult { value: JsonTree },
    ToolError { text: Seq<char> },
    Refused { code: int, message: Seq<char> },
}

impl View for AnswerBody {
    type V = AnswerBodyView;

    open spec fn view(&self) -> AnswerBodyView {
        match self {
            AnswerBody::Initialized { protocol_version, list_changed, instructions } => {
                AnswerBodyView::Initialized {
                    protocol_version: protocol_version@,
                    list_changed: *list_changed,
                    instructions: instructions@,
                }
            },
            AnswerBody::Pong => AnswerBodyView::Pong,
            AnswerBody::Tools { tools } => AnswerBodyView::Tools { tools: tools@ },
            AnswerBody::ToolResult { value } => AnswerBodyView::ToolResult { value: tree(*value) },
            AnswerBody::ToolError { text } => AnswerBodyView::ToolError { text: text@ },
            AnswerBody::Refused { error } => AnswerBodyView::Refused {
                code: error.code as int,
                message: error.message@,
            },
        }
    }
}

/// One JSON-RPC 2.0 answer.
#[derive(Debug)]
pub struct Answer {
    /// The version of JSON-RPC.
    pub jsonrpc: &'static str,
    /// The identifier of the request.
    pub id: serde_json::Value,
    pub body: AnswerBody,
}

/// What a request is answered, where `called` is what became of the tool that it calls: a failed
/// call is a result that is flagged as an error, and only an unknown method is an error of the
/// protocol.
pub open spec fn answer_to(method: Method, called: Result<JsonTree, Seq<char>>) -> AnswerBodyView {
    match method {
        Method::Initialize => AnswerBodyView::Initialized {
            protocol_version: "2025-06-18"@,
            list_changed: false,
            instructions: "Use these tools only for the current identity-bound Harness Session."@,
        },
        Method::Ping => AnswerBodyView::Pong,
        Method::ListTools => AnswerBodyView::Tools {
            tools: offered(HarnessTier::Supervisor, TOOLS as nat),
        },
        Method::CallTool => match called {
            Ok(value) => AnswerBodyView::ToolResult { value },
            Err(text) => AnswerBodyView::ToolError { text },
        },
        Method::Unknown => AnswerBodyView::Refused { code: -32601, message: "method not found"@ },
    }
}

/// What became of the call of a tool.
pub open spec fn call_view(called: Result<serde_json::Value, String>) -> Result<
    JsonTree,
    Seq<char>,
> {
    match called {
        Ok(value) => Ok(tree(value)),
        Err(text) => Err(text@),
    }
}

/// Answers a request under its own identifier; a notification, which has none, is not answered.
/// `called` is what became of the tool that the request calls, where it calls one.
pub fn answer(request: &serde_json::Value, called: Result<serde_json::Value, String>) -> (r: Option<
    Answer,
>)
    ensures
        match (member(tree(*request), "id"@), r) {
            (None, None) => true,
            (Some(id), Some(answer)) => answer.jsonrpc@ == "2.0"@ && tree(answer.id) == id
                && answer.body@ == answer_to(
                requested(tree(*request)),
                call_view(called),
            ),
            _ => false,
        },
{
    let id = match get_member(request, "id") {
        None => {
            return None;
        },
        Some(id) => copy_value(id),
    };
    let body = match route(request) {
        Some(Method::Initialize) => AnswerBody::Initialized {
            protocol_version: MCP_PROTOCOL_VERSION,
            list_changed: false,
            instructions: "Use these tools only for the current identity-bound Harness Session.",
        },
        Some(Method::Ping) => AnswerBody::Pong,
        Some(Method::ListTools) => AnswerBody::Tools { tools: host_tools(HarnessTier::Supervisor) },
        Some(Method::CallTool) => match called {
            Ok(value) => AnswerBody::ToolResult { value },
            Err(text) => AnswerBody::ToolError { text },
        },
        _ => AnswerBody::Refused { error: method_not_found() },
    };
    Some(Answer { jsonrpc: "2.0", id, body })
}

// ---------------------------------------------------------------------------------------------
// Inline Attachments
// ---------------------------------------------------------------------------------------------

/// Why a text cannot become an Attachment.
pub open spec fn inline_refusal(
    content: Seq<char>,
    media_type: Seq<char>,
    original_name: Seq<char>,
) -> Option<Seq<char>> {
    if content.len() == 0 || byte_count(content) > MAX_INLINE_BYTES {
        Some("inline Attachment content must contain 1 to 524288 UTF-8 bytes"@)
    } else if media_type.len() == 0 || byte_count(media_type) > MAX_NAME_BYTES {
        Some("inline Attachment media_type must contain 1 to 255 bytes"@)
    } else if original_name.len() == 0 || byte_count(original_name) > MAX_NAME_BYTES {
        Some("inline Attachment original_name must contain 1 to 255 bytes"@)
    } else {
        None
    }
}

fn is_empty(text: &str) -> (r: bool)
    ensures
        r == (text@.len() == 0),
{
    let chars = crate::text::chars_of(text);
    chars.len() == 0
}

/// Requires a text that can become an Attachment.
pub fn validate_inline_attachment(content: &str, media_type: &str, original_name: &str) -> (r:
    Result<(), String>)
    ensures
        match inline_refusal(content@, media_type@, original_name@) {
            None => r is Ok,
            Some(text) => r is Err && r->Err_0@ == text,
        },
{
    if is_empty(content) || byte_len(content) > MAX_INLINE_BYTES {
        return Err("inline Attachment content must contain 1 to 524288 UTF-8 bytes".to_owned());
    }
    if is_empty(media_type) || byte_len(media_type) > MAX_NAME_BYTES {
        return Err("inline Attachment media_type must contain 1 to 255 bytes".to_owned());
    }
    if is_empty(original_name) || byte_len(original_name) > MAX_NAME_BYTES {
        return Err("inline Attachment original_name must contain 1 to 255 bytes".to_owned());
    }
    Ok(())
}

/// Where a bridge keeps state: in its workspace, or beside its socket.
pub open spec fn state_dir_of(server: McpServer) -> Option<Seq<char>> {
    match optional_text(server.workspace_state_dir) {
        Some(dir) => Some(dir),
        None => parent(server.socket@),
    }
}

impl McpServer {
    /// Where the bridge keeps state.
    pub fn state_dir(&self) -> (r: Result<String, String>)
        ensures
            match (r, state_dir_of(*self)) {
                (Ok(found), Some(dir)) => found@ == dir,
                (Err(e), None) => e@ == "Coordinator socket has no state directory"@,
                _ => false,
            },
    {
        match &self.workspace_state_dir {
            Some(dir) => Ok(dir.as_str().to_owned()),
            None => match parent_of(self.socket.as_str()) {
                Some(dir) => Ok(dir),
                None => Err("Coordinator socket has no state directory".to_owned()),
            },
        }
    }

    /// Where the text of an inline Attachment is written.
    pub fn inline_path(&self, unique: &str) -> (r: Result<String, String>)
        ensures
            match (r, state_dir_of(*self)) {
                (Ok(path), Some(dir)) => path@ == below(
                    below(dir, "tmp"@),
                    "inline-attachment-"@ + unique@ + ".tmp"@,
                ),
                (Err(e), None) => e@ == "Coordinator socket has no state directory"@,
                _ => false,
            },
    {
        match self.state_dir() {
            Err(e) => Err(e),
            Ok(dir) => {
                let temporary = join_path(dir.as_str(), "tmp");
                let name = join3("inline-attachment-", unique, ".tmp");
                Ok(join_path(temporary.as_str(), name.as_str()))
            },
        }
    }

    /// The native turn that a completion belongs to: the one that the bridge is bound to, else the
    /// one that the arguments name.
    pub fn completing_turn(&self, named: Option<String>) -> (r: Result<String, String>)
        ensures
            match optional_text(self.native_turn_id) {
                Some(own) => r is Ok && r->Ok_0@ == own,
                None => match named {
                    Some(turn) => r == Ok::<String, String>(turn),
                    None => r is Err && r->Err_0@
                        == "native turn ID is required for this provider"@,
                },
            },
    {
        match &self.native_turn_id {
            Some(own) => Ok(own.as_str().to_owned()),
            None => match named {
                Some(turn) => Ok(turn),
                None => Err("native turn ID is required for this provider".to_owned()),
            },
        }
    }
}

// ---------------------------------------------------------------------------------------------
// Worker starts
// ---------------------------------------------------------------------------------------------

/// What a Worker is started with.
#[derive(Debug)]
pub struct WorkerStart {
    pub definition: HarnessDefinitionV1,
    pub profile_snapshot: String,
    pub profile_digest: String,
    pub workspace_id: String,
}

/// The state directory of a workspace, and the directory of the plugin two levels above it.
pub open spec fn state_roots(server: McpServer) -> Result<(Seq<char>, Seq<char>), Seq<char>> {
    let state = match state_dir_of(server) {
        Some(dir) => dir,
        None => "."@,
    };
    match parent(state) {
        None => Err("workspace state has no workspaces directory"@),
        Some(workspaces) => match parent(workspaces) {
            None => Err("workspaces directory has no plugin state root"@),
            Some(plugin) => Ok((state, plugin)),
        },
    }
}

impl McpServer {
    /// Finds the state directory of the workspace and that of the plugin.
    pub fn state_roots(&self) -> (r: Result<(String, String), String>)
        ensures
            match (r, state_roots(*self)) {
                (Ok((state, plugin)), Ok((s, p))) => state@ == s && plugin@ == p,
                (Err(e), Err(text)) => e@ == text,
                _ => false,
            },
    {
        let state = match self.state_dir() {
            Ok(dir) => dir,
            Err(_) => ".".to_owned(),
        };
        let workspaces = match parent_of(state.as_str()) {
            None => {
                return Err("workspace state has no workspaces directory".to_owned());
            },
            Some(workspaces) => workspaces,
        };
        match parent_of(workspaces.as_str()) {
            None => Err("workspaces directory has no plugin state root".to_owned()),
            Some(plugin) => Ok((state, plugin)),
        }
    }
}

pub open spec fn is_selected(id: Seq<char>) -> spec_fn((Seq<char>, Seq<char>)) -> bool {
    |w: (Seq<char>, Seq<char>)| w.0 == id
}

/// The profile that a workspace selects for a Worker, or why the Worker cannot be started there.
pub open spec fn selected_profile(view: Option<WorkspaceActivationView>, id: Seq<char>) -> Result<
    Seq<char>,
    Seq<char>,
> {
    match view {
        Some(v) if v.desired == DesiredActivation::On => match v@.selection {
            None => Err("enabled workspace has no Harness selection"@),
            Some(selection) => match first_where(selection.workers, is_selected(id)) {
                Some(i) => Ok(selection.workers[i].1),
                None => Err("Worker `"@ + id + "` is not selected for this workspace"@),
            },
        },
        _ => Err("this Coordinator state directory is not enabled for a workspace"@),
    }
}

/// Finds the profile that a workspace selects for a Worker.
pub fn select_worker(view: &Option<WorkspaceActivationView>, worker_id: &HarnessId) -> (r: Result<
    HarnessId,
    String,
>)
    ensures
        match (r, selected_profile(*view, worker_id@)) {
            (Ok(profile), Ok(id)) => profile@ == id && *view is Some,
            (Err(e), Err(text)) => e@ == text,
            _ => false,
        },
{
    let selection = match view {
        None => {
            return Err(
                "this Coordinator state directory is not enabled for a workspace".to_owned(),
            );
        },
        Some(v) => {
            if v.desired != DesiredActivation::On {
                return Err(
                    "this Coordinator state directory is not enabled for a workspace".to_owned(),
                );
            }
            match &v.selection {
                None => {
                    return Err("enabled workspace has no Harness selection".to_owned());
                },
                Some(selection) => selection,
            }
        },
    };
    let ghost all = selection@.workers;
    let ghost p = is_selected(worker_id@);
    let mut i: usize = 0;
    while i < selection.workers.len()
        invariant
            i <= selection.workers.len(),
            all == selection@.workers,
            *view is Some,
            view->0.desired == DesiredActivation::On,
            view->0@.selection == Some(selection@),
            p == is_selected(worker_id@),
            forall|j: int| 0 <= j < i ==> !p(#[trigger] all[j]),
        decreases selection.workers.len() - i,
    {
        if same_text(selection.workers[i].worker_id.as_str(), worker_id.as_str()) {
            proof {
                first_found(all, p, i as int);
            }
            return Ok(HarnessId(selection.workers[i].profile_id.as_str().to_owned()));
        }
        i += 1;
    }
    proof {
        first_missing(all, p);
    }
    Err(join3("Worker `", worker_id.as_str(), "` is not selected for this workspace"))
}

/// What a selected Worker is started with: its resolved profile in the workspace's repository.
pub fn worker_start(
    view: &WorkspaceActivationView,
    worker_id: &HarnessId,
    resolved: ResolvedLaunchProfile,
) -> (r: WorkerStart)
    ensures
        r.definition.schema_version == SCHEMA_VERSION,
        r.definition.id@ == worker_id@,
        r.definition.kind == resolved.profile.kind,
        r.definition.tier == HarnessTier::Worker,
        r.definition.cwd@ == view.repository_root@,
        optional_text(r.definition.launch_profile) == Some(resolved.profile.id@),
        optional_text(r.definition.model) == resolved.profile@.model,
        r.profile_snapshot@ == resolved.snapshot@,
        r.profile_digest@ == resolved.digest@,
        r.workspace_id@ == view.workspace_id@,
{
    WorkerStart {
        definition: HarnessDefinitionV1 {
            schema_version: SCHEMA_VERSION,
            id: HarnessId(worker_id.as_str().to_owned()),
            kind: resolved.profile.kind,
            tier: HarnessTier::Worker,
            cwd: view.repository_root.as_str().to_owned(),
            launch_profile: Some(resolved.profile.id.as_str().to_owned()),
            model: copy_text(&resolved.profile.model),
        },
        profile_snapshot: resolved.snapshot,
        profile_digest: resolved.digest,
        workspace_id: view.workspace_id.as_str().to_owned(),
    }
}

/// Where the configuration of the plugin is: where it is said to be, else below the user's
/// configuration, else beside the state of the plugin.
pub open spec fn config_dir(
    plugin_state: Seq<char>,
    plugin_config: Option<Seq<char>>,
    xdg_config: Option<Seq<char>>,
    home: Option<Seq<char>>,
) -> Seq<char> {
    let user = match xdg_config {
        Some(dir) => Some(dir),
        None => match home {
            Some(dir) => Some(below(dir, ".config"@)),
            None => None,
        },
    };
    match plugin_config {
        Some(dir) => dir,
        None => match user {
            Some(dir) => below(below(dir, "herdr/plugins/config"@), "herdr-harness-coordinator"@),
            None => below(plugin_state, "config"@),
        },
    }
}

/// Finds the configuration of the plugin.
pub fn plugin_config_dir(
    plugin_state: &str,
    plugin_config: Option<String>,
    xdg_config: Option<String>,
    home: Option<String>,
) -> (r: String)
    ensures
        r@ == config_dir(
            plugin_state@,
            optional_text(plugin_config),
            optional_text(xdg_config),
            optional_text(home),
        ),
{
    if let Some(dir) = plugin_config {
        return dir;
    }
    let user = match xdg_config {
        Some(dir) => Some(dir),
        None => match home {
            Some(dir) => Some(join_path(dir.as_str(), ".config")),
            None => None,
        },
    };
    match user {
        Some(dir) => {
            let config = join_path(dir.as_str(), "herdr/plugins/config");
            join_path(config.as_str(), "herdr-harness-coordinator")
        },
        None => join_path(plugin_state, "config"),
    }
}

/// A pane to open, and the socket to open it through.
#[derive(Debug)]
pub struct PaneLaunch {
    pub socket: String,
    pub pane: PluginPaneOpenParams,
}

/// The pane of a Worker.
pub open spec fn worker_pane(
    server: McpServer,
    state_dir: Seq<char>,
    bearer: Seq<char>,
    cwd: Seq<char>,
    workspace_id: Seq<char>,
    binary: Seq<char>,
) -> PaneRequest {
    PaneRequest {
        plugin_id: PLUGIN_ID@,
        entrypoint: WORKER_ENTRYPOINT@,
        placement: Some("tab"@),
        workspace_id: Some(workspace_id),
        cwd: None,
        env: seq![
            ("HERDR_COORDINATOR_BIN"@, binary),
            ("HERDR_COORDINATOR_SOCKET"@, server.socket@),
            ("HERDR_COORDINATOR_STATE_DIR"@, state_dir),
            ("HERDR_HARNESS_CWD"@, cwd),
            ("HERDR_HARNESS_SESSION_ID"@, bearer),
        ],
        focus: false,
    }
}

impl McpServer {
    /// What opens the pane of a Worker. `socket` is the Herdr socket of the environment and
    /// `binary` the Coordinator's own executable, or why it could not be found.
    pub fn worker_pane(
        &self,
        bearer: &str,
        cwd: &str,
        workspace_id: String,
        socket: Option<String>,
        binary: Result<String, String>,
    ) -> (r: Result<PaneLaunch, String>)
        ensures
            match (optional_text(self.herdr_socket), socket) {
                (None, None) => r is Err && r->Err_0@
                    == "Herdr socket is required to open a Worker pane"@,
                (own, other) => match state_dir_of(*self) {
                    None => r is Err && r->Err_0@ == "Coordinator socket has no state directory"@,
                    Some(dir) => match binary {
                        Err(e) => r == Err::<PaneLaunch, String>(e),
                        Ok(binary) => r is Ok && r->Ok_0.socket@ == (match own {
                            Some(path) => path,
                            None => other->0@,
                        }) && r->Ok_0.pane@ == worker_pane(
                            *self,
                            dir,
                            bearer@,
                            cwd@,
                            workspace_id@,
                            binary@,
                        ),
                    },
                },
            },
    {
        let socket_path = match &self.herdr_socket {
            Some(path) => path.as_str().to_owned(),
            None => match socket {
                Some(path) => path,
                None => {
                    return Err("Herdr socket is required to open a Worker pane".to_owned());
                },
            },
        };
        let dir = match self.state_dir() {
            Err(e) => {
                return Err(e);
            },
            Ok(dir) => dir,
        };
        let binary = match binary {
            Err(e) => {
                return Err(e);
            },
            Ok(binary) => binary,
        };
        let mut pane = PluginPaneOpenParams::worker(bearer, cwd, Some(workspace_id));
        let ghost old_env = pane.env@;
        let ghost old_pairs = pairs(old_env);
        let mut env: Vec<(String, String)> = Vec::new();
        env.push(("HERDR_COORDINATOR_BIN".to_owned(), binary));
        env.push(("HERDR_COORDINATOR_SOCKET".to_owned(), self.socket.as_str().to_owned()));
        env.push(("HERDR_COORDINATOR_STATE_DIR".to_owned(), dir));
        let ghost first = env@;
        env.append(&mut pane.env);
        assert(pairs(env@) =~= pairs(first) + old_pairs);
        assert(old_pairs =~= seq![
            ("HERDR_HARNESS_CWD"@, cwd@),
            ("HERDR_HARNESS_SESSION_ID"@, bearer@),
        ]);
        let launched = PluginPaneOpenParams {
            plugin_id: pane.plugin_id,
            entrypoint: pane.entrypoint,
            placement: pane.placement,
            workspace_id: pane.workspace_id,
            cwd: pane.cwd,
            env,
            focus: pane.focus,
        };
        assert(launched@.env =~= seq![
            ("HERDR_COORDINATOR_BIN"@, binary@),
            ("HERDR_COORDINATOR_SOCKET"@, self.socket@),
            ("HERDR_COORDINATOR_STATE_DIR"@, dir@),
            ("HERDR_HARNESS_CWD"@, cwd@),
            ("HERDR_HARNESS_SESSION_ID"@, bearer@),
        ]);
        Ok(PaneLaunch { socket: socket_path, pane: launched })
    }
}

// ---------------------------------------------------------------------------------------------
// Results
// ---------------------------------------------------------------------------------------------

/// The name of an error category in diagnostics.
pub open spec fn category_name(category: ErrorCategory) -> Seq<char> {
    match category {
        ErrorCategory::InvalidInput => "InvalidInput"@,
        ErrorCategory::Unauthenticated => "Unauthenticated"@,
        ErrorCategory::Forbidden => "Forbidden"@,
        ErrorCategory::NotFound => "NotFound"@,
        ErrorCategory::Conflict => "Conflict"@,
        ErrorCategory::InvalidState => "InvalidState"@,
        ErrorCategory::TargetOffline => "TargetOffline"@,
        ErrorCategory::UnsupportedVersion => "UnsupportedVersion"@,
        ErrorCategory::RepositoryBlocked => "RepositoryBlocked"@,
        ErrorCategory::DeliveryUnknown => "DeliveryUnknown"@,
        ErrorCategory::StorageFailure => "StorageFailure"@,
        ErrorCategory::AdapterFailure => "AdapterFailure"@,
        ErrorCategory::HerdrFailure => "HerdrFailure"@,
    }
}

/// The name of an error category in diagnostics.
pub fn name_category(category: ErrorCategory) -> (r: &'static str)
    ensures
        r@ == category_name(category),
{
    match category {
        ErrorCategory::InvalidInput => "InvalidInput",
        ErrorCategory::Unauthenticated => "Unauthenticated",
        ErrorCategory::Forbidden => "Forbidden",
        ErrorCategory::NotFound => "NotFound",
        ErrorCategory::Conflict => "Conflict",
        ErrorCategory::InvalidState => "InvalidState",
        ErrorCategory::TargetOffline => "TargetOffline",
        ErrorCategory::UnsupportedVersion => "UnsupportedVersion",
        ErrorCategory::RepositoryBlocked => "RepositoryBlocked",
        ErrorCategory::DeliveryUnknown => "DeliveryUnknown",
        ErrorCategory::StorageFailure => "StorageFailure",
        ErrorCategory::AdapterFailure => "AdapterFailure",
        ErrorCategory::HerdrFailure => "HerdrFailure",
    }
}

/// What the Coordinator answered.
#[derive(Debug)]
pub struct BrokerResponse {
    pub result: Option<serde_json::Value>,
    pub error: Option<CoordinatorError>,
}

/// The result of an answer; `missing` is said where it has neither a result nor an error.
pub fn settle_answer(response: BrokerResponse, missing: &str) -> (r: Result<
    serde_json::Value,
    String,
>)
    ensures
        match (response.error, response.result) {
            (Some(error), _) => r is Err && r->Err_0@ == "Coordinator "@ + category_name(
                error.category,
            ) + ": "@ + error.message@,
            (None, Some(value)) => r == Ok::<serde_json::Value, String>(value),
            (None, None) => r is Err && r->Err_0@ == missing@,
        },
{
    match response.error {
        Some(error) => {
            let mut text = join3("Coordinator ", name_category(error.category), ": ");
            text.append(error.message.as_str());
            Err(text)
        },
        None => match response.result {
            Some(value) => Ok(value),
            None => Err(missing.to_owned()),
        },
    }
}

/// The structured result of a tool.
pub fn tool_result(response: BrokerResponse) -> (r: Result<serde_json::Value, String>)
    ensures
        match (response.error, response.result) {
            (Some(error), _) => r is Err && r->Err_0@ == "Coordinator "@ + category_name(
                error.category,
            ) + ": "@ + error.message@,
            (None, Some(value)) => r == Ok::<serde_json::Value, String>(value),
            (None, None) => r is Err && r->Err_0@ == "Coordinator response omitted result"@,
        },
{
    settle_answer(response, "Coordinator response omitted result")
}

pub open spec fn is_named(name: Seq<char>) -> spec_fn(JsonTree) -> bool {
    |t: JsonTree| text_member(t, "name"@) == Some(name)
}

/// A tool that a list lacks.
pub open spec fn is_omitted(tools: JsonTree) -> spec_fn(Seq<char>) -> bool {
    |name: Seq<char>| !some_where(parts(tools), is_named(name))
}

/// Whether a list of tools has an entry with a name.
fn has_tool(tools: &serde_json::Value, name: &str) -> (r: bool)
    requires
        tree(*tools) is Array,
    ensures
        r == some_where(parts(tree(*tools)), is_named(name@)),
{
    let ghost all = parts(tree(*tools));
    let count = crate::json::count_parts(tools);
    let mut i: usize = 0;
    while i < count
        invariant
            i <= count,
            tree(*tools) is Array,
            all == parts(tree(*tools)),
            count == all.len(),
            forall|j: int| 0 <= j < i ==> !is_named(name@)(#[trigger] all[j]),
        decreases count - i,
    {
        match get_element(tools, i) {
            Some(tool) => match field(tool, "name") {
                Some(found) => {
                    if same_text(found.as_str(), name) {
                        assert(is_named(name@)(all[i as int]));
                        return true;
                    }
                },
                None => {},
            },
            None => {},
        }
        i += 1;
    }
    false
}

/// Requires the tools that a Worker cannot do without in the list that a bridge gives.
pub fn verify_required_worker_tools(tools: Option<&serde_json::Value>) -> (r: Result<(), String>)
    ensures
        match tools {
            Some(list) if tree(*list) is Array => match first_where(
                required_tools(HarnessTier::Worker),
                is_omitted(tree(*list)),
            ) {
                None => r is Ok,
                Some(i) => r is Err && r->Err_0@
                    == "Coordinator MCP bridge omitted required tool `"@ + required_tools(
                    HarnessTier::Worker,
                )[i] + "`"@,
            },
            _ => r is Err && r->Err_0@ == "tools/list omitted its tool array"@,
        },
{
    let list = match tools {
        None => {
            return Err("tools/list omitted its tool array".to_owned());
        },
        Some(list) => list,
    };
    if !is_array(list) {
        return Err("tools/list omitted its tool array".to_owned());
    }
    let ghost all = required_tools(HarnessTier::Worker);
    let ghost p = is_omitted(tree(*list));
    let mut i: usize = 0;
    while i < 7
        invariant
            i <= 7,
            all == required_tools(HarnessTier::Worker),
            p == is_omitted(tree(*list)),
            tools == Some(list),
            tree(*list) is Array,
            forall|j: int| 0 <= j < i ==> !p(#[trigger] all[j]),
        decreases 7 - i,
    {
        match required_tool(HarnessTier::Worker, i) {
            Some(name) => {
                if !has_tool(list, name) {
                    proof {
                        first_found(all, p, i as int);
                    }
                    return Err(
                        join3("Coordinator MCP bridge omitted required tool `", name, "`"),
                    );
                }
            },
            None => {},
        }
        i += 1;
    }
    proof {
        first_missing(all, p);
    }
    Ok(())
}

} // verus!
