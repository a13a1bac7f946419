//! Core A2A protocol types: agent card, messages and parts, tasks, the
//! send-message and get-task exchanges, and JSON-RPC envelopes.

use vstd::prelude::*;

use crate::json::{Json, JsonValue};
use crate::text::{eq_ignore_ascii_case, owned, push_str, str_eq_ignore_ascii_case, sviews};

verus! {

// ------------------------------------------------------------------
// Agent card
// ------------------------------------------------------------------

/// What an A2A agent publishes about itself.
#[derive(Debug, Clone)]
pub struct AgentCard {
    pub name: String,
    pub description: String,
    pub url: Option<String>,
    pub provider: Option<AgentProvider>,
    pub version: String,
    pub capabilities: Option<AgentCapabilities>,
    pub default_input_modes: Vec<String>,
    pub default_output_modes: Vec<String>,
    pub skills: Vec<AgentSkill>,
    pub supported_interfaces: Vec<AgentInterface>,
}

#[derive(Debug, Clone)]
pub struct AgentProvider {
    pub organization: String,
    pub url: String,
}

#[derive(Debug, Clone)]
pub struct AgentCapabilities {
    pub streaming: bool,
    pub push_notifications: bool,
}

#[derive(Debug, Clone)]
pub struct AgentSkill {
    pub id: String,
    pub name: String,
    pub description: String,
    pub tags: Vec<String>,
    pub examples: Vec<String>,
    pub input_modes: Vec<String>,
    pub output_modes: Vec<String>,
}

#[derive(Debug, Clone)]
pub struct AgentInterface {
    pub protocol_binding: String,
    pub protocol_version: String,
    pub url: String,
}

/// A2A transport.
#[derive(Debug, Clone, Copy, PartialEq, Eq, Structural)]
pub enum Transport {
    /// JSON-RPC over HTTP (the one implemented).
    Jsonrpc,
    /// WebSocket (planned).
    Ws,
}

impl Transport {
    /// The canonical binding name used in `AgentInterface.protocol_binding`.
    pub open spec fn binding(self) -> Seq<char> {
        match self {
            Transport::Jsonrpc => "JSONRPC"@,
            Transport::Ws => "WS"@,
        }
    }

    /// The canonical binding name used in `AgentInterface.protocol_binding`.
    pub fn as_binding(&self) -> (s: &'static str)
        ensures
            s@ == self.binding(),
    {
        match self {
            Transport::Jsonrpc => "JSONRPC",
            Transport::Ws => "WS",
        }
    }
}

impl AgentInterface {
    /// Whether the interface uses WebSocket: its binding is `WS` or
    /// `WEBSOCKET`, ignoring ASCII case.
    pub fn is_websocket(&self) -> (b: bool)
        ensures
            b == (eq_ignore_ascii_case(self.protocol_binding@, "WS"@) || eq_ignore_ascii_case(
                self.protocol_binding@,
                "WEBSOCKET"@,
            )),
    {
        str_eq_ignore_ascii_case(self.protocol_binding.as_str(), "WS")
            || str_eq_ignore_ascii_case(self.protocol_binding.as_str(), "WEBSOCKET")
    }
}

// ------------------------------------------------------------------
// MCP capabilities
// ------------------------------------------------------------------

/// An MCP server capability.
#[derive(Debug, Clone, Copy, PartialEq, Eq, Structural)]
pub enum McpCapability {
    Tool,
    Resource,
    Prompt,
}

/// The capabilities an MCP server declares in its initialize answer.
#[derive(Debug, Clone, Copy, PartialEq, Eq, Structural)]
pub struct McpServerCapabilities {
    pub tools: bool,
    pub resources: bool,
    pub prompts: bool,
}

impl McpServerCapabilities {
    /// Whether `c` is declared.
    pub open spec fn has(self, c: McpCapability) -> bool {
        match c {
            McpCapability::Tool => self.tools,
            McpCapability::Resource => self.resources,
            McpCapability::Prompt => self.prompts,
        }
    }

    /// No capability declared.
    pub open spec fn new_spec() -> Self {
        McpServerCapabilities { tools: false, resources: false, prompts: false }
    }

    /// No capability declared.
    pub fn new() -> (c: Self)
        ensures
            c == Self::new_spec(),
    {
        McpServerCapabilities { tools: false, resources: false, prompts: false }
    }

    /// Declares `c`.
    pub fn register(&mut self, c: McpCapability)
        ensures
            final(self).has(c),
            forall|d: McpCapability| d != c ==> final(self).has(d) == old(self).has(d),
    {
        match c {
            McpCapability::Tool => self.tools = true,
            McpCapability::Resource => self.resources = true,
            McpCapability::Prompt => self.prompts = true,
        }
    }

    /// Whether `c` is declared.
    pub fn supports(&self, c: &McpCapability) -> (b: bool)
        ensures
            b == self.has(*c),
    {
        match c {
            McpCapability::Tool => self.tools,
            McpCapability::Resource => self.resources,
            McpCapability::Prompt => self.prompts,
        }
    }
}

// ------------------------------------------------------------------
// Messages
// ------------------------------------------------------------------

/// Role of a message's author.
#[allow(non_camel_case_types)]
#[derive(Debug, Clone, Copy, PartialEq, Eq, Structural)]
pub enum Role {
    user,
    assistant,
}

/// A piece of message content: text, media type, URL.
#[derive(Debug, Clone, PartialEq, Eq)]
pub struct Part {
    pub text: Option<String>,
    pub media_type: Option<String>,
    pub url: Option<String>,
}

/// The views of an optional string.
pub open spec fn opt_str(o: Option<String>) -> Option<Seq<char>> {
    match o {
        Some(s) => Some(s@),
        None => None,
    }
}

/// A copy of an optional string.
pub fn copy_opt_str(o: &Option<String>) -> (r: Option<String>)
    ensures
        r == *o,
{
    match o {
        Some(s) => Some(s.clone()),
        None => None,
    }
}

impl Part {
    /// Whether `p` is the text part of `t`.
    pub open spec fn is_text_of(p: Part, t: Seq<char>) -> bool {
        opt_str(p.text) == Some(t) && p.media_type is None && p.url is None
    }

    /// A text part.
    pub fn text(text: &str) -> (p: Self)
        ensures
            Self::is_text_of(p, text@),
    {
        Part { text: Some(owned(text)), media_type: None, url: None }
    }

    /// A copy of the part.
    pub fn copy(&self) -> (r: Self)
        ensures
            r == *self,
    {
        Part {
            text: copy_opt_str(&self.text),
            media_type: copy_opt_str(&self.media_type),
            url: copy_opt_str(&self.url),
        }
    }
}

/// A copy of a list of parts.
pub fn copy_parts(v: &Vec<Part>) -> (r: Vec<Part>)
    ensures
        r@ == v@,
{
    let mut r: Vec<Part> = Vec::new();
    let mut i: usize = 0;
    while i < v.len()
        invariant
            i <= v.len(),
            r@ == v@.take(i as int),
        decreases v.len() - i,
    {
        r.push(v[i].copy());
        assert(r@ =~= v@.take(i + 1));
        i += 1;
    }
    assert(v@.take(v@.len() as int) =~= v@);
    r
}

/// An A2A message.
#[derive(Debug, Clone)]
pub struct Message {
    pub role: String,
    pub parts: Vec<Part>,
    pub message_id: Option<String>,
}

/// The model of a message: role, parts, message id.
pub open spec fn message_model(m: Message) -> (Seq<char>, Seq<Part>, Option<Seq<char>>) {
    (m.role@, m.parts@, opt_str(m.message_id))
}

impl Message {
    /// A copy of the message.
    pub fn copy(&self) -> (r: Self)
        ensures
            message_model(r) == message_model(*self),
    {
        Message {
            role: self.role.clone(),
            parts: copy_parts(&self.parts),
            message_id: copy_opt_str(&self.message_id),
        }
    }
}

// ------------------------------------------------------------------
// Tasks
// ------------------------------------------------------------------

/// State of a task.
#[allow(non_camel_case_types)]
#[derive(Debug, Clone, PartialEq, Eq)]
pub enum TaskState {
    submitted,
    working,
    completed,
    failed,
    canceled,
    Unknown(String),
}

impl TaskState {
    /// A copy of the state.
    pub fn copy(&self) -> (r: Self)
        ensures
            r == *self,
    {
        match self {
            TaskState::submitted => TaskState::submitted,
            TaskState::working => TaskState::working,
            TaskState::completed => TaskState::completed,
            TaskState::failed => TaskState::failed,
            TaskState::canceled => TaskState::canceled,
            TaskState::Unknown(s) => TaskState::Unknown(s.clone()),
        }
    }
}

/// A task's state and status message.
#[derive(Debug, Clone)]
pub struct TaskStatus {
    pub state: TaskState,
    pub message: Option<Message>,
}

/// The model of an optional message.
pub open spec fn opt_message(o: Option<Message>) -> Option<(Seq<char>, Seq<Part>, Option<Seq<char>>)> {
    match o {
        Some(m) => Some(message_model(m)),
        None => None,
    }
}

/// The model of a task status.
pub open spec fn status_model(s: TaskStatus) -> (TaskState, Option<(Seq<char>, Seq<Part>, Option<Seq<char>>)>) {
    (s.state, opt_message(s.message))
}

impl TaskStatus {
    /// A copy of the status.
    pub fn copy(&self) -> (r: Self)
        ensures
            status_model(r) == status_model(*self),
    {
        TaskStatus {
            state: self.state.copy(),
            message: match &self.message {
                Some(m) => Some(m.copy()),
                None => None,
            },
        }
    }
}

/// A task.
#[derive(Debug, Clone)]
pub struct Task {
    pub id: String,
    pub context_id: Option<String>,
    pub status: TaskStatus,
    pub history: Option<Vec<Message>>,
    pub artifacts: Option<Vec<Artifact>>,
    /// The skills the task carries (a sub-task inherits its parent's).
    pub skills: Vec<String>,
}

/// A task's output.
#[derive(Debug, Clone)]
pub struct Artifact {
    pub parts: Vec<Part>,
    pub name: Option<String>,
    pub last_chunk: Option<bool>,
}

/// The model of an artifact.
pub open spec fn artifact_model(a: Artifact) -> (Seq<Part>, Option<Seq<char>>, Option<bool>) {
    (a.parts@, opt_str(a.name), a.last_chunk)
}

/// The models of a list of messages.
pub open spec fn messages_model(v: Seq<Message>) -> Seq<(Seq<char>, Seq<Part>, Option<Seq<char>>)> {
    v.map_values(|m: Message| message_model(m))
}

/// The models of a list of artifacts.
pub open spec fn artifacts_model(v: Seq<Artifact>) -> Seq<(Seq<Part>, Option<Seq<char>>, Option<bool>)> {
    v.map_values(|a: Artifact| artifact_model(a))
}

/// A copy of a list of messages.
pub fn copy_messages(v: &Vec<Message>) -> (r: Vec<Message>)
    ensures
        messages_model(r@) == messages_model(v@),
{
    let mut r: Vec<Message> = Vec::new();
    let mut i: usize = 0;
    while i < v.len()
        invariant
            i <= v.len(),
            r@.len() == i,
            forall|j: int| 0 <= j < i ==> message_model(#[trigger] r@[j]) == message_model(v@[j]),
        decreases v.len() - i,
    {
        r.push(v[i].copy());
        i += 1;
    }
    assert(messages_model(r@) =~= messages_model(v@));
    r
}

/// A copy of a list of artifacts.
pub fn copy_artifacts(v: &Vec<Artifact>) -> (r: Vec<Artifact>)
    ensures
        artifacts_model(r@) == artifacts_model(v@),
{
    let mut r: Vec<Artifact> = Vec::new();
    let mut i: usize = 0;
    while i < v.len()
        invariant
            i <= v.len(),
            r@.len() == i,
            forall|j: int| 0 <= j < i ==> artifact_model(#[trigger] r@[j]) == artifact_model(v@[j]),
        decreases v.len() - i,
    {
        let a = &v[i];
        r.push(Artifact { parts: copy_parts(&a.parts), name: copy_opt_str(&a.name), last_chunk: a.last_chunk });
        i += 1;
    }
    assert(artifacts_model(r@) =~= artifacts_model(v@));
    r
}

/// The model of optional artifacts.
pub open spec fn opt_artifacts(o: Option<Vec<Artifact>>) -> Option<Seq<(Seq<Part>, Option<Seq<char>>, Option<bool>)>> {
    match o {
        Some(v) => Some(artifacts_model(v@)),
        None => None,
    }
}

/// A copy of optional artifacts.
fn copy_opt_artifacts(o: &Option<Vec<Artifact>>) -> (r: Option<Vec<Artifact>>)
    ensures
        opt_artifacts(r) == opt_artifacts(*o),
{
    match o {
        Some(v) => Some(copy_artifacts(v)),
        None => None,
    }
}

/// A copy of a list of strings.
pub fn copy_strings(v: &Vec<String>) -> (r: Vec<String>)
    ensures
        r@ == v@,
{
    let mut r: Vec<String> = Vec::new();
    let mut i: usize = 0;
    while i < v.len()
        invariant
            i <= v.len(),
            r@ == v@.take(i as int),
        decreases v.len() - i,
    {
        r.push(v[i].clone());
        assert(r@ =~= v@.take(i + 1));
        i += 1;
    }
    assert(v@.take(v@.len() as int) =~= v@);
    r
}

/// What a task is, as values.
pub ghost struct TaskModel {
    pub id: Seq<char>,
    pub context_id: Option<Seq<char>>,
    pub state: TaskState,
    pub status_message: Option<(Seq<char>, Seq<Part>, Option<Seq<char>>)>,
    pub history: Option<Seq<(Seq<char>, Seq<Part>, Option<Seq<char>>)>>,
    pub artifacts: Option<Seq<(Seq<Part>, Option<Seq<char>>, Option<bool>)>>,
    pub skills: Seq<Seq<char>>,
}

/// The model of a task.
pub open spec fn task_model(t: Task) -> TaskModel {
    TaskModel {
        id: t.id@,
        context_id: opt_str(t.context_id),
        state: t.status.state,
        status_message: opt_message(t.status.message),
        history: opt_messages(t.history),
        artifacts: opt_artifacts(t.artifacts),
        skills: sviews(t.skills@),
    }
}

impl Task {
    /// A copy of the task.
    pub fn copy(&self) -> (r: Self)
        ensures
            task_model(r) == task_model(*self),
    {
        Task {
            id: self.id.clone(),
            context_id: copy_opt_str(&self.context_id),
            status: self.status.copy(),
            history: match &self.history {
                Some(h) => Some(copy_messages(h)),
                None => None,
            },
            artifacts: copy_opt_artifacts(&self.artifacts),
            skills: copy_strings(&self.skills),
        }
    }
}

// ------------------------------------------------------------------
// SendMessage / GetTask
// ------------------------------------------------------------------

/// A SendMessage request.
#[derive(Debug, Clone)]
pub struct SendMessageRequest {
    pub message: Message,
    pub id: Option<String>,
}

/// A SendMessage response.
#[derive(Debug, Clone)]
pub struct SendMessageResponse {
    pub id: String,
    pub message: Option<Message>,
    pub status: TaskStatus,
    pub artifacts: Option<Vec<Artifact>>,
}

/// The last message of a task's history.
pub open spec fn last_message(h: Option<Vec<Message>>) -> Option<(Seq<char>, Seq<Part>, Option<Seq<char>>)> {
    match h {
        Some(v) => if v@.len() > 0 {
            Some(message_model(v@.last()))
        } else {
            None
        },
        None => None,
    }
}

impl SendMessageResponse {
    /// The response for a task: its id, the last message of its history,
    /// its status and its artifacts.
    pub fn from_task(task: &Task) -> (r: Self)
        ensures
            r.id@ == task.id@,
            opt_message(r.message) == last_message(task.history),
            status_model(r.status) == status_model(task.status),
            opt_artifacts(r.artifacts) == opt_artifacts(task.artifacts),
    {
        let message = match &task.history {
            Some(h) => {
                if h.len() > 0 {
                    Some(h[h.len() - 1].copy())
                } else {
                    None
                }
            },
            None => None,
        };
        SendMessageResponse {
            id: task.id.clone(),
            message,
            status: task.status.copy(),
            artifacts: copy_opt_artifacts(&task.artifacts),
        }
    }
}

/// A GetTask request.
#[derive(Debug, Clone)]
pub struct GetTaskRequest {
    pub id: String,
}

/// A GetTask response.
#[derive(Debug, Clone)]
pub struct GetTaskResponse {
    pub id: String,
    pub status: TaskStatus,
    pub history: Option<Vec<Message>>,
    pub artifacts: Option<Vec<Artifact>>,
}

/// The model of an optional history.
pub open spec fn opt_messages(o: Option<Vec<Message>>) -> Option<Seq<(Seq<char>, Seq<Part>, Option<Seq<char>>)>> {
    match o {
        Some(v) => Some(messages_model(v@)),
        None => None,
    }
}

impl GetTaskResponse {
    /// The response for a task: its id, status, history and artifacts.
    pub fn from_task(task: &Task) -> (r: Self)
        ensures
            r.id@ == task.id@,
            status_model(r.status) == status_model(task.status),
            opt_messages(r.history) == opt_messages(task.history),
            opt_artifacts(r.artifacts) == opt_artifacts(task.artifacts),
    {
        GetTaskResponse {
            id: task.id.clone(),
            status: task.status.copy(),
            history: match &task.history {
                Some(h) => Some(copy_messages(h)),
                None => None,
            },
            artifacts: copy_opt_artifacts(&task.artifacts),
        }
    }
}

// ------------------------------------------------------------------
// JSON-RPC envelopes
// ------------------------------------------------------------------

/// A JSON-RPC request.
#[derive(Debug)]
pub struct JsonRpcRequest {
    pub jsonrpc: String,
    pub id: JsonValue,
    pub method: String,
    pub params: Option<JsonValue>,
}

/// A JSON-RPC success response.
#[derive(Debug)]
pub struct JsonRpcResponse<T> {
    pub jsonrpc: String,
    pub id: JsonValue,
    pub result: T,
}

impl<T> JsonRpcResponse<T> {
    /// A JSON-RPC 2.0 success response.
    pub fn success(id: JsonValue, result: T) -> (r: Self)
        ensures
            r.jsonrpc@ == "2.0"@,
            r.id == id,
            r.result == result,
    {
        JsonRpcResponse { jsonrpc: owned("2.0"), id, result }
    }
}

/// A JSON-RPC error response.
#[derive(Debug)]
pub struct JsonRpcError {
    pub jsonrpc: String,
    pub id: JsonValue,
    pub error: JsonRpcErrorDetail,
}

/// The error object of a JSON-RPC error response.
#[derive(Debug, Clone, PartialEq, Eq)]
pub struct JsonRpcErrorDetail {
    pub code: i32,
    pub message: String,
}

impl JsonRpcError {
    /// A JSON-RPC 2.0 error with the given code and message.
    fn with(id: JsonValue, code: i32, prefix: &str, detail: &str) -> (r: Self)
        ensures
            r.jsonrpc@ == "2.0"@,
            r.id == id,
            r.error.code == code,
            r.error.message@ == prefix@ + detail@,
    {
        let mut message = owned(prefix);
        push_str(&mut message, detail);
        JsonRpcError { jsonrpc: owned("2.0"), id, error: JsonRpcErrorDetail { code, message } }
    }

    /// Error -32601: `Method not found: <method>`.
    pub fn method_not_found(id: JsonValue, method: &str) -> (r: Self)
        ensures
            r.jsonrpc@ == "2.0"@,
            r.id == id,
            r.error.code == -32601,
            r.error.message@ == "Method not found: "@ + method@,
    {
        Self::with(id, -32601, "Method not found: ", method)
    }

    /// Error -32602: `Invalid params: <msg>`.
    pub fn invalid_params(id: JsonValue, msg: &str) -> (r: Self)
        ensures
            r.jsonrpc@ == "2.0"@,
            r.id == id,
            r.error.code == -32602,
            r.error.message@ == "Invalid params: "@ + msg@,
    {
        Self::with(id, -32602, "Invalid params: ", msg)
    }

    /// Error -32603: `Internal error: <msg>`.
    pub fn internal(id: JsonValue, msg: &str) -> (r: Self)
        ensures
            r.jsonrpc@ == "2.0"@,
            r.id == id,
            r.error.code == -32603,
            r.error.message@ == "Internal error: "@ + msg@,
    {
        Self::with(id, -32603, "Internal error: ", msg)
    }
}

} // verus!
