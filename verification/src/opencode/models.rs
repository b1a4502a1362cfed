//! Sessions, messages and message parts of the opencode endpoint.

use vstd::prelude::*;

verus! {

/// A JSON value received from the endpoint; the library carries it unread.
#[verifier::external_type_specification]
#[verifier::external_body]
pub struct ExJsonValue(serde_json::Value);

#[derive(Debug, Clone)]
pub struct Session {
    pub id: String,
    pub project_id: String,
    pub directory: String,
    pub title: String,
    pub version: String,
    pub time: SessionTime,
    pub parent_id: Option<String>,
}

#[derive(Debug, Clone, Copy)]
pub struct SessionTime {
    pub created: i64,
    pub updated: i64,
    pub compacting: Option<i64>,
}

#[derive(Debug, Clone)]
pub struct V2SessionList {
    pub items: Vec<V2SessionItem>,
    pub cursor: V2Cursor,
}

#[derive(Debug, Clone)]
pub struct V2Cursor {
    pub previous: Option<String>,
    pub next: Option<String>,
}

impl Default for V2Cursor {
    fn default() -> (r: Self)
        ensures
            r.previous is None,
            r.next is None,
    {
        V2Cursor { previous: None, next: None }
    }
}

/// Session item of the older list endpoint, with a path relative to the root.
#[derive(Debug, Clone)]
pub struct V2SessionItem {
    pub id: String,
    pub project_id: String,
    pub path: String,
    pub title: String,
    pub time: SessionTime,
}

/// Session list of the newer endpoint, keyed `data`.
#[derive(Debug, Clone)]
pub struct V2NewSessionList {
    pub data: Vec<V2NewSessionItem>,
    pub cursor: V2Cursor,
}

/// Session item of the newer list endpoint, with an absolute directory.
#[derive(Debug, Clone)]
pub struct V2NewSessionItem {
    pub id: String,
    pub project_id: String,
    pub title: String,
    pub location: V2Location,
    pub time: SessionTime,
}

#[derive(Debug, Clone)]
pub struct V2Location {
    pub directory: String,
}

#[derive(Debug, Clone, Copy)]
pub struct MessageTime {
    pub created: i64,
    pub completed: Option<i64>,
}

/// A message as the endpoint sends it: its metadata and its raw parts.
#[derive(Debug)]
pub struct MessageEnvelope {
    pub info: MessageInfo,
    pub parts: Vec<RawPart>,
}

/// The fields of a raw message part that the view reads, as they stand in
/// the part's JSON object. A field is `None` where the key is missing or its
/// value has another JSON type.
#[derive(Debug)]
pub struct RawPart {
    /// `type`, a string.
    pub kind: Option<String>,
    /// `text`, a string.
    pub text: Option<String>,
    /// `tool`, a string.
    pub tool: Option<String>,
    /// `callID`, a string.
    pub call_id: Option<String>,
    /// `state`, present.
    pub state: Option<RawToolState>,
    /// `time.cost`, a number.
    pub cost: Option<UsdAmount>,
    /// `time.tokens.input`, an unsigned integer.
    pub input_tokens: Option<u64>,
    /// `time.tokens.output`, an unsigned integer.
    pub output_tokens: Option<u64>,
}

/// The `state` object of a tool part.
#[derive(Debug)]
pub struct RawToolState {
    /// `status`, a string.
    pub status: Option<String>,
    /// `input`, JSON `null` where the key is missing.
    pub input: serde_json::Value,
    /// `output`, present.
    pub output: Option<serde_json::Value>,
}

#[derive(Debug, Clone)]
pub struct MessageModel {
    pub provider_id: String,
    pub model_id: String,
}

impl Default for MessageModel {
    fn default() -> (r: Self)
        ensures
            r.provider_id@.len() == 0,
            r.model_id@.len() == 0,
    {
        MessageModel { provider_id: String::new(), model_id: String::new() }
    }
}

/// A dollar amount, as rendered with six and with four decimal places.
#[derive(Debug, Clone)]
pub struct UsdAmount {
    pub fixed6: String,
    pub fixed4: String,
}

#[derive(Debug, Clone)]
pub struct MessageInfo {
    pub role: String,
    pub cost: Option<UsdAmount>,
    pub tokens: Option<TokenCounts>,
    pub time: Option<MessageTime>,
    /// Nested model object (user messages).
    pub model: Option<MessageModel>,
    /// Flat model id (assistant messages).
    pub model_id: Option<String>,
    pub provider_id: Option<String>,
}

#[derive(Debug, Clone, Copy)]
pub struct TokenCounts {
    pub input: u64,
    pub output: u64,
    pub reasoning: u64,
}

impl Default for TokenCounts {
    fn default() -> (r: Self)
        ensures
            r.input == 0 && r.output == 0 && r.reasoning == 0,
    {
        TokenCounts { input: 0, output: 0, reasoning: 0 }
    }
}

#[derive(Debug, Clone)]
pub struct Project {
    pub id: String,
    pub worktree: String,
    pub vcs_dir: Option<String>,
    pub vcs: Option<String>,
}

/// Outcome of a delete request.
#[derive(Debug)]
pub enum DeleteResult {
    Deleted,
    NotFound,
    Refused(String),
}

#[derive(Debug)]
pub struct OcSessionView {
    pub session_id: String,
    pub messages: Vec<MessageView>,
}

/// View-layer representation of a message part.
#[derive(Debug)]
pub enum ViewPart {
    Text(String),
    Reasoning(String),
    ToolCall {
        name: String,
        call_id: String,
        input: serde_json::Value,
        output: Option<serde_json::Value>,
        status: String,
    },
    StepFinish {
        cost: Option<UsdAmount>,
        input_tokens: u64,
        output_tokens: u64,
    },
}

#[derive(Debug)]
pub struct MessageView {
    pub role: String,
    pub created: i64,
    pub model: Option<String>,
    pub parts: Vec<ViewPart>,
}

} // verus!
