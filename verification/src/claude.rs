//! Log entry types kept for the session formats that predate opencode.

use vstd::prelude::*;

verus! {

#[derive(Debug)]
pub enum LogEntry {
    Summary { summary: String },
    User {
        message: UserMessage,
        timestamp: Option<String>,
        uuid: Option<String>,
        cwd: Option<String>,
        parent_tool_use_id: Option<String>,
    },
    Assistant {
        message: AssistantMessage,
        timestamp: Option<String>,
        uuid: Option<String>,
        parent_tool_use_id: Option<String>,
    },
    System { message: String },
    CustomTitle { title: String },
    FileHistorySnapshot {
        message_id: String,
        snapshot: serde_json::Value,
        is_snapshot_update: bool,
    },
    Progress { data: serde_json::Value },
}

#[derive(Debug)]
pub enum UserContent {
    Text(String),
    Blocks(Vec<ContentBlock>),
}

impl Default for UserContent {
    fn default() -> (r: Self)
        ensures
            r matches UserContent::Text(t) && t@.len() == 0,
    {
        UserContent::Text(String::new())
    }
}

#[derive(Debug)]
pub struct UserMessage {
    pub content: UserContent,
}

#[derive(Debug)]
pub enum AssistantContent {
    Text(String),
    Blocks(Vec<ContentBlock>),
}

impl Default for AssistantContent {
    fn default() -> (r: Self)
        ensures
            r matches AssistantContent::Text(t) && t@.len() == 0,
    {
        AssistantContent::Text(String::new())
    }
}

#[derive(Debug)]
pub struct AssistantMessage {
    pub content: AssistantContent,
}

#[derive(Debug)]
pub enum ContentBlock {
    Text { text: String },
    Thinking { thinking: String },
    ToolUse { id: String, name: String, input: serde_json::Value },
    ToolResult { tool_use_id: String, content: Option<serde_json::Value> },
}

#[derive(Debug, Clone)]
pub struct AgentProgressData {
    pub message: String,
    pub agent_id: String,
}

#[derive(Debug)]
pub enum AgentContent {
    Text(String),
    Blocks(Vec<ContentBlock>),
}

/// Agent progress records carry no data that is read; there is never any.
pub fn parse_agent_progress(data: &serde_json::Value) -> (r: Option<AgentProgressData>)
    ensures
        r is None,
{
    None
}

/// The first eight characters of an id.
pub fn short_parent_id(id: &str) -> (r: String)
    ensures
        r@ == id@.take(if id@.len() < 8 { id@.len() as int } else { 8 }),
{
    let n = id.unicode_len();
    let k = if n < 8 { n } else { 8 };
    let r = id.substring_char(0, k);
    crate::text::string_of(r)
}

} // verus!
