//! Conversations as the session list shows them, and loader messages.

pub mod global_log;

use vstd::prelude::*;
use crate::error::AppError;
use crate::opencode::models::UsdAmount;
use crate::text::string_of;

verus! {

/// A conversation backed by opencode session data.
#[derive(Debug, Clone)]
pub struct Conversation {
    /// opencode session id (used for delete).
    pub id: String,
    pub index: usize,
    /// Milliseconds since the epoch of the last update.
    pub timestamp_ms: i64,
    pub title: String,
    /// The session's directory.
    pub project: String,
    /// Number of assistant messages.
    pub turn_count: usize,
    pub cost_usd: UsdAmount,
    pub tokens_in: u64,
    pub tokens_out: u64,
    pub tokens_reasoning: u64,
    /// The session id, used as the conversation's identity.
    pub path: String,
    pub project_name: Option<String>,
    pub summary: Option<String>,
    pub custom_title: Option<String>,
    pub model: Option<String>,
    pub total_tokens: u64,
    pub message_count: usize,
    pub duration_minutes: Option<u64>,
    pub preview: String,
    pub preview_first: String,
    pub preview_last: String,
    pub full_text: String,
    pub search_text_lower: String,
    pub parse_errors: Vec<ParseError>,
    pub project_path: Option<String>,
    pub cwd: Option<String>,
}

/// A parsing error.
#[derive(Debug, Clone)]
pub struct ParseError {
    pub line: usize,
    pub message: String,
}

/// Message sent from the background loader to the interface.
#[derive(Debug)]
pub enum LoaderMessage {
    /// A batch of loaded conversations.
    Batch(Vec<Conversation>),
    /// Loading completed.
    Done,
    /// A fatal error occurred.
    Fatal(String),
}

/// Finds a conversation file by UUID; lookup by UUID is not available, so this
/// always fails.
pub fn find_jsonl_by_uuid(uuid: &str) -> (r: Result<String, AppError>)
    ensures
        r matches Err(AppError::Other(m)) && m@ == "UUID lookup not implemented in v0"@,
{
    Err(AppError::Other(string_of("UUID lookup not implemented in v0")))
}

/// Processes a conversation file from disk; reading files is not available,
/// so this always fails.
pub fn process_conversation_file(
    path: &str,
    modified_ms: Option<i64>,
    title_override: Option<String>,
    custom_title: Option<String>,
) -> (r: Result<Conversation, AppError>)
    ensures
        r matches Err(AppError::Other(m)) && m@ == "File processing not implemented in v0"@,
{
    Err(AppError::Other(string_of("File processing not implemented in v0")))
}

} // verus!
