//! Exporting a stored conversation by its path with the command line's
//! options. This version has no such export: every operation reports that it
//! is not implemented, and message extraction finds nothing.

use vstd::prelude::*;
use crate::error::{AppError, Result};
use crate::text::string_of;
use crate::tui::ToolDisplayMode;

verus! {

/// Formats of the path-based export.
#[derive(Clone, Copy, Debug, PartialEq, Eq)]
pub enum ExportFormat {
    Ledger,
    Markdown,
    Plain,
    Json,
}

impl ExportFormat {
    /// The format chosen by a menu entry: Markdown, whatever the entry.
    pub fn from_index(index: usize) -> (r: Option<Self>)
        ensures
            r == Some(ExportFormat::Markdown),
    {
        Some(ExportFormat::Markdown)
    }
}

/// Options of the path-based export.
#[derive(Clone, Debug)]
pub struct ExportOptions {
    pub show_tools: bool,
    pub tool_display: ToolDisplayMode,
    pub show_thinking: bool,
    pub show_timing: bool,
    pub operator_only: bool,
    pub command_headings: Vec<String>,
    pub no_color: bool,
}

/// Export to the clipboard: not implemented.
pub fn export_to_clipboard(path: &str, format: ExportFormat, options: ExportOptions) -> (r: Result<()>)
    ensures
        r matches Err(AppError::Other(m)) && m@ == "export not implemented in v0"@,
{
    Err(AppError::Other(string_of("export not implemented in v0")))
}

/// Export to a file: not implemented.
pub fn export_to_file(
    path: &str,
    format: ExportFormat,
    options: ExportOptions,
    custom_title: Option<&str>,
    last_modified_ms: i64,
) -> (r: Result<()>)
    ensures
        r matches Err(AppError::Other(m)) && m@ == "export not implemented in v0"@,
{
    Err(AppError::Other(string_of("export not implemented in v0")))
}

/// Clipboard access: not implemented.
pub fn copy_to_system_clipboard(text: &str) -> (r: Result<()>)
    ensures
        r matches Err(AppError::Other(m)) && m@ == "clipboard not implemented in v0"@,
{
    Err(AppError::Other(string_of("clipboard not implemented in v0")))
}

/// The text of one message of a stored conversation: none is found.
pub fn extract_message_text(path: &str, entry_index: usize, options: ExportOptions) -> (r: Result<Option<String>>)
    ensures
        r matches Ok(None),
{
    Ok(None)
}

} // verus!
