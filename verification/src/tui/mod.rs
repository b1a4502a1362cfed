//! Terminal interface: rendering options, rendered conversations, and the
//! display-mode types shared by the viewer, the exporter and the app state.

pub mod app;
pub mod export;
pub mod keys;
pub mod query;
pub mod search_queue;
pub mod session_export;
pub mod terminal;
pub mod view_state;
pub mod viewer;

use vstd::prelude::*;
use crate::tui::app::RenderedLine;
use crate::opencode::models::OcSessionView;
use crate::tui::viewer::{PartRendering, aux_fits, lines_view, renders_as};

verus! {

/// How a conversation is rendered.
#[derive(Debug, Clone, Copy)]
pub struct RenderOptions {
    pub tool_display: ToolDisplayMode,
    pub show_thinking: bool,
    pub show_timing: bool,
    /// Width available for the whole line; 0 renders without wrapping.
    pub content_width: usize,
}

/// Rendered lines, and the line range that each message occupies.
#[derive(Debug)]
pub struct RenderedConversation {
    pub lines: Vec<RenderedLine>,
    pub messages: Vec<MessageRange>,
}

/// Width of the gutter beside the conversation text.
pub const GUTTER_WIDTH: usize = 4;

/// How tool calls are shown.
#[derive(Clone, Copy, Debug, PartialEq, Eq)]
pub enum ToolDisplayMode {
    Hidden,
    Truncated,
    Full,
}

impl Default for ToolDisplayMode {
    fn default() -> (r: Self)
        ensures
            r == ToolDisplayMode::Truncated,
    {
        ToolDisplayMode::Truncated
    }
}

/// The mode that follows `m` in the cycle Hidden, Truncated, Full.
pub open spec fn next_mode(m: ToolDisplayMode) -> ToolDisplayMode {
    match m {
        ToolDisplayMode::Hidden => ToolDisplayMode::Truncated,
        ToolDisplayMode::Truncated => ToolDisplayMode::Full,
        ToolDisplayMode::Full => ToolDisplayMode::Hidden,
    }
}

/// The status-bar label of each mode.
pub open spec fn mode_label(m: ToolDisplayMode) -> Seq<char> {
    match m {
        ToolDisplayMode::Hidden => "tools:off"@,
        ToolDisplayMode::Truncated => "tools:short"@,
        ToolDisplayMode::Full => "tools:full"@,
    }
}

impl ToolDisplayMode {
    /// Tool calls are shown in every mode but `Hidden`.
    pub fn is_visible(&self) -> (r: bool)
        ensures
            r == (*self != ToolDisplayMode::Hidden),
    {
        match self {
            ToolDisplayMode::Hidden => false,
            _ => true,
        }
    }

    /// Cycle to the next tool display mode.
    pub fn next(self) -> (r: Self)
        ensures
            r == next_mode(self),
    {
        match self {
            ToolDisplayMode::Hidden => ToolDisplayMode::Truncated,
            ToolDisplayMode::Truncated => ToolDisplayMode::Full,
            ToolDisplayMode::Full => ToolDisplayMode::Hidden,
        }
    }

    /// The status label of the current mode.
    pub fn status_label(&self) -> (r: &'static str)
        ensures
            r@ == mode_label(*self),
    {
        match self {
            ToolDisplayMode::Hidden => "tools:off",
            ToolDisplayMode::Truncated => "tools:short",
            ToolDisplayMode::Full => "tools:full",
        }
    }
}

/// Cycling through the modes three times returns to the start, and every
/// mode of the cycle is distinct.
pub proof fn lemma_mode_cycle(m: ToolDisplayMode)
    ensures
        next_mode(next_mode(next_mode(m))) == m,
        next_mode(m) != m,
        next_mode(next_mode(m)) != m,
{
}

/// Lines `start_line..=end_line` hold the message at `entry_index`.
#[derive(Clone, Copy, Debug)]
pub struct MessageRange {
    pub start_line: usize,
    pub end_line: usize,
    pub entry_index: usize,
}


/// Renders a session for the viewer (see `viewer::render_oc_session`); `aux`
/// holds the markdown and tool renderings of each part.
pub fn render_conversation(
    content: Option<&OcSessionView>,
    aux: &Vec<Vec<PartRendering>>,
    options: &RenderOptions,
) -> (r: crate::error::Result<RenderedConversation>)
    requires
        content matches Some(s) ==> aux_fits(*s, aux@),
    ensures
        r is Ok,
        renders_as(lines_view(r->Ok_0.lines@), r->Ok_0.messages@, content_value(content), aux@, *options),
{
    let r = viewer::render_oc_session(content, aux, options);
    proof {
        match content {
            Some(s) => {
                if s.messages@.len() > 0 {
                    let stamps = choose|stamps: Seq<Seq<char>>|
                        #[trigger] viewer::rendered_with(r->Ok_0, *s, aux@, stamps, *options);
                    assert(viewer::rendered_with(r->Ok_0, *s, aux@, stamps, *options));
                    let blocks = viewer::session_blocks(*s, viewer::aux_view(aux@), stamps, *options);
                    assert(lines_view(r->Ok_0.lines@) == blocks.flatten());
                }
            },
            None => {},
        }
    }
    r
}

/// The session a borrowed option points to.
pub open spec fn content_value(content: Option<&OcSessionView>) -> Option<OcSessionView> {
    match content {
        Some(s) => Some(*s),
        None => None,
    }
}

} // verus!
