//! State of the terminal interface: rendered lines and their styles, and the
//! state machine of the session list, the dialogs and the conversation viewer,
//! driven by key presses.
//!
//! The application runs the loop: it reads keys and the terminal size, draws,
//! and carries out the effects that a key asks for (sending a search to the
//! worker thread, rendering, clipboard and file output), handing the results
//! back.

use vstd::prelude::*;
use chrono::TimeZone;
use crate::error::{AppError, error_text};
use crate::history::{Conversation, process_conversation_file};
use crate::opencode::loader::{as_ints, newest_first_order, permute, permuted, stable_newest_first};
use crate::opencode::models::OcSessionView;
use crate::text::{
    chars_of, file_name_of, file_stem_of, opt_view, path_file_name, path_file_stem, push_str,
    string_from_chars, string_of, trim, trimmed,
};
use crate::tui::export::{
    ExportFormat, extension_of, format_at, render_oc_export, sanitize_filename, sanitized_name,
    export_doc,
};
use crate::tui::keys::{BoundKey, KeyCode, KeyInput, alt_char, ctrl_char, is_alt_char, is_char, is_ctrl_char};
use crate::tui::query::{
    backspace, backspace_of, delete_at, delete_at_of, delete_word_back, delete_word_back_of, insert_at,
    insert_at_of, kill_to_end, kill_to_end_of, kill_to_start, kill_to_start_of, word_left, word_left_of,
    word_right, word_right_of, clamp_to,
};
use crate::tui::view_state::{
    ViewStateView, escape_of, is_motion_char, motion_char_of, motion_code_of, focus_next_of, focus_prev_of, next_match_of, prev_match_of, scroll_bottom_of,
    scroll_down_of, scroll_top_of, scroll_up_of, start_search_of, typing_of, view_fits, view_wf,
};
use crate::tui::next_mode;
use crate::tui::viewer::{LineView, PartRendering, aux_fits, aux_view, renders_as};
use crate::tui::view_state::{max_scroll_of, options_of, rerendered, scroll_by_of};
use crate::opencode::models::DeleteResult;
use crate::opencode::sse::SseEvent;
use crate::text::decimal;
use crate::tui::ToolDisplayMode;

pub use crate::tui::view_state::{SearchDirection, ViewSearchMode, ViewState};

verus! {


/// Style information for a span.
#[derive(Clone, Copy, Debug, PartialEq, Eq)]
pub struct LineStyle {
    pub fg: Option<(u8, u8, u8)>,
    pub bold: bool,
    pub dimmed: bool,
    pub italic: bool,
}

/// The style with no attribute set.
pub open spec fn plain_style() -> LineStyle {
    LineStyle { fg: None, bold: false, dimmed: false, italic: false }
}

impl Default for LineStyle {
    fn default() -> (r: Self)
        ensures
            r == plain_style(),
    {
        LineStyle { fg: None, bold: false, dimmed: false, italic: false }
    }
}

impl LineStyle {
    pub fn plain() -> (r: Self)
        ensures
            r == plain_style(),
    {
        LineStyle { fg: None, bold: false, dimmed: false, italic: false }
    }

    pub fn dimmed_style() -> (r: Self)
        ensures
            r == (LineStyle { dimmed: true, ..plain_style() }),
    {
        LineStyle { fg: None, bold: false, dimmed: true, italic: false }
    }

    pub fn bold_style() -> (r: Self)
        ensures
            r == (LineStyle { bold: true, ..plain_style() }),
    {
        LineStyle { fg: None, bold: true, dimmed: false, italic: false }
    }
}

/// A span's text and style, by value.
pub type SpanView = (Seq<char>, LineStyle);

/// A single rendered line with its spans.
#[derive(Debug)]
pub struct RenderedLine {
    pub spans: Vec<(String, LineStyle)>,
}

impl View for RenderedLine {
    type V = Seq<SpanView>;

    open spec fn view(&self) -> Seq<SpanView> {
        self.spans@.map_values(|sp: (String, LineStyle)| (sp.0@, sp.1))
    }
}

impl RenderedLine {
    /// A line holding one span.
    pub fn single(text: String, style: LineStyle) -> (r: RenderedLine)
        ensures
            r@ == seq![(text@, style)],
    {
        let mut spans = Vec::new();
        spans.push((text, style));
        let r = RenderedLine { spans };
        assert(r@ =~= seq![(text@, style)]);
        r
    }

    /// A copy with the same spans.
    pub fn duplicate(&self) -> (r: RenderedLine)
        ensures
            r@ == self@,
    {
        let mut spans: Vec<(String, LineStyle)> = Vec::new();
        let mut i: usize = 0;
        while i < self.spans.len()
            invariant
                i <= self.spans@.len(),
                spans@.len() == i,
                forall|k: int| 0 <= k < i ==> (#[trigger] spans@[k]).0@ == self.spans@[k].0@ && spans@[k].1 == self.spans@[k].1,
            decreases self.spans@.len() - i,
        {
            let t = self.spans[i].0.clone();
            let st = self.spans[i].1;
            spans.push((t, st));
            i += 1;
        }
        let r = RenderedLine { spans };
        assert(r@ =~= self@);
        r
    }
}



broadcast use vstd::string::group_string_axioms, vstd::seq_lib::group_seq_lib_default;

/// What the interface asks of the application when a key ends its work.
#[derive(Debug)]
pub enum Action {
    Select(String),
    Delete(String),
    Resume(String),
    ForkResume(String),
    OpenInPager(String),
    ToggleMouse,
    ReloadSessions,
    Quit,
}

/// The action by value.
pub enum ActionView {
    Select(Seq<char>),
    Delete(Seq<char>),
    Resume(Seq<char>),
    ForkResume(Seq<char>),
    OpenInPager(Seq<char>),
    ToggleMouse,
    ReloadSessions,
    Quit,
}

impl View for Action {
    type V = ActionView;

    open spec fn view(&self) -> ActionView {
        match self {
            Action::Select(p) => ActionView::Select(p@),
            Action::Delete(p) => ActionView::Delete(p@),
            Action::Resume(p) => ActionView::Resume(p@),
            Action::ForkResume(p) => ActionView::ForkResume(p@),
            Action::OpenInPager(p) => ActionView::OpenInPager(p@),
            Action::ToggleMouse => ActionView::ToggleMouse,
            Action::ReloadSessions => ActionView::ReloadSessions,
            Action::Quit => ActionView::Quit,
        }
    }
}

/// Dialog overlay.
#[derive(Clone, Copy, Debug, PartialEq, Eq, Structural)]
pub enum DialogMode {
    /// No dialog shown.
    Closed,
    /// Confirming deletion of the selected conversation.
    ConfirmDelete,
    /// Export menu (save to a file).
    ExportMenu { selected: usize },
    /// Yank menu (copy to the clipboard).
    YankMenu { selected: usize },
    /// Keyboard help.
    Help,
}

/// Number of entries of the export and yank menus.
pub const EXPORT_OPTION_COUNT: usize = 3;

/// The label of an entry of the export and yank menus.
pub fn export_option_label(i: usize) -> (r: Option<&'static str>)
    ensures
        i == 0 ==> (r matches Some(t) && t@ == "Ledger (formatted)"@),
        i == 1 ==> (r matches Some(t) && t@ == "Plain text"@),
        i == 2 ==> (r matches Some(t) && t@ == "Markdown"@),
        i >= EXPORT_OPTION_COUNT ==> r is None,
{
    match i {
        0 => Some("Ledger (formatted)"),
        1 => Some("Plain text"),
        2 => Some("Markdown"),
        _ => None,
    }
}

/// Main mode: the session list, or the viewer on one conversation.
#[derive(Debug)]
pub enum AppMode {
    List,
    View(ViewState),
}

/// Whether the list is still loading.
#[derive(Clone, Copy, Debug, PartialEq, Eq, Structural)]
pub enum LoadingState {
    /// Conversations are still arriving; `loaded` so far.
    Loading { loaded: usize },
    /// Everything is loaded.
    Ready,
}

/// What a key asks the application to carry out.
#[derive(Debug)]
pub enum Effect {
    /// Send this search to the worker thread.
    Search { query: String, generation: u64, workspace_filter: bool, project: Option<String> },
    /// Search for the current query now and hand the result to `apply_filter`.
    Refilter,
    /// Export the open session (see `export_request`).
    Export { format: ExportFormat, to_clipboard: bool },
    /// Copy `text` to the clipboard and report with `clipboard_finished`.
    Copy { text: String, success: String },
    /// Render the open conversation again (see `re_render_view`).
    ReRender,
}

pub enum EffectView {
    Search { query: Seq<char>, generation: u64, workspace_filter: bool, project: Option<Seq<char>> },
    Refilter,
    Export { format: ExportFormat, to_clipboard: bool },
    Copy { text: Seq<char>, success: Seq<char> },
    ReRender,
}

impl View for Effect {
    type V = EffectView;

    open spec fn view(&self) -> EffectView {
        match self {
            Effect::Search { query, generation, workspace_filter, project } => EffectView::Search {
                query: query@,
                generation: *generation,
                workspace_filter: *workspace_filter,
                project: opt_view(*project),
            },
            Effect::Refilter => EffectView::Refilter,
            Effect::Export { format, to_clipboard } => EffectView::Export {
                format: *format,
                to_clipboard: *to_clipboard,
            },
            Effect::Copy { text, success } => EffectView::Copy { text: text@, success: success@ },
            Effect::ReRender => EffectView::ReRender,
        }
    }
}

/// The outcome of a key: an action for the application's loop, and an effect
/// to carry out.
#[derive(Debug)]
pub struct KeyOutcome {
    pub action: Option<Action>,
    pub effect: Option<Effect>,
}

pub open spec fn opt_action(a: Option<Action>) -> Option<ActionView> {
    match a {
        Some(x) => Some(x@),
        None => None,
    }
}

pub open spec fn opt_effect(e: Option<Effect>) -> Option<EffectView> {
    match e {
        Some(x) => Some(x@),
        None => None,
    }
}

/// Interface state.
pub struct App {
    /// All loaded conversations.
    conversations: Vec<Conversation>,
    /// Indices into `conversations` of the listed ones, in list order.
    filtered: Vec<usize>,
    /// Selected position in `filtered`.
    selected: Option<usize>,
    /// The search line.
    query: String,
    /// Cursor in the search line, in characters.
    cursor_pos: usize,
    loading_state: LoadingState,
    dialog_mode: DialogMode,
    app_mode: AppMode,
    /// Status message and when it was set (milliseconds).
    status_message: Option<(String, u64)>,
    /// Viewer settings kept across conversations.
    tool_display: ToolDisplayMode,
    show_thinking: bool,
    show_timing: bool,
    /// Viewing one file directly, without the list.
    single_file_mode: bool,
    /// The list is limited to conversations with the pinned title.
    workspace_filter: bool,
    /// The pinned title.
    current_project_dir_name: Option<String>,
    /// When a first `Esc` on an empty search line asked for a second one.
    esc_pending_quit: Option<u64>,
    /// Generation of the latest search sent to the worker.
    search_generation: u64,
    search_in_flight: bool,
    mouse_capture: bool,
    /// A live subscription to the open session's events is running.
    sse_active: bool,
}

/// The interface state by value.
pub struct AppView {
    pub conversations: Seq<Conversation>,
    pub filtered: Seq<usize>,
    pub selected: Option<usize>,
    pub query: Seq<char>,
    pub cursor: usize,
    pub loading: LoadingState,
    pub dialog: DialogMode,
    /// The viewer, in view mode.
    pub view: Option<ViewStateView>,
    pub status: Option<(Seq<char>, u64)>,
    pub tool_display: ToolDisplayMode,
    pub show_thinking: bool,
    pub show_timing: bool,
    pub single_file: bool,
    pub workspace_filter: bool,
    pub project: Option<Seq<char>>,
    pub esc_pending: Option<u64>,
    pub generation: u64,
    pub in_flight: bool,
    pub mouse_capture: bool,
    pub sse_active: bool,
}

pub open spec fn status_view(s: Option<(String, u64)>) -> Option<(Seq<char>, u64)> {
    match s {
        Some(x) => Some((x.0@, x.1)),
        None => None,
    }
}

pub open spec fn mode_view(m: AppMode) -> Option<ViewStateView> {
    match m {
        AppMode::View(v) => Some(v@),
        AppMode::List => None,
    }
}

impl View for App {
    type V = AppView;

    closed spec fn view(&self) -> AppView {
        AppView {
            conversations: self.conversations@,
            filtered: self.filtered@,
            selected: self.selected,
            query: self.query@,
            cursor: self.cursor_pos,
            loading: self.loading_state,
            dialog: self.dialog_mode,
            view: mode_view(self.app_mode),
            status: status_view(self.status_message),
            tool_display: self.tool_display,
            show_thinking: self.show_thinking,
            show_timing: self.show_timing,
            single_file: self.single_file_mode,
            workspace_filter: self.workspace_filter,
            project: opt_view(self.current_project_dir_name),
            esc_pending: self.esc_pending_quit,
            generation: self.search_generation,
            in_flight: self.search_in_flight,
            mouse_capture: self.mouse_capture,
            sse_active: self.sse_active,
        }
    }
}

/// What every state keeps: a selection exactly when the list is not empty,
/// inside it; listed indices name loaded conversations; the cursor inside the
/// search line; the menu selection inside the menu; the viewer consistent.
pub open spec fn app_wf(s: AppView) -> bool {
    &&& (s.selected is Some <==> s.filtered.len() > 0)
    &&& (s.selected matches Some(i) ==> i < s.filtered.len())
    &&& forall|i: int| 0 <= i < s.filtered.len() ==> #[trigger] s.filtered[i] < s.conversations.len()
    &&& s.cursor <= s.query.len()
    &&& (s.dialog matches DialogMode::ExportMenu { selected } ==> selected < EXPORT_OPTION_COUNT)
    &&& (s.dialog matches DialogMode::YankMenu { selected } ==> selected < EXPORT_OPTION_COUNT)
    &&& (s.view matches Some(v) ==> view_wf(v))
}

impl App {
    /// The state is well formed (see `app_wf`).
    pub open spec fn wf(&self) -> bool {
        app_wf(self@)
    }
}

// ---------------------------------------------------------------------------
// Steps
// ---------------------------------------------------------------------------

/// The outcome of a key on the state: the next state, the action and the effect.
pub struct Step {
    pub app: AppView,
    pub action: Option<ActionView>,
    pub effect: Option<EffectView>,
}

pub open spec fn plain(s: AppView) -> Step {
    Step { app: s, action: None, effect: None }
}

pub open spec fn with_action(s: AppView, a: Option<ActionView>) -> Step {
    Step { app: s, action: a, effect: None }
}

pub open spec fn with_effect(s: AppView, e: EffectView) -> Step {
    Step { app: s, action: None, effect: Some(e) }
}

/// The path of the selected conversation.
pub open spec fn selected_path(s: AppView) -> Option<Seq<char>> {
    match s.selected {
        Some(i) => if i < s.filtered.len() {
            Some(s.conversations[s.filtered[i as int] as int].path@)
        } else {
            None
        },
        None => None,
    }
}

pub open spec fn path_action(p: Option<Seq<char>>, kind: int) -> Option<ActionView> {
    match p {
        Some(x) => Some(if kind == 0 {
            ActionView::Select(x)
        } else if kind == 1 {
            ActionView::Delete(x)
        } else if kind == 2 {
            ActionView::Resume(x)
        } else if kind == 3 {
            ActionView::ForkResume(x)
        } else {
            ActionView::OpenInPager(x)
        }),
        None => None,
    }
}

pub open spec fn with_status(s: AppView, msg: Seq<char>, now: u64) -> AppView {
    AppView { status: Some((msg, now)), ..s }
}

// ---------------------------------------------------------------------------
// Session ids in the search line
// ---------------------------------------------------------------------------

pub open spec fn is_hex_digit(c: char) -> bool {
    ('0' <= c && c <= '9') || ('a' <= c && c <= 'f') || ('A' <= c && c <= 'F')
}

/// A UUID in its text form: 36 characters, hyphens at positions 8, 13, 18 and
/// 23, hexadecimal digits elsewhere.
pub open spec fn is_uuid(q: Seq<char>) -> bool {
    &&& q.len() == 36
    &&& forall|i: int|
        0 <= i < 36 ==> (if i == 8 || i == 13 || i == 18 || i == 23 {
            #[trigger] q[i] == '-'
        } else {
            is_hex_digit(q[i])
        })
}

pub fn uuid_text(q: &Vec<char>) -> (r: bool)
    ensures
        r == is_uuid(q@),
{
    if q.len() != 36 {
        return false;
    }
    let mut i: usize = 0;
    while i < 36
        invariant
            i <= 36,
            q@.len() == 36,
            forall|j: int|
                0 <= j < i ==> (if j == 8 || j == 13 || j == 18 || j == 23 {
                    #[trigger] q@[j] == '-'
                } else {
                    is_hex_digit(q@[j])
                }),
        decreases 36 - i,
    {
        let c = q[i];
        let ok = if i == 8 || i == 13 || i == 18 || i == 23 {
            c == '-'
        } else {
            ('0' <= c && c <= '9') || ('a' <= c && c <= 'f') || ('A' <= c && c <= 'F')
        };
        if !ok {
            return false;
        }
        i += 1;
    }
    true
}

/// The conversation stored as `<uuid>.jsonl`.
pub open spec fn uuid_file(q: Seq<char>) -> spec_fn(Conversation) -> bool {
    |c: Conversation| file_name_of(c.path@) == Some(q + ".jsonl"@)
}

/// A UUID in the search line finds the loaded conversation stored under it
/// (looking it up on disk is not available).
pub open spec fn uuid_match(s: AppView, q: Seq<char>) -> Option<int> {
    if is_uuid(q) {
        crate::tui::view_state::first_index(s.conversations, uuid_file(q))
    } else {
        None
    }
}

/// Send the search for the trimmed search line to the worker; a UUID that
/// names a loaded conversation selects it instead, and any other UUID sends
/// nothing.
pub open spec fn dispatch_step(s: AppView) -> Step {
    let q = trim(s.query);
    if is_uuid(q) {
        match uuid_match(s, q) {
            Some(idx) => plain(AppView { filtered: seq![idx as usize], selected: Some(0), ..s }),
            None => plain(s),
        }
    } else {
        let g = (s.generation + 1) as u64;
        with_effect(
            AppView { generation: g, in_flight: true, ..s },
            EffectView::Search { query: q, generation: g, workspace_filter: s.workspace_filter, project: s.project },
        )
    }
}

/// Filter the list again for the search line: a UUID naming a loaded
/// conversation selects it; otherwise the application runs the search.
pub open spec fn refilter_step(s: AppView) -> Step {
    match uuid_match(s, trim(s.query)) {
        Some(idx) => plain(AppView { filtered: seq![idx as usize], selected: Some(0), ..s }),
        None => with_effect(s, EffectView::Refilter),
    }
}

/// The title that Tab pins: the selected conversation's, when not empty.
pub open spec fn pinned_title(s: AppView) -> Option<Seq<char>> {
    match s.selected {
        Some(i) => if i < s.filtered.len() {
            let t = s.conversations[s.filtered[i as int] as int].title@;
            if t.len() == 0 { None } else { Some(t) }
        } else {
            None
        },
        None => None,
    }
}

/// Tab: leave the title filter (the pinned title is cleared), or pin the
/// selected conversation's title.
pub open spec fn toggle_step(s: AppView) -> Step {
    if s.workspace_filter {
        refilter_step(AppView { workspace_filter: false, project: None, ..s })
    } else {
        match pinned_title(s) {
            Some(t) => refilter_step(AppView { project: Some(t), workspace_filter: true, ..s }),
            None => plain(s),
        }
    }
}

// ---------------------------------------------------------------------------
// The list: selection and the search line
// ---------------------------------------------------------------------------

pub open spec fn select_prev_of(s: AppView) -> AppView {
    match s.selected {
        Some(i) => if i > 0 { AppView { selected: Some((i - 1) as usize), ..s } } else { s },
        None => s,
    }
}

pub open spec fn select_next_of(s: AppView) -> AppView {
    match s.selected {
        Some(i) => if i + 1 < s.filtered.len() { AppView { selected: Some((i + 1) as usize), ..s } } else { s },
        None => s,
    }
}

pub open spec fn select_first_of(s: AppView) -> AppView {
    if s.filtered.len() > 0 { AppView { selected: Some(0), ..s } } else { s }
}

pub open spec fn select_last_of(s: AppView) -> AppView {
    if s.filtered.len() > 0 { AppView { selected: Some((s.filtered.len() - 1) as usize), ..s } } else { s }
}

pub open spec fn last_pos(s: AppView) -> int {
    if s.filtered.len() > 0 { s.filtered.len() - 1 } else { 0 }
}

/// Move the selection down by `n`, stopping at the last entry.
pub open spec fn select_down_of(s: AppView, n: int) -> AppView {
    match s.selected {
        Some(i) => AppView { selected: Some(crate::tui::view_state::min_of(i + n, last_pos(s)) as usize), ..s },
        None => s,
    }
}

/// Move the selection up by `n`, stopping at the first entry.
pub open spec fn select_up_of(s: AppView, n: int) -> AppView {
    match s.selected {
        Some(i) => AppView { selected: Some(if i > n { (i - n) as usize } else { 0 }), ..s },
        None => s,
    }
}

pub open spec fn cursor_left_of(s: AppView) -> AppView {
    if s.cursor > 0 { AppView { cursor: (s.cursor - 1) as usize, ..s } } else { s }
}

pub open spec fn cursor_right_of(s: AppView) -> AppView {
    if s.cursor < s.query.len() { AppView { cursor: (s.cursor + 1) as usize, ..s } } else { s }
}

pub open spec fn set_cursor(s: AppView, c: int) -> AppView {
    AppView { cursor: c as usize, ..s }
}

/// A search-line edit that may change the line, followed by a search when it
/// did and `search` is set.
pub open spec fn after_edit(s: AppView, changed: bool, search: bool) -> Step {
    if changed && search { dispatch_step(s) } else { plain(s) }
}

pub open spec fn kill_end_step(s: AppView, search: bool) -> Step {
    match kill_to_end_of(s.query, s.cursor as int) {
        Some(q) => after_edit(AppView { query: q, ..s }, true, search),
        None => plain(s),
    }
}

pub open spec fn kill_start_step(s: AppView, search: bool) -> Step {
    match kill_to_start_of(s.query, s.cursor as int) {
        Some(q) => after_edit(AppView { query: q, cursor: 0, ..s }, true, search),
        None => plain(s),
    }
}

pub open spec fn delete_word_step(s: AppView, search: bool) -> Step {
    match delete_word_back_of(s.query, s.cursor as int) {
        Some(x) => after_edit(AppView { query: x.0, cursor: x.1 as usize, ..s }, true, search),
        None => plain(s),
    }
}

pub open spec fn insert_step(s: AppView, c: char, search: bool) -> Step {
    after_edit(AppView { query: insert_at_of(s.query, s.cursor as int, c), cursor: (s.cursor + 1) as usize, ..s }, true, search)
}

pub open spec fn backspace_step(s: AppView, search: bool) -> Step {
    match backspace_of(s.query, s.cursor as int) {
        Some(x) => after_edit(AppView { query: x.0, cursor: x.1 as usize, ..s }, true, search),
        None => plain(s),
    }
}

pub open spec fn delete_step(s: AppView, search: bool) -> Step {
    match delete_at_of(s.query, s.cursor as int) {
        Some(q) => after_edit(AppView { query: q, ..s }, true, search),
        None => plain(s),
    }
}

/// `Esc` in the list: with text in the search line, clear it and search; on
/// an empty line, a first `Esc` asks for a second one, and a second `Esc`
/// (no other key between) quits.
pub open spec fn esc_step(s: AppView, now: u64) -> Step {
    if s.query.len() == 0 {
        if s.esc_pending is Some {
            with_action(s, Some(ActionView::Quit))
        } else {
            plain(with_status(AppView { esc_pending: Some(now), ..s }, "Press Esc again to exit"@, now))
        }
    } else {
        dispatch_step(AppView { esc_pending: None, query: Seq::empty(), cursor: 0, ..s })
    }
}

pub open spec fn help_of(s: AppView) -> AppView {
    AppView { dialog: DialogMode::Help, ..s }
}

/// Keys of the list while it loads: navigation and editing of the search
/// line, without searching; no selection with Enter.
pub open spec fn loading_list_step(s: AppView, k: KeyInput) -> Step {
    match k.code {
        KeyCode::Char(c) => loading_char_step(s, c, k),
        _ => list_code_step(s, k, false),
    }
}

/// Keys other than characters in the list (`ready`: loading is over).
#[verifier::opaque]
pub open spec fn list_code_step(s: AppView, k: KeyInput, ready: bool) -> Step {
    match k.code {
        KeyCode::Esc => esc_step(s, k.now_ms),
        KeyCode::Left => if k.ctrl {
            plain(set_cursor(s, word_left_of(s.query, s.cursor as int)))
        } else {
            plain(cursor_left_of(s))
        },
        KeyCode::Right => if k.ctrl {
            plain(set_cursor(s, word_right_of(s.query, s.cursor as int)))
        } else {
            plain(cursor_right_of(s))
        },
        KeyCode::Up => plain(select_prev_of(s)),
        KeyCode::Down => plain(select_next_of(s)),
        KeyCode::Home => if ready { plain(select_first_of(s)) } else { plain(s) },
        KeyCode::End => if ready { plain(select_last_of(s)) } else { plain(s) },
        KeyCode::PageUp => plain(select_up_of(s, 10)),
        KeyCode::PageDown => plain(select_down_of(s, 10)),
        KeyCode::Tab => toggle_step(s),
        KeyCode::Backspace => backspace_step(s, ready),
        KeyCode::Delete => delete_step(s, ready),
        _ => plain(s),
    }
}

/// Character keys of the list while it loads.
#[verifier::opaque]
pub open spec fn loading_char_step(s: AppView, c: char, k: KeyInput) -> Step {
    if c == 'c' && k.ctrl {
        with_action(s, Some(ActionView::Quit))
    } else if c == 'n' && k.ctrl {
        plain(select_next_of(s))
    } else if c == 'p' && k.ctrl {
        plain(select_prev_of(s))
    } else if c == 'a' && k.ctrl {
        plain(set_cursor(s, 0))
    } else if c == 'e' && k.ctrl {
        plain(set_cursor(s, s.query.len() as int))
    } else if c == 'b' && k.ctrl {
        plain(cursor_left_of(s))
    } else if c == 'f' && k.ctrl {
        plain(cursor_right_of(s))
    } else if c == 'b' && k.alt {
        plain(set_cursor(s, word_left_of(s.query, s.cursor as int)))
    } else if c == 'f' && k.alt {
        plain(set_cursor(s, word_right_of(s.query, s.cursor as int)))
    } else if c == 'k' && k.ctrl {
        kill_end_step(s, false)
    } else if c == 'u' && k.ctrl {
        kill_start_step(s, false)
    } else if c == 'w' && k.ctrl {
        delete_word_step(s, false)
    } else if c == '?' || (c == 'h' && k.ctrl) {
        plain(help_of(s))
    } else {
        insert_step(s, c, false)
    }
}

/// Keys of the loaded list: the configured bindings first.
pub open spec fn ready_list_step(s: AppView, k: KeyInput, vh: usize) -> Step {
    match k.bound {
        Some(b) => bound_list_step(s, b),
        None => match k.code {
            KeyCode::Enter => plain(s),
            KeyCode::Char(c) => ready_char_step(s, c, k, vh),
            _ => list_code_step(s, k, true),
        },
    }
}

/// The configured bindings in the list: delete asks for confirmation when a
/// conversation is selected, resume and fork answer with it.
pub open spec fn bound_list_step(s: AppView, b: BoundKey) -> Step {
    match b {
        BoundKey::Delete => if selected_path(s) is Some {
            plain(AppView { dialog: DialogMode::ConfirmDelete, ..s })
        } else {
            plain(s)
        },
        BoundKey::Resume => with_action(s, path_action(selected_path(s), 2)),
        BoundKey::Fork => with_action(s, path_action(selected_path(s), 3)),
    }
}

/// Character keys of the loaded list.
#[verifier::opaque]
pub open spec fn ready_char_step(s: AppView, c: char, k: KeyInput, vh: usize) -> Step {
    if c == 'c' && k.ctrl {
        with_action(s, Some(ActionView::Quit))
    } else if c == 'a' && k.ctrl {
        plain(set_cursor(s, 0))
    } else if c == 'e' && k.ctrl {
        plain(set_cursor(s, s.query.len() as int))
    } else if c == 'b' && k.ctrl {
        plain(cursor_left_of(s))
    } else if c == 'f' && k.ctrl {
        plain(cursor_right_of(s))
    } else if c == 'b' && k.alt {
        plain(set_cursor(s, word_left_of(s.query, s.cursor as int)))
    } else if c == 'f' && k.alt {
        plain(set_cursor(s, word_right_of(s.query, s.cursor as int)))
    } else if c == 'k' && k.ctrl {
        kill_end_step(s, true)
    } else if c == 'n' && k.ctrl {
        plain(select_next_of(s))
    } else if c == 'p' && k.ctrl {
        plain(select_prev_of(s))
    } else if c == 'd' && k.ctrl {
        plain(select_down_of(s, (vh / 2) as int))
    } else if c == 'u' && k.ctrl {
        kill_start_step(s, true)
    } else if c == 'o' && k.ctrl {
        with_action(s, path_action(selected_path(s), 0))
    } else if c == 'v' && k.ctrl {
        with_action(s, path_action(selected_path(s), 4))
    } else if c == 'w' && k.ctrl {
        delete_word_step(s, true)
    } else if c == 'l' && k.ctrl {
        with_action(s, Some(ActionView::ReloadSessions))
    } else if c == '?' || (c == 'h' && k.ctrl) {
        plain(help_of(s))
    } else {
        insert_step(s, c, true)
    }
}

/// A key in the list: any key but `Esc` forgets a pending `Esc`.
pub open spec fn list_step(s: AppView, k: KeyInput, vh: usize) -> Step {
    let s0 = if k.code != KeyCode::Esc { AppView { esc_pending: None, ..s } } else { s };
    if s0.loading is Loading {
        loading_list_step(s0, k)
    } else {
        ready_list_step(s0, k, vh)
    }
}

/// `Esc` in the list (no dialog open, `Esc` bound to no action): with text in
/// the search line it clears the line and asks for nothing; on an empty line
/// a first `Esc` asks for no action and says "Press Esc again to exit", and an
/// `Esc` that follows it quits.
pub proof fn lemma_double_esc(s: AppView, k: KeyInput, vh: usize)
    requires
        s.view is None,
        s.dialog == DialogMode::Closed,
        k.code == KeyCode::Esc,
        k.bound is None,
    ensures
        s.query.len() > 0 ==> key_step(s, k, vh).action is None && key_step(s, k, vh).app.query.len() == 0
            && key_step(s, k, vh).app.cursor == 0,
        s.query.len() == 0 && s.esc_pending is None ==> key_step(s, k, vh).action is None && key_step(s, k, vh).app.status
            == Some(("Press Esc again to exit"@, k.now_ms)) && key_step(s, k, vh).app.esc_pending is Some,
        s.query.len() == 0 && s.esc_pending is Some ==> key_step(s, k, vh).action == Some(ActionView::Quit),
{
    reveal(list_code_step);
    assert(key_step(s, k, vh) == esc_step(s, k.now_ms));
}

/// Any key but `Esc` in the list cancels a pending quit: it does what it
/// does when no `Esc` came before it.
pub proof fn lemma_other_key_forgets_esc(s: AppView, k: KeyInput, vh: usize)
    requires
        s.view is None,
        s.dialog == DialogMode::Closed,
        k.code != KeyCode::Esc,
    ensures
        key_step(s, k, vh) == key_step(AppView { esc_pending: None, ..s }, k, vh),
{
}

/// The step leaves the dialog closed and asks for no action.
pub open spec fn quiet(st: Step) -> bool {
    st.action is None && st.app.dialog == DialogMode::Closed
}

#[verifier::spinoff_prover]
#[verifier::rlimit(60)]
proof fn lemma_loading_char(s: AppView, c: char, k: KeyInput)
    requires
        s.dialog == DialogMode::Closed,
    ensures
        quiet(loading_char_step(s, c, k)) || (c == 'c' && k.ctrl && loading_char_step(s, c, k).action == Some(
            ActionView::Quit,
        ) && loading_char_step(s, c, k).app.dialog == DialogMode::Closed) || ((c == '?' || (c == 'h' && k.ctrl))
            && loading_char_step(s, c, k).action is None && loading_char_step(s, c, k).app.dialog
            == DialogMode::Help),
{
    reveal(loading_char_step);
}

#[verifier::spinoff_prover]
#[verifier::rlimit(60)]
proof fn lemma_loading_code(s: AppView, k: KeyInput)
    requires
        s.dialog == DialogMode::Closed,
        !(k.code is Char),
    ensures
        quiet(list_code_step(s, k, false)) || (k.code == KeyCode::Esc && s.query.len() == 0 && s.esc_pending is Some
            && list_code_step(s, k, false).action == Some(ActionView::Quit) && list_code_step(s, k, false).app.dialog
            == DialogMode::Closed),
{
    reveal(list_code_step);
}

/// While the list loads, a key answers with no action, or with `Quit` for
/// Ctrl+C or for the `Esc` that confirms an earlier one on an empty search
/// line; nothing is selected, opened, resumed, deleted or reloaded, and the
/// only dialog that can open is the help.
pub proof fn lemma_loading_keys(s: AppView, k: KeyInput, vh: usize)
    requires
        s.loading is Loading,
        s.view is None,
        s.dialog == DialogMode::Closed,
    ensures
        key_step(s, k, vh).action is None || key_step(s, k, vh).action == Some(ActionView::Quit),
        key_step(s, k, vh).action == Some(ActionView::Quit) ==> (k.code == KeyCode::Char('c') && k.ctrl) || (
        k.code == KeyCode::Esc && s.query.len() == 0 && s.esc_pending is Some),
        key_step(s, k, vh).app.dialog == DialogMode::Closed || key_step(s, k, vh).app.dialog == DialogMode::Help,
        key_step(s, k, vh).app.dialog == DialogMode::Help ==> k.code == KeyCode::Char('?') || (k.code
            == KeyCode::Char('h') && k.ctrl),
{
    let s0 = if k.code != KeyCode::Esc { AppView { esc_pending: None, ..s } } else { s };
    assert(key_step(s, k, vh) == loading_list_step(s0, k));
    match k.code {
        KeyCode::Char(c) => {
            lemma_loading_char(s0, c, k);
        },
        _ => {
            lemma_loading_code(s0, k);
        },
    }
}

/// The arithmetic of a key fits the machine: the generation counter can
/// advance, list moves by a page stay in `usize`, and so do the viewer's.
pub open spec fn key_fits(s: AppView, vh: usize) -> bool {
    &&& s.generation < u64::MAX
    &&& s.filtered.len() + 10 + vh <= usize::MAX
    &&& (s.view matches Some(v) ==> view_fits(v, vh))
}


/// `r` carries out the step `st` from the state `s`.
pub open spec fn outcome_is(s: AppView, r: KeyOutcome, st: Step) -> bool {
    &&& st.app == s
    &&& st.action == opt_action(r.action)
    &&& st.effect == opt_effect(r.effect)
}

pub open spec fn step_wf(st: Step) -> bool {
    app_wf(st.app)
}

fn outcome(action: Option<Action>, effect: Option<Effect>) -> (r: KeyOutcome)
    ensures
        r.action == action,
        r.effect == effect,
{
    KeyOutcome { action, effect }
}

fn quit() -> (r: KeyOutcome)
    ensures
        opt_action(r.action) == Some(ActionView::Quit),
        r.effect is None,
{
    KeyOutcome { action: Some(Action::Quit), effect: None }
}

fn nothing() -> (r: KeyOutcome)
    ensures
        r.action is None,
        r.effect is None,
{
    KeyOutcome { action: None, effect: None }
}

impl App {
    // -----------------------------------------------------------------------
    // Construction
    // -----------------------------------------------------------------------

    /// An interface over conversations loaded beforehand, all listed.
    pub fn new(conversations: Vec<Conversation>, tool_display: ToolDisplayMode, show_thinking: bool) -> (r: App)
        ensures
            r.wf(),
            r@.conversations == conversations@,
            r@.filtered == Seq::new(conversations@.len(), |i: int| i as usize),
            r@.selected == (if conversations@.len() > 0 { Some(0usize) } else { None }),
            r@.query.len() == 0,
            r@.cursor == 0,
            r@.loading == LoadingState::Ready,
            r@.dialog == DialogMode::Closed,
            r@.view is None,
            r@.status is None,
            r@.tool_display == tool_display,
            r@.show_thinking == show_thinking,
            !r@.show_timing && !r@.single_file && !r@.workspace_filter && r@.project is None,
            r@.esc_pending is None && r@.generation == 0 && !r@.in_flight && r@.mouse_capture && !r@.sse_active,
    {
        let n = conversations.len();
        let mut filtered: Vec<usize> = Vec::new();
        let mut i: usize = 0;
        while i < n
            invariant
                i <= n,
                filtered@ == Seq::new(i as nat, |j: int| j as usize),
            decreases n - i,
        {
            filtered.push(i);
            assert(filtered@ =~= Seq::new((i + 1) as nat, |j: int| j as usize));
            i += 1;
        }
        let selected = if n == 0 { None } else { Some(0) };
        App {
            conversations,
            filtered,
            selected,
            query: String::new(),
            cursor_pos: 0,
            loading_state: LoadingState::Ready,
            dialog_mode: DialogMode::Closed,
            app_mode: AppMode::List,
            status_message: None,
            tool_display,
            show_thinking,
            show_timing: false,
            single_file_mode: false,
            workspace_filter: false,
            current_project_dir_name: None,
            esc_pending_quit: None,
            search_generation: 0,
            search_in_flight: false,
            mouse_capture: true,
            sse_active: false,
        }
    }

    /// The viewer on one stored conversation file, without the list: the
    /// file is processed as the list would (reading files is not available,
    /// so nothing loads and the viewer starts empty).
    pub fn new_single_file(path: String, tool_display: ToolDisplayMode, show_thinking: bool, wall_ms: i64) -> (r: App)
        ensures
            r.wf(),
            r@.conversations.len() == 0,
            r@.filtered.len() == 0,
            r@.selected is None,
            r@.single_file,
            r@.loading == LoadingState::Ready,
            r@.dialog == DialogMode::Closed,
            r@.view == Some(fresh_view(path@, None, tool_display, show_thinking, false, 0, None, wall_ms)),
            r@.tool_display == tool_display,
            r@.show_thinking == show_thinking,
            r@.query.len() == 0 && r@.cursor == 0 && r@.status is None,
            !r@.show_timing && !r@.workspace_filter && r@.project is None,
            r@.esc_pending is None && r@.generation == 0 && !r@.in_flight && r@.mouse_capture && !r@.sse_active,
    {
        let loaded = process_conversation_file(path.as_str(), None, None, None);
        let conversations: Vec<Conversation> = Vec::new();
        match loaded {
            Ok(_) => {
                assert(false);
            },
            Err(_) => {},
        }
        let v = ViewState {
            conversation_path: path,
            session_content: None,
            scroll_offset: 0,
            rendered_lines: Vec::new(),
            total_lines: 0,
            tool_display,
            show_thinking,
            show_timing: false,
            content_width: 0,
            search_mode: ViewSearchMode::Off,
            search_query: String::new(),
            search_matches: Vec::new(),
            current_match: 0,
            search_direction: SearchDirection::Forward,
            search_start_offset: 0,
            last_search_query: String::new(),
            message_ranges: Vec::new(),
            focused_message: None,
            message_nav_active: false,
            custom_title: None,
            last_modified_ms: wall_ms,
            live_follow: true,
        };
        assert(v@.lines =~= Seq::<LineView>::empty());
        App {
            conversations,
            filtered: Vec::new(),
            selected: None,
            query: String::new(),
            cursor_pos: 0,
            loading_state: LoadingState::Ready,
            dialog_mode: DialogMode::Closed,
            app_mode: AppMode::View(v),
            status_message: None,
            tool_display,
            show_thinking,
            show_timing: false,
            single_file_mode: true,
            workspace_filter: false,
            current_project_dir_name: None,
            esc_pending_quit: None,
            search_generation: 0,
            search_in_flight: false,
            mouse_capture: true,
            sse_active: false,
        }
    }

    /// An empty interface waiting for the loader.
    pub fn new_loading(
        tool_display: ToolDisplayMode,
        show_thinking: bool,
        workspace_filter: bool,
        current_project_dir_name: Option<String>,
    ) -> (r: App)
        ensures
            r.wf(),
            r@.conversations.len() == 0,
            r@.filtered.len() == 0,
            r@.selected is None,
            r@.query.len() == 0,
            r@.cursor == 0,
            r@.loading == (LoadingState::Loading { loaded: 0 }),
            r@.dialog == DialogMode::Closed,
            r@.view is None,
            r@.status is None,
            r@.tool_display == tool_display,
            r@.show_thinking == show_thinking,
            !r@.show_timing && !r@.single_file,
            r@.workspace_filter == workspace_filter,
            r@.project == opt_view(current_project_dir_name),
            r@.esc_pending is None && r@.generation == 0 && !r@.in_flight && r@.mouse_capture && !r@.sse_active,
    {
        App {
            conversations: Vec::new(),
            filtered: Vec::new(),
            selected: None,
            query: String::new(),
            cursor_pos: 0,
            loading_state: LoadingState::Loading { loaded: 0 },
            dialog_mode: DialogMode::Closed,
            app_mode: AppMode::List,
            status_message: None,
            tool_display,
            show_thinking,
            show_timing: false,
            single_file_mode: false,
            workspace_filter,
            current_project_dir_name,
            esc_pending_quit: None,
            search_generation: 0,
            search_in_flight: false,
            mouse_capture: true,
            sse_active: false,
        }
    }

    // -----------------------------------------------------------------------
    // Reading the state
    // -----------------------------------------------------------------------

    pub fn tool_display(&self) -> (r: ToolDisplayMode)
        ensures
            r == self@.tool_display,
    {
        self.tool_display
    }

    pub fn show_thinking(&self) -> (r: bool)
        ensures
            r == self@.show_thinking,
    {
        self.show_thinking
    }

    pub fn mouse_capture(&self) -> (r: bool)
        ensures
            r == self@.mouse_capture,
    {
        self.mouse_capture
    }

    pub fn filtered(&self) -> (r: &[usize])
        ensures
            r@ == self@.filtered,
    {
        self.filtered.as_slice()
    }

    pub fn conversations(&self) -> (r: &[Conversation])
        ensures
            r@ == self@.conversations,
    {
        self.conversations.as_slice()
    }

    pub fn selected(&self) -> (r: Option<usize>)
        ensures
            r == self@.selected,
    {
        self.selected
    }

    pub fn query(&self) -> (r: &str)
        ensures
            r@ == self@.query,
    {
        self.query.as_str()
    }

    pub fn dialog_mode(&self) -> (r: DialogMode)
        ensures
            r == self@.dialog,
    {
        self.dialog_mode
    }

    pub fn app_mode(&self) -> (r: &AppMode)
        ensures
            mode_view(*r) == self@.view,
    {
        &self.app_mode
    }

    pub fn status_message(&self) -> (r: Option<&(String, u64)>)
        ensures
            match r {
                Some(x) => self@.status == Some((x.0@, x.1)),
                None => self@.status is None,
            },
    {
        self.status_message.as_ref()
    }

    /// Show a status message, set at `now_ms`.
    pub fn set_status_message(&mut self, msg: &str, now_ms: u64)
        requires
            old(self).wf(),
        ensures
            final(self).wf(),
            final(self)@ == with_status(old(self)@, msg@, now_ms),
    {
        self.status_message = Some((string_of(msg), now_ms));
    }

    /// How long the status message still shows: three seconds after it was
    /// set, `None` once they are over or when there is none.
    pub fn status_message_remaining(&self, now_ms: u64) -> (r: Option<u64>)
        ensures
            r == status_remaining_of(self@, now_ms),
    {
        match &self.status_message {
            Some((_, t)) => {
                let elapsed = if now_ms >= *t { now_ms - *t } else { 0 };
                if elapsed <= STATUS_TTL_MS { Some(STATUS_TTL_MS - elapsed) } else { None }
            },
            None => None,
        }
    }

    pub fn cursor_pos(&self) -> (r: usize)
        ensures
            r == self@.cursor,
    {
        self.cursor_pos
    }

    pub fn is_single_file_mode(&self) -> (r: bool)
        ensures
            r == self@.single_file,
    {
        self.single_file_mode
    }

    pub fn workspace_filter(&self) -> (r: bool)
        ensures
            r == self@.workspace_filter,
    {
        self.workspace_filter
    }

    /// Some conversation is loaded.
    pub fn has_project_context(&self) -> (r: bool)
        ensures
            r == (self@.conversations.len() > 0),
    {
        self.conversations.len() > 0
    }

    /// The pinned title of the title filter.
    pub fn current_project_name(&self) -> (r: Option<&str>)
        ensures
            match r {
                Some(t) => self@.project == Some(t@),
                None => self@.project is None,
            },
    {
        match &self.current_project_dir_name {
            Some(t) => Some(t.as_str()),
            None => None,
        }
    }

    pub fn loading_state(&self) -> (r: LoadingState)
        ensures
            r == self@.loading,
    {
        self.loading_state
    }

    pub fn is_loading(&self) -> (r: bool)
        ensures
            r == (self@.loading is Loading),
    {
        match self.loading_state {
            LoadingState::Loading { .. } => true,
            LoadingState::Ready => false,
        }
    }

    pub fn sse_active(&self) -> (r: bool)
        ensures
            r == self@.sse_active,
    {
        self.sse_active
    }

    /// A search is on the worker thread.
    pub fn search_in_flight(&self) -> (r: bool)
        ensures
            r == self@.in_flight,
    {
        self.search_in_flight
    }

    /// The conversations, giving the interface up.
    pub fn into_conversations(self) -> (r: Vec<Conversation>)
        ensures
            r@ == self@.conversations,
    {
        self.conversations
    }

    // -----------------------------------------------------------------------
    // The list
    // -----------------------------------------------------------------------

    fn selected_path(&self) -> (r: Option<String>)
        requires
            self.wf(),
        ensures
            opt_view(r) == selected_path(self@),
    {
        match self.selected {
            Some(i) => {
                if i < self.filtered.len() {
                    let idx = self.filtered[i];
                    Some(self.conversations[idx].path.clone())
                } else {
                    None
                }
            },
            None => None,
        }
    }

    fn path_action(&self, kind: usize) -> (r: Option<Action>)
        requires
            self.wf(),
            kind <= 4,
        ensures
            opt_action(r) == path_action(selected_path(self@), kind as int),
    {
        match self.selected_path() {
            Some(p) => Some(
                if kind == 0 {
                    Action::Select(p)
                } else if kind == 1 {
                    Action::Delete(p)
                } else if kind == 2 {
                    Action::Resume(p)
                } else if kind == 3 {
                    Action::ForkResume(p)
                } else {
                    Action::OpenInPager(p)
                },
            ),
            None => None,
        }
    }

    fn select_prev(&mut self)
        requires
            old(self).wf(),
        ensures
            final(self).wf(),
            final(self)@ == select_prev_of(old(self)@),
    {
        match self.selected {
            Some(i) => {
                if i > 0 {
                    self.selected = Some(i - 1);
                }
            },
            None => {},
        }
    }

    fn select_next(&mut self)
        requires
            old(self).wf(),
        ensures
            final(self).wf(),
            final(self)@ == select_next_of(old(self)@),
    {
        let n = self.filtered.len();
        match self.selected {
            Some(i) => {
                if i + 1 < n {
                    self.selected = Some(i + 1);
                }
            },
            None => {},
        }
    }

    fn select_first(&mut self)
        requires
            old(self).wf(),
        ensures
            final(self).wf(),
            final(self)@ == select_first_of(old(self)@),
    {
        if self.filtered.len() > 0 {
            self.selected = Some(0);
        }
    }

    fn select_last(&mut self)
        requires
            old(self).wf(),
        ensures
            final(self).wf(),
            final(self)@ == select_last_of(old(self)@),
    {
        if self.filtered.len() > 0 {
            self.selected = Some(self.filtered.len() - 1);
        }
    }

    fn select_down(&mut self, n: usize)
        requires
            old(self).wf(),
            old(self)@.filtered.len() + n <= usize::MAX,
        ensures
            final(self).wf(),
            final(self)@ == select_down_of(old(self)@, n as int),
    {
        match self.selected {
            Some(i) => {
                let last = if self.filtered.len() > 0 { self.filtered.len() - 1 } else { 0 };
                let t = i + n;
                self.selected = Some(if t < last { t } else { last });
            },
            None => {},
        }
    }

    fn select_up(&mut self, n: usize)
        requires
            old(self).wf(),
        ensures
            final(self).wf(),
            final(self)@ == select_up_of(old(self)@, n as int),
    {
        match self.selected {
            Some(i) => {
                self.selected = Some(if i > n { i - n } else { 0 });
            },
            None => {},
        }
    }

    fn cursor_left(&mut self)
        requires
            old(self).wf(),
        ensures
            final(self).wf(),
            final(self)@ == cursor_left_of(old(self)@),
    {
        if self.cursor_pos > 0 {
            self.cursor_pos -= 1;
        }
    }

    fn query_chars(&self) -> (r: Vec<char>)
        ensures
            r@ == self@.query,
    {
        chars_of(self.query.as_str())
    }

    fn cursor_right(&mut self)
        requires
            old(self).wf(),
        ensures
            final(self).wf(),
            final(self)@ == cursor_right_of(old(self)@),
    {
        let q = self.query_chars();
        if self.cursor_pos < q.len() {
            self.cursor_pos += 1;
        }
    }

    fn set_cursor(&mut self, c: usize)
        requires
            old(self).wf(),
            c <= old(self)@.query.len(),
        ensures
            final(self).wf(),
            final(self)@ == set_cursor(old(self)@, c as int),
    {
        self.cursor_pos = c;
    }

    fn cursor_word_left(&mut self)
        requires
            old(self).wf(),
        ensures
            final(self).wf(),
            final(self)@ == set_cursor(old(self)@, word_left_of(old(self)@.query, old(self)@.cursor as int)),
    {
        let q = self.query_chars();
        let p = word_left(&q, self.cursor_pos);
        self.set_cursor(p);
    }

    fn cursor_word_right(&mut self)
        requires
            old(self).wf(),
        ensures
            final(self).wf(),
            final(self)@ == set_cursor(old(self)@, word_right_of(old(self)@.query, old(self)@.cursor as int)),
    {
        let q = self.query_chars();
        let p = word_right(&q, self.cursor_pos);
        self.set_cursor(p);
    }

    fn cursor_end(&mut self)
        requires
            old(self).wf(),
        ensures
            final(self).wf(),
            final(self)@ == set_cursor(old(self)@, old(self)@.query.len() as int),
    {
        let q = self.query_chars();
        self.set_cursor(q.len());
    }

    /// Finds the loaded conversation named by a UUID in the search line.
    fn find_uuid(&self, q: &str) -> (r: Option<usize>)
        ensures
            match r {
                Some(i) => uuid_match(self@, q@) == Some(i as int) && i < self@.conversations.len(),
                None => uuid_match(self@, q@) is None,
            },
    {
        let qc = chars_of(q);
        if !uuid_text(&qc) {
            return None;
        }
        let mut name = string_of(q);
        push_str(&mut name, ".jsonl");
        let mut i: usize = 0;
        while i < self.conversations.len()
            invariant
                i <= self@.conversations.len(),
                is_uuid(q@),
                name@ == q@ + ".jsonl"@,
                forall|j: int| 0 <= j < i ==> !(uuid_file(q@))(#[trigger] self@.conversations[j]),
            decreases self@.conversations.len() - i,
        {
            let f = path_file_name(self.conversations[i].path.as_str());
            let hit = match &f {
                Some(n) => *n == name,
                None => false,
            };
            if hit {
                proof {
                    let c = self@.conversations[i as int];
                    assert(file_name_of(c.path@) == Some(q@ + ".jsonl"@));
                    assert((uuid_file(q@))(c));
                    crate::tui::view_state::lemma_first_found(self@.conversations, uuid_file(q@), i as int);
                }
                return Some(i);
            }
            i += 1;
        }
        proof {
            crate::tui::view_state::lemma_first_none(self@.conversations, uuid_file(q@));
        }
        None
    }

    /// Send the search for the search line to the worker (see `dispatch_step`).
    fn dispatch_search(&mut self) -> (r: Option<Effect>)
        requires
            old(self).wf(),
            old(self)@.generation < u64::MAX,
        ensures
            final(self).wf(),
            outcome_is(final(self)@, KeyOutcome { action: None, effect: r }, dispatch_step(old(self)@)),
    {
        let q = trimmed(self.query.as_str());
        let qc = chars_of(q.as_str());
        if uuid_text(&qc) {
            match self.find_uuid(q.as_str()) {
                Some(idx) => {
                    let mut f: Vec<usize> = Vec::new();
                    f.push(idx);
                    self.filtered = f;
                    self.selected = Some(0);
                    assert(self@.filtered =~= seq![idx]);
                },
                None => {},
            }
            return None;
        }
        self.search_generation = self.search_generation + 1;
        self.search_in_flight = true;
        let project = match &self.current_project_dir_name {
            Some(p) => Some(p.clone()),
            None => None,
        };
        Some(Effect::Search {
            query: q,
            generation: self.search_generation,
            workspace_filter: self.workspace_filter,
            project,
        })
    }

    /// Filter again for the search line (see `refilter_step`).
    fn refilter(&mut self) -> (r: Option<Effect>)
        requires
            old(self).wf(),
        ensures
            final(self).wf(),
            outcome_is(final(self)@, KeyOutcome { action: None, effect: r }, refilter_step(old(self)@)),
    {
        let q = trimmed(self.query.as_str());
        match self.find_uuid(q.as_str()) {
            Some(idx) => {
                let mut f: Vec<usize> = Vec::new();
                f.push(idx);
                self.filtered = f;
                self.selected = Some(0);
                assert(self@.filtered =~= seq![idx]);
                None
            },
            None => Some(Effect::Refilter),
        }
    }

    fn toggle_workspace_filter(&mut self) -> (r: Option<Effect>)
        requires
            old(self).wf(),
        ensures
            final(self).wf(),
            outcome_is(final(self)@, KeyOutcome { action: None, effect: r }, toggle_step(old(self)@)),
    {
        if self.workspace_filter {
            self.workspace_filter = false;
            self.current_project_dir_name = None;
            return self.refilter();
        }
        let pinned: Option<String> = match self.selected {
            Some(i) => {
                if i < self.filtered.len() {
                    let t = &self.conversations[self.filtered[i]].title;
                    if t.as_str().is_empty() { None } else { Some(t.clone()) }
                } else {
                    None
                }
            },
            None => None,
        };
        match pinned {
            Some(t) => {
                self.current_project_dir_name = Some(t);
                self.workspace_filter = true;
                self.refilter()
            },
            None => None,
        }
    }

    fn set_query(&mut self, q: &Vec<char>, cursor: usize)
        requires
            old(self).wf(),
            cursor <= q@.len(),
        ensures
            final(self).wf(),
            final(self)@ == (AppView { query: q@, cursor, ..old(self)@ }),
    {
        self.query = string_from_chars(q.as_slice());
        self.cursor_pos = cursor;
    }

    /// After an edit of the search line: search when it changed and `search`.
    fn after_edit(&mut self, changed: bool, search: bool) -> (r: Option<Effect>)
        requires
            old(self).wf(),
            old(self)@.generation < u64::MAX,
        ensures
            final(self).wf(),
            outcome_is(final(self)@, KeyOutcome { action: None, effect: r }, after_edit(old(self)@, changed, search)),
    {
        if changed && search {
            self.dispatch_search()
        } else {
            None
        }
    }

    fn edit_kill_to_end(&mut self, search: bool) -> (r: Option<Effect>)
        requires
            old(self).wf(),
            old(self)@.generation < u64::MAX,
        ensures
            final(self).wf(),
            outcome_is(final(self)@, KeyOutcome { action: None, effect: r }, kill_end_step(old(self)@, search)),
    {
        let mut q = self.query_chars();
        let c = self.cursor_pos;
        if kill_to_end(&mut q, c) {
            self.set_query(&q, c);
            self.after_edit(true, search)
        } else {
            None
        }
    }

    fn edit_kill_to_start(&mut self, search: bool) -> (r: Option<Effect>)
        requires
            old(self).wf(),
            old(self)@.generation < u64::MAX,
        ensures
            final(self).wf(),
            outcome_is(final(self)@, KeyOutcome { action: None, effect: r }, kill_start_step(old(self)@, search)),
    {
        let mut q = self.query_chars();
        let mut c = self.cursor_pos;
        if kill_to_start(&mut q, &mut c) {
            self.set_query(&q, c);
            self.after_edit(true, search)
        } else {
            None
        }
    }

    fn edit_delete_word(&mut self, search: bool) -> (r: Option<Effect>)
        requires
            old(self).wf(),
            old(self)@.generation < u64::MAX,
        ensures
            final(self).wf(),
            outcome_is(final(self)@, KeyOutcome { action: None, effect: r }, delete_word_step(old(self)@, search)),
    {
        let mut q = self.query_chars();
        let mut c = self.cursor_pos;
        proof {
            crate::tui::query::lemma_word_motions_bounded(q@, c as int);
        }
        if delete_word_back(&mut q, &mut c) {
            self.set_query(&q, c);
            self.after_edit(true, search)
        } else {
            None
        }
    }

    fn edit_insert(&mut self, ch: char, search: bool) -> (r: Option<Effect>)
        requires
            old(self).wf(),
            old(self)@.generation < u64::MAX,
        ensures
            final(self).wf(),
            outcome_is(final(self)@, KeyOutcome { action: None, effect: r }, insert_step(old(self)@, ch, search)),
    {
        let mut q = self.query_chars();
        let mut c = self.cursor_pos;
        insert_at(&mut q, &mut c, ch);
        self.set_query(&q, c);
        self.after_edit(true, search)
    }

    fn edit_backspace(&mut self, search: bool) -> (r: Option<Effect>)
        requires
            old(self).wf(),
            old(self)@.generation < u64::MAX,
        ensures
            final(self).wf(),
            outcome_is(final(self)@, KeyOutcome { action: None, effect: r }, backspace_step(old(self)@, search)),
    {
        let mut q = self.query_chars();
        let mut c = self.cursor_pos;
        if backspace(&mut q, &mut c) {
            self.set_query(&q, c);
            self.after_edit(true, search)
        } else {
            None
        }
    }

    fn edit_delete(&mut self, search: bool) -> (r: Option<Effect>)
        requires
            old(self).wf(),
            old(self)@.generation < u64::MAX,
        ensures
            final(self).wf(),
            outcome_is(final(self)@, KeyOutcome { action: None, effect: r }, delete_step(old(self)@, search)),
    {
        let mut q = self.query_chars();
        let c = self.cursor_pos;
        if delete_at(&mut q, c) {
            self.set_query(&q, c);
            self.after_edit(true, search)
        } else {
            None
        }
    }

    fn escape_list(&mut self, now: u64) -> (r: KeyOutcome)
        requires
            old(self).wf(),
            old(self)@.generation < u64::MAX,
        ensures
            final(self).wf(),
            outcome_is(final(self)@, r, esc_step(old(self)@, now)),
    {
        if self.query.as_str().is_empty() {
            if self.esc_pending_quit.is_some() {
                return quit();
            }
            self.esc_pending_quit = Some(now);
            self.set_status_message("Press Esc again to exit", now);
            return nothing();
        }
        self.esc_pending_quit = None;
        self.query = String::new();
        self.cursor_pos = 0;
        let e = self.dispatch_search();
        outcome(None, e)
    }

    fn help(&mut self)
        requires
            old(self).wf(),
        ensures
            final(self).wf(),
            final(self)@ == help_of(old(self)@),
    {
        self.dialog_mode = DialogMode::Help;
    }
}

impl App {
    fn list_code_key(&mut self, k: &KeyInput, ready: bool) -> (r: KeyOutcome)
        requires
            old(self).wf(),
            old(self)@.generation < u64::MAX,
            old(self)@.filtered.len() + 10 <= usize::MAX,
        ensures
            final(self).wf(),
            outcome_is(final(self)@, r, list_code_step(old(self)@, *k, ready)),
    {
        proof {
            reveal(list_code_step);
        }
        match k.code {
            KeyCode::Esc => self.escape_list(k.now_ms),
            KeyCode::Left => {
                if k.ctrl {
                    self.cursor_word_left();
                } else {
                    self.cursor_left();
                }
                nothing()
            },
            KeyCode::Right => {
                if k.ctrl {
                    self.cursor_word_right();
                } else {
                    self.cursor_right();
                }
                nothing()
            },
            KeyCode::Up => {
                self.select_prev();
                nothing()
            },
            KeyCode::Down => {
                self.select_next();
                nothing()
            },
            KeyCode::Home => {
                if ready {
                    self.select_first();
                }
                nothing()
            },
            KeyCode::End => {
                if ready {
                    self.select_last();
                }
                nothing()
            },
            KeyCode::PageUp => {
                self.select_up(10);
                nothing()
            },
            KeyCode::PageDown => {
                self.select_down(10);
                nothing()
            },
            KeyCode::Tab => {
                let e = self.toggle_workspace_filter();
                outcome(None, e)
            },
            KeyCode::Backspace => {
                let e = self.edit_backspace(ready);
                outcome(None, e)
            },
            KeyCode::Delete => {
                let e = self.edit_delete(ready);
                outcome(None, e)
            },
            _ => nothing(),
        }
    }

    fn loading_char_key(&mut self, c: char, k: &KeyInput) -> (r: KeyOutcome)
        requires
            old(self).wf(),
            old(self)@.generation < u64::MAX,
        ensures
            final(self).wf(),
            outcome_is(final(self)@, r, loading_char_step(old(self)@, c, *k)),
    {
        proof {
            reveal(loading_char_step);
        }
        if c == 'c' && k.ctrl {
            quit()
        } else if c == 'n' && k.ctrl {
            self.select_next();
            nothing()
        } else if c == 'p' && k.ctrl {
            self.select_prev();
            nothing()
        } else if c == 'a' && k.ctrl {
            self.set_cursor(0);
            nothing()
        } else if c == 'e' && k.ctrl {
            self.cursor_end();
            nothing()
        } else if c == 'b' && k.ctrl {
            self.cursor_left();
            nothing()
        } else if c == 'f' && k.ctrl {
            self.cursor_right();
            nothing()
        } else if c == 'b' && k.alt {
            self.cursor_word_left();
            nothing()
        } else if c == 'f' && k.alt {
            self.cursor_word_right();
            nothing()
        } else if c == 'k' && k.ctrl {
            let e = self.edit_kill_to_end(false);
            outcome(None, e)
        } else if c == 'u' && k.ctrl {
            let e = self.edit_kill_to_start(false);
            outcome(None, e)
        } else if c == 'w' && k.ctrl {
            let e = self.edit_delete_word(false);
            outcome(None, e)
        } else if c == '?' || (c == 'h' && k.ctrl) {
            self.help();
            nothing()
        } else {
            let e = self.edit_insert(c, false);
            outcome(None, e)
        }
    }

    fn ready_char_key(&mut self, c: char, k: &KeyInput, vh: usize) -> (r: KeyOutcome)
        requires
            old(self).wf(),
            old(self)@.generation < u64::MAX,
            old(self)@.filtered.len() + 10 + vh <= usize::MAX,
        ensures
            final(self).wf(),
            outcome_is(final(self)@, r, ready_char_step(old(self)@, c, *k, vh)),
    {
        proof {
            reveal(ready_char_step);
        }
        if c == 'c' && k.ctrl {
            quit()
        } else if c == 'a' && k.ctrl {
            self.set_cursor(0);
            nothing()
        } else if c == 'e' && k.ctrl {
            self.cursor_end();
            nothing()
        } else if c == 'b' && k.ctrl {
            self.cursor_left();
            nothing()
        } else if c == 'f' && k.ctrl {
            self.cursor_right();
            nothing()
        } else if c == 'b' && k.alt {
            self.cursor_word_left();
            nothing()
        } else if c == 'f' && k.alt {
            self.cursor_word_right();
            nothing()
        } else if c == 'k' && k.ctrl {
            let e = self.edit_kill_to_end(true);
            outcome(None, e)
        } else if c == 'n' && k.ctrl {
            self.select_next();
            nothing()
        } else if c == 'p' && k.ctrl {
            self.select_prev();
            nothing()
        } else if c == 'd' && k.ctrl {
            self.select_down(vh / 2);
            nothing()
        } else if c == 'u' && k.ctrl {
            let e = self.edit_kill_to_start(true);
            outcome(None, e)
        } else if c == 'o' && k.ctrl {
            let a = self.path_action(0);
            outcome(a, None)
        } else if c == 'v' && k.ctrl {
            let a = self.path_action(4);
            outcome(a, None)
        } else if c == 'w' && k.ctrl {
            let e = self.edit_delete_word(true);
            outcome(None, e)
        } else if c == 'l' && k.ctrl {
            outcome(Some(Action::ReloadSessions), None)
        } else if c == '?' || (c == 'h' && k.ctrl) {
            self.help();
            nothing()
        } else {
            let e = self.edit_insert(c, true);
            outcome(None, e)
        }
    }

    fn bound_list_key(&mut self, b: BoundKey) -> (r: KeyOutcome)
        requires
            old(self).wf(),
        ensures
            final(self).wf(),
            outcome_is(final(self)@, r, bound_list_step(old(self)@, b)),
    {
        match b {
            BoundKey::Delete => {
                if self.selected_path().is_some() {
                    self.dialog_mode = DialogMode::ConfirmDelete;
                }
                nothing()
            },
            BoundKey::Resume => {
                let a = self.path_action(2);
                outcome(a, None)
            },
            BoundKey::Fork => {
                let a = self.path_action(3);
                outcome(a, None)
            },
        }
    }

    /// A key in list mode (see `list_step`).
    fn handle_list_key(&mut self, k: &KeyInput, vh: usize) -> (r: KeyOutcome)
        requires
            old(self).wf(),
            key_fits(old(self)@, vh),
        ensures
            final(self).wf(),
            outcome_is(final(self)@, r, list_step(old(self)@, *k, vh)),
    {
        match k.code {
            KeyCode::Esc => {},
            _ => {
                self.esc_pending_quit = None;
            },
        }
        if self.is_loading() {
            match k.code {
                KeyCode::Char(c) => self.loading_char_key(c, k),
                _ => self.list_code_key(k, false),
            }
        } else {
            match k.bound {
                Some(b) => self.bound_list_key(b),
                None => match k.code {
                    KeyCode::Enter => nothing(),
                    KeyCode::Char(c) => self.ready_char_key(c, k, vh),
                    _ => self.list_code_key(k, true),
                },
            }
        }
    }
}

// ---------------------------------------------------------------------------
// The viewer's keys
// ---------------------------------------------------------------------------

pub open spec fn set_view(s: AppView, w: ViewStateView) -> AppView {
    AppView { view: Some(w), ..s }
}

/// Back to the list: the viewer closes and its live subscription stops.
pub open spec fn exit_view_of(s: AppView) -> AppView {
    AppView { sse_active: false, view: None, ..s }
}

/// Leaving the viewer quits when a single file is viewed.
pub open spec fn leave_view_step(s: AppView) -> Step {
    if s.single_file { with_action(s, Some(ActionView::Quit)) } else { plain(exit_view_of(s)) }
}

pub open spec fn view_plain(s: AppView, w: ViewStateView) -> Step {
    plain(set_view(s, w))
}

/// A key in the viewer, `v` being its state: while typing a search the
/// search line takes it; else a configured binding, else the viewer's keys.
pub open spec fn view_step(s: AppView, v: ViewStateView, k: KeyInput, vh: usize) -> Step {
    if v.search_mode == crate::tui::view_state::ViewSearchMode::Typing {
        view_plain(s, typing_of(v, k, vh))
    } else {
        match k.bound {
            Some(b) => bound_view_step(s, b),
            None => view_code_step(s, v, k, vh),
        }
    }
}

/// The configured bindings in the viewer: delete asks for confirmation,
/// resume and fork answer with the selected conversation; none of them acts
/// when a single file is viewed.
pub open spec fn bound_view_step(s: AppView, b: BoundKey) -> Step {
    match b {
        BoundKey::Delete => if !s.single_file { plain(AppView { dialog: DialogMode::ConfirmDelete, ..s }) } else { plain(s) },
        BoundKey::Resume => with_action(s, if s.single_file { None } else { path_action(selected_path(s), 2) }),
        BoundKey::Fork => with_action(s, if s.single_file { None } else { path_action(selected_path(s), 3) }),
    }
}

/// The viewer's own keys: `Esc` leaves navigation, then an active search,
/// then the viewer; motion keys move; the rest are commands.
#[verifier::opaque]
pub open spec fn view_code_step(s: AppView, v: ViewStateView, k: KeyInput, vh: usize) -> Step {
    match k.code {
        KeyCode::Esc => esc_view_step(s, v),
        KeyCode::Char(c) => if is_motion_char(c) {
            view_plain(s, motion_char_of(v, c, vh))
        } else {
            command_char_step(s, v, c, k)
        },
        _ => view_plain(s, motion_code_of(v, k.code, vh)),
    }
}

pub open spec fn esc_view_step(s: AppView, v: ViewStateView) -> Step {
    match escape_of(v) {
        Some(w) => view_plain(s, w),
        None => leave_view_step(s),
    }
}

pub open spec fn tools_step(s: AppView, v: ViewStateView) -> Step {
    let td = next_mode(v.tool_display);
    with_effect(set_view(AppView { tool_display: td, ..s }, ViewStateView { tool_display: td, ..v }), EffectView::ReRender)
}

pub open spec fn thinking_step(s: AppView, v: ViewStateView) -> Step {
    with_effect(
        set_view(AppView { show_thinking: !v.show_thinking, ..s }, ViewStateView { show_thinking: !v.show_thinking, ..v }),
        EffectView::ReRender,
    )
}

pub open spec fn timing_step(s: AppView, v: ViewStateView) -> Step {
    with_effect(
        set_view(AppView { show_timing: !v.show_timing, ..s }, ViewStateView { show_timing: !v.show_timing, ..v }),
        EffectView::ReRender,
    )
}

pub open spec fn copy_id_step(s: AppView, v: ViewStateView) -> Step {
    match file_stem_of(v.path) {
        Some(id) => with_effect(s, EffectView::Copy { text: id, success: "Session ID copied to clipboard"@ }),
        None => plain(s),
    }
}

pub open spec fn yank_step(s: AppView, v: ViewStateView, now: u64) -> Step {
    if v.nav {
        plain(with_status(s, "Per-message copy not yet implemented for opencode sessions"@, now))
    } else {
        plain(AppView { dialog: DialogMode::YankMenu { selected: 0 }, ..s })
    }
}

/// The viewer's command keys: `q` leaves, `h` opens the help, `m` toggles
/// mouse capture, `t`/`T`/`i` cycle tool display and toggle thinking and
/// timing (kept for later conversations too, and rendered again), `p` shows
/// the session's path, `Y` and `I` copy the path and the session id, `e` opens
/// the export menu, `y` the yank menu (in message navigation it reports that
/// copying one message is not available), Ctrl+C quits.
#[verifier::opaque]
pub open spec fn command_char_step(s: AppView, v: ViewStateView, c: char, k: KeyInput) -> Step {
    if c == 'q' {
        leave_view_step(s)
    } else if c == 'h' {
        plain(help_of(s))
    } else if c == 'm' {
        with_action(AppView { mouse_capture: !s.mouse_capture, ..s }, Some(ActionView::ToggleMouse))
    } else if c == 't' {
        tools_step(s, v)
    } else if c == 'T' {
        thinking_step(s, v)
    } else if c == 'i' {
        timing_step(s, v)
    } else if c == 'p' {
        plain(with_status(s, v.path, k.now_ms))
    } else if c == 'Y' {
        with_effect(s, EffectView::Copy { text: v.path, success: "Path copied to clipboard"@ })
    } else if c == 'I' {
        copy_id_step(s, v)
    } else if c == 'e' {
        plain(AppView { dialog: DialogMode::ExportMenu { selected: 0 }, ..s })
    } else if c == 'y' {
        yank_step(s, v, k.now_ms)
    } else if c == 'c' && k.ctrl {
        with_action(s, Some(ActionView::Quit))
    } else {
        plain(s)
    }
}

// ---------------------------------------------------------------------------
// Dialogs
// ---------------------------------------------------------------------------

pub open spec fn closed_of(s: AppView) -> AppView {
    AppView { dialog: DialogMode::Closed, ..s }
}

/// The delete confirmation: `y` deletes the selected conversation, `n` or
/// `Esc` cancels.
pub open spec fn confirm_step(s: AppView, k: KeyInput) -> Step {
    match k.code {
        KeyCode::Char(c) => if c == 'y' || c == 'Y' {
            with_action(closed_of(s), path_action(selected_path(s), 1))
        } else if c == 'n' || c == 'N' {
            plain(closed_of(s))
        } else {
            plain(s)
        },
        KeyCode::Esc => plain(closed_of(s)),
        _ => plain(s),
    }
}

pub open spec fn menu_of(yank: bool, n: usize) -> DialogMode {
    if yank { DialogMode::YankMenu { selected: n } } else { DialogMode::ExportMenu { selected: n } }
}

/// Choosing export entry `option`: the menu closes, and with a session open
/// in the viewer and an entry that names a format, the export is asked for.
pub open spec fn export_step(s: AppView, option: usize, yank: bool, now: u64) -> Step {
    let s1 = closed_of(s);
    match s.view {
        Some(v) => if v.content is None {
            plain(with_status(s1, "No session content loaded"@, now))
        } else {
            match format_at(option) {
                Some(f) => with_effect(s1, EffectView::Export { format: f, to_clipboard: yank }),
                None => plain(s1),
            }
        },
        None => plain(s1),
    }
}

/// The export and yank menus: arrows (and `j`/`k`) move, `1`-`4` and Enter
/// choose, `Esc` closes.
pub open spec fn menu_step(s: AppView, k: KeyInput, sel: usize, yank: bool) -> Step {
    let up = plain(AppView { dialog: menu_of(yank, if sel > 0 { (sel - 1) as usize } else { 0 }), ..s });
    let down = plain(
        AppView {
            dialog: menu_of(yank, if sel + 1 < EXPORT_OPTION_COUNT - 1 { (sel + 1) as usize } else { (EXPORT_OPTION_COUNT - 1) as usize }),
            ..s
        },
    );
    match k.code {
        KeyCode::Up => up,
        KeyCode::Down => down,
        KeyCode::Enter => export_step(s, sel, yank, k.now_ms),
        KeyCode::Esc => plain(closed_of(s)),
        KeyCode::Char(c) => if c == 'k' {
            up
        } else if c == 'j' {
            down
        } else if c == '1' {
            export_step(s, 0, yank, k.now_ms)
        } else if c == '2' {
            export_step(s, 1, yank, k.now_ms)
        } else if c == '3' {
            export_step(s, 2, yank, k.now_ms)
        } else if c == '4' {
            export_step(s, 3, yank, k.now_ms)
        } else {
            plain(s)
        },
        _ => plain(s),
    }
}

/// The help overlay closes on `h`, `q` or `Esc`.
pub open spec fn help_step(s: AppView, k: KeyInput) -> Step {
    if k.code == KeyCode::Char('h') || k.code == KeyCode::Char('q') || k.code == KeyCode::Esc {
        plain(closed_of(s))
    } else {
        plain(s)
    }
}

/// A key: an open dialog takes it, else the viewer or the list.
pub open spec fn key_step(s: AppView, k: KeyInput, vh: usize) -> Step {
    match s.dialog {
        DialogMode::ConfirmDelete => confirm_step(s, k),
        DialogMode::ExportMenu { selected } => menu_step(s, k, selected, false),
        DialogMode::YankMenu { selected } => menu_step(s, k, selected, true),
        DialogMode::Help => help_step(s, k),
        DialogMode::Closed => match s.view {
            Some(v) => view_step(s, v, k, vh),
            None => list_step(s, k, vh),
        },
    }
}

/// How long the status message of `s` still shows at `now_ms`.
pub open spec fn status_remaining_of(s: AppView, now_ms: u64) -> Option<u64> {
    match s.status {
        Some(x) => {
            let elapsed: int = if now_ms >= x.1 { now_ms - x.1 } else { 0 };
            if elapsed <= STATUS_TTL_MS { Some((STATUS_TTL_MS - elapsed) as u64) } else { None }
        },
        None => None,
    }
}

impl App {
    /// Takes the viewer out (the mode becomes the list).
    fn take_view(&mut self) -> (r: Option<ViewState>)
        ensures
            final(self)@ == (AppView { view: None, ..old(self)@ }),
            match r {
                Some(v) => old(self)@.view == Some(v@),
                None => old(self)@.view is None,
            },
    {
        let mut mode = AppMode::List;
        std::mem::swap(&mut mode, &mut self.app_mode);
        match mode {
            AppMode::View(v) => Some(v),
            AppMode::List => None,
        }
    }

    fn put_view(&mut self, v: ViewState)
        ensures
            final(self)@ == set_view(old(self)@, v@),
    {
        self.app_mode = AppMode::View(v);
    }

    fn leave_view(&mut self) -> (r: KeyOutcome)
        requires
            old(self).wf(),
        ensures
            final(self).wf(),
            outcome_is(final(self)@, r, leave_view_step(old(self)@)),
    {
        if self.single_file_mode {
            quit()
        } else {
            self.exit_view_mode();
            nothing()
        }
    }

    /// Back to the list; the live subscription stops.
    pub fn exit_view_mode(&mut self)
        requires
            old(self).wf(),
        ensures
            final(self).wf(),
            final(self)@ == exit_view_of(old(self)@),
    {
        self.sse_active = false;
        self.app_mode = AppMode::List;
    }

    fn view_done(&mut self, v: ViewState) -> (r: KeyOutcome)
        requires
            old(self).wf(),
            view_wf(v@),
        ensures
            final(self).wf(),
            final(self)@ == set_view(old(self)@, v@),
            r.action is None,
            r.effect is None,
    {
        self.put_view(v);
        nothing()
    }

    fn cmd_tools(&mut self, v: ViewState) -> (r: KeyOutcome)
        requires
            old(self).wf(),
            old(self)@.view is None,
            view_wf(v@),
        ensures
            final(self).wf(),
            outcome_is(final(self)@, r, tools_step(set_view(old(self)@, v@), v@)),
    {
        let mut v = v;
        let td = v.tool_display.next();
        v.tool_display = td;
        self.tool_display = td;
        self.put_view(v);
        outcome(None, Some(Effect::ReRender))
    }

    fn cmd_thinking(&mut self, v: ViewState) -> (r: KeyOutcome)
        requires
            old(self).wf(),
            old(self)@.view is None,
            view_wf(v@),
        ensures
            final(self).wf(),
            outcome_is(final(self)@, r, thinking_step(set_view(old(self)@, v@), v@)),
    {
        let mut v = v;
        v.show_thinking = !v.show_thinking;
        self.show_thinking = v.show_thinking;
        self.put_view(v);
        outcome(None, Some(Effect::ReRender))
    }

    fn cmd_timing(&mut self, v: ViewState) -> (r: KeyOutcome)
        requires
            old(self).wf(),
            old(self)@.view is None,
            view_wf(v@),
        ensures
            final(self).wf(),
            outcome_is(final(self)@, r, timing_step(set_view(old(self)@, v@), v@)),
    {
        let mut v = v;
        v.show_timing = !v.show_timing;
        self.show_timing = v.show_timing;
        self.put_view(v);
        outcome(None, Some(Effect::ReRender))
    }

    fn cmd_path(&mut self, v: ViewState, now: u64) -> (r: KeyOutcome)
        requires
            old(self).wf(),
            old(self)@.view is None,
            view_wf(v@),
        ensures
            final(self).wf(),
            outcome_is(final(self)@, r, plain(with_status(set_view(old(self)@, v@), v@.path, now))),
    {
        let p = v.conversation_path.clone();
        self.put_view(v);
        self.set_status_message(p.as_str(), now);
        nothing()
    }

    fn cmd_copy_path(&mut self, v: ViewState) -> (r: KeyOutcome)
        requires
            old(self).wf(),
            old(self)@.view is None,
            view_wf(v@),
        ensures
            final(self).wf(),
            outcome_is(
                final(self)@,
                r,
                with_effect(set_view(old(self)@, v@), EffectView::Copy { text: v@.path, success: "Path copied to clipboard"@ }),
            ),
    {
        let p = v.conversation_path.clone();
        self.put_view(v);
        outcome(None, Some(Effect::Copy { text: p, success: string_of("Path copied to clipboard") }))
    }

    fn cmd_copy_id(&mut self, v: ViewState) -> (r: KeyOutcome)
        requires
            old(self).wf(),
            old(self)@.view is None,
            view_wf(v@),
        ensures
            final(self).wf(),
            outcome_is(final(self)@, r, copy_id_step(set_view(old(self)@, v@), v@)),
    {
        let stem = path_file_stem(v.conversation_path.as_str());
        self.put_view(v);
        match stem {
            Some(id) => outcome(None, Some(Effect::Copy { text: id, success: string_of("Session ID copied to clipboard") })),
            None => nothing(),
        }
    }

    fn cmd_yank(&mut self, v: ViewState, now: u64) -> (r: KeyOutcome)
        requires
            old(self).wf(),
            old(self)@.view is None,
            view_wf(v@),
        ensures
            final(self).wf(),
            outcome_is(final(self)@, r, yank_step(set_view(old(self)@, v@), v@, now)),
    {
        let nav = v.message_nav_active;
        self.put_view(v);
        if nav {
            self.set_status_message("Per-message copy not yet implemented for opencode sessions", now);
        } else {
            self.dialog_mode = DialogMode::YankMenu { selected: 0 };
        }
        nothing()
    }

    fn cmd_simple(&mut self, v: ViewState, c: char, k: &KeyInput) -> (r: KeyOutcome)
        requires
            old(self).wf(),
            old(self)@.view is None,
            view_wf(v@),
            c == 'q' || c == 'h' || c == 'm' || c == 'e' || (c == 'c' && k.ctrl),
        ensures
            final(self).wf(),
            outcome_is(final(self)@, r, command_char_step(set_view(old(self)@, v@), v@, c, *k)),
    {
        reveal(command_char_step);
        self.put_view(v);
        if c == 'q' {
            self.leave_view()
        } else if c == 'h' {
            self.help();
            nothing()
        } else if c == 'm' {
            self.mouse_capture = !self.mouse_capture;
            outcome(Some(Action::ToggleMouse), None)
        } else if c == 'e' {
            self.dialog_mode = DialogMode::ExportMenu { selected: 0 };
            nothing()
        } else {
            quit()
        }
    }

    /// A command key of the viewer (see `command_char_step`).
    fn command_char(&mut self, v: ViewState, c: char, k: &KeyInput) -> (r: KeyOutcome)
        requires
            old(self).wf(),
            old(self)@.view is None,
            view_wf(v@),
        ensures
            final(self).wf(),
            outcome_is(final(self)@, r, command_char_step(set_view(old(self)@, v@), v@, c, *k)),
    {
        proof {
            reveal(command_char_step);
        }
        if c == 'q' || c == 'h' || c == 'm' || c == 'e' || (c == 'c' && k.ctrl) {
            self.cmd_simple(v, c, k)
        } else if c == 't' {
            self.cmd_tools(v)
        } else if c == 'T' {
            self.cmd_thinking(v)
        } else if c == 'i' {
            self.cmd_timing(v)
        } else if c == 'p' {
            self.cmd_path(v, k.now_ms)
        } else if c == 'Y' {
            self.cmd_copy_path(v)
        } else if c == 'I' {
            self.cmd_copy_id(v)
        } else if c == 'y' {
            self.cmd_yank(v, k.now_ms)
        } else {
            self.view_done(v)
        }
    }

    fn bound_view_key(&mut self, v: ViewState, b: BoundKey) -> (r: KeyOutcome)
        requires
            old(self).wf(),
            old(self)@.view is None,
            view_wf(v@),
        ensures
            final(self).wf(),
            outcome_is(final(self)@, r, bound_view_step(set_view(old(self)@, v@), b)),
    {
        self.put_view(v);
        match b {
            BoundKey::Delete => {
                if !self.single_file_mode {
                    self.dialog_mode = DialogMode::ConfirmDelete;
                }
                nothing()
            },
            BoundKey::Resume => {
                let a = if self.single_file_mode { None } else { self.path_action(2) };
                outcome(a, None)
            },
            BoundKey::Fork => {
                let a = if self.single_file_mode { None } else { self.path_action(3) };
                outcome(a, None)
            },
        }
    }

    fn view_code_key(&mut self, v: ViewState, k: &KeyInput, vh: usize) -> (r: KeyOutcome)
        requires
            old(self).wf(),
            old(self)@.view is None,
            view_wf(v@),
            view_fits(v@, vh),
        ensures
            final(self).wf(),
            outcome_is(final(self)@, r, view_code_step(set_view(old(self)@, v@), v@, *k, vh)),
    {
        proof {
            reveal(view_code_step);
        }
        match k.code {
            KeyCode::Esc => self.view_escape(v),
            KeyCode::Char(c) => {
                if c == 'j' || c == 'k' || c == 'J' || c == ']' || c == 'K' || c == '[' || c == 'd' || c == 'u'
                    || c == 'g' || c == 'G' || c == '/' || c == '?' || c == 'n' || c == 'N' {
                    self.view_motion_char(v, c, vh)
                } else {
                    self.command_char(v, c, k)
                }
            },
            _ => self.view_motion_code(v, k.code, vh),
        }
    }

    fn view_escape(&mut self, v: ViewState) -> (r: KeyOutcome)
        requires
            old(self).wf(),
            old(self)@.view is None,
            view_wf(v@),
        ensures
            final(self).wf(),
            outcome_is(final(self)@, r, esc_view_step(set_view(old(self)@, v@), v@)),
    {
        let mut v = v;
        if v.escape() {
            self.view_done(v)
        } else {
            self.put_view(v);
            self.leave_view()
        }
    }

    fn view_motion_char(&mut self, v: ViewState, c: char, vh: usize) -> (r: KeyOutcome)
        requires
            old(self).wf(),
            old(self)@.view is None,
            view_wf(v@),
            view_fits(v@, vh),
        ensures
            final(self).wf(),
            outcome_is(final(self)@, r, view_plain(set_view(old(self)@, v@), motion_char_of(v@, c, vh))),
    {
        let mut v = v;
        v.motion_char(c, vh);
        self.view_done(v)
    }

    fn view_motion_code(&mut self, v: ViewState, code: KeyCode, vh: usize) -> (r: KeyOutcome)
        requires
            old(self).wf(),
            old(self)@.view is None,
            view_wf(v@),
            view_fits(v@, vh),
        ensures
            final(self).wf(),
            outcome_is(final(self)@, r, view_plain(set_view(old(self)@, v@), motion_code_of(v@, code, vh))),
    {
        let mut v = v;
        v.motion_code(code, vh);
        self.view_done(v)
    }

    /// A key in the viewer, whose state `v` was taken out of `self`.
    fn handle_view_key(&mut self, v: ViewState, k: &KeyInput, vh: usize) -> (r: KeyOutcome)
        requires
            old(self).wf(),
            old(self)@.view is None,
            view_wf(v@),
            view_fits(v@, vh),
        ensures
            final(self).wf(),
            outcome_is(final(self)@, r, view_step(set_view(old(self)@, v@), v@, *k, vh)),
    {
        let mut v = v;
        if v.search_mode == ViewSearchMode::Typing {
            v.handle_search_typing_key(k, vh);
            return self.view_done(v);
        }
        match k.bound {
            Some(b) => self.bound_view_key(v, b),
            None => self.view_code_key(v, k, vh),
        }
    }
}

impl App {
    fn confirm_key(&mut self, k: &KeyInput) -> (r: KeyOutcome)
        requires
            old(self).wf(),
        ensures
            final(self).wf(),
            outcome_is(final(self)@, r, confirm_step(old(self)@, *k)),
    {
        match k.code {
            KeyCode::Char(c) => {
                if c == 'y' || c == 'Y' {
                    let a = self.path_action(1);
                    self.dialog_mode = DialogMode::Closed;
                    outcome(a, None)
                } else if c == 'n' || c == 'N' {
                    self.dialog_mode = DialogMode::Closed;
                    nothing()
                } else {
                    nothing()
                }
            },
            KeyCode::Esc => {
                self.dialog_mode = DialogMode::Closed;
                nothing()
            },
            _ => nothing(),
        }
    }

    fn export_choice(&mut self, option: usize, yank: bool, now: u64) -> (r: KeyOutcome)
        requires
            old(self).wf(),
        ensures
            final(self).wf(),
            outcome_is(final(self)@, r, export_step(old(self)@, option, yank, now)),
    {
        self.dialog_mode = DialogMode::Closed;
        let has_content = match &self.app_mode {
            AppMode::View(v) => Some(v.session_content.is_some()),
            AppMode::List => None,
        };
        match has_content {
            Some(true) => match ExportFormat::from_index(option) {
                Some(f) => outcome(None, Some(Effect::Export { format: f, to_clipboard: yank })),
                None => nothing(),
            },
            Some(false) => {
                self.set_status_message("No session content loaded", now);
                nothing()
            },
            None => nothing(),
        }
    }

    fn set_menu(&mut self, yank: bool, n: usize)
        requires
            old(self).wf(),
            n < EXPORT_OPTION_COUNT,
        ensures
            final(self).wf(),
            final(self)@ == (AppView { dialog: menu_of(yank, n), ..old(self)@ }),
    {
        self.dialog_mode = if yank { DialogMode::YankMenu { selected: n } } else { DialogMode::ExportMenu { selected: n } };
    }

    #[verifier::spinoff_prover]
    fn menu_key(&mut self, k: &KeyInput, sel: usize, yank: bool) -> (r: KeyOutcome)
        requires
            old(self).wf(),
            sel < EXPORT_OPTION_COUNT,
        ensures
            final(self).wf(),
            outcome_is(final(self)@, r, menu_step(old(self)@, *k, sel, yank)),
    {
        let up: usize = if sel > 0 { sel - 1 } else { 0 };
        let down: usize = if sel + 1 < EXPORT_OPTION_COUNT - 1 { sel + 1 } else { EXPORT_OPTION_COUNT - 1 };
        match k.code {
            KeyCode::Up => {
                self.set_menu(yank, up);
                nothing()
            },
            KeyCode::Down => {
                self.set_menu(yank, down);
                nothing()
            },
            KeyCode::Enter => self.export_choice(sel, yank, k.now_ms),
            KeyCode::Esc => {
                self.dialog_mode = DialogMode::Closed;
                nothing()
            },
            KeyCode::Char(c) => {
                if c == 'k' {
                    self.set_menu(yank, up);
                    nothing()
                } else if c == 'j' {
                    self.set_menu(yank, down);
                    nothing()
                } else if c == '1' {
                    self.export_choice(0, yank, k.now_ms)
                } else if c == '2' {
                    self.export_choice(1, yank, k.now_ms)
                } else if c == '3' {
                    self.export_choice(2, yank, k.now_ms)
                } else if c == '4' {
                    self.export_choice(3, yank, k.now_ms)
                } else {
                    nothing()
                }
            },
            _ => nothing(),
        }
    }

    fn help_key(&mut self, k: &KeyInput) -> (r: KeyOutcome)
        requires
            old(self).wf(),
        ensures
            final(self).wf(),
            outcome_is(final(self)@, r, help_step(old(self)@, *k)),
    {
        if is_char(k, 'h') || is_char(k, 'q') || k.code == KeyCode::Esc {
            self.dialog_mode = DialogMode::Closed;
        }
        nothing()
    }

    /// Handles a key press, `vh` being the height of the viewer's viewport:
    /// an open dialog takes the key, else the viewer or the list (see
    /// `key_step`). The outcome holds the action for the loop and the effect
    /// to carry out.
    pub fn handle_key(&mut self, k: &KeyInput, vh: usize) -> (r: KeyOutcome)
        requires
            old(self).wf(),
            key_fits(old(self)@, vh),
        ensures
            final(self).wf(),
            final(self)@.cursor <= final(self)@.query.len(),
            final(self)@.selected matches Some(i) ==> i < final(self)@.filtered.len(),
            outcome_is(final(self)@, r, key_step(old(self)@, *k, vh)),
    {
        match self.dialog_mode {
            DialogMode::ConfirmDelete => self.confirm_key(k),
            DialogMode::ExportMenu { selected } => self.menu_key(k, selected, false),
            DialogMode::YankMenu { selected } => self.menu_key(k, selected, true),
            DialogMode::Help => self.help_key(k),
            DialogMode::Closed => {
                let ghost s0 = self@;
                match self.take_view() {
                    Some(v) => {
                        assert(set_view(self@, v@) == s0);
                        self.handle_view_key(v, k, vh)
                    },
                    None => self.handle_list_key(k, vh),
                }
            },
        }
    }
}

// ---------------------------------------------------------------------------
// Loading, searching and removing
// ---------------------------------------------------------------------------

/// The positions `start + i` of the appended conversations that the list
/// shows: all of them, or with the title filter on and a pinned title, those
/// marked as belonging to the current project.
pub open spec fn appended_positions(start: int, keep: Seq<bool>, filter_on: bool) -> Seq<usize>
    decreases keep.len(),
{
    if keep.len() == 0 {
        Seq::empty()
    } else {
        appended_positions(start, keep.drop_last(), filter_on) + if !filter_on || keep.last() {
            seq![(start + keep.len() - 1) as usize]
        } else {
            Seq::empty()
        }
    }
}

proof fn lemma_appended_bounded(start: int, keep: Seq<bool>, filter_on: bool)
    requires
        0 <= start,
        start + keep.len() <= usize::MAX,
    ensures
        forall|i: int|
            0 <= i < appended_positions(start, keep, filter_on).len() ==> start <= #[trigger] appended_positions(
                start,
                keep,
                filter_on,
            )[i] < start + keep.len(),
    decreases keep.len(),
{
    if keep.len() > 0 {
        lemma_appended_bounded(start, keep.drop_last(), filter_on);
        let a = appended_positions(start, keep.drop_last(), filter_on);
        let tail = if !filter_on || keep.last() {
            seq![(start + keep.len() - 1) as usize]
        } else {
            Seq::<usize>::empty()
        };
        assert(appended_positions(start, keep, filter_on) == a + tail);
    }
}

/// The listed conversations among `raw` under the title filter: those titled
/// with the pinned title, when the filter is on with one.
pub open spec fn keep_pinned_of(convs: Seq<Conversation>, raw: Seq<usize>, filter_on: bool, pinned: Option<Seq<char>>) -> Seq<usize>
    decreases raw.len(),
{
    if raw.len() == 0 {
        Seq::empty()
    } else {
        keep_pinned_of(convs, raw.drop_last(), filter_on, pinned) + if filter_on && pinned is Some
            && convs[raw.last() as int].title@ != pinned->0 {
            Seq::empty()
        } else {
            seq![raw.last()]
        }
    }
}

/// With the title filter off (after Tab turned it off), the list is the
/// search result itself, unscoped.
pub proof fn lemma_unpinned_keeps_all(convs: Seq<Conversation>, raw: Seq<usize>, pinned: Option<Seq<char>>)
    ensures
        keep_pinned_of(convs, raw, false, pinned) == raw,
    decreases raw.len(),
{
    if raw.len() > 0 {
        lemma_unpinned_keeps_all(convs, raw.drop_last(), pinned);
        assert(raw.drop_last().push(raw.last()) =~= raw);
    }
}

proof fn lemma_keep_pinned_within(convs: Seq<Conversation>, raw: Seq<usize>, filter_on: bool, pinned: Option<Seq<char>>)
    requires
        forall|i: int| 0 <= i < raw.len() ==> #[trigger] raw[i] < convs.len(),
    ensures
        forall|i: int|
            0 <= i < keep_pinned_of(convs, raw, filter_on, pinned).len() ==> #[trigger] keep_pinned_of(
                convs,
                raw,
                filter_on,
                pinned,
            )[i] < convs.len(),
    decreases raw.len(),
{
    if raw.len() > 0 {
        lemma_keep_pinned_within(convs, raw.drop_last(), filter_on, pinned);
        let a = keep_pinned_of(convs, raw.drop_last(), filter_on, pinned);
        let tail = if filter_on && pinned is Some && convs[raw.last() as int].title@ != pinned->0 {
            Seq::<usize>::empty()
        } else {
            seq![raw.last()]
        };
        assert(keep_pinned_of(convs, raw, filter_on, pinned) == a + tail);
        assert(raw.last() == raw[raw.len() - 1]);
    }
}

/// Keeps, of the search result `raw`, the conversations that the title filter
/// lets through.
pub fn keep_pinned(convs: &[Conversation], raw: &Vec<usize>, filter_on: bool, pinned: Option<&str>) -> (r: Vec<usize>)
    requires
        forall|i: int| 0 <= i < raw@.len() ==> #[trigger] raw@[i] < convs@.len(),
    ensures
        r@ == keep_pinned_of(
            convs@,
            raw@,
            filter_on,
            match pinned {
                Some(p) => Some(p@),
                None => None,
            },
        ),
{
    let ghost pv = match pinned {
        Some(p) => Some(p@),
        None => None::<Seq<char>>,
    };
    let mut r: Vec<usize> = Vec::new();
    let mut i: usize = 0;
    while i < raw.len()
        invariant
            i <= raw@.len(),
            forall|j: int| 0 <= j < raw@.len() ==> #[trigger] raw@[j] < convs@.len(),
            pv == match pinned {
                Some(p) => Some(p@),
                None => None::<Seq<char>>,
            },
            r@ == keep_pinned_of(convs@, raw@.take(i as int), filter_on, pv),
        decreases raw@.len() - i,
    {
        assert(raw@.take(i + 1).drop_last() =~= raw@.take(i as int));
        let idx = raw[i];
        let keep = !filter_on || match pinned {
            Some(p) => crate::text::text_equals(convs[idx].title.as_str(), p),
            None => true,
        };
        if keep {
            r.push(idx);
        } else {
            assert(r@ =~= r@ + Seq::<usize>::empty());
        }
        i += 1;
    }
    assert(raw@.take(raw@.len() as int) =~= raw@);
    r
}

/// With the title filter on and a pinned title, every conversation that the
/// filtered list keeps has that title, and each comes from the search result.
pub proof fn lemma_pinned_only(convs: Seq<Conversation>, raw: Seq<usize>, t: Seq<char>)
    requires
        forall|i: int| 0 <= i < raw.len() ==> #[trigger] raw[i] < convs.len(),
    ensures
        forall|i: int|
            0 <= i < keep_pinned_of(convs, raw, true, Some(t)).len() ==> convs[#[trigger] keep_pinned_of(
                convs,
                raw,
                true,
                Some(t),
            )[i] as int].title@ == t && raw.contains(keep_pinned_of(convs, raw, true, Some(t))[i]),
    decreases raw.len(),
{
    if raw.len() > 0 {
        let d = raw.drop_last();
        lemma_pinned_only(convs, d, t);
        let a = keep_pinned_of(convs, d, true, Some(t));
        let k = keep_pinned_of(convs, raw, true, Some(t));
        let tail = if convs[raw.last() as int].title@ != t { Seq::<usize>::empty() } else { seq![raw.last()] };
        assert(k == a + tail);
        assert forall|i: int| 0 <= i < k.len() implies convs[#[trigger] k[i] as int].title@ == t && raw.contains(k[i]) by {
            if i < a.len() {
                assert(k[i] == a[i]);
                let j = choose|j: int| 0 <= j < d.len() && d[j] == a[i];
                assert(raw[j] == d[j]);
            } else {
                assert(k[i] == raw.last());
                assert(raw[raw.len() - 1] == raw.last());
            }
        }
    }
}

/// Assistant messages of a session.
pub open spec fn assistant_turns(ms: Seq<crate::opencode::models::MessageView>) -> nat
    decreases ms.len(),
{
    if ms.len() == 0 {
        0
    } else {
        assistant_turns(ms.drop_last()) + if ms.last().role@ == "assistant"@ { 1nat } else { 0nat }
    }
}

fn count_assistant(ms: &Vec<crate::opencode::models::MessageView>) -> (r: usize)
    ensures
        r == assistant_turns(ms@),
{
    let assistant = string_of("assistant");
    let mut c: usize = 0;
    let mut i: usize = 0;
    while i < ms.len()
        invariant
            i <= ms@.len(),
            c <= i,
            assistant@ == "assistant"@,
            c == assistant_turns(ms@.take(i as int)),
        decreases ms@.len() - i,
    {
        assert(ms@.take(i + 1).drop_last() =~= ms@.take(i as int));
        if ms[i].role == assistant {
            c += 1;
        }
        i += 1;
    }
    assert(ms@.take(ms@.len() as int) =~= ms@);
    c
}

/// The list after removing the conversation at `ci`: the entry naming it
/// leaves, later conversations move down by one.
pub open spec fn without_and_shifted(f: Seq<usize>, ci: usize) -> Seq<usize>
    decreases f.len(),
{
    if f.len() == 0 {
        Seq::empty()
    } else {
        without_and_shifted(f.drop_last(), ci) + if f.last() == ci {
            Seq::empty()
        } else if f.last() > ci {
            seq![(f.last() - 1) as usize]
        } else {
            seq![f.last()]
        }
    }
}

proof fn lemma_shifted_within(f: Seq<usize>, ci: usize, n: nat)
    requires
        forall|i: int| 0 <= i < f.len() ==> #[trigger] f[i] < n,
        ci < n,
    ensures
        forall|i: int| 0 <= i < without_and_shifted(f, ci).len() ==> #[trigger] without_and_shifted(f, ci)[i] < n - 1,
    decreases f.len(),
{
    if f.len() > 0 {
        lemma_shifted_within(f.drop_last(), ci, n);
        let a = without_and_shifted(f.drop_last(), ci);
        let tail = if f.last() == ci {
            Seq::<usize>::empty()
        } else if f.last() > ci {
            seq![(f.last() - 1) as usize]
        } else {
            seq![f.last()]
        };
        assert(without_and_shifted(f, ci) == a + tail);
        assert(f.last() == f[f.len() - 1]);
    }
}

/// The state after removing the selected conversation from the list.
pub open spec fn removed_of(s: AppView) -> AppView {
    match s.selected {
        Some(sel) => if sel < s.filtered.len() {
            let ci = s.filtered[sel as int];
            let f = without_and_shifted(s.filtered, ci);
            AppView {
                conversations: s.conversations.remove(ci as int),
                filtered: f,
                selected: if f.len() == 0 {
                    None
                } else if sel >= f.len() {
                    Some((f.len() - 1) as usize)
                } else {
                    Some(sel)
                },
                generation: (s.generation + 1) as u64,
                ..s
            }
        } else {
            s
        },
        None => s,
    }
}

/// Removing a conversation keeps every other listed conversation, in order:
/// the conversation that an entry of the new list names is the one that the
/// corresponding surviving entry named before.
pub proof fn lemma_remove_keeps_others(convs: Seq<Conversation>, ci: int, x: int)
    requires
        0 <= ci < convs.len(),
        0 <= x < convs.len(),
        x != ci,
    ensures
        convs.remove(ci)[if x > ci { x - 1 } else { x }] == convs[x],
{
}

impl App {
    /// Whether a key can be handled with `vh` rows (see `key_fits`); the
    /// application refuses a key that cannot.
    pub fn can_handle_key(&self, vh: usize) -> (r: bool)
        requires
            self.wf(),
        ensures
            r == key_fits(self@, vh),
    {
        if self.search_generation == u64::MAX {
            return false;
        }
        if self.filtered.len() > usize::MAX - 10 || self.filtered.len() + 10 > usize::MAX - vh {
            return false;
        }
        match &self.app_mode {
            AppMode::View(v) => view_fits_exec(v, vh),
            AppMode::List => true,
        }
    }

    /// Adds a batch of loaded conversations, listed in arrival order; with
    /// the title filter on and a pinned title, only those marked in
    /// `in_project` are listed. The first arrival gets selected.
    pub fn append_conversations(&mut self, new_convs: Vec<Conversation>, in_project: Vec<bool>)
        requires
            old(self).wf(),
            in_project@.len() == new_convs@.len(),
            old(self)@.conversations.len() + new_convs@.len() <= usize::MAX,
        ensures
            final(self).wf(),
            final(self)@ == ({
                let f = old(self)@.filtered + appended_positions(
                    old(self)@.conversations.len() as int,
                    in_project@,
                    old(self)@.workspace_filter && old(self)@.project is Some,
                );
                AppView {
                    conversations: old(self)@.conversations + new_convs@,
                    filtered: f,
                    selected: if old(self)@.selected is None && f.len() > 0 { Some(0) } else { old(self)@.selected },
                    loading: LoadingState::Loading { loaded: (old(self)@.conversations.len() + new_convs@.len()) as usize },
                    ..old(self)@
                }
            }),
    {
        let start = self.conversations.len();
        let filter_on = self.workspace_filter && self.current_project_dir_name.is_some();
        let ghost keep = in_project@;
        let ghost f0 = self@.filtered;
        let ghost c0 = self@.conversations;
        let mut convs: Vec<Conversation> = Vec::new();
        std::mem::swap(&mut convs, &mut self.conversations);
        let mut filtered: Vec<usize> = Vec::new();
        std::mem::swap(&mut filtered, &mut self.filtered);
        let mut rest = new_convs;
        let ghost all = rest@;
        let mut i: usize = 0;
        let n = rest.len();
        while i < n
            invariant
                n == all.len(),
                n == keep.len(),
                i <= n,
                rest@ == all.subrange(i as int, n as int),
                start + n <= usize::MAX,
                start == c0.len(),
                convs@ == c0 + all.take(i as int),
                filtered@ == f0 + appended_positions(start as int, keep.take(i as int), filter_on),
                in_project@ == keep,
            decreases n - i,
        {
            let c = rest.remove(0);
            assert(c == all[i as int]);
            convs.push(c);
            assert(keep.take(i + 1).drop_last() =~= keep.take(i as int));
            if !filter_on || in_project[i] {
                filtered.push(start + i);
            } else {
                assert(filtered@ =~= filtered@ + Seq::<usize>::empty());
            }
            assert(convs@ =~= c0 + all.take(i + 1));
            assert(rest@ =~= all.subrange(i + 1, n as int));
            i += 1;
        }
        assert(all.take(n as int) =~= all);
        assert(keep.take(n as int) =~= keep);
        proof {
            lemma_appended_bounded(start as int, keep, filter_on);
        }
        let count = convs.len();
        let nonempty = filtered.len() > 0;
        self.conversations = convs;
        self.filtered = filtered;
        if self.selected.is_none() && nonempty {
            self.selected = Some(0);
        }
        self.loading_state = LoadingState::Loading { loaded: count };
    }

    /// Starts a full reload: everything is cleared and loading begins again;
    /// results of earlier searches are then ignored.
    pub fn reset_for_reload(&mut self)
        requires
            old(self).wf(),
            old(self)@.generation < u64::MAX,
        ensures
            final(self).wf(),
            final(self)@ == (AppView {
                conversations: Seq::empty(),
                filtered: Seq::empty(),
                selected: None,
                loading: LoadingState::Loading { loaded: 0 },
                generation: (old(self)@.generation + 1) as u64,
                ..old(self)@
            }),
    {
        self.conversations = Vec::new();
        self.filtered = Vec::new();
        self.selected = None;
        self.loading_state = LoadingState::Loading { loaded: 0 };
        self.search_generation = self.search_generation + 1;
    }

    /// Takes a search result from the worker: applied (and `true`) only when it
    /// answers the latest search.
    pub fn receive_search_results(&mut self, filtered: Vec<usize>, generation: u64) -> (applied: bool)
        requires
            old(self).wf(),
            generation == old(self)@.generation ==> forall|i: int|
                0 <= i < filtered@.len() ==> #[trigger] filtered@[i] < old(self)@.conversations.len(),
        ensures
            final(self).wf(),
            applied == (generation == old(self)@.generation),
            applied ==> final(self)@ == (AppView {
                filtered: filtered@,
                selected: if filtered@.len() > 0 { Some(0) } else { None },
                in_flight: false,
                ..old(self)@
            }),
            !applied ==> final(self)@ == old(self)@,
    {
        if generation != self.search_generation {
            return false;
        }
        let empty = filtered.len() == 0;
        self.filtered = filtered;
        self.selected = if empty { None } else { Some(0) };
        self.search_in_flight = false;
        true
    }

    /// Takes the result of the search asked for by `Effect::Refilter`: the
    /// title filter applies, and the first entry is selected.
    pub fn apply_filter(&mut self, raw: Vec<usize>)
        requires
            old(self).wf(),
            forall|i: int| 0 <= i < raw@.len() ==> #[trigger] raw@[i] < old(self)@.conversations.len(),
        ensures
            final(self).wf(),
            final(self)@ == ({
                let f = keep_pinned_of(old(self)@.conversations, raw@, old(self)@.workspace_filter, old(self)@.project);
                AppView { filtered: f, selected: if f.len() > 0 { Some(0) } else { None }, ..old(self)@ }
            }),
    {
        let pinned: Option<&str> = match &self.current_project_dir_name {
            Some(p) => Some(p.as_str()),
            None => None,
        };
        let f = keep_pinned(self.conversations.as_slice(), &raw, self.workspace_filter, pinned);
        proof {
            lemma_keep_pinned_within(self@.conversations, raw@, self@.workspace_filter, self@.project);
        }
        let empty = f.len() == 0;
        self.filtered = f;
        self.selected = if empty { None } else { Some(0) };
    }

    /// Removes the selected conversation from the list (after it was deleted
    /// at the endpoint): the selection stays at its position, or moves to the
    /// new last entry; results of earlier searches are then ignored.
    pub fn remove_selected_from_list(&mut self)
        requires
            old(self).wf(),
            old(self)@.generation < u64::MAX,
        ensures
            final(self).wf(),
            final(self)@ == removed_of(old(self)@),
    {
        let sel = match self.selected {
            Some(s) => s,
            None => {
                return;
            },
        };
        if sel >= self.filtered.len() {
            return;
        }
        let ci = self.filtered[sel];
        let ghost f0 = self@.filtered;
        self.conversations.remove(ci);
        let mut f: Vec<usize> = Vec::new();
        let mut i: usize = 0;
        while i < self.filtered.len()
            invariant
                i <= f0.len(),
                self.filtered@ == f0,
                f@ == without_and_shifted(f0.take(i as int), ci),
            decreases f0.len() - i,
        {
            assert(f0.take(i + 1).drop_last() =~= f0.take(i as int));
            let x = self.filtered[i];
            if x == ci {
                assert(f@ =~= f@ + Seq::<usize>::empty());
            } else if x > ci {
                f.push(x - 1);
            } else {
                f.push(x);
            }
            i += 1;
        }
        assert(f0.take(f0.len() as int) =~= f0);
        proof {
            lemma_shifted_within(f0, ci, old(self)@.conversations.len());
        }
        let len = f.len();
        self.filtered = f;
        if len == 0 {
            self.selected = None;
        } else if sel >= len {
            self.selected = Some(len - 1);
        }
        self.search_generation = self.search_generation + 1;
    }

    /// Selects the listed conversation with session id `id`, when listed.
    pub fn select_session_id(&mut self, id: &str)
        requires
            old(self).wf(),
        ensures
            final(self).wf(),
            match crate::tui::view_state::first_index(old(self)@.filtered, listed_with_id(old(self)@.conversations, id@)) {
                Some(p) => final(self)@ == (AppView { selected: Some(p as usize), ..old(self)@ }),
                None => final(self)@ == old(self)@,
            },
    {
        let mut i: usize = 0;
        while i < self.filtered.len()
            invariant
                self.wf(),
                self@ == old(self)@,
                i <= self@.filtered.len(),
                forall|j: int| 0 <= j < i ==> !(listed_with_id(self@.conversations, id@))(#[trigger] self@.filtered[j]),
            decreases self@.filtered.len() - i,
        {
            let ci = self.filtered[i];
            if crate::text::text_equals(self.conversations[ci].id.as_str(), id) {
                proof {
                    crate::tui::view_state::lemma_first_found(self@.filtered, listed_with_id(self@.conversations, id@), i as int);
                }
                self.selected = Some(i);
                return;
            }
            i += 1;
        }
        proof {
            crate::tui::view_state::lemma_first_none(self@.filtered, listed_with_id(self@.conversations, id@));
        }
    }

    /// The session id of the selected conversation.
    pub fn selected_session_id(&self) -> (r: Option<String>)
        requires
            self.wf(),
        ensures
            opt_view(r) == match self@.selected {
                Some(i) => Some(self@.conversations[self@.filtered[i as int] as int].id@),
                None => None,
            },
    {
        match self.selected {
            Some(i) => Some(self.conversations[self.filtered[i]].id.clone()),
            None => None,
        }
    }
}

/// The list entry names the conversation with session id `id`.
pub open spec fn listed_with_id(convs: Seq<Conversation>, id: Seq<char>) -> spec_fn(usize) -> bool {
    |ci: usize| ci < convs.len() && convs[ci as int].id@ == id
}

fn view_fits_exec(v: &ViewState, vh: usize) -> (r: bool)
    ensures
        r == view_fits(v@, vh),
{
    let lim = usize::MAX - 1;
    if vh > lim {
        return false;
    }
    let room = lim - vh;
    if v.scroll_offset > room || v.rendered_lines.len() > room {
        return false;
    }
    let mut i: usize = 0;
    while i < v.search_matches.len()
        invariant
            i <= v@.matches.len(),
            room == usize::MAX - 1 - vh,
            forall|j: int| 0 <= j < i ==> #[trigger] v@.matches[j] + vh + 1 <= usize::MAX,
        decreases v@.matches.len() - i,
    {
        if v.search_matches[i] > room {
            return false;
        }
        i += 1;
    }
    let mut i: usize = 0;
    while i < v.message_ranges.len()
        invariant
            i <= v@.ranges.len(),
            room == usize::MAX - 1 - vh,
            forall|j: int| 0 <= j < i ==> #[trigger] v@.ranges[j].start_line + vh + 1 <= usize::MAX,
        decreases v@.ranges.len() - i,
    {
        if v.message_ranges[i].start_line > room {
            return false;
        }
        i += 1;
    }
    assert(v@.lines.len() == v.rendered_lines@.len());
    true
}

// ---------------------------------------------------------------------------
// The end of loading
// ---------------------------------------------------------------------------

/// `cs` with each conversation's `index` set to its position.
pub open spec fn reindexed(cs: Seq<Conversation>) -> Seq<Conversation> {
    Seq::new(cs.len(), |i: int| Conversation { index: i as usize, ..cs[i] })
}

pub open spec fn timestamps(cs: Seq<Conversation>) -> Seq<i64> {
    cs.map_values(|c: Conversation| c.timestamp_ms)
}

/// The conversations of `old` in list order: newest first, those updated at
/// the same time keeping their order, each `index` its new position.
pub open spec fn list_ordered(old: Seq<Conversation>, new: Seq<Conversation>) -> bool {
    exists|order: Seq<int>|
        #[trigger] stable_newest_first(timestamps(old), order) && new.len() == old.len() && forall|i: int|
            0 <= i < new.len() ==> #[trigger] new[i] == (Conversation { index: i as usize, ..old[order[i]] })
}

/// All conversations listed in order, the first selected.
pub open spec fn list_all(s: AppView) -> AppView {
    AppView {
        filtered: Seq::new(s.conversations.len(), |i: int| i as usize),
        selected: if s.conversations.len() > 0 { Some(0) } else { None },
        ..s
    }
}

fn reindex(items: Vec<Conversation>) -> (r: Vec<Conversation>)
    ensures
        r@.len() == items@.len(),
        forall|i: int| 0 <= i < r@.len() ==> #[trigger] r@[i] == (Conversation { index: i as usize, ..items@[i] }),
{
    let ghost all = items@;
    let mut rest = items;
    let mut out: Vec<Conversation> = Vec::new();
    while rest.len() > 0
        invariant
            out@.len() <= all.len(),
            rest@ == all.subrange(out@.len() as int, all.len() as int),
            forall|i: int| 0 <= i < out@.len() ==> #[trigger] out@[i] == (Conversation { index: i as usize, ..all[i] }),
        decreases rest.len(),
    {
        let mut c = rest.remove(0);
        let i = out.len();
        assert(c == all[i as int]);
        c.index = i;
        out.push(c);
        assert(rest@ =~= all.subrange(out@.len() as int, all.len() as int));
    }
    out
}

// ---------------------------------------------------------------------------
// Entering and refreshing the viewer
// ---------------------------------------------------------------------------

/// The viewer as it opens on a session, before rendering.
pub open spec fn fresh_view(
    path: Seq<char>,
    content: Option<OcSessionView>,
    td: ToolDisplayMode,
    think: bool,
    timing: bool,
    width: usize,
    title: Option<Seq<char>>,
    wall_ms: i64,
) -> ViewStateView {
    ViewStateView {
        path,
        content,
        scroll: 0,
        lines: Seq::empty(),
        total_lines: 0,
        tool_display: td,
        show_thinking: think,
        show_timing: timing,
        content_width: width,
        search_mode: crate::tui::view_state::ViewSearchMode::Off,
        query: Seq::empty(),
        matches: Seq::empty(),
        current: 0,
        direction: crate::tui::view_state::SearchDirection::Forward,
        search_start: 0,
        last_query: Seq::empty(),
        ranges: Seq::empty(),
        focused: None,
        nav: false,
        custom_title: title,
        last_modified_ms: wall_ms,
        live_follow: true,
    }
}

/// `w` is `v` rendered again (with `aux`) for the viewport `vh`.
pub open spec fn re_rendered_as(w: ViewStateView, v: ViewStateView, aux: Seq<Vec<PartRendering>>, vh: usize) -> bool {
    &&& renders_as(w.lines, w.ranges, v.content, aux, options_of(v))
    &&& w == rerendered(v, w.lines, w.ranges, vh)
}

/// `c` with its count of assistant turns taken from a session's content.
pub open spec fn with_turns(c: Conversation, content: OcSessionView) -> Conversation {
    Conversation { turn_count: assistant_turns(content.messages@) as usize, ..c }
}

/// The viewer holding `content` as its session.
pub open spec fn with_content(v: ViewStateView, content: OcSessionView) -> ViewStateView {
    ViewStateView { content: Some(content), ..v }
}

/// The conversation with session id `id`.
pub open spec fn has_id(id: Seq<char>) -> spec_fn(Conversation) -> bool {
    |c: Conversation| c.id@ == id
}

/// What a session export gives.
pub enum ExportJob {
    /// Copy the text to the clipboard.
    Clipboard { text: String },
    /// Write the text to the file.
    File { filename: String, text: String },
}

/// The file name of an export: the sanitized title, the time stamp and the
/// format's extension.
pub open spec fn export_filename(title: Seq<char>, stamp: Seq<char>, format: ExportFormat) -> Seq<char> {
    sanitized_name(title) + "--"@ + stamp + "."@ + extension_of(format)
}

/// The title that names an export: the conversation's, else `session`.
pub open spec fn export_title(v: ViewStateView) -> Seq<char> {
    match v.custom_title {
        Some(t) => t,
        None => "session"@,
    }
}

/// Local date and minute of `ms` for export file names (chrono:
/// `Local.timestamp_millis_opt(..).single()`, falling back to `Local::now()`,
/// formatted `%Y-%m-%d--%H-%M`). Nothing is claimed of the text: it depends on
/// the machine's time zone, and on the clock when the instant is out of range.
#[verifier::external_body]
fn file_stamp(ms: i64) -> String {
    let dt = chrono::Local.timestamp_millis_opt(ms).single().unwrap_or_else(chrono::Local::now);
    dt.format("%Y-%m-%d--%H-%M").to_string()
}

/// The scroll step of the mouse wheel in the list: one entry per event.
pub open spec fn signum(d: int) -> int {
    if d > 0 { 1 } else if d < 0 { -1 } else { 0 }
}

/// Move the list selection by `delta` entries, within the list.
pub open spec fn scroll_list_of(s: AppView, delta: int) -> AppView {
    match s.selected {
        Some(sel) => {
            let max = last_pos(s);
            let n = if delta >= 0 {
                crate::tui::view_state::min_of(crate::tui::view_state::min_of(sel + delta, usize::MAX as int), max)
            } else {
                if sel > -delta { sel + delta } else { 0 }
            };
            AppView { selected: Some(n as usize), ..s }
        },
        None => s,
    }
}

pub open spec fn sat_add_u16(a: int, b: int) -> int {
    if a + b > u16::MAX { u16::MAX as int } else { a + b }
}

pub open spec fn sat_sub_int(a: int, b: int) -> int {
    if a > b { a - b } else { 0 }
}

/// A left click at screen row `row` in a frame starting at row `y`, `h` rows
/// high: the list sits below a one-row border and a two-row search bar, above
/// a one-row bottom bar (left out when fewer than four rows are inside the
/// border); an entry takes three rows (four when searching). A click on an
/// entry of the page that holds the selection selects it; `None` otherwise.
pub open spec fn click_target(s: AppView, row: u16, y: u16, h: u16) -> Option<usize> {
    click_target_of(trim(s.query).len() == 0, s.selected, s.filtered.len(), row, y, h)
}

pub open spec fn click_target_of(blank: bool, selected: Option<usize>, len: nat, row: u16, y: u16, h: u16) -> Option<usize> {
    let inner = sat_sub_int(h as int, 2);
    let list_y = sat_add_u16(sat_add_u16(y as int, 1), 2);
    let list_h = if inner < 4 { sat_sub_int(inner, 2) } else { sat_sub_int(inner, 3) };
    let per_item: int = if blank { 3 } else { 4 };
    let per_page = list_h / per_item;
    if list_h == 0 || row < list_y || row >= sat_add_u16(list_y, list_h) || per_page == 0 {
        None
    } else {
        let offset = match selected {
            Some(sel) => (sel as int / per_page) * per_page,
            None => 0,
        };
        let idx = offset + (row - list_y) / per_item;
        if idx < len { Some(idx as usize) } else { None }
    }
}

fn click_index(blank: bool, selected: Option<usize>, len: usize, row: u16, frame_y: u16, frame_height: u16) -> (r: Option<usize>)
    ensures
        r == click_target_of(blank, selected, len as nat, row, frame_y, frame_height),
{
    let inner: u16 = if frame_height > 2 { frame_height - 2 } else { 0 };
    let y1: u16 = if frame_y < u16::MAX { frame_y + 1 } else { u16::MAX };
    let list_y: u16 = if y1 <= u16::MAX - 2 { y1 + 2 } else { u16::MAX };
    let list_h: u16 = if inner < 4 {
        if inner > 2 { inner - 2 } else { 0 }
    } else {
        inner - 3
    };
    let end: u16 = if list_y <= u16::MAX - list_h { list_y + list_h } else { u16::MAX };
    let per_item: u16 = if blank { 3 } else { 4 };
    let per_page: u16 = list_h / per_item;
    if list_h == 0 || row < list_y || row >= end || per_page == 0 {
        return None;
    }
    let offset: usize = match selected {
        Some(sel) => {
            let d = sel / (per_page as usize);
            assert(d * per_page <= sel) by (nonlinear_arith)
                requires
                    per_page > 0,
                    d == sel / (per_page as usize),
            ;
            d * (per_page as usize)
        },
        None => 0,
    };
    let rel_idx: usize = ((row - list_y) / per_item) as usize;
    if offset <= usize::MAX - rel_idx && offset + rel_idx < len {
        Some(offset + rel_idx)
    } else {
        None
    }
}

/// The session id of a conversation path: its file stem, or empty.
pub open spec fn session_id_of(path: Seq<char>) -> Seq<char> {
    match file_stem_of(path) {
        Some(t) => t,
        None => Seq::empty(),
    }
}

/// The session id named by a conversation path (its file stem, or empty).
pub fn session_id_of_path(path: &str) -> (r: String)
    ensures
        r@ == session_id_of(path@),
{
    match path_file_stem(path) {
        Some(t) => t,
        None => String::new(),
    }
}

impl App {
    /// Ends loading: the conversations are ordered newest first and indexed
    /// by position. Without a query and a title filter all are listed; else
    /// the list is filtered again (`Effect::Refilter` unless a UUID selects).
    pub fn finish_loading(&mut self) -> (r: Option<Effect>)
        requires
            old(self).wf(),
        ensures
            final(self).wf(),
            list_ordered(old(self)@.conversations, final(self)@.conversations),
            ({
                let mid = AppView {
                    conversations: final(self)@.conversations,
                    loading: LoadingState::Ready,
                    ..old(self)@
                };
                if old(self)@.query.len() == 0 && !old(self)@.workspace_filter {
                    final(self)@ == list_all(mid) && r is None
                } else {
                    outcome_is(final(self)@, KeyOutcome { action: None, effect: r }, refilter_step(mid))
                }
            }),
    {
        let mut keys: Vec<i64> = Vec::new();
        let mut i: usize = 0;
        while i < self.conversations.len()
            invariant
                i <= self@.conversations.len(),
                keys@ == timestamps(self@.conversations.take(i as int)),
            decreases self@.conversations.len() - i,
        {
            keys.push(self.conversations[i].timestamp_ms);
            assert(self@.conversations.take(i + 1) =~= self@.conversations.take(i as int).push(
                self@.conversations[i as int],
            ));
            i += 1;
        }
        assert(self@.conversations.take(self@.conversations.len() as int) =~= self@.conversations);
        let order = newest_first_order(&keys);
        let ghost o = as_ints(order@);
        let ghost c0 = self@.conversations;
        proof {
            assert forall|a: int| 0 <= a < order@.len() implies #[trigger] order@[a] < c0.len() by {
                assert(o[a] == order@[a] as int);
            }
            assert forall|a: int, b: int| 0 <= a < b < order@.len() implies order@[a] != order@[b] by {
                assert(o[a] == order@[a] as int);
                assert(o[b] == order@[b] as int);
            }
        }
        let mut convs: Vec<Conversation> = Vec::new();
        std::mem::swap(&mut convs, &mut self.conversations);
        let sorted = permute(convs, &order);
        let indexed = reindex(sorted);
        self.conversations = indexed;
        proof {
            assert(stable_newest_first(timestamps(c0), o));
            assert forall|i: int| 0 <= i < self@.conversations.len() implies #[trigger] self@.conversations[i]
                == (Conversation { index: i as usize, ..c0[o[i]] }) by {
            }
            assert(list_ordered(c0, self@.conversations));
        }
        self.loading_state = LoadingState::Ready;
        if self.query.as_str().is_empty() && !self.workspace_filter {
            let n = self.conversations.len();
            let mut filtered: Vec<usize> = Vec::new();
            let mut j: usize = 0;
            while j < n
                invariant
                    j <= n,
                    filtered@ == Seq::new(j as nat, |k: int| k as usize),
                decreases n - j,
            {
                filtered.push(j);
                assert(filtered@ =~= Seq::new((j + 1) as nat, |k: int| k as usize));
                j += 1;
            }
            self.filtered = filtered;
            self.selected = if n == 0 { None } else { Some(0) };
            None
        } else {
            self.refilter()
        }
    }

    /// The error when loading found nothing.
    pub fn loaded_nothing(&self) -> (r: Option<AppError>)
        ensures
            self@.conversations.len() == 0 ==> (r matches Some(AppError::NoHistoryFound(m)) && m@ == "selected scope"@),
            self@.conversations.len() > 0 ==> r is None,
    {
        if self.conversations.len() == 0 {
            Some(AppError::NoHistoryFound(string_of("selected scope")))
        } else {
            None
        }
    }

    fn set_turns(&mut self, ci: usize, n: usize)
        requires
            old(self).wf(),
            ci < old(self)@.conversations.len(),
        ensures
            final(self).wf(),
            final(self)@ == (AppView {
                conversations: old(self)@.conversations.update(
                    ci as int,
                    Conversation { turn_count: n, ..old(self)@.conversations[ci as int] },
                ),
                ..old(self)@
            }),
    {
        let mut c = self.conversations.remove(ci);
        c.turn_count = n;
        self.conversations.insert(ci, c);
        assert(self@.conversations =~= old(self)@.conversations.update(
            ci as int,
            Conversation { turn_count: n, ..old(self)@.conversations[ci as int] },
        ));
    }

    /// Opens the viewer on the selected conversation, whose content was
    /// fetched as `fetched` (`aux` holds its markdown and tool renderings):
    /// on success the viewer renders it, the list's turn count follows the
    /// content, and the live subscription is marked running (`true`); on
    /// failure the status reports it.
    pub fn enter_view_mode(
        &mut self,
        fetched: Result<OcSessionView, AppError>,
        aux: &Vec<Vec<PartRendering>>,
        content_width: usize,
        vh: usize,
        now_ms: u64,
        wall_ms: i64,
    ) -> (entered: bool)
        requires
            old(self).wf(),
            fetched matches Ok(c) ==> aux_fits(c, aux@),
        ensures
            final(self).wf(),
            old(self)@.selected is None ==> final(self)@ == old(self)@ && !entered,
            old(self)@.selected matches Some(sel) ==> ({
                let s = old(self)@;
                let ci = s.filtered[sel as int] as int;
                let conv = s.conversations[ci];
                match fetched {
                    Err(e) => !entered && final(self)@ == with_status(s, "Failed to load session: "@ + error_text(e), now_ms),
                    Ok(content) => {
                        &&& entered
                        &&& final(self)@.view is Some
                        &&& re_rendered_as(
                            final(self)@.view->0,
                            fresh_view(
                                conv.id@,
                                Some(content),
                                s.tool_display,
                                s.show_thinking,
                                s.show_timing,
                                content_width,
                                if conv.title@.len() == 0 { None } else { Some(conv.title@) },
                                wall_ms,
                            ),
                            aux@,
                            vh,
                        )
                        &&& final(self)@ == (AppView {
                            conversations: s.conversations.update(ci, with_turns(conv, content)),
                            view: final(self)@.view,
                            sse_active: true,
                            ..s
                        })
                    },
                }
            }),
    {
        let sel = match self.selected {
            Some(s) => s,
            None => {
                return false;
            },
        };
        let ci = self.filtered[sel];
        match fetched {
            Err(e) => {
                let mut m = string_of("Failed to load session: ");
                let t = e.message();
                push_str(&mut m, t.as_str());
                self.set_status_message(m.as_str(), now_ms);
                false
            },
            Ok(content) => {
                let n = count_assistant(&content.messages);
                let id = self.conversations[ci].id.clone();
                let title = self.conversations[ci].title.clone();
                let custom_title = if title.as_str().is_empty() { None } else { Some(title) };
                let mut v = ViewState {
                    conversation_path: id,
                    session_content: Some(content),
                    scroll_offset: 0,
                    rendered_lines: Vec::new(),
                    total_lines: 0,
                    tool_display: self.tool_display,
                    show_thinking: self.show_thinking,
                    show_timing: self.show_timing,
                    content_width,
                    search_mode: ViewSearchMode::Off,
                    search_query: String::new(),
                    search_matches: Vec::new(),
                    current_match: 0,
                    search_direction: SearchDirection::Forward,
                    search_start_offset: 0,
                    last_search_query: String::new(),
                    message_ranges: Vec::new(),
                    focused_message: None,
                    message_nav_active: false,
                    custom_title,
                    last_modified_ms: wall_ms,
                    live_follow: true,
                };
                assert(v@.lines =~= Seq::<LineView>::empty());
                v.re_render(aux, vh);
                self.put_view(v);
                self.set_turns(ci, n);
                self.sse_active = true;
                true
            },
        }
    }

    /// The session id of the open conversation (its path's file stem, or
    /// empty), in view mode.
    pub fn view_session_id(&self) -> (r: Option<String>)
        ensures
            match self@.view {
                Some(v) => opt_view(r) == Some(session_id_of(v.path)),
                None => r is None,
            },
    {
        match &self.app_mode {
            AppMode::View(v) => Some(session_id_of_path(v.conversation_path.as_str())),
            AppMode::List => None,
        }
    }

    fn find_conversation(&self, id: &str) -> (r: Option<usize>)
        ensures
            match r {
                Some(i) => crate::tui::view_state::first_index(self@.conversations, has_id(id@)) == Some(i as int)
                    && i < self@.conversations.len(),
                None => crate::tui::view_state::first_index(self@.conversations, has_id(id@)) is None,
            },
    {
        let mut i: usize = 0;
        while i < self.conversations.len()
            invariant
                i <= self@.conversations.len(),
                forall|j: int| 0 <= j < i ==> !(has_id(id@))(#[trigger] self@.conversations[j]),
            decreases self@.conversations.len() - i,
        {
            if crate::text::text_equals(self.conversations[i].id.as_str(), id) {
                proof {
                    crate::tui::view_state::lemma_first_found(self@.conversations, has_id(id@), i as int);
                }
                return Some(i);
            }
            i += 1;
        }
        proof {
            crate::tui::view_state::lemma_first_none(self@.conversations, has_id(id@));
        }
        None
    }

    /// The viewer `v` (taken out of `self`) renders the refreshed `content`,
    /// pinned to the end while following the session.
    fn refresh_with(&mut self, v: ViewState, content: OcSessionView, aux: &Vec<Vec<PartRendering>>, vh: usize)
        requires
            old(self).wf(),
            old(self)@.view is None,
            view_wf(v@),
            aux_fits(content, aux@),
        ensures
            final(self).wf(),
            final(self)@.view matches Some(w) && exists|r: ViewStateView|
                #[trigger] re_rendered_as(r, with_content(v@, content), aux@, vh) && w == (
                if r.live_follow {
                    ViewStateView { scroll: max_scroll_of(r.total_lines, vh), ..r }
                } else {
                    r
                }),
            final(self)@.conversations == match crate::tui::view_state::first_index(
                old(self)@.conversations,
                has_id(session_id_of(v@.path)),
            ) {
                Some(ci) => old(self)@.conversations.update(ci, with_turns(old(self)@.conversations[ci], content)),
                None => old(self)@.conversations,
            },
            final(self)@ == (AppView { conversations: final(self)@.conversations, view: final(self)@.view, ..old(self)@ }),
    {
        let mut v = v;
        let id = session_id_of_path(v.conversation_path.as_str());
        let n = count_assistant(&content.messages);
        v.session_content = Some(content);
        let ghost v1 = v@;
        v.re_render(aux, vh);
        let ghost r = v@;
        if v.live_follow {
            v.scroll_offset = if v.total_lines > vh { v.total_lines - vh } else { 0 };
        }
        assert(re_rendered_as(r, v1, aux@, vh));
        self.put_view(v);
        match self.find_conversation(id.as_str()) {
            Some(ci) => {
                self.set_turns(ci, n);
            },
            None => {},
        }
    }

    /// Takes the content fetched after a live update of the open session: the
    /// viewer renders it (pinned to the end while following it), and the list's
    /// turn count follows it; a failed fetch is reported.
    pub fn refresh_view(
        &mut self,
        fetched: Result<OcSessionView, AppError>,
        aux: &Vec<Vec<PartRendering>>,
        vh: usize,
        now_ms: u64,
    )
        requires
            old(self).wf(),
            fetched matches Ok(c) ==> aux_fits(c, aux@),
        ensures
            final(self).wf(),
            old(self)@.view is None ==> final(self)@ == old(self)@,
            old(self)@.view matches Some(v0) ==> ({
                let s = old(self)@;
                match fetched {
                    Err(e) => final(self)@ == with_status(s, "SSE refresh failed: "@ + error_text(e), now_ms),
                    Ok(content) => {
                        &&& final(self)@.view matches Some(w) && exists|r: ViewStateView|
                            #[trigger] re_rendered_as(r, with_content(v0, content), aux@, vh) && w == (
                            if r.live_follow {
                                ViewStateView { scroll: max_scroll_of(r.total_lines, vh), ..r }
                            } else {
                                r
                            })
                        &&& final(self)@.conversations == match crate::tui::view_state::first_index(
                            s.conversations,
                            has_id(session_id_of(v0.path)),
                        ) {
                            Some(ci) => s.conversations.update(ci, with_turns(s.conversations[ci], content)),
                            None => s.conversations,
                        }
                        &&& final(self)@ == (AppView { conversations: final(self)@.conversations, view: final(self)@.view, ..s })
                    },
                }
            }),
    {
        let v = match self.take_view() {
            Some(v) => v,
            None => {
                return;
            },
        };
        match fetched {
            Err(e) => {
                self.put_view(v);
                let mut m = string_of("SSE refresh failed: ");
                let t = e.message();
                push_str(&mut m, t.as_str());
                self.set_status_message(m.as_str(), now_ms);
            },
            Ok(content) => {
                self.refresh_with(v, content, aux, vh);
            },
        }
    }

    /// The live subscription to the open session is running (the application
    /// spawns it).
    pub fn start_sse_subscriber(&mut self)
        requires
            old(self).wf(),
        ensures
            final(self).wf(),
            final(self)@ == (AppView { sse_active: true, ..old(self)@ }),
    {
        self.sse_active = true;
    }

    /// The live subscription stops.
    pub fn stop_sse(&mut self)
        requires
            old(self).wf(),
        ensures
            final(self).wf(),
            final(self)@ == (AppView { sse_active: false, ..old(self)@ }),
    {
        self.sse_active = false;
    }

    /// A live event of the open session: content changes ask for a refresh
    /// (`true`); idleness and giving up are reported and end the subscription;
    /// reconnect attempts are reported.
    #[verifier::spinoff_prover]
    pub fn apply_sse_event(&mut self, ev: &SseEvent, now_ms: u64) -> (refresh: bool)
        requires
            old(self).wf(),
        ensures
            final(self).wf(),
            refresh == (*ev is ContentChanged),
            *ev is ContentChanged ==> final(self)@ == old(self)@,
            *ev is SessionIdle ==> final(self)@ == with_status(AppView { sse_active: false, ..old(self)@ }, "Session completed"@, now_ms),
            *ev matches SseEvent::Reconnecting { attempt } ==> final(self)@ == with_status(
                old(self)@,
                "SSE reconnecting (attempt "@ + decimal(attempt as nat) + ")\u{2026}"@,
                now_ms,
            ),
            *ev matches SseEvent::Failed(e) ==> final(self)@ == with_status(
                AppView { sse_active: false, ..old(self)@ },
                "SSE failed: "@ + e@,
                now_ms,
            ),
    {
        match ev {
            SseEvent::ContentChanged => true,
            SseEvent::SessionIdle => {
                self.set_status_message("Session completed", now_ms);
                self.sse_active = false;
                false
            },
            SseEvent::Reconnecting { attempt } => {
                let m = reconnect_text(*attempt);
                self.set_status_message(m.as_str(), now_ms);
                false
            },
            SseEvent::Failed(e) => {
                let m = prefixed("SSE failed: ", e.as_str());
                self.set_status_message(m.as_str(), now_ms);
                self.sse_active = false;
                false
            },
        }
    }

    /// Renders the open conversation again (after `Effect::ReRender`, or a
    /// resize), `aux` holding its renderings for the current settings.
    pub fn re_render_view(&mut self, aux: &Vec<Vec<PartRendering>>, vh: usize)
        requires
            old(self).wf(),
            old(self)@.view matches Some(v) ==> (v.content matches Some(c) ==> aux_fits(c, aux@)),
        ensures
            final(self).wf(),
            old(self)@.view is None ==> final(self)@ == old(self)@,
            old(self)@.view matches Some(v) ==> final(self)@.view matches Some(w) && re_rendered_as(w, v, aux@, vh)
                && final(self)@ == set_view(old(self)@, w),
    {
        match self.take_view() {
            Some(mut v) => {
                v.re_render(aux, vh);
                self.put_view(v);
            },
            None => {},
        }
    }

    /// A new content width: the viewer takes it and has to be rendered again
    /// (`true`).
    pub fn check_view_resize(&mut self, new_content_width: usize) -> (changed: bool)
        requires
            old(self).wf(),
        ensures
            final(self).wf(),
            changed == (old(self)@.view matches Some(v) && v.content_width != new_content_width),
            changed ==> final(self)@ == set_view(
                old(self)@,
                ViewStateView { content_width: new_content_width, ..old(self)@.view->0 },
            ),
            !changed ==> final(self)@ == old(self)@,
    {
        match self.take_view() {
            Some(mut v) => {
                if v.content_width != new_content_width {
                    v.content_width = new_content_width;
                    self.put_view(v);
                    true
                } else {
                    self.put_view(v);
                    false
                }
            },
            None => false,
        }
    }

    fn scroll_list(&mut self, delta: isize)
        requires
            old(self).wf(),
            delta != isize::MIN,
        ensures
            final(self).wf(),
            final(self)@ == scroll_list_of(old(self)@, delta as int),
    {
        let sel = match self.selected {
            Some(s) => s,
            None => {
                return;
            },
        };
        let max = if self.filtered.len() > 0 { self.filtered.len() - 1 } else { 0 };
        let n: usize = if delta >= 0 {
            let d = delta as usize;
            let t = if sel <= usize::MAX - d { sel + d } else { usize::MAX };
            if t < max { t } else { max }
        } else {
            let d = (-delta) as usize;
            if sel > d { sel - d } else { 0 }
        };
        self.selected = Some(n);
    }

    /// The mouse wheel: in the list the selection moves one entry per event,
    /// in the viewer the view scrolls by `delta` lines; nothing while a dialog
    /// is open.
    pub fn scroll_mouse(&mut self, delta: isize, vh: usize)
        requires
            old(self).wf(),
            delta != isize::MIN,
            old(self)@.view matches Some(v) ==> view_fits(v, vh),
        ensures
            final(self).wf(),
            old(self)@.dialog != DialogMode::Closed ==> final(self)@ == old(self)@,
            old(self)@.dialog == DialogMode::Closed ==> final(self)@ == match old(self)@.view {
                None => scroll_list_of(old(self)@, signum(delta as int)),
                Some(v) => set_view(old(self)@, scroll_by_of(v, delta as int, vh)),
            },
    {
        if self.dialog_mode != DialogMode::Closed {
            return;
        }
        match self.take_view() {
            Some(mut v) => {
                v.scroll_view(delta, vh);
                self.put_view(v);
            },
            None => {
                let step: isize = if delta > 0 { 1 } else if delta < 0 { -1 } else { 0 };
                self.scroll_list(step);
            },
        }
    }

    /// Scrolls the viewer by `delta` lines (see `scroll_by_of`); nothing in the list.
    pub fn scroll_view(&mut self, delta: isize, vh: usize)
        requires
            old(self).wf(),
            delta != isize::MIN,
            old(self)@.view matches Some(v) ==> view_fits(v, vh),
        ensures
            final(self).wf(),
            final(self)@ == match old(self)@.view {
                None => old(self)@,
                Some(v) => set_view(old(self)@, scroll_by_of(v, delta as int, vh)),
            },
    {
        match self.take_view() {
            Some(mut v) => {
                v.scroll_view(delta, vh);
                self.put_view(v);
            },
            None => {},
        }
    }

    /// A left click on the list (see `click_target`): the entry under it is
    /// selected and `true` asks to open it; nothing in the viewer, with a
    /// dialog open, or while loading.
    pub fn handle_list_click(&mut self, row: u16, frame_y: u16, frame_height: u16) -> (opened: bool)
        requires
            old(self).wf(),
        ensures
            final(self).wf(),
            ({
                let s = old(self)@;
                if s.view is Some || s.dialog != DialogMode::Closed || s.loading is Loading {
                    !opened && final(self)@ == s
                } else {
                    match click_target(s, row, frame_y, frame_height) {
                        Some(i) => opened && final(self)@ == (AppView { selected: Some(i), ..s }),
                        None => !opened && final(self)@ == s,
                    }
                }
            }),
    {
        let in_list = match &self.app_mode {
            AppMode::List => true,
            AppMode::View(_) => false,
        };
        if !in_list || self.dialog_mode != DialogMode::Closed || self.is_loading() {
            return false;
        }
        let q = trimmed(self.query.as_str());
        let blank = q.as_str().is_empty();
        match click_index(blank, self.selected, self.filtered.len(), row, frame_y, frame_height) {
            Some(i) => {
                self.selected = Some(i);
                true
            },
            None => false,
        }
    }

    // -----------------------------------------------------------------------
    // Exports and reports
    // -----------------------------------------------------------------------

    /// The export asked for by `Effect::Export`: the open session in `format`
    /// (rendered with the viewer's settings, `aux` holding its renderings), for
    /// the clipboard or for a file named after the title and the time the
    /// conversation was opened. `None` without an open session.
    pub fn export_request(&self, format: ExportFormat, to_clipboard: bool, aux: &Vec<Vec<PartRendering>>) -> (r: Option<ExportJob>)
        requires
            self@.view matches Some(v) ==> (v.content matches Some(c) ==> aux_fits(c, aux@)),
        ensures
            match self@.view {
                Some(v) => match v.content {
                    Some(c) => {
                        let text = export_doc(c, format, aux_view(aux@), v.tool_display, v.show_thinking, v.show_timing);
                        if to_clipboard {
                            r matches Some(ExportJob::Clipboard { text: t }) && t@ == text
                        } else {
                            r matches Some(ExportJob::File { filename, text: t }) && t@ == text && exists|stamp: Seq<char>|
                                filename@ == #[trigger] export_filename(export_title(v), stamp, format)
                        }
                    },
                    None => r is None,
                },
                None => r is None,
            },
    {
        let v = match &self.app_mode {
            AppMode::View(v) => v,
            AppMode::List => {
                return None;
            },
        };
        let session = match &v.session_content {
            Some(c) => c,
            None => {
                return None;
            },
        };
        let text = render_oc_export(session, format, aux, v.tool_display, v.show_thinking, v.show_timing);
        if to_clipboard {
            return Some(ExportJob::Clipboard { text });
        }
        let title: &str = match &v.custom_title {
            Some(t) => t.as_str(),
            None => "session",
        };
        proof {
            reveal_strlit("session");
        }
        let mut name = sanitize_filename(title);
        push_str(&mut name, "--");
        let stamp = file_stamp(v.last_modified_ms);
        push_str(&mut name, stamp.as_str());
        push_str(&mut name, ".");
        push_str(&mut name, format.extension());
        assert(name@ == export_filename(export_title(v@), stamp@, format));
        Some(ExportJob::File { filename: name, text })
    }

    /// Reports a clipboard copy: `success` when it worked, else the error.
    pub fn clipboard_finished(&mut self, success: &str, result: &Result<(), String>, now_ms: u64)
        requires
            old(self).wf(),
        ensures
            final(self).wf(),
            final(self)@ == with_status(
                old(self)@,
                match result {
                    Ok(()) => success@,
                    Err(e) => e@,
                },
                now_ms,
            ),
    {
        match result {
            Ok(()) => self.set_status_message(success, now_ms),
            Err(e) => self.set_status_message(e.as_str(), now_ms),
        }
    }

    /// Reports an export written to a file.
    pub fn file_written(&mut self, filename: &str, result: &Result<(), String>, now_ms: u64)
        requires
            old(self).wf(),
        ensures
            final(self).wf(),
            final(self)@ == with_status(
                old(self)@,
                match result {
                    Ok(()) => "Exported to "@ + filename@,
                    Err(e) => "Failed to write: "@ + e@,
                },
                now_ms,
            ),
    {
        let mut m = match result {
            Ok(()) => {
                let mut m = string_of("Exported to ");
                push_str(&mut m, filename);
                m
            },
            Err(e) => {
                let mut m = string_of("Failed to write: ");
                push_str(&mut m, e.as_str());
                m
            },
        };
        self.set_status_message(m.as_str(), now_ms);
    }

    /// The answer to a delete request for the selected conversation
    /// `session_id`: deleted, it leaves the list and the viewer closes; gone
    /// already, it leaves the list; refused or failed, the status says so.
    pub fn apply_delete_result(&mut self, session_id: &str, result: &Result<DeleteResult, AppError>, now_ms: u64)
        requires
            old(self).wf(),
            old(self)@.generation < u64::MAX,
        ensures
            final(self).wf(),
            final(self)@ == match result {
                Ok(DeleteResult::Deleted) => with_status(exit_view_of(removed_of(old(self)@)), "Deleted "@ + session_id@, now_ms),
                Ok(DeleteResult::NotFound) => with_status(removed_of(old(self)@), "Session already gone (404)"@, now_ms),
                Ok(DeleteResult::Refused(m)) => with_status(old(self)@, "Delete refused: "@ + m@, now_ms),
                Err(e) => with_status(old(self)@, "Delete failed: "@ + error_text(*e), now_ms),
            },
    {
        match result {
            Ok(DeleteResult::Deleted) => {
                self.remove_selected_from_list();
                self.exit_view_mode();
                let mut m = string_of("Deleted ");
                push_str(&mut m, session_id);
                self.set_status_message(m.as_str(), now_ms);
            },
            Ok(DeleteResult::NotFound) => {
                self.remove_selected_from_list();
                self.set_status_message("Session already gone (404)", now_ms);
            },
            Ok(DeleteResult::Refused(msg)) => {
                let mut m = string_of("Delete refused: ");
                push_str(&mut m, msg.as_str());
                self.set_status_message(m.as_str(), now_ms);
            },
            Err(e) => {
                let mut m = string_of("Delete failed: ");
                let t = e.message();
                push_str(&mut m, t.as_str());
                self.set_status_message(m.as_str(), now_ms);
            },
        }
    }

    /// How long the loop may wait for input: briefly while loading, while
    /// following a session, or while a search runs; until the status message
    /// expires; else an hour.
    pub fn poll_timeout_ms(&self, now_ms: u64) -> (r: u64)
        ensures
            self@.loading is Loading ==> r == 50,
            !(self@.loading is Loading) && self@.sse_active ==> r == 100,
            !(self@.loading is Loading) && !self@.sse_active && self@.in_flight ==> r == 8,
            !(self@.loading is Loading) && !self@.sse_active && !self@.in_flight ==> r == match status_remaining_of(
                self@,
                now_ms,
            ) {
                Some(ms) => ms,
                None => 3_600_000,
            },
    {
        if self.is_loading() {
            50
        } else if self.sse_active {
            100
        } else if self.search_in_flight {
            8
        } else {
            match self.status_message_remaining(now_ms) {
                Some(ms) => ms,
                None => 3_600_000,
            }
        }
    }
}

fn reconnect_text(attempt: u32) -> (r: String)
    ensures
        r@ == "SSE reconnecting (attempt "@ + decimal(attempt as nat) + ")\u{2026}"@,
{
    let mut m = string_of("SSE reconnecting (attempt ");
    crate::text::push_decimal(&mut m, attempt as u64);
    push_str(&mut m, ")\u{2026}");
    m
}

fn prefixed(p: &str, t: &str) -> (r: String)
    ensures
        r@ == p@ + t@,
{
    let mut m = string_of(p);
    push_str(&mut m, t);
    m
}

/// The status shown for actions not available yet.
pub fn deferred_action_notice(a: &Action) -> (r: Option<&'static str>)
    ensures
        *a is Select ==> (r matches Some(t) && t@ == "Select mode: deferred to later stage"@),
        !(*a is Select) ==> r is None,
{
    match a {
        Action::Select(_) => Some("Select mode: deferred to later stage"),
        _ => None,
    }
}

/// The arguments of the `octmux` command that resumes (`--resume`) or forks
/// (`--fork`) the session of a resume action; `None` for other actions.
pub open spec fn octmux_args_of(a: ActionView) -> Option<Seq<Seq<char>>> {
    match a {
        ActionView::Resume(p) => Some(seq!["--resume"@, session_id_of(p)]),
        ActionView::ForkResume(p) => Some(seq!["--fork"@, session_id_of(p)]),
        _ => None,
    }
}

/// The command-line arguments for `octmux` that carry out a resume or fork
/// action (the application runs it and exits when it ends).
pub fn octmux_args(a: &Action) -> (r: Option<Vec<String>>)
    ensures
        match r {
            Some(v) => octmux_args_of(a@) == Some(v@.map_values(|t: String| t@)),
            None => octmux_args_of(a@) is None,
        },
{
    proof {
        reveal_strlit("--resume");
        reveal_strlit("--fork");
    }
    let (flag, path) = match a {
        Action::Resume(p) => ("--resume", p),
        Action::ForkResume(p) => ("--fork", p),
        _ => {
            return None;
        },
    };
    let mut v: Vec<String> = Vec::new();
    v.push(string_of(flag));
    v.push(session_id_of_path(path.as_str()));
    assert(v@.map_values(|t: String| t@) =~= octmux_args_of(a@)->0);
    Some(v)
}

/// Why `octmux` could not be started.
#[derive(Debug)]
pub enum SpawnFailure {
    /// The command is not on `$PATH`.
    NotFound,
    /// Any other error, described by its text.
    Other(String),
}

/// The status after `octmux` could not be started for a resume (`fork`
/// false) or a fork.
pub open spec fn spawn_failure_text_of(fork: bool, f: SpawnFailure) -> Seq<char> {
    match f {
        SpawnFailure::NotFound => "octmux not found in $PATH \u{2014} install octmux to use resume"@,
        SpawnFailure::Other(e) => (if fork { "octmux --fork failed: "@ } else { "octmux --resume failed: "@ }) + e@,
    }
}

pub fn spawn_failure_text(fork: bool, f: &SpawnFailure) -> (r: String)
    ensures
        r@ == spawn_failure_text_of(fork, *f),
{
    match f {
        SpawnFailure::NotFound => string_of("octmux not found in $PATH \u{2014} install octmux to use resume"),
        SpawnFailure::Other(e) => {
            let mut m = if fork { string_of("octmux --fork failed: ") } else { string_of("octmux --resume failed: ") };
            push_str(&mut m, e.as_str());
            m
        },
    }
}

/// Milliseconds a status message shows.
pub const STATUS_TTL_MS: u64 = 3000;

} // verus!
