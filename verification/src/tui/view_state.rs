//! The conversation viewer's state: scrolling, message focus, search within
//! the rendered lines, and keeping the viewport on the same message when the
//! conversation is rendered again.

use vstd::prelude::*;
use crate::opencode::models::OcSessionView;
use crate::text::{
    chars_contain, chars_of, contains_seq, is_white_space, is_white_space_exec, lowercase, push_char, push_str,
    string_from_chars, string_of, to_lowercase,
};
use crate::tui::keys::{KeyCode, KeyInput, is_char};
use crate::tui::app::{RenderedLine, SpanView};
use crate::tui::viewer::{LineView, PartRendering, aux_fits, lines_view, renders_as};
use crate::tui::{MessageRange, RenderOptions, ToolDisplayMode, content_value, render_conversation};

verus! {

broadcast use vstd::string::group_string_axioms, vstd::seq_lib::group_seq_lib_default;

/// Search state within the viewer.
#[derive(Clone, Copy, Debug, PartialEq, Eq, Structural)]
pub enum ViewSearchMode {
    Off,
    /// Typing the search query.
    Typing,
    /// Search active, navigating the results.
    Active,
}

impl Default for ViewSearchMode {
    fn default() -> (r: Self)
        ensures
            r == ViewSearchMode::Off,
    {
        ViewSearchMode::Off
    }
}

#[derive(Clone, Copy, Debug, PartialEq, Eq, Structural)]
pub enum SearchDirection {
    Forward,
    Backward,
}

impl Default for SearchDirection {
    fn default() -> (r: Self)
        ensures
            r == SearchDirection::Forward,
    {
        SearchDirection::Forward
    }
}

/// State of the conversation viewer.
#[derive(Debug)]
pub struct ViewState {
    /// Identity of the conversation: the session id.
    pub conversation_path: String,
    /// The session's content from the endpoint.
    pub session_content: Option<OcSessionView>,
    /// Current scroll position (line offset).
    pub scroll_offset: usize,
    /// The rendered conversation lines.
    pub rendered_lines: Vec<RenderedLine>,
    /// Total content height in lines.
    pub total_lines: usize,
    pub tool_display: ToolDisplayMode,
    pub show_thinking: bool,
    pub show_timing: bool,
    /// Width the conversation was rendered for.
    pub content_width: usize,
    pub search_mode: ViewSearchMode,
    pub search_query: String,
    /// Indices of the lines that match the search, increasing.
    pub search_matches: Vec<usize>,
    /// Position in `search_matches` of the current match.
    pub current_match: usize,
    pub search_direction: SearchDirection,
    /// Scroll position when the search started; the first jump goes to the
    /// match nearest to it.
    pub search_start_offset: usize,
    pub last_search_query: String,
    /// The line range of each message.
    pub message_ranges: Vec<MessageRange>,
    /// Index into `message_ranges` of the focused message.
    pub focused_message: Option<usize>,
    /// Message navigation mode (shows the gutter marker).
    pub message_nav_active: bool,
    /// Title used to name exports.
    pub custom_title: Option<String>,
    /// When the conversation was opened, in milliseconds since the epoch; used
    /// to name exports.
    pub last_modified_ms: i64,
    /// Keep the view pinned to the bottom when the session grows.
    pub live_follow: bool,
}

/// The viewer state by value.
pub struct ViewStateView {
    pub path: Seq<char>,
    pub content: Option<OcSessionView>,
    pub scroll: usize,
    pub lines: Seq<LineView>,
    pub total_lines: usize,
    pub tool_display: ToolDisplayMode,
    pub show_thinking: bool,
    pub show_timing: bool,
    pub content_width: usize,
    pub search_mode: ViewSearchMode,
    pub query: Seq<char>,
    pub matches: Seq<usize>,
    pub current: usize,
    pub direction: SearchDirection,
    pub search_start: usize,
    pub last_query: Seq<char>,
    pub ranges: Seq<MessageRange>,
    pub focused: Option<usize>,
    pub nav: bool,
    pub custom_title: Option<Seq<char>>,
    pub last_modified_ms: i64,
    pub live_follow: bool,
}

pub open spec fn opt_chars(o: Option<String>) -> Option<Seq<char>> {
    match o {
        Some(s) => Some(s@),
        None => None,
    }
}

impl View for ViewState {
    type V = ViewStateView;

    open spec fn view(&self) -> ViewStateView {
        ViewStateView {
            path: self.conversation_path@,
            content: self.session_content,
            scroll: self.scroll_offset,
            lines: lines_view(self.rendered_lines@),
            total_lines: self.total_lines,
            tool_display: self.tool_display,
            show_thinking: self.show_thinking,
            show_timing: self.show_timing,
            content_width: self.content_width,
            search_mode: self.search_mode,
            query: self.search_query@,
            matches: self.search_matches@,
            current: self.current_match,
            direction: self.search_direction,
            search_start: self.search_start_offset,
            last_query: self.last_search_query@,
            ranges: self.message_ranges@,
            focused: self.focused_message,
            nav: self.message_nav_active,
            custom_title: opt_chars(self.custom_title),
            last_modified_ms: self.last_modified_ms,
            live_follow: self.live_follow,
        }
    }
}

// ---------------------------------------------------------------------------
// First matching position
// ---------------------------------------------------------------------------

/// `i` is the first position of `s` where `p` holds.
pub open spec fn is_first<T>(s: Seq<T>, p: spec_fn(T) -> bool, i: int) -> bool {
    &&& 0 <= i < s.len()
    &&& p(s[i])
    &&& forall|j: int| 0 <= j < i ==> !p(#[trigger] s[j])
}

/// The first position of `s` where `p` holds, if any.
pub open spec fn first_index<T>(s: Seq<T>, p: spec_fn(T) -> bool) -> Option<int> {
    if exists|i: int| is_first(s, p, i) {
        Some(choose|i: int| is_first(s, p, i))
    } else {
        None
    }
}

pub(crate) proof fn lemma_first_found<T>(s: Seq<T>, p: spec_fn(T) -> bool, i: int)
    requires
        is_first(s, p, i),
    ensures
        first_index(s, p) == Some(i),
{
    let k = choose|k: int| is_first(s, p, k);
    if k < i {
        assert(!p(s[k]));
    } else if i < k {
        assert(!p(s[i]));
    }
}

pub(crate) proof fn lemma_first_none<T>(s: Seq<T>, p: spec_fn(T) -> bool)
    requires
        forall|j: int| 0 <= j < s.len() ==> !p(#[trigger] s[j]),
    ensures
        first_index(s, p) is None,
{
}

/// The message range holds line `line` (end exclusive).
pub open spec fn holds_line(line: int) -> spec_fn(MessageRange) -> bool {
    |m: MessageRange| m.start_line <= line && line < m.end_line
}

/// The message range meets the lines `from..to`.
pub open spec fn meets(from: int, to: int) -> spec_fn(MessageRange) -> bool {
    |m: MessageRange| m.end_line > from && m.start_line < to
}

fn find_holding(ranges: &Vec<MessageRange>, line: usize) -> (r: Option<usize>)
    ensures
        first_index(ranges@, holds_line(line as int)) == match r {
            Some(i) => Some(i as int),
            None => None::<int>,
        },
{
    let mut i: usize = 0;
    while i < ranges.len()
        invariant
            i <= ranges@.len(),
            forall|j: int| 0 <= j < i ==> !(holds_line(line as int))(#[trigger] ranges@[j]),
        decreases ranges@.len() - i,
    {
        let m = ranges[i];
        if line >= m.start_line && line < m.end_line {
            proof {
                lemma_first_found(ranges@, holds_line(line as int), i as int);
            }
            return Some(i);
        }
        i += 1;
    }
    proof {
        lemma_first_none(ranges@, holds_line(line as int));
    }
    None
}

fn find_meeting(ranges: &Vec<MessageRange>, from: usize, to: usize) -> (r: Option<usize>)
    ensures
        first_index(ranges@, meets(from as int, to as int)) == match r {
            Some(i) => Some(i as int),
            None => None::<int>,
        },
{
    let mut i: usize = 0;
    while i < ranges.len()
        invariant
            i <= ranges@.len(),
            forall|j: int| 0 <= j < i ==> !(meets(from as int, to as int))(#[trigger] ranges@[j]),
        decreases ranges@.len() - i,
    {
        let m = ranges[i];
        if m.end_line > from && m.start_line < to {
            proof {
                lemma_first_found(ranges@, meets(from as int, to as int), i as int);
            }
            return Some(i);
        }
        i += 1;
    }
    proof {
        lemma_first_none(ranges@, meets(from as int, to as int));
    }
    None
}

// ---------------------------------------------------------------------------
// Scrolling and focus
// ---------------------------------------------------------------------------

/// The largest scroll position: the total less the viewport, or zero.
pub open spec fn max_scroll_of(total: usize, vh: usize) -> usize {
    if total > vh { (total - vh) as usize } else { 0 }
}

/// `a - b`, or zero when `b` is larger.
pub open spec fn sat_sub(a: usize, b: usize) -> usize {
    if a > b { (a - b) as usize } else { 0 }
}

pub open spec fn min_of(a: int, b: int) -> int {
    if a < b { a } else { b }
}

/// Focus the first message that shows in the viewport, when there is one.
pub open spec fn focus_to_scroll(v: ViewStateView, vh: usize) -> ViewStateView {
    match first_index(v.ranges, meets(v.scroll as int, v.scroll + vh)) {
        Some(i) => ViewStateView { focused: Some(i as usize), ..v },
        None => v,
    }
}

/// After a scroll: in message navigation, the focus follows the viewport.
pub open spec fn sync_after_scroll(v: ViewStateView, vh: usize) -> ViewStateView {
    if v.nav { focus_to_scroll(v, vh) } else { v }
}

/// Scroll so that the focused message starts inside the viewport.
pub open spec fn ensure_visible(v: ViewStateView, vh: usize) -> ViewStateView {
    match v.focused {
        Some(i) => if i < v.ranges.len() {
            let start = v.ranges[i as int].start_line;
            if start < v.scroll || start >= v.scroll + vh {
                ViewStateView { scroll: min_of(start as int, max_scroll_of(v.total_lines, vh) as int) as usize, ..v }
            } else {
                v
            }
        } else {
            v
        },
        None => v,
    }
}

/// Turn message navigation on, the focus following the viewport.
pub open spec fn activate_nav(v: ViewStateView, vh: usize) -> ViewStateView {
    if v.nav { v } else { focus_to_scroll(ViewStateView { nav: true, ..v }, vh) }
}

/// `J`/`]`: focus the next message (staying on the last one).
pub open spec fn focus_next_of(v: ViewStateView, vh: usize) -> ViewStateView {
    if v.ranges.len() == 0 {
        v
    } else {
        let w = activate_nav(v, vh);
        let next: usize = match w.focused {
            Some(i) => if i + 1 < w.ranges.len() { (i + 1) as usize } else { i },
            None => 0,
        };
        ensure_visible(ViewStateView { focused: Some(next), ..w }, vh)
    }
}

/// `K`/`[`: focus the previous message (staying on the first one).
pub open spec fn focus_prev_of(v: ViewStateView, vh: usize) -> ViewStateView {
    if v.ranges.len() == 0 {
        v
    } else {
        let w = activate_nav(v, vh);
        let prev: usize = match w.focused {
            Some(i) => if i > 0 { (i - 1) as usize } else { i },
            None => 0,
        };
        ensure_visible(ViewStateView { focused: Some(prev), ..w }, vh)
    }
}

/// The viewer after `J` (`next`) or `K`.
pub open spec fn moved(v: ViewStateView, vh: usize, next: bool) -> ViewStateView {
    if next { focus_next_of(v, vh) } else { focus_prev_of(v, vh) }
}

/// After `J` or `K` the focused message is one of the messages, and it starts
/// inside the viewport; only a message that starts beyond the last scroll
/// position leaves the viewport at that last position. With navigation on,
/// `J` moves the focus to the next message and `K` to the previous one
/// (staying on the last and the first).
pub proof fn lemma_focus_moves_into_view(v: ViewStateView, vh: usize, next: bool)
    requires
        0 < v.ranges.len() <= usize::MAX,
        vh > 0,
        v.focused matches Some(i) ==> i < v.ranges.len(),
    ensures
        moved(v, vh, next).focused is Some,
        moved(v, vh, next).focused->0 < v.ranges.len(),
        moved(v, vh, next).ranges == v.ranges,
        (moved(v, vh, next).scroll <= v.ranges[moved(v, vh, next).focused->0 as int].start_line
            && v.ranges[moved(v, vh, next).focused->0 as int].start_line < moved(v, vh, next).scroll + vh) || (
        v.ranges[moved(v, vh, next).focused->0 as int].start_line > max_scroll_of(v.total_lines, vh)
            && moved(v, vh, next).scroll == max_scroll_of(v.total_lines, vh)),
        v.nav && v.focused is Some ==> moved(v, vh, next).focused->0 == (if next {
            if v.focused->0 + 1 < v.ranges.len() { v.focused->0 + 1 } else { v.focused->0 as int }
        } else {
            if v.focused->0 > 0 { v.focused->0 - 1 } else { v.focused->0 as int }
        }),
{
    lemma_first_index_in(v.ranges, meets(v.scroll as int, v.scroll + vh));
    let w0 = activate_nav(v, vh);
    assert(w0.ranges == v.ranges);
    assert(w0.focused matches Some(i) ==> i < v.ranges.len());
    let idx: usize = if next {
        match w0.focused {
            Some(i) => if i + 1 < w0.ranges.len() { (i + 1) as usize } else { i },
            None => 0,
        }
    } else {
        match w0.focused {
            Some(i) => if i > 0 { (i - 1) as usize } else { i },
            None => 0,
        }
    };
    let u = ViewStateView { focused: Some(idx), ..w0 };
    let w = ensure_visible(u, vh);
    assert(w == moved(v, vh, next));
    assert(idx < v.ranges.len());
    let st = v.ranges[idx as int].start_line;
    let max = max_scroll_of(v.total_lines, vh);
    assert((w.scroll <= st && st < w.scroll + vh) || (st > max && w.scroll == max));
    assert(w.focused == Some(idx));
    assert(w.ranges == v.ranges);
    if v.nav && v.focused is Some {
        assert(w0 == v);
    }
}

/// The position that `first_index` finds is a position of the sequence.
proof fn lemma_first_index_in<T>(s: Seq<T>, p: spec_fn(T) -> bool)
    ensures
        first_index(s, p) matches Some(i) ==> 0 <= i < s.len(),
{
    if exists|i: int| is_first(s, p, i) {
        let k = choose|i: int| #[trigger] is_first(s, p, i);
        assert(is_first(s, p, k));
    }
}

/// Focus the message holding line `line`, turning navigation on.
pub open spec fn focus_at_line(v: ViewStateView, line: usize) -> ViewStateView {
    match first_index(v.ranges, holds_line(line as int)) {
        Some(i) => ViewStateView { nav: true, focused: Some(i as usize), ..v },
        None => v,
    }
}

/// The additions of viewport arithmetic fit in `usize`.
pub open spec fn view_fits(v: ViewStateView, vh: usize) -> bool {
    &&& v.scroll + vh + 1 <= usize::MAX
    &&& v.lines.len() + vh + 1 <= usize::MAX
    &&& forall|i: int| 0 <= i < v.matches.len() ==> #[trigger] v.matches[i] + vh + 1 <= usize::MAX
    &&& forall|i: int| 0 <= i < v.ranges.len() ==> #[trigger] v.ranges[i].start_line + vh + 1 <= usize::MAX
}

/// What the viewer state keeps: the current match indexes the matches.
pub open spec fn view_wf(v: ViewStateView) -> bool {
    v.matches.len() > 0 ==> v.current < v.matches.len()
}

impl ViewState {
    /// Focus the first message that shows in the viewport.
    pub fn sync_focus_to_scroll(&mut self, vh: usize)
        requires
            old(self).scroll_offset + vh <= usize::MAX,
        ensures
            final(self)@ == (if old(self)@.ranges.len() == 0 { old(self)@ } else { focus_to_scroll(old(self)@, vh) }),
    {
        if self.message_ranges.len() == 0 {
            return;
        }
        let from = self.scroll_offset;
        let to = from + vh;
        match find_meeting(&self.message_ranges, from, to) {
            Some(i) => {
                self.focused_message = Some(i);
            },
            None => {},
        }
    }

    fn sync_focus_after_scroll(&mut self, vh: usize)
        requires
            old(self).scroll_offset + vh <= usize::MAX,
        ensures
            final(self)@ == sync_after_scroll(old(self)@, vh),
    {
        if self.message_nav_active {
            self.sync_focus_to_scroll(vh);
        }
    }

    fn ensure_message_visible(&mut self, vh: usize)
        requires
            old(self).scroll_offset + vh <= usize::MAX,
        ensures
            final(self)@ == ensure_visible(old(self)@, vh),
    {
        match self.focused_message {
            Some(i) => {
                if i < self.message_ranges.len() {
                    let start = self.message_ranges[i].start_line;
                    let max = if self.total_lines > vh { self.total_lines - vh } else { 0 };
                    if start < self.scroll_offset || start >= self.scroll_offset + vh {
                        self.scroll_offset = if start < max { start } else { max };
                    }
                }
            },
            None => {},
        }
    }

    fn activate_nav(&mut self, vh: usize)
        requires
            old(self).scroll_offset + vh <= usize::MAX,
        ensures
            old(self)@.ranges.len() > 0 ==> final(self)@ == activate_nav(old(self)@, vh),
    {
        if !self.message_nav_active {
            self.message_nav_active = true;
            self.sync_focus_to_scroll(vh);
        }
    }

    /// Focus the next message.
    pub fn focus_next_message(&mut self, vh: usize)
        requires
            old(self).scroll_offset + vh <= usize::MAX,
        ensures
            final(self)@ == focus_next_of(old(self)@, vh),
    {
        if self.message_ranges.len() == 0 {
            return;
        }
        self.activate_nav(vh);
        let next: usize = match self.focused_message {
            Some(i) => if i < usize::MAX && i + 1 < self.message_ranges.len() { i + 1 } else { i },
            None => 0,
        };
        self.focused_message = Some(next);
        self.ensure_message_visible(vh);
    }

    /// Focus the previous message.
    pub fn focus_prev_message(&mut self, vh: usize)
        requires
            old(self).scroll_offset + vh <= usize::MAX,
        ensures
            final(self)@ == focus_prev_of(old(self)@, vh),
    {
        if self.message_ranges.len() == 0 {
            return;
        }
        self.activate_nav(vh);
        let prev: usize = match self.focused_message {
            Some(i) => if i > 0 { i - 1 } else { i },
            None => 0,
        };
        self.focused_message = Some(prev);
        self.ensure_message_visible(vh);
    }

    /// Focus the message holding `line`.
    pub fn focus_message_at_line(&mut self, line: usize)
        ensures
            final(self)@ == focus_at_line(old(self)@, line),
    {
        match find_holding(&self.message_ranges, line) {
            Some(i) => {
                self.message_nav_active = true;
                self.focused_message = Some(i);
            },
            None => {},
        }
    }
}

// ---------------------------------------------------------------------------
// Search
// ---------------------------------------------------------------------------

/// The text of a line: its spans' texts joined.
pub open spec fn line_text(l: LineView) -> Seq<char>
    decreases l.len(),
{
    if l.len() == 0 {
        Seq::empty()
    } else {
        line_text(l.drop_last()) + l.last().0
    }
}

/// The lowercased text of the line holds `query_lower`.
pub open spec fn line_matches(l: LineView, query_lower: Seq<char>) -> bool {
    contains_seq(lowercase(line_text(l)), query_lower)
}

/// Whether a rendered line matches the (lowercased) search query; the spans
/// are joined first, so a query can match across span boundaries.
pub fn line_matches_query(line: &RenderedLine, query_lower: &str) -> (r: bool)
    ensures
        r == line_matches(line@, query_lower@),
{
    let mut full = String::new();
    let mut i: usize = 0;
    while i < line.spans.len()
        invariant
            i <= line.spans@.len(),
            full@ == line_text(line@.take(i as int)),
        decreases line.spans@.len() - i,
    {
        push_str(&mut full, line.spans[i].0.as_str());
        assert(line@.take(i + 1).drop_last() =~= line@.take(i as int));
        i += 1;
    }
    assert(line@.take(line.spans@.len() as int) =~= line@);
    let lower = to_lowercase(full.as_str());
    let h = chars_of(lower.as_str());
    let n = chars_of(query_lower);
    chars_contain(h.as_slice(), n.as_slice())
}

/// Indices of the lines that match, in increasing order.
pub open spec fn matching_lines(ls: Seq<LineView>, query_lower: Seq<char>) -> Seq<usize>
    decreases ls.len(),
{
    if ls.len() == 0 {
        Seq::empty()
    } else {
        matching_lines(ls.drop_last(), query_lower) + if line_matches(ls.last(), query_lower) {
            seq![(ls.len() - 1) as usize]
        } else {
            Seq::empty()
        }
    }
}

proof fn lemma_matching_bounded(ls: Seq<LineView>, q: Seq<char>)
    requires
        ls.len() <= usize::MAX,
    ensures
        matching_lines(ls, q).len() <= ls.len(),
        forall|i: int| 0 <= i < matching_lines(ls, q).len() ==> #[trigger] matching_lines(ls, q)[i] < ls.len(),
        forall|i: int, j: int|
            0 <= i < j < matching_lines(ls, q).len() ==> #[trigger] matching_lines(ls, q)[i]
                < #[trigger] matching_lines(ls, q)[j],
    decreases ls.len(),
{
    if ls.len() > 0 {
        lemma_matching_bounded(ls.drop_last(), q);
        let a = matching_lines(ls.drop_last(), q);
        let m = matching_lines(ls, q);
        let tail = if line_matches(ls.last(), q) { seq![(ls.len() - 1) as usize] } else { Seq::<usize>::empty() };
        assert(m == a + tail);
        assert forall|i: int, j: int| 0 <= i < j < m.len() implies #[trigger] m[i] < #[trigger] m[j] by {
            if j < a.len() {
                assert(m[i] == a[i] && m[j] == a[j]);
            } else {
                assert(m[i] == a[i]);
                assert(a[i] < ls.drop_last().len());
                assert(m[j] == tail[j - a.len()]);
            }
        }
    }
}

fn matching_line_indices(lines: &Vec<RenderedLine>, query_lower: &str) -> (r: Vec<usize>)
    ensures
        r@ == matching_lines(lines_view(lines@), query_lower@),
{
    let mut r: Vec<usize> = Vec::new();
    let mut i: usize = 0;
    while i < lines.len()
        invariant
            i <= lines@.len(),
            r@ == matching_lines(lines_view(lines@).take(i as int), query_lower@),
        decreases lines@.len() - i,
    {
        let ghost t = lines_view(lines@).take(i + 1);
        assert(t.drop_last() =~= lines_view(lines@).take(i as int));
        assert(t.last() == lines@[i as int]@);
        if line_matches_query(&lines[i], query_lower) {
            r.push(i);
        } else {
            assert(r@ =~= r@ + Seq::<usize>::empty());
        }
        i += 1;
    }
    assert(lines_view(lines@).take(lines@.len() as int) =~= lines_view(lines@));
    r
}

/// How many of `m` are below `t` (with `or_equal`, at most `t`).
pub open spec fn count_below(m: Seq<usize>, t: usize, or_equal: bool) -> nat
    decreases m.len(),
{
    if m.len() == 0 {
        0
    } else {
        count_below(m.drop_last(), t, or_equal) + if m.last() < t || (or_equal && m.last() == t) {
            1nat
        } else {
            0nat
        }
    }
}

proof fn lemma_count_below_len(m: Seq<usize>, t: usize, or_equal: bool)
    ensures
        count_below(m, t, or_equal) <= m.len(),
    decreases m.len(),
{
    if m.len() > 0 {
        lemma_count_below_len(m.drop_last(), t, or_equal);
    }
}

fn count_below_exec(m: &Vec<usize>, t: usize, or_equal: bool) -> (r: usize)
    ensures
        r == count_below(m@, t, or_equal),
{
    let mut c: usize = 0;
    let mut i: usize = 0;
    while i < m.len()
        invariant
            i <= m@.len(),
            c == count_below(m@.take(i as int), t, or_equal),
            c <= i,
        decreases m@.len() - i,
    {
        assert(m@.take(i + 1).drop_last() =~= m@.take(i as int));
        if m[i] < t || (or_equal && m[i] == t) {
            c += 1;
        }
        i += 1;
    }
    assert(m@.take(m@.len() as int) =~= m@);
    c
}

/// The match to jump to first: forward, the first match at or after `start`
/// (wrapping to the first); backward, the last match at or before `start`
/// (wrapping to the last).
pub open spec fn nearest_match(m: Seq<usize>, start: usize, dir: SearchDirection) -> int {
    match dir {
        SearchDirection::Forward => {
            let pos = count_below(m, start, false);
            if pos >= m.len() { 0 } else { pos as int }
        },
        SearchDirection::Backward => {
            let pos = count_below(m, start, true);
            if pos == 0 { m.len() - 1 } else { pos - 1 }
        },
    }
}

/// In an increasing sequence, the elements below `t` (with `or_equal`, at most
/// `t`) are exactly the first `count_below` ones.
proof fn lemma_count_below_prefix(m: Seq<usize>, t: usize, or_equal: bool)
    requires
        forall|i: int, j: int| 0 <= i < j < m.len() ==> #[trigger] m[i] < #[trigger] m[j],
    ensures
        count_below(m, t, or_equal) <= m.len(),
        forall|j: int|
            0 <= j < m.len() ==> (j < count_below(m, t, or_equal) <==> (#[trigger] m[j] < t || (or_equal && m[j] == t))),
    decreases m.len(),
{
    if m.len() > 0 {
        let d = m.drop_last();
        assert forall|i: int, j: int| 0 <= i < j < d.len() implies #[trigger] d[i] < #[trigger] d[j] by {
            assert(d[i] == m[i] && d[j] == m[j]);
        }
        lemma_count_below_prefix(d, t, or_equal);
        let last = m.len() - 1;
        assert forall|j: int| 0 <= j < m.len() implies (j < count_below(m, t, or_equal) <==> (#[trigger] m[j] < t || (
        or_equal && m[j] == t))) by {
            if j < last {
                assert(m[j] == d[j]);
                assert(m[j] < m[last]);
            }
        }
    }
}

/// Typing a search query finds the lines that hold it and jumps to the match
/// nearest to where the search started: searching forward, the first match
/// at or after that line (the first match when none is); searching backward,
/// the last match at or before it (the last match when none is). The view
/// scrolls to the chosen match.
pub proof fn lemma_search_jumps_to_nearest(v: ViewStateView)
    requires
        v.lines.len() <= usize::MAX,
        lowercase(v.query).len() > 0,
    ensures
        update_results(v).matches == matching_lines(v.lines, lowercase(v.query)),
        update_results(v).matches.len() > 0 ==> update_results(v).current < update_results(v).matches.len()
            && update_results(v).scroll == update_results(v).matches[update_results(v).current as int],
        v.direction == SearchDirection::Backward ==> forall|j: int|
            0 <= j < update_results(v).matches.len() && #[trigger] update_results(v).matches[j] <= v.search_start
                ==> update_results(v).matches[j] <= update_results(v).matches[update_results(v).current as int]
                && update_results(v).matches[update_results(v).current as int] <= v.search_start,
        v.direction == SearchDirection::Backward && update_results(v).matches.len() > 0 && (forall|j: int|
            0 <= j < update_results(v).matches.len() ==> #[trigger] update_results(v).matches[j] > v.search_start)
            ==> update_results(v).current == update_results(v).matches.len() - 1,
        v.direction == SearchDirection::Forward ==> forall|j: int|
            0 <= j < update_results(v).matches.len() && #[trigger] update_results(v).matches[j] >= v.search_start
                ==> update_results(v).matches[j] >= update_results(v).matches[update_results(v).current as int]
                && update_results(v).matches[update_results(v).current as int] >= v.search_start,
        v.direction == SearchDirection::Forward && update_results(v).matches.len() > 0 && (forall|j: int|
            0 <= j < update_results(v).matches.len() ==> #[trigger] update_results(v).matches[j] < v.search_start)
            ==> update_results(v).current == 0,
{
    let ql = lowercase(v.query);
    let m = matching_lines(v.lines, ql);
    lemma_matching_bounded(v.lines, ql);
    if m.len() > 0 {
        lemma_count_below_prefix(m, v.search_start, true);
        lemma_count_below_prefix(m, v.search_start, false);
        let idx = nearest_match(m, v.search_start, v.direction);
        let line = m[idx];
        let u = ViewStateView { matches: m, current: idx as usize, scroll: line, ..v };
        assert(update_results(v) == focus_at_line(u, line));
        assert(focus_at_line(u, line).matches == m && focus_at_line(u, line).current == u.current
            && focus_at_line(u, line).scroll == line);
        assert forall|i: int, j: int| 0 <= i <= j < m.len() implies #[trigger] m[i] <= #[trigger] m[j] by {
            if i < j {
            }
        }
    }
}

/// The matches recomputed for the current query, jumping to the nearest.
pub open spec fn update_results(v: ViewStateView) -> ViewStateView {
    let ql = lowercase(v.query);
    if ql.len() == 0 {
        ViewStateView { matches: Seq::empty(), ..v }
    } else {
        let m = matching_lines(v.lines, ql);
        if m.len() == 0 {
            ViewStateView { matches: m, ..v }
        } else {
            let idx = nearest_match(m, v.search_start, v.direction);
            let line = m[idx];
            focus_at_line(ViewStateView { matches: m, current: idx as usize, scroll: line, ..v }, line)
        }
    }
}

/// Scroll to a match unless it already shows.
pub open spec fn show_match(v: ViewStateView, c: usize, vh: usize) -> ViewStateView {
    let line = v.matches[c as int];
    let scroll = if line < v.scroll || line >= v.scroll + vh { line } else { v.scroll };
    focus_at_line(ViewStateView { current: c, scroll, ..v }, line)
}

/// `n`: the next match, wrapping.
pub open spec fn next_match_of(v: ViewStateView, vh: usize) -> ViewStateView {
    if v.matches.len() == 0 {
        v
    } else {
        show_match(v, ((v.current + 1) % (v.matches.len() as int)) as usize, vh)
    }
}

/// `N`: the previous match, wrapping.
pub open spec fn prev_match_of(v: ViewStateView, vh: usize) -> ViewStateView {
    if v.matches.len() == 0 {
        v
    } else {
        show_match(v, if v.current == 0 { (v.matches.len() - 1) as usize } else { (v.current - 1) as usize }, vh)
    }
}

impl ViewState {
    /// Recompute the matches of the current query and jump to the nearest.
    pub fn update_search_results(&mut self)
        ensures
            final(self)@ == update_results(old(self)@),
            final(self)@.matches.len() > 0 ==> final(self)@.current < final(self)@.matches.len(),
            final(self)@.matches.len() == 0 ==> final(self)@.current == old(self)@.current,
            forall|i: int| 0 <= i < final(self)@.matches.len() ==> #[trigger] final(self)@.matches[i] < old(self)@.lines.len(),
    {
        let ql = to_lowercase(self.search_query.as_str());
        if ql.as_str().is_empty() {
            self.search_matches = Vec::new();
            return;
        }
        let m = matching_line_indices(&self.rendered_lines, ql.as_str());
        let _n = self.rendered_lines.len();
        proof {
            lemma_matching_bounded(lines_view(self.rendered_lines@), ql@);
        }
        if m.len() == 0 {
            self.search_matches = m;
            return;
        }
        let start = self.search_start_offset;
        let idx: usize = match self.search_direction {
            SearchDirection::Forward => {
                let pos = count_below_exec(&m, start, false);
                if pos >= m.len() { 0 } else { pos }
            },
            SearchDirection::Backward => {
                let pos = count_below_exec(&m, start, true);
                if pos == 0 { m.len() - 1 } else { pos - 1 }
            },
        };
        proof {
            lemma_count_below_len(m@, start, true);
        }
        let line = m[idx];
        self.search_matches = m;
        self.current_match = idx;
        self.scroll_offset = line;
        self.focus_message_at_line(line);
    }

    fn show_match(&mut self, c: usize, vh: usize)
        requires
            c < old(self)@.matches.len(),
            old(self).scroll_offset + vh <= usize::MAX,
        ensures
            final(self)@ == show_match(old(self)@, c, vh),
    {
        let line = self.search_matches[c];
        self.current_match = c;
        if line < self.scroll_offset || line >= self.scroll_offset + vh {
            self.scroll_offset = line;
        }
        self.focus_message_at_line(line);
    }

    /// Go to the next search match.
    pub fn next_search_match(&mut self, vh: usize)
        requires
            view_wf(old(self)@),
            old(self).scroll_offset + vh <= usize::MAX,
        ensures
            final(self)@ == next_match_of(old(self)@, vh),
    {
        if self.search_matches.len() == 0 {
            return;
        }
        let c = (self.current_match + 1) % self.search_matches.len();
        self.show_match(c, vh);
    }

    /// Go to the previous search match.
    pub fn prev_search_match(&mut self, vh: usize)
        requires
            view_wf(old(self)@),
            old(self).scroll_offset + vh <= usize::MAX,
        ensures
            final(self)@ == prev_match_of(old(self)@, vh),
    {
        if self.search_matches.len() == 0 {
            return;
        }
        let c = if self.current_match == 0 { self.search_matches.len() - 1 } else { self.current_match - 1 };
        self.show_match(c, vh);
    }
}


// ---------------------------------------------------------------------------
// Typing the search query
// ---------------------------------------------------------------------------

/// Moving left from `p` over characters that are (or are not) white space.
pub open spec fn skip_white_left(q: Seq<char>, p: int, white: bool) -> int
    decreases p,
{
    if p > 0 && p <= q.len() && is_white_space(q[p - 1]) == white {
        skip_white_left(q, p - 1, white)
    } else {
        p
    }
}

/// Where Ctrl+W cuts the query: after the last white space that precedes the
/// last word (trailing white space ignored), or at the start.
pub open spec fn ctrl_w_cut(q: Seq<char>) -> int {
    skip_white_left(q, skip_white_left(q, q.len() as int, true), false)
}


proof fn lemma_skip_white_bounds(q: Seq<char>, p: int, white: bool)
    requires
        0 <= p <= q.len(),
    ensures
        0 <= skip_white_left(q, p, white) <= p,
    decreases p,
{
    if p > 0 && is_white_space(q[p - 1]) == white {
        lemma_skip_white_bounds(q, p - 1, white);
    }
}

fn skip_white_left_exec(q: &Vec<char>, p: usize, white: bool) -> (r: usize)
    requires
        p <= q@.len(),
    ensures
        r == skip_white_left(q@, p as int, white),
        r <= p,
{
    let mut i = p;
    while i > 0 && is_white_space_exec(q[i - 1]) == white
        invariant
            i <= p <= q@.len(),
            skip_white_left(q@, i as int, white) == skip_white_left(q@, p as int, white),
        decreases i,
    {
        i -= 1;
    }
    i
}

/// `Enter` while typing: a new query becomes the last query and its matches
/// are searched; an empty query repeats the last one, moving to the next (or
/// previous) match. Without matches the search ends.
pub open spec fn enter_of(v: ViewStateView, vh: usize) -> ViewStateView {
    if v.query.len() > 0 {
        let w = update_results(ViewStateView { last_query: v.query, ..v });
        if w.matches.len() == 0 {
            ViewStateView { search_mode: ViewSearchMode::Off, ..w }
        } else {
            ViewStateView { search_mode: ViewSearchMode::Active, ..w }
        }
    } else if v.last_query.len() == 0 {
        ViewStateView { search_mode: ViewSearchMode::Off, ..v }
    } else {
        let w = if v.matches.len() == 0 {
            update_results(ViewStateView { query: v.last_query, ..v })
        } else {
            v
        };
        if w.matches.len() == 0 {
            ViewStateView { search_mode: ViewSearchMode::Off, ..w }
        } else {
            let x = ViewStateView { query: v.last_query, search_mode: ViewSearchMode::Active, ..w };
            match v.direction {
                SearchDirection::Forward => next_match_of(x, vh),
                SearchDirection::Backward => prev_match_of(x, vh),
            }
        }
    }
}

/// The search ends: query and matches cleared.
pub open spec fn cancel_search(v: ViewStateView) -> ViewStateView {
    ViewStateView { search_mode: ViewSearchMode::Off, query: Seq::empty(), matches: Seq::empty(), ..v }
}

/// A key while typing the search query.
#[verifier::opaque]
pub open spec fn typing_of(v: ViewStateView, k: KeyInput, vh: usize) -> ViewStateView {
    match k.code {
        KeyCode::Char(c) => if c == 'c' && k.ctrl {
            cancel_search(v)
        } else if c == 'u' && k.ctrl {
            if v.query.len() > 0 {
                update_results(ViewStateView { query: Seq::empty(), ..v })
            } else {
                v
            }
        } else if c == 'w' && k.ctrl {
            update_results(ViewStateView { query: v.query.take(ctrl_w_cut(v.query)), ..v })
        } else {
            update_results(ViewStateView { query: v.query.push(c), ..v })
        },
        KeyCode::Backspace => update_results(
            ViewStateView { query: if v.query.len() > 0 { v.query.drop_last() } else { v.query }, ..v },
        ),
        KeyCode::Enter => enter_of(v, vh),
        KeyCode::Esc => cancel_search(v),
        _ => v,
    }
}

/// Recomputing the matches keeps the viewport arithmetic in range, and the
/// current match indexes the new matches.
pub proof fn lemma_update_fits(v: ViewStateView, vh: usize)
    requires
        view_fits(v, vh),
        v.lines.len() <= usize::MAX,
    ensures
        view_fits(update_results(v), vh),
        update_results(v).lines == v.lines,
        update_results(v).ranges == v.ranges,
        update_results(v).matches.len() > 0 ==> update_results(v).current < update_results(v).matches.len(),
{
    let ql = lowercase(v.query);
    if ql.len() > 0 {
        let m = matching_lines(v.lines, ql);
        lemma_matching_bounded(v.lines, ql);
        if m.len() > 0 {
            lemma_count_below_len(m, v.search_start, true);
            lemma_count_below_len(m, v.search_start, false);
        }
    }
}

impl ViewState {
    fn set_query(&mut self, q: &Vec<char>)
        ensures
            final(self)@ == (ViewStateView { query: q@, ..old(self)@ }),
    {
        self.search_query = string_from_chars(q.as_slice());
    }

    fn cancel_search(&mut self)
        ensures
            final(self)@ == cancel_search(old(self)@),
    {
        self.search_mode = ViewSearchMode::Off;
        self.search_query = String::new();
        self.search_matches = Vec::new();
    }

    #[verifier::spinoff_prover]
    #[verifier::rlimit(50)]
    fn enter_search(&mut self, vh: usize)
        requires
            view_wf(old(self)@),
            view_fits(old(self)@, vh),
            old(self)@.lines.len() <= usize::MAX,
        ensures
            final(self)@ == enter_of(old(self)@, vh),
            view_wf(final(self)@),
    {
        let query = self.search_query.clone();
        let last = self.last_search_query.clone();
        let dir = self.search_direction;
        if !query.as_str().is_empty() {
            self.last_search_query = query;
            proof {
                lemma_update_fits(self@, vh);
            }
            self.update_search_results();
            if self.search_matches.len() == 0 {
                self.search_mode = ViewSearchMode::Off;
            } else {
                self.search_mode = ViewSearchMode::Active;
            }
        } else if last.as_str().is_empty() {
            self.search_mode = ViewSearchMode::Off;
        } else {
            if self.search_matches.len() == 0 {
                self.search_query = last.clone();
                proof {
                    lemma_update_fits(self@, vh);
                }
                self.update_search_results();
            }
            if self.search_matches.len() == 0 {
                self.search_mode = ViewSearchMode::Off;
            } else {
                self.search_query = last;
                self.search_mode = ViewSearchMode::Active;
                match dir {
                    SearchDirection::Forward => self.next_search_match(vh),
                    SearchDirection::Backward => self.prev_search_match(vh),
                }
            }
        }
    }

    /// A key while typing the search query.
    pub fn handle_search_typing_key(&mut self, k: &KeyInput, vh: usize)
        requires
            view_wf(old(self)@),
            view_fits(old(self)@, vh),
        ensures
            final(self)@ == typing_of(old(self)@, *k, vh),
            view_wf(final(self)@),
    {
        reveal(typing_of);
        let _n = self.rendered_lines.len();
        match k.code {
            KeyCode::Char(c) => {
                if c == 'c' && k.ctrl {
                    self.cancel_search();
                } else if c == 'u' && k.ctrl {
                    if !self.search_query.as_str().is_empty() {
                        self.search_query = String::new();
                        self.update_search_results();
                    }
                } else if c == 'w' && k.ctrl {
                    let cs = chars_of(self.search_query.as_str());
                    let e = skip_white_left_exec(&cs, cs.len(), true);
                    let cut = skip_white_left_exec(&cs, e, false);
                    let kept = string_from_chars(&cs.as_slice()[0..cut]);
                    self.search_query = kept;
                    self.update_search_results();
                } else {
                    push_char(&mut self.search_query, c);
                    self.update_search_results();
                }
            },
            KeyCode::Backspace => {
                let mut cs = chars_of(self.search_query.as_str());
                if cs.len() > 0 {
                    cs.pop();
                }
                self.search_query = string_from_chars(cs.as_slice());
                self.update_search_results();
            },
            KeyCode::Enter => {
                self.enter_search(vh);
            },
            KeyCode::Esc => {
                self.cancel_search();
            },
            _ => {},
        }
    }
}


// ---------------------------------------------------------------------------
// Scrolling keys
// ---------------------------------------------------------------------------

/// Scroll down `n` lines, no further than the last screenful.
pub open spec fn scroll_down_of(v: ViewStateView, n: usize, vh: usize) -> ViewStateView {
    sync_after_scroll(
        ViewStateView { scroll: min_of(v.scroll + n, max_scroll_of(v.total_lines, vh) as int) as usize, ..v },
        vh,
    )
}

/// Scroll up `n` lines, no further than the top; live following stops.
pub open spec fn scroll_up_of(v: ViewStateView, n: usize, vh: usize) -> ViewStateView {
    sync_after_scroll(ViewStateView { scroll: sat_sub(v.scroll, n), live_follow: false, ..v }, vh)
}

pub open spec fn scroll_top_of(v: ViewStateView, vh: usize) -> ViewStateView {
    sync_after_scroll(ViewStateView { scroll: 0, ..v }, vh)
}

/// Jump to the end; live following resumes.
pub open spec fn scroll_bottom_of(v: ViewStateView, vh: usize) -> ViewStateView {
    sync_after_scroll(ViewStateView { scroll: max_scroll_of(v.total_lines, vh), live_follow: true, ..v }, vh)
}

/// Scroll by a signed amount (mouse wheel); nothing while typing a search.
pub open spec fn scroll_by_of(v: ViewStateView, delta: int, vh: usize) -> ViewStateView {
    if v.search_mode == ViewSearchMode::Typing {
        v
    } else {
        let max = max_scroll_of(v.total_lines, vh) as int;
        let s = if delta >= 0 {
            min_of(min_of(v.scroll + delta, usize::MAX as int), max)
        } else {
            sat_sub(v.scroll, (-delta) as usize) as int
        };
        sync_after_scroll(ViewStateView { scroll: s as usize, ..v }, vh)
    }
}

/// `/` and `?`: start typing a search from the current position.
pub open spec fn start_search_of(v: ViewStateView, dir: SearchDirection) -> ViewStateView {
    ViewStateView {
        direction: dir,
        search_start: v.scroll,
        search_mode: ViewSearchMode::Typing,
        query: Seq::empty(),
        ..v
    }
}

/// `Esc` within the viewer: leave message navigation, else clear an active
/// search; `None` when neither applies and the viewer itself is left.
pub open spec fn escape_of(v: ViewStateView) -> Option<ViewStateView> {
    if v.nav {
        Some(ViewStateView { nav: false, ..v })
    } else if v.search_mode == ViewSearchMode::Active {
        Some(cancel_search(v))
    } else {
        None
    }
}

impl ViewState {
    fn max_scroll(&self, vh: usize) -> (r: usize)
        ensures
            r == max_scroll_of(self.total_lines, vh),
    {
        if self.total_lines > vh { self.total_lines - vh } else { 0 }
    }

    pub fn scroll_down(&mut self, n: usize, vh: usize)
        requires
            old(self).scroll_offset + n <= usize::MAX,
        ensures
            final(self)@ == scroll_down_of(old(self)@, n, vh),
    {
        let max = self.max_scroll(vh);
        let s = self.scroll_offset + n;
        self.scroll_offset = if s < max { s } else { max };
        proof {
            assert(self.scroll_offset <= max);
        }
        self.sync_focus_after_scroll(vh);
    }

    pub fn scroll_up(&mut self, n: usize, vh: usize)
        requires
            old(self).scroll_offset + vh <= usize::MAX,
        ensures
            final(self)@ == scroll_up_of(old(self)@, n, vh),
    {
        self.scroll_offset = if self.scroll_offset > n { self.scroll_offset - n } else { 0 };
        self.live_follow = false;
        self.sync_focus_after_scroll(vh);
    }

    pub fn scroll_to_top(&mut self, vh: usize)
        ensures
            final(self)@ == scroll_top_of(old(self)@, vh),
    {
        self.scroll_offset = 0;
        self.sync_focus_after_scroll(vh);
    }

    pub fn scroll_to_bottom(&mut self, vh: usize)
        ensures
            final(self)@ == scroll_bottom_of(old(self)@, vh),
    {
        self.scroll_offset = self.max_scroll(vh);
        self.live_follow = true;
        self.sync_focus_after_scroll(vh);
    }

    /// Scroll by a signed number of lines (positive: down).
    pub fn scroll_view(&mut self, delta: isize, vh: usize)
        requires
            delta != isize::MIN,
            old(self).scroll_offset + vh <= usize::MAX,
        ensures
            final(self)@ == scroll_by_of(old(self)@, delta as int, vh),
    {
        if self.search_mode == ViewSearchMode::Typing {
            return;
        }
        let max = self.max_scroll(vh);
        let s: usize = if delta >= 0 {
            let d = delta as usize;
            let t = if self.scroll_offset <= usize::MAX - d { self.scroll_offset + d } else { usize::MAX };
            if t < max { t } else { max }
        } else {
            let d = (-delta) as usize;
            if self.scroll_offset > d { self.scroll_offset - d } else { 0 }
        };
        self.scroll_offset = s;
        self.sync_focus_after_scroll(vh);
    }

    pub fn start_view_search(&mut self, dir: SearchDirection)
        ensures
            final(self)@ == start_search_of(old(self)@, dir),
    {
        self.search_direction = dir;
        self.search_start_offset = self.scroll_offset;
        self.search_mode = ViewSearchMode::Typing;
        self.search_query = String::new();
    }

    /// `Esc`: true when it was taken by navigation or an active search.
    pub fn escape(&mut self) -> (taken: bool)
        ensures
            taken == (escape_of(old(self)@) is Some),
            taken ==> final(self)@ == escape_of(old(self)@)->0,
            !taken ==> final(self)@ == old(self)@,
    {
        if self.message_nav_active {
            self.message_nav_active = false;
            return true;
        }
        if self.search_mode == ViewSearchMode::Active {
            self.cancel_search();
            return true;
        }
        false
    }
}

// ---------------------------------------------------------------------------
// Rendering again, keeping the viewport on the same message
// ---------------------------------------------------------------------------

/// How many ranges start above line `t`.
pub open spec fn count_start_below(r: Seq<MessageRange>, t: usize) -> nat
    decreases r.len(),
{
    if r.len() == 0 {
        0
    } else {
        count_start_below(r.drop_last(), t) + if r.last().start_line < t { 1nat } else { 0nat }
    }
}

/// How many ranges belong to entries before `e`.
pub open spec fn count_entry_below(r: Seq<MessageRange>, e: usize) -> nat
    decreases r.len(),
{
    if r.len() == 0 {
        0
    } else {
        count_entry_below(r.drop_last(), e) + if r.last().entry_index < e { 1nat } else { 0nat }
    }
}

proof fn lemma_counts_le(r: Seq<MessageRange>, t: usize)
    ensures
        count_start_below(r, t) <= r.len(),
        count_entry_below(r, t) <= r.len(),
    decreases r.len(),
{
    if r.len() > 0 {
        lemma_counts_le(r.drop_last(), t);
    }
}

/// The message the viewport is anchored to, by its entry and its row on
/// screen: in navigation the focused message, else the first message that
/// starts at or below the top of the viewport (the last one when none does).
pub open spec fn anchor_of(ranges: Seq<MessageRange>, scroll: usize, focused: Option<usize>, nav: bool) -> Option<(usize, int)> {
    if ranges.len() == 0 {
        None
    } else {
        let m = if nav && focused is Some && focused->0 < ranges.len() {
            ranges[focused->0 as int]
        } else {
            let i = count_start_below(ranges, scroll);
            if i < ranges.len() { ranges[i as int] } else { ranges.last() }
        };
        Some((m.entry_index, m.start_line - scroll))
    }
}

/// The range of entry `e`, else of the closest entry before it, else the first.
pub open spec fn find_or_prev(ranges: Seq<MessageRange>, e: usize) -> Option<int> {
    if ranges.len() == 0 {
        None
    } else {
        let p = count_entry_below(ranges, e);
        if p < ranges.len() && ranges[p as int].entry_index == e {
            Some(p as int)
        } else if p == 0 {
            Some(0)
        } else {
            Some(p - 1)
        }
    }
}

pub open spec fn clamp_int(x: int, lo: int, hi: int) -> int {
    if x < lo { lo } else if x > hi { hi } else { x }
}

/// The viewer after rendering again into `lines` and `ranges`: the focus goes
/// to the anchored message (or the closest one before it, or the first), the
/// anchored message keeps its row on screen (a replacement message goes no
/// lower than its row), and an active search is run again on the new lines.
pub open spec fn rerendered(v: ViewStateView, lines: Seq<LineView>, ranges: Seq<MessageRange>, vh: usize) -> ViewStateView {
    let a = anchor_of(v.ranges, v.scroll, v.focused, v.nav);
    let total = lines.len() as usize;
    let max = max_scroll_of(total, vh);
    let found = match a {
        Some(x) => find_or_prev(ranges, x.0),
        None => None,
    };
    let resolved: Option<int> = match found {
        Some(i) => Some(i),
        None => if ranges.len() > 0 { Some(0int) } else { None },
    };
    let scroll: usize = match a {
        Some(x) => match resolved {
            Some(i) => {
                let m = ranges[i];
                let rel = if m.entry_index == x.0 { x.1 } else { min_of(x.1, 0) };
                clamp_int(m.start_line - rel, 0, max as int) as usize
            },
            None => min_of(v.scroll as int, max as int) as usize,
        },
        None => min_of(v.scroll as int, max as int) as usize,
    };
    let w = ViewStateView {
        total_lines: total,
        lines,
        ranges,
        focused: match resolved {
            Some(i) => Some(i as usize),
            None => None,
        },
        scroll,
        ..v
    };
    if w.search_mode == ViewSearchMode::Active && w.query.len() > 0 {
        let m = matching_lines(lines, lowercase(w.query));
        ViewStateView { matches: m, current: if m.len() == 0 { 0 } else { min_of(w.current as int, m.len() - 1) as usize }, ..w }
    } else {
        w
    }
}

/// After rendering again: the line count is the new one, the scroll position
/// stays within the lines, a message is focused exactly when there are
/// messages (and the focus names one of them), the anchored message, when it
/// is still there, keeps its row on screen (clamped to the lines), and an
/// active search's current match is one of its matches.
pub proof fn lemma_rerendered_bounds(v: ViewStateView, lines: Seq<LineView>, ranges: Seq<MessageRange>, vh: usize)
    requires
        view_wf(v),
        lines.len() <= usize::MAX,
    ensures
        rerendered(v, lines, ranges, vh).total_lines == lines.len(),
        rerendered(v, lines, ranges, vh).scroll <= max_scroll_of(lines.len() as usize, vh),
        rerendered(v, lines, ranges, vh).focused is None <==> ranges.len() == 0,
        rerendered(v, lines, ranges, vh).focused matches Some(i) ==> i < ranges.len(),
        view_wf(rerendered(v, lines, ranges, vh)),
        anchor_of(v.ranges, v.scroll, v.focused, v.nav) matches Some(x) ==> (find_or_prev(ranges, x.0) matches Some(k)
            ==> (ranges[k].entry_index == x.0 ==> rerendered(v, lines, ranges, vh).scroll == clamp_int(
            ranges[k].start_line - x.1,
            0,
            max_scroll_of(lines.len() as usize, vh) as int,
        ))),
{
    if ranges.len() > 0 {
        match anchor_of(v.ranges, v.scroll, v.focused, v.nav) {
            Some(x) => {
                lemma_counts_le(ranges, x.0);
            },
            None => {},
        }
    }
}

/// The rendering options of the viewer's current settings.
pub open spec fn options_of(v: ViewStateView) -> RenderOptions {
    RenderOptions {
        tool_display: v.tool_display,
        show_thinking: v.show_thinking,
        show_timing: v.show_timing,
        content_width: v.content_width,
    }
}

fn count_start_below_exec(r: &Vec<MessageRange>, t: usize) -> (c: usize)
    ensures
        c == count_start_below(r@, t),
{
    let mut c: usize = 0;
    let mut i: usize = 0;
    while i < r.len()
        invariant
            i <= r@.len(),
            c == count_start_below(r@.take(i as int), t),
            c <= i,
        decreases r@.len() - i,
    {
        assert(r@.take(i + 1).drop_last() =~= r@.take(i as int));
        if r[i].start_line < t {
            c += 1;
        }
        i += 1;
    }
    assert(r@.take(r@.len() as int) =~= r@);
    c
}

fn count_entry_below_exec(r: &Vec<MessageRange>, e: usize) -> (c: usize)
    ensures
        c == count_entry_below(r@, e),
{
    let mut c: usize = 0;
    let mut i: usize = 0;
    while i < r.len()
        invariant
            i <= r@.len(),
            c == count_entry_below(r@.take(i as int), e),
            c <= i,
        decreases r@.len() - i,
    {
        assert(r@.take(i + 1).drop_last() =~= r@.take(i as int));
        if r[i].entry_index < e {
            c += 1;
        }
        i += 1;
    }
    assert(r@.take(r@.len() as int) =~= r@);
    c
}

fn capture_anchor(ranges: &Vec<MessageRange>, scroll: usize, focused: Option<usize>, nav: bool) -> (r: Option<(usize, i128)>)
    ensures
        match r {
            Some(x) => anchor_of(ranges@, scroll, focused, nav) == Some((x.0, x.1 as int)),
            None => anchor_of(ranges@, scroll, focused, nav) is None,
        },
{
    if ranges.len() == 0 {
        return None;
    }
    let m: MessageRange = match focused {
        Some(i) => {
            if nav && i < ranges.len() {
                ranges[i]
            } else {
                let p = count_start_below_exec(ranges, scroll);
                if p < ranges.len() { ranges[p] } else { ranges[ranges.len() - 1] }
            }
        },
        None => {
            let p = count_start_below_exec(ranges, scroll);
            if p < ranges.len() { ranges[p] } else { ranges[ranges.len() - 1] }
        },
    };
    Some((m.entry_index, m.start_line as i128 - scroll as i128))
}

fn find_message_idx_or_prev(ranges: &Vec<MessageRange>, e: usize) -> (r: Option<usize>)
    ensures
        match r {
            Some(i) => find_or_prev(ranges@, e) == Some(i as int) && i < ranges@.len(),
            None => find_or_prev(ranges@, e) is None,
        },
{
    if ranges.len() == 0 {
        return None;
    }
    let p = count_entry_below_exec(ranges, e);
    proof {
        lemma_counts_le(ranges@, e);
    }
    if p < ranges.len() && ranges[p].entry_index == e {
        Some(p)
    } else if p == 0 {
        Some(0)
    } else {
        Some(p - 1)
    }
}

impl ViewState {
    /// Take a new rendering of the conversation, keeping the viewport on the
    /// anchored message.
    pub fn apply_rendering(&mut self, lines: Vec<RenderedLine>, ranges: Vec<MessageRange>, vh: usize)
        requires
            view_wf(old(self)@),
        ensures
            final(self)@ == rerendered(old(self)@, lines_view(lines@), ranges@, vh),
            view_wf(final(self)@),
    {
        let anchor = capture_anchor(&self.message_ranges, self.scroll_offset, self.focused_message, self.message_nav_active);
        let old_scroll = self.scroll_offset;
        let total = lines.len();
        let max = if total > vh { total - vh } else { 0 };
        let found = match anchor {
            Some((e, _)) => find_message_idx_or_prev(&ranges, e),
            None => None,
        };
        let resolved: Option<usize> = match found {
            Some(i) => Some(i),
            None => if ranges.len() > 0 { Some(0) } else { None },
        };
        let scroll: usize = match anchor {
            Some((e, rel0)) => match resolved {
                Some(i) => {
                    let m = ranges[i];
                    let rel: i128 = if m.entry_index == e { rel0 } else if rel0 < 0 { rel0 } else { 0 };
                    let raw: i128 = m.start_line as i128 - rel;
                    if raw < 0 { 0 } else if raw > max as i128 { max } else { raw as usize }
                },
                None => if old_scroll < max { old_scroll } else { max },
            },
            None => if old_scroll < max { old_scroll } else { max },
        };
        self.total_lines = total;
        self.rendered_lines = lines;
        self.message_ranges = ranges;
        self.focused_message = resolved;
        self.scroll_offset = scroll;
        if self.search_mode == ViewSearchMode::Active && !self.search_query.as_str().is_empty() {
            let ql = to_lowercase(self.search_query.as_str());
            let m = matching_line_indices(&self.rendered_lines, ql.as_str());
            self.current_match = if m.len() == 0 {
                0
            } else if self.current_match < m.len() - 1 {
                self.current_match
            } else {
                m.len() - 1
            };
            self.search_matches = m;
        }
    }

    /// Render the conversation again with the viewer's settings; `aux` holds
    /// the markdown and tool renderings of the session's parts.
    pub fn re_render(&mut self, aux: &Vec<Vec<PartRendering>>, vh: usize)
        requires
            view_wf(old(self)@),
            old(self)@.content matches Some(s) ==> aux_fits(s, aux@),
        ensures
            renders_as(final(self)@.lines, final(self)@.ranges, old(self)@.content, aux@, options_of(old(self)@)),
            final(self)@ == rerendered(old(self)@, final(self)@.lines, final(self)@.ranges, vh),
            view_wf(final(self)@),
    {
        let options = RenderOptions {
            tool_display: self.tool_display,
            show_thinking: self.show_thinking,
            show_timing: self.show_timing,
            content_width: self.content_width,
        };
        let content = self.session_content.as_ref();
        assert(content_value(content) == self@.content);
        let r = render_conversation(content, aux, &options);
        match r {
            Ok(rc) => {
                let ghost lv = lines_view(rc.lines@);
                let ghost rv = rc.messages@;
                self.apply_rendering(rc.lines, rc.messages, vh);
                assert(self@.lines == lv);
                assert(self@.ranges == rv);
            },
            Err(_) => {
                assert(false);
            },
        }
    }
}


// ---------------------------------------------------------------------------
// Motion keys of the viewer
// ---------------------------------------------------------------------------

/// Characters that move within the viewer.
pub open spec fn is_motion_char(c: char) -> bool {
    c == 'j' || c == 'k' || c == 'J' || c == ']' || c == 'K' || c == '[' || c == 'd' || c == 'u' || c == 'g'
        || c == 'G' || c == '/' || c == '?' || c == 'n' || c == 'N'
}

/// `j`/`k` scroll a line, `d`/`u` half a page, `g`/`G` to the top and the
/// end; `J`/`]` and `K`/`[` focus the next and previous message; `/` and `?`
/// start a forward and backward search; `n`/`N` go to the next and previous
/// match.
#[verifier::opaque]
pub open spec fn motion_char_of(v: ViewStateView, c: char, vh: usize) -> ViewStateView {
    if c == 'j' {
        scroll_down_of(v, 1, vh)
    } else if c == 'k' {
        scroll_up_of(v, 1, vh)
    } else if c == 'J' || c == ']' {
        focus_next_of(v, vh)
    } else if c == 'K' || c == '[' {
        focus_prev_of(v, vh)
    } else if c == 'd' {
        scroll_down_of(v, vh / 2, vh)
    } else if c == 'u' {
        scroll_up_of(v, vh / 2, vh)
    } else if c == 'g' {
        scroll_top_of(v, vh)
    } else if c == 'G' {
        scroll_bottom_of(v, vh)
    } else if c == '/' {
        start_search_of(v, SearchDirection::Forward)
    } else if c == '?' {
        start_search_of(v, SearchDirection::Backward)
    } else if c == 'n' {
        next_match_of(v, vh)
    } else if c == 'N' {
        prev_match_of(v, vh)
    } else {
        v
    }
}

/// Arrows scroll a line, page keys a page, Home and End to the top and the end.
#[verifier::opaque]
pub open spec fn motion_code_of(v: ViewStateView, code: KeyCode, vh: usize) -> ViewStateView {
    match code {
        KeyCode::Down => scroll_down_of(v, 1, vh),
        KeyCode::Up => scroll_up_of(v, 1, vh),
        KeyCode::PageDown => scroll_down_of(v, vh, vh),
        KeyCode::PageUp => scroll_up_of(v, vh, vh),
        KeyCode::Home => scroll_top_of(v, vh),
        KeyCode::End => scroll_bottom_of(v, vh),
        _ => v,
    }
}

impl ViewState {
    pub fn motion_char(&mut self, c: char, vh: usize)
        requires
            view_wf(old(self)@),
            view_fits(old(self)@, vh),
        ensures
            final(self)@ == motion_char_of(old(self)@, c, vh),
            view_wf(final(self)@),
    {
        reveal(motion_char_of);
        if c == 'j' {
            self.scroll_down(1, vh);
        } else if c == 'k' {
            self.scroll_up(1, vh);
        } else if c == 'J' || c == ']' {
            self.focus_next_message(vh);
        } else if c == 'K' || c == '[' {
            self.focus_prev_message(vh);
        } else if c == 'd' {
            self.scroll_down(vh / 2, vh);
        } else if c == 'u' {
            self.scroll_up(vh / 2, vh);
        } else if c == 'g' {
            self.scroll_to_top(vh);
        } else if c == 'G' {
            self.scroll_to_bottom(vh);
        } else if c == '/' {
            self.start_view_search(SearchDirection::Forward);
        } else if c == '?' {
            self.start_view_search(SearchDirection::Backward);
        } else if c == 'n' {
            self.next_search_match(vh);
        } else if c == 'N' {
            self.prev_search_match(vh);
        }
    }

    pub fn motion_code(&mut self, code: KeyCode, vh: usize)
        requires
            view_wf(old(self)@),
            view_fits(old(self)@, vh),
        ensures
            final(self)@ == motion_code_of(old(self)@, code, vh),
            view_wf(final(self)@),
    {
        reveal(motion_code_of);
        match code {
            KeyCode::Down => self.scroll_down(1, vh),
            KeyCode::Up => self.scroll_up(1, vh),
            KeyCode::PageDown => self.scroll_down(vh, vh),
            KeyCode::PageUp => self.scroll_up(vh, vh),
            KeyCode::Home => self.scroll_to_top(vh),
            KeyCode::End => self.scroll_to_bottom(vh),
            _ => {},
        }
    }
}


/// Going to the next match and then to the previous one comes back to the
/// same match (and the other way round); the matches stay as they are.
pub proof fn lemma_next_prev_inverse(v: ViewStateView, vh: usize)
    requires
        view_wf(v),
        0 < v.matches.len() <= usize::MAX,
    ensures
        prev_match_of(next_match_of(v, vh), vh).current == v.current,
        next_match_of(prev_match_of(v, vh), vh).current == v.current,
        prev_match_of(next_match_of(v, vh), vh).matches == v.matches,
{
    let n = v.matches.len() as int;
    let c = ((v.current + 1) % n) as usize;
    let w = next_match_of(v, vh);
    assert(w.current == c && w.matches == v.matches);
    if v.current + 1 == n {
        assert((v.current + 1) % n == 0) by (nonlinear_arith)
            requires
                v.current + 1 == n,
                n > 0,
        ;
    } else {
        assert((v.current + 1) % n == v.current + 1) by (nonlinear_arith)
            requires
                0 <= v.current + 1 < n,
        ;
    }
    let p = if v.current == 0 { (n - 1) as usize } else { (v.current - 1) as usize };
    let x = prev_match_of(v, vh);
    assert(x.current == p && x.matches == v.matches);
    if v.current == 0 {
        assert((n - 1 + 1) % n == 0) by (nonlinear_arith)
            requires
                n > 0,
        ;
    } else {
        assert((v.current - 1 + 1) % n == v.current) by (nonlinear_arith)
            requires
                0 < v.current < n,
        ;
    }
}

} // verus!
