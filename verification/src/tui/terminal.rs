//! Sizes and settings of the terminal interface, and rendered lines as text
//! with ANSI styles for an external pager.

use vstd::prelude::*;
use crate::text::{decimal, push_decimal, push_str};
use crate::tui::app::{LineStyle, RenderedLine, SpanView};
use crate::tui::viewer::{LineView, lines_view};
use crate::tui::{GUTTER_WIDTH, ToolDisplayMode};

verus! {

broadcast use vstd::string::group_string_axioms, vstd::seq_lib::group_seq_lib_default;

/// Width of the name column of the ledger layout.
pub const NAME_WIDTH: usize = 9;

/// Rows of the frame taken by the border and the status bar.
pub const FRAME_ROWS: usize = 3;

/// The viewer's viewport height in a frame `frame_height` rows high.
pub fn viewport_height_for(frame_height: u16) -> (r: usize)
    ensures
        r == (if frame_height as int > FRAME_ROWS { frame_height - FRAME_ROWS } else { 0 }),
{
    if (frame_height as usize) > FRAME_ROWS { frame_height as usize - FRAME_ROWS } else { 0 }
}

/// The width left for conversation text in a frame `frame_width` columns wide:
/// less the name column, its separator and the gutter.
pub fn content_width_for(frame_width: u16) -> (r: usize)
    ensures
        r == (if frame_width as int > NAME_WIDTH + 3 + GUTTER_WIDTH {
            frame_width - (NAME_WIDTH + 3 + GUTTER_WIDTH)
        } else {
            0
        }),
{
    let taken = NAME_WIDTH + 3 + GUTTER_WIDTH;
    if (frame_width as usize) > taken { frame_width as usize - taken } else { 0 }
}

/// Tool display of the interface: `--show-tools` shows them in full,
/// `--no-tools` hides them; else the configuration's `no_tools` decides
/// (hidden or full), and without it they are shown truncated.
pub fn initial_tool_display(show_tools: bool, no_tools: bool, config_no_tools: Option<bool>) -> (r: ToolDisplayMode)
    ensures
        r == (if show_tools {
            ToolDisplayMode::Full
        } else if no_tools {
            ToolDisplayMode::Hidden
        } else {
            match config_no_tools {
                Some(true) => ToolDisplayMode::Hidden,
                Some(false) => ToolDisplayMode::Full,
                None => ToolDisplayMode::Truncated,
            }
        }),
{
    if show_tools {
        ToolDisplayMode::Full
    } else if no_tools {
        ToolDisplayMode::Hidden
    } else {
        match config_no_tools {
            Some(true) => ToolDisplayMode::Hidden,
            Some(false) => ToolDisplayMode::Full,
            None => ToolDisplayMode::Truncated,
        }
    }
}

/// Thinking blocks of the interface: `--show-thinking` shows them,
/// `--hide-thinking` hides them, else the configuration decides (hidden
/// without it).
pub fn initial_show_thinking(show: bool, hide: bool, config: Option<bool>) -> (r: bool)
    ensures
        r == (if show {
            true
        } else if hide {
            false
        } else {
            match config {
                Some(b) => b,
                None => false,
            }
        }),
{
    if show {
        true
    } else if hide {
        false
    } else {
        match config {
            Some(b) => b,
            None => false,
        }
    }
}

/// Tool display of the pager: `--no-tools` hides them, `--show-tools` shows
/// them in full, else truncated.
pub fn pager_tool_display(no_tools: bool, show_tools: bool) -> (r: ToolDisplayMode)
    ensures
        r == (if no_tools {
            ToolDisplayMode::Hidden
        } else if show_tools {
            ToolDisplayMode::Full
        } else {
            ToolDisplayMode::Truncated
        }),
{
    if no_tools {
        ToolDisplayMode::Hidden
    } else if show_tools {
        ToolDisplayMode::Full
    } else {
        ToolDisplayMode::Truncated
    }
}

/// The SGR sequences that open a style.
pub open spec fn style_prefix(st: LineStyle) -> Seq<char> {
    (if st.bold { "\x1b[1m"@ } else { Seq::empty() }) + (if st.dimmed { "\x1b[2m"@ } else { Seq::empty() }) + (
    if st.italic { "\x1b[3m"@ } else { Seq::empty() }) + match st.fg {
        Some(c) => "\x1b[38;2;"@ + decimal(c.0 as nat) + ";"@ + decimal(c.1 as nat) + ";"@ + decimal(c.2 as nat) + "m"@,
        None => Seq::empty(),
    }
}

/// A span as styled text: plain spans as they are, others opened by their
/// style's sequences and closed by a reset.
pub open spec fn span_ansi(sp: SpanView) -> Seq<char> {
    let st = sp.1;
    if !(st.bold || st.dimmed || st.italic || st.fg is Some) {
        sp.0
    } else {
        style_prefix(st) + sp.0 + "\x1b[0m"@
    }
}

pub open spec fn line_ansi(l: LineView) -> Seq<char>
    decreases l.len(),
{
    if l.len() == 0 {
        Seq::empty()
    } else {
        line_ansi(l.drop_last()) + span_ansi(l.last())
    }
}

/// The lines as styled text, joined by newlines.
pub open spec fn ansi_text_of(ls: Seq<LineView>) -> Seq<char>
    decreases ls.len(),
{
    if ls.len() == 0 {
        Seq::empty()
    } else if ls.len() == 1 {
        line_ansi(ls[0])
    } else {
        ansi_text_of(ls.drop_last()) + "\n"@ + line_ansi(ls.last())
    }
}

pub open spec fn fg_seq(fg: Option<(u8, u8, u8)>) -> Seq<char> {
    match fg {
        Some(c) => "\x1b[38;2;"@ + decimal(c.0 as nat) + ";"@ + decimal(c.1 as nat) + ";"@ + decimal(c.2 as nat) + "m"@,
        None => Seq::empty(),
    }
}

fn push_fg(out: &mut String, fg: Option<(u8, u8, u8)>)
    ensures
        final(out)@ == old(out)@ + fg_seq(fg),
{
    match fg {
        Some((r, g, bl)) => {
            let ghost o = out@;
            push_str(out, "\x1b[38;2;");
            push_decimal(out, r as u64);
            push_str(out, ";");
            push_decimal(out, g as u64);
            push_str(out, ";");
            push_decimal(out, bl as u64);
            push_str(out, "m");
            assert(out@ =~= o + fg_seq(fg));
        },
        None => {
            assert(out@ =~= old(out)@ + fg_seq(fg));
        },
    }
}

fn push_if(out: &mut String, cond: bool, t: &str)
    ensures
        final(out)@ == old(out)@ + (if cond { t@ } else { Seq::empty() }),
{
    if cond {
        push_str(out, t);
    } else {
        assert(out@ =~= old(out)@ + Seq::<char>::empty());
    }
}

fn push_style_prefix(out: &mut String, st: LineStyle)
    ensures
        final(out)@ == old(out)@ + style_prefix(st),
{
    let ghost o = out@;
    push_if(out, st.bold, "\x1b[1m");
    push_if(out, st.dimmed, "\x1b[2m");
    push_if(out, st.italic, "\x1b[3m");
    push_fg(out, st.fg);
    assert(fg_seq(st.fg) == match st.fg {
        Some(c) => "\x1b[38;2;"@ + decimal(c.0 as nat) + ";"@ + decimal(c.1 as nat) + ";"@ + decimal(c.2 as nat) + "m"@,
        None => Seq::<char>::empty(),
    });
    assert(out@ =~= o + style_prefix(st));
}

fn push_line_ansi(out: &mut String, line: &RenderedLine)
    ensures
        final(out)@ == old(out)@ + line_ansi(line@),
{
    let ghost o = out@;
    let mut i: usize = 0;
    while i < line.spans.len()
        invariant
            i <= line.spans@.len(),
            out@ == o + line_ansi(line@.take(i as int)),
        decreases line.spans@.len() - i,
    {
        let ghost before = out@;
        let st = line.spans[i].1;
        if !(st.bold || st.dimmed || st.italic || st.fg.is_some()) {
            push_str(out, line.spans[i].0.as_str());
        } else {
            push_style_prefix(out, st);
            push_str(out, line.spans[i].0.as_str());
            push_str(out, "\x1b[0m");
        }
        assert(line@.take(i + 1).drop_last() =~= line@.take(i as int));
        assert(line@.take(i + 1).last() == line@[i as int]);
        assert(out@ =~= o + line_ansi(line@.take(i + 1)));
        i += 1;
    }
    assert(line@.take(line.spans@.len() as int) =~= line@);
}

/// Rendered lines as text with ANSI styles, for an external pager.
pub fn ansi_text(lines: &Vec<RenderedLine>) -> (r: String)
    ensures
        r@ == ansi_text_of(lines_view(lines@)),
{
    let mut out = String::new();
    let mut i: usize = 0;
    while i < lines.len()
        invariant
            i <= lines@.len(),
            out@ == ansi_text_of(lines_view(lines@).take(i as int)),
        decreases lines@.len() - i,
    {
        let ghost t = lines_view(lines@).take(i + 1);
        assert(t.drop_last() =~= lines_view(lines@).take(i as int));
        if i > 0 {
            push_str(&mut out, "\n");
        }
        push_line_ansi(&mut out, &lines[i]);
        if i == 0 {
            assert(out@ =~= line_ansi(t[0]));
        }
        i += 1;
    }
    assert(lines_view(lines@).take(lines@.len() as int) =~= lines_view(lines@));
    out
}

} // verus!
