use oc_history::claude::{parse_agent_progress, short_parent_id};
use oc_history::error::AppError;
use oc_history::tui::app::{LineStyle, RenderedLine};
use oc_history::tui::query::{
    backspace, delete_at, delete_word_back, insert_at, kill_to_end, kill_to_start, word_left,
    word_right, word_separator,
};
use oc_history::tui::session_export;
use oc_history::tui::view_state::line_matches_query;
use oc_history::tui::terminal::{
    ansi_text, content_width_for, initial_show_thinking, initial_tool_display, pager_tool_display,
    viewport_height_for,
};
use oc_history::tui::ToolDisplayMode;

fn line(s: &str) -> Vec<char> {
    s.chars().collect()
}

fn text(q: &[char]) -> String {
    q.iter().collect()
}

#[test]
fn separators_are_non_alphanumeric() {
    assert!(word_separator(' '));
    assert!(word_separator('-'));
    assert!(word_separator('/'));
    assert!(!word_separator('a'));
    assert!(!word_separator('7'));
    assert!(!word_separator('é'));
}

#[test]
fn word_motions() {
    let q = line("foo bar-baz");
    assert_eq!(word_left(&q, 11), 8);
    assert_eq!(word_left(&q, 8), 4);
    assert_eq!(word_left(&q, 4), 0);
    assert_eq!(word_left(&q, 0), 0);
    assert_eq!(word_right(&q, 0), 4);
    assert_eq!(word_right(&q, 4), 8);
    assert_eq!(word_right(&q, 8), 11);
    assert_eq!(word_right(&q, 11), 11);
    assert_eq!(word_left(&q, 99), 8);
}

#[test]
fn delete_word_back_removes_word_and_spaces() {
    let mut q = line("foo bar  ");
    let mut c = 9usize;
    assert!(delete_word_back(&mut q, &mut c));
    assert_eq!(text(&q), "foo ");
    assert_eq!(c, 4);
    let mut c0 = 0usize;
    assert!(!delete_word_back(&mut q, &mut c0));
    assert_eq!(text(&q), "foo ");
}

#[test]
fn kills_to_the_ends() {
    let mut q = line("hello world");
    assert!(kill_to_end(&mut q, 5));
    assert_eq!(text(&q), "hello");
    assert!(!kill_to_end(&mut q, 5));
    let mut c = 2usize;
    assert!(kill_to_start(&mut q, &mut c));
    assert_eq!(text(&q), "llo");
    assert_eq!(c, 0);
    assert!(!kill_to_start(&mut q, &mut c));
}

#[test]
fn insert_backspace_delete() {
    let mut q = line("ac");
    let mut c = 1usize;
    insert_at(&mut q, &mut c, 'b');
    assert_eq!(text(&q), "abc");
    assert_eq!(c, 2);
    assert!(backspace(&mut q, &mut c));
    assert_eq!(text(&q), "ac");
    assert_eq!(c, 1);
    assert!(delete_at(&mut q, 0));
    assert_eq!(text(&q), "c");
    assert!(!delete_at(&mut q, 1));
    let mut c0 = 0usize;
    assert!(!backspace(&mut q, &mut c0));
}

#[test]
fn insert_then_backspace_restores_the_line() {
    let before = line("naïve text");
    for cursor in 0..=before.len() {
        let mut q = before.clone();
        let mut c = cursor;
        insert_at(&mut q, &mut c, 'Z');
        assert!(backspace(&mut q, &mut c));
        assert_eq!(q, before);
        assert_eq!(c, cursor);
    }
}

#[test]
fn frame_geometry() {
    assert_eq!(viewport_height_for(24), 21);
    assert_eq!(viewport_height_for(2), 0);
    assert_eq!(content_width_for(100), 84);
    assert_eq!(content_width_for(10), 0);
}

#[test]
fn display_settings_from_flags_and_config() {
    assert_eq!(initial_tool_display(true, true, Some(true)), ToolDisplayMode::Full);
    assert_eq!(initial_tool_display(false, true, Some(false)), ToolDisplayMode::Hidden);
    assert_eq!(initial_tool_display(false, false, Some(true)), ToolDisplayMode::Hidden);
    assert_eq!(initial_tool_display(false, false, Some(false)), ToolDisplayMode::Full);
    assert_eq!(initial_tool_display(false, false, None), ToolDisplayMode::Truncated);
    assert!(initial_show_thinking(true, true, Some(false)));
    assert!(!initial_show_thinking(false, true, Some(true)));
    assert!(initial_show_thinking(false, false, Some(true)));
    assert!(!initial_show_thinking(false, false, None));
    assert_eq!(pager_tool_display(true, true), ToolDisplayMode::Hidden);
    assert_eq!(pager_tool_display(false, true), ToolDisplayMode::Full);
    assert_eq!(pager_tool_display(false, false), ToolDisplayMode::Truncated);
}

#[test]
fn ansi_text_styles_spans() {
    let plain = LineStyle { fg: None, bold: false, dimmed: false, italic: false };
    let bold = LineStyle { bold: true, ..plain };
    let red = LineStyle { fg: Some((255, 0, 0)), ..plain };
    let lines = vec![
        RenderedLine { spans: vec![("a ".to_string(), plain), ("b".to_string(), bold)] },
        RenderedLine { spans: vec![("c".to_string(), red)] },
    ];
    assert_eq!(ansi_text(&lines), "a \x1b[1mb\x1b[0m\n\x1b[38;2;255;0;0mc\x1b[0m");
    assert_eq!(ansi_text(&Vec::new()), "");
}

#[test]
fn short_ids() {
    assert_eq!(short_parent_id("abcdefghijk"), "abcdefgh");
    assert_eq!(short_parent_id("abc"), "abc");
    assert!(parse_agent_progress(&serde_json::Value::Null).is_none());
}

#[test]
fn error_messages() {
    assert_eq!(AppError::Io("disk".to_string()).message(), "I/O error: disk");
    assert_eq!(
        AppError::EndpointUnreachable("http://x".to_string()).message(),
        "cannot reach opencode at http://x (use --endpoint or OPENCODE_BASE_URL to point elsewhere)"
    );
    assert_eq!(AppError::NoHistoryFound("here".to_string()).message(), "no sessions found in here");
    assert_eq!(AppError::Other("boom".to_string()).message(), "boom");
}

#[test]
fn path_export_is_not_available() {
    let options = session_export::ExportOptions {
        show_tools: true,
        tool_display: ToolDisplayMode::Full,
        show_thinking: false,
        show_timing: false,
        operator_only: false,
        command_headings: Vec::new(),
        no_color: true,
    };
    assert_eq!(session_export::ExportFormat::from_index(2), Some(session_export::ExportFormat::Markdown));
    assert!(session_export::export_to_clipboard("p", session_export::ExportFormat::Plain, options.clone()).is_err());
    assert!(session_export::copy_to_system_clipboard("t").is_err());
    assert!(matches!(session_export::extract_message_text("p", 0, options), Ok(None)));
}

#[test]
fn search_lines_are_compared_lowercased() {
    let plain = LineStyle { fg: None, bold: false, dimmed: false, italic: false };
    let line = RenderedLine { spans: vec![("Hello ".to_string(), plain), ("World".to_string(), plain)] };
    assert!(line_matches_query(&line, "world"));
    assert!(line_matches_query(&line, "o w"));
    assert!(!line_matches_query(&line, "World"));
    assert!(!line_matches_query(&line, "planet"));
}
