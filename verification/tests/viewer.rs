use oc_history::opencode::models::{MessageView, OcSessionView, ViewPart};
use oc_history::tui::app::{LineStyle, RenderedLine};
use oc_history::tui::viewer::{
    ansi_to_rendered_lines, compute_label_width, emit_labeled_block, parse_ansi_line, placeholder,
    render_oc_session, PartRendering,
};
use oc_history::tui::{render_conversation, RenderOptions, ToolDisplayMode};

#[test]
fn test_ansi_to_rendered_lines_bold_italic_truecolor() {
    let input = "text \x1b[1mbold\x1b[22m \x1b[3mitalic\x1b[23m \x1b[38;2;255;0;0mred\x1b[39m normal";
    let lines = ansi_to_rendered_lines(input);

    assert_eq!(lines.len(), 1);
    let spans = &lines[0].spans;
    assert!(spans.len() >= 3);
    assert_eq!(spans[0].0, "text ");
    assert!(!spans[0].1.bold);
    assert!(!spans[0].1.italic);
    assert_eq!(spans[0].1.fg, None);
    assert_eq!(spans[1].0, "bold");
    assert!(spans[1].1.bold);
    assert!(spans.iter().any(|s| s.1.italic && s.0.contains("italic")));
    assert!(spans.iter().any(|s| s.1.fg == Some((255, 0, 0))));
    assert!(spans.iter().any(|s| s.0.contains("normal") && !s.1.bold && !s.1.italic));
}

#[test]
fn test_ansi_to_rendered_lines_empty() {
    let lines = ansi_to_rendered_lines("");
    assert_eq!(lines.len(), 1);
    assert_eq!(lines[0].spans.len(), 1);
    assert_eq!(lines[0].spans[0].0, "");
}

#[test]
fn test_ansi_to_rendered_lines_multiline() {
    let lines = ansi_to_rendered_lines("line1\nline2");
    assert_eq!(lines.len(), 2);
    assert_eq!(lines[0].spans[0].0, "line1");
    assert_eq!(lines[1].spans[0].0, "line2");
}

#[test]
fn test_parse_ansi_line_green_blue_cyan() {
    let input = "\x1b[32mgreen\x1b[39m \x1b[34mblue\x1b[39m \x1b[36mcyan\x1b[39m";
    let spans = parse_ansi_line(input);
    let green_span = spans.iter().find(|s| s.0.contains("green")).unwrap();
    assert_eq!(green_span.1.fg, Some((0, 128, 0)));
    let blue_span = spans.iter().find(|s| s.0.contains("blue")).unwrap();
    assert_eq!(blue_span.1.fg, Some((0, 0, 255)));
    let cyan_span = spans.iter().find(|s| s.0.contains("cyan")).unwrap();
    assert_eq!(cyan_span.1.fg, Some((0, 255, 255)));
}

#[test]
fn test_parse_ansi_line_dimmed() {
    let spans = parse_ansi_line("\x1b[2mdim\x1b[22mnormal");
    let dim_span = spans.iter().find(|s| s.0.contains("dim")).unwrap();
    assert!(dim_span.1.dimmed);
    let normal_span = spans.iter().find(|s| s.0.contains("normal")).unwrap();
    assert!(!normal_span.1.dimmed);
}

#[test]
fn test_parse_ansi_line_reset() {
    let spans = parse_ansi_line("\x1b[1m\x1b[3mbold italic\x1b[0mnormal");
    let styled = spans.iter().find(|s| s.0.contains("bold")).unwrap();
    assert!(styled.1.bold);
    assert!(styled.1.italic);
    let reset = spans.iter().find(|s| s.0.contains("normal")).unwrap();
    assert!(!reset.1.bold);
    assert!(!reset.1.italic);
}

#[test]
fn test_compute_label_width_user_assistant() {
    let messages = vec![
        MessageView {
            role: "user".to_string(),
            created: 0,
            model: None,
            parts: vec![ViewPart::Text("test".to_string())],
        },
        MessageView {
            role: "assistant".to_string(),
            created: 0,
            model: Some("openai-opus".to_string()),
            parts: vec![ViewPart::Text("test".to_string())],
        },
    ];
    assert_eq!(compute_label_width(&messages), 13);
}

#[test]
fn test_compute_label_width_with_tool_thinking() {
    let messages = vec![MessageView {
        role: "assistant".to_string(),
        created: 0,
        model: Some("openai-sonnet".to_string()),
        parts: vec![
            ViewPart::Text("text".to_string()),
            ViewPart::ToolCall {
                name: "test".to_string(),
                call_id: "123".to_string(),
                input: serde_json::Value::Object(serde_json::Map::new()),
                output: None,
                status: "pending".to_string(),
            },
            ViewPart::Reasoning("thinking".to_string()),
        ],
    }];
    let width = compute_label_width(&messages);
    assert!(width >= 6);
}

#[test]
fn label_width_is_the_longest_label() {
    let messages = vec![MessageView {
        role: "assistant".to_string(),
        created: 0,
        model: Some("openai-sonnet".to_string()),
        parts: vec![ViewPart::Text("text".to_string())],
    }];
    assert_eq!(compute_label_width(&messages), "[openai-sonnet]".len());
}

#[test]
fn test_compute_label_width_empty() {
    let messages: Vec<MessageView> = vec![];
    assert_eq!(compute_label_width(&messages), 6);
}

#[test]
fn test_emit_labeled_block_empty() {
    let mut out = Vec::new();
    let content_lines: Vec<RenderedLine> = vec![];
    emit_labeled_block(&mut out, "[user]", 6, &content_lines, LineStyle::default());
    assert_eq!(out.len(), 1);
    assert_eq!(out[0].spans.len(), 1);
    assert!(out[0].spans[0].0.contains("│"));
}

#[test]
fn test_emit_labeled_block_single_line() {
    let mut out = Vec::new();
    let content_lines = vec![RenderedLine {
        spans: vec![("hello".to_string(), LineStyle::default())],
    }];
    let label_style = LineStyle {
        bold: true,
        ..Default::default()
    };
    emit_labeled_block(&mut out, "[user]", 6, &content_lines, label_style);
    assert_eq!(out.len(), 1);
    assert_eq!(out[0].spans[0].1.bold, true);
    assert!(out[0].spans.len() >= 2);
    assert_eq!(out[0].spans[1].0, "hello");
}

#[test]
fn test_emit_labeled_block_multiline() {
    let mut out = Vec::new();
    let content_lines = vec![
        RenderedLine { spans: vec![("line1".to_string(), LineStyle::default())] },
        RenderedLine { spans: vec![("line2".to_string(), LineStyle::default())] },
        RenderedLine { spans: vec![("line3".to_string(), LineStyle::default())] },
    ];
    let label_style = LineStyle {
        bold: true,
        ..Default::default()
    };
    emit_labeled_block(&mut out, "[assistant]", 11, &content_lines, label_style);
    assert_eq!(out.len(), 3);
    assert_eq!(out[0].spans[0].1.bold, true);
    assert!(out[0].spans[0].0.contains("│"));
    assert_eq!(out[1].spans[0].1.bold, false);
    assert!(out[1].spans[0].0.contains("│"));
    assert_eq!(out[2].spans[0].1.bold, false);
    assert!(out[2].spans[0].0.contains("│"));
}

fn options() -> RenderOptions {
    RenderOptions { tool_display: ToolDisplayMode::Truncated, show_thinking: false, show_timing: false, content_width: 0 }
}

fn text_of(line: &RenderedLine) -> String {
    line.spans.iter().map(|s| s.0.as_str()).collect()
}

#[test]
fn rendering_without_session_shows_loading() {
    let aux: Vec<Vec<PartRendering>> = vec![];
    let r = render_conversation(None, &aux, &options()).unwrap();
    assert_eq!(r.lines.len(), 1);
    assert_eq!(text_of(&r.lines[0]), "Loading…");
    assert!(r.lines[0].spans[0].1.dimmed);
    assert!(r.messages.is_empty());
}

#[test]
fn rendering_empty_session_says_so() {
    let s = OcSessionView { session_id: "ses_1".to_string(), messages: vec![] };
    let aux: Vec<Vec<PartRendering>> = vec![];
    let r = render_oc_session(Some(&s), &aux, &options()).unwrap();
    assert_eq!(r.lines.len(), 1);
    assert_eq!(text_of(&r.lines[0]), "No messages in this session.");
}

#[test]
fn placeholder_is_one_dim_line() {
    let r = placeholder("wait");
    assert_eq!(r.lines.len(), 1);
    assert_eq!(text_of(&r.lines[0]), "wait");
    assert!(r.lines[0].spans[0].1.dimmed);
}

#[test]
fn ranges_tile_the_rendered_lines() {
    let s = OcSessionView {
        session_id: "ses_1".to_string(),
        messages: vec![
            MessageView { role: "user".to_string(), created: 0, model: None, parts: vec![ViewPart::Text("hi".to_string())] },
            MessageView {
                role: "assistant".to_string(),
                created: 0,
                model: Some("m".to_string()),
                parts: vec![ViewPart::Text("yo".to_string())],
            },
        ],
    };
    let pr = |md: &str| PartRendering {
        markdown: md.to_string(),
        tool_header: String::new(),
        tool_body: None,
        tool_output: None,
    };
    let aux = vec![vec![pr("hi")], vec![pr("line a\nline b")]];
    let r = render_oc_session(Some(&s), &aux, &options()).unwrap();
    assert_eq!(r.messages.len(), 2);
    assert_eq!(r.messages[0].start_line, 0);
    assert_eq!(r.messages[0].end_line + 1, r.messages[1].start_line);
    assert_eq!(r.messages[1].end_line + 1, r.lines.len());
    assert_eq!(r.messages[1].entry_index, 1);
    assert!(r.lines.iter().any(|l| text_of(l).contains("line b")));
}
