use oc_history::opencode::models::{MessageView, OcSessionView, UsdAmount, ViewPart};
use oc_history::tui::export::{
    append_ledger_block, export_tool_width, markdown_code_fence,
    render_oc_export, render_oc_ledger, render_oc_markdown, render_oc_plain, sanitize_filename,
    with_pretty_output, wrap_plain_text, ExportFormat,
};
use oc_history::tui::viewer::PartRendering;
use oc_history::tui::ToolDisplayMode;

fn rendering() -> PartRendering {
    PartRendering {
        markdown: String::new(),
        tool_header: String::new(),
        tool_body: None,
        tool_output: None,
    }
}

fn msg(role: &str, parts: Vec<ViewPart>) -> MessageView {
    MessageView { role: role.to_string(), created: 0, model: None, parts }
}

fn chat() -> (OcSessionView, Vec<Vec<PartRendering>>) {
    let session = OcSessionView {
        session_id: "ses_1".to_string(),
        messages: vec![
            msg("user", vec![ViewPart::Text("hi".to_string())]),
            msg("assistant", vec![ViewPart::Text("hello".to_string())]),
        ],
    };
    (session, vec![vec![rendering()], vec![rendering()]])
}

fn tool_session() -> (OcSessionView, Vec<Vec<PartRendering>>) {
    let session = OcSessionView {
        session_id: "ses_2".to_string(),
        messages: vec![msg(
            "assistant",
            vec![
                ViewPart::ToolCall {
                    name: "bash".to_string(),
                    call_id: "c1".to_string(),
                    input: serde_json::Value::Null,
                    output: Some(serde_json::Value::String("ok".to_string())),
                    status: "completed".to_string(),
                },
                ViewPart::Reasoning("pondering".to_string()),
                ViewPart::StepFinish {
                    cost: Some(UsdAmount { fixed6: "0.001234".to_string(), fixed4: "0.0012".to_string() }),
                    input_tokens: 10,
                    output_tokens: 20,
                },
            ],
        )],
    };
    let tool = PartRendering {
        markdown: String::new(),
        tool_header: "$ ls".to_string(),
        tool_body: None,
        tool_output: Some("\"ok\"".to_string()),
    };
    (session, vec![vec![tool, rendering(), rendering()]])
}

#[test]
fn sanitize_replaces_and_collapses() {
    assert_eq!(sanitize_filename("Hello, World!"), "Hello-World");
    assert_eq!(sanitize_filename("a.b_c"), "a.b_c");
    assert_eq!(sanitize_filename("--fix  bug--"), "fix-bug");
}

#[test]
fn sanitize_empty_gives_session() {
    assert_eq!(sanitize_filename(""), "session");
    assert_eq!(sanitize_filename("---"), "session");
    assert_eq!(sanitize_filename("!!!"), "session");
}

#[test]
fn sanitize_keeps_unicode_letters() {
    assert_eq!(sanitize_filename("héllo wörld"), "héllo-wörld");
}

#[test]
fn sanitize_truncates_to_sixty_bytes() {
    let long = "a".repeat(70);
    assert_eq!(sanitize_filename(&long), "a".repeat(60));
}

#[test]
fn truncation_stops_before_a_split_character() {
    let s = format!("{}é", "a".repeat(59));
    assert_eq!(sanitize_filename(&s), "a".repeat(59));
    let t = format!("{}éé", "a".repeat(57));
    assert_eq!(sanitize_filename(&t), format!("{}é", "a".repeat(57)));
}

#[test]
fn sanitized_names_use_safe_characters() {
    for input in ["a/b\\c:d", "spaces and\ttabs", "x--y", "ünïcödé name"] {
        let out = sanitize_filename(input);
        assert!(!out.is_empty());
        assert!(out.chars().all(|c| c.is_alphanumeric() || c == '-' || c == '_' || c == '.'));
        assert!(!out.starts_with('-') && !out.ends_with('-'));
        assert!(!out.contains("--"));
    }
}

#[test]
fn fence_is_three_ticks_by_default() {
    assert_eq!(markdown_code_fence("abc"), "```\nabc\n```");
}

#[test]
fn fence_is_longer_than_inner_ticks() {
    assert_eq!(markdown_code_fence("a````b"), "`````\na````b\n`````");
    assert_eq!(markdown_code_fence("``"), "```\n``\n```");
}

#[test]
fn wrap_plain_splits_long_lines() {
    assert_eq!(wrap_plain_text("hello world", 5), "hello\nworld");
}

#[test]
fn wrap_plain_keeps_blank_lines() {
    assert_eq!(wrap_plain_text("a\n\nb", 10), "a\n\nb");
    assert_eq!(wrap_plain_text("", 10), "");
}

#[test]
fn ledger_block_aligns_speaker() {
    let mut out = String::new();
    append_ledger_block(&mut out, "You", "hi\nthere", 9);
    assert_eq!(out, "      You │ hi\n          │ there\n");
}

#[test]
fn ledger_block_of_empty_text_is_empty() {
    let mut out = "x".to_string();
    append_ledger_block(&mut out, "You", "", 9);
    assert_eq!(out, "x");
}

#[test]
fn plain_export_of_chat() {
    let (s, aux) = chat();
    let r = render_oc_plain(&s, &aux, ToolDisplayMode::Truncated, false, false);
    assert_eq!(r, "User:\nhi\n\nAssistant:\nhello");
}

#[test]
fn markdown_export_of_chat() {
    let (s, aux) = chat();
    let r = render_oc_markdown(&s, &aux, ToolDisplayMode::Truncated, false, false);
    assert_eq!(r, "## User\n\nhi\n\n## Assistant\n\nhello\n");
}

#[test]
fn ledger_export_of_chat() {
    let (s, aux) = chat();
    let r = render_oc_ledger(&s, &aux, ToolDisplayMode::Truncated, false, false);
    assert_eq!(r, "      You │ hi\n\nAssistant │ hello\n\n");
}

#[test]
fn export_dispatches_on_format() {
    let (s, aux) = chat();
    let td = ToolDisplayMode::Full;
    assert_eq!(
        render_oc_export(&s, ExportFormat::Markdown, &aux, td, true, true),
        render_oc_markdown(&s, &aux, td, true, true)
    );
    assert_eq!(
        render_oc_export(&s, ExportFormat::Plain, &aux, td, true, true),
        render_oc_plain(&s, &aux, td, true, true)
    );
    assert_eq!(
        render_oc_export(&s, ExportFormat::Ledger, &aux, td, true, true),
        render_oc_ledger(&s, &aux, td, true, true)
    );
}

#[test]
fn plain_export_with_tools_thinking_and_timing() {
    let (s, aux) = tool_session();
    let r = render_oc_plain(&s, &aux, ToolDisplayMode::Full, true, true);
    assert_eq!(
        r,
        "Tool: bash\n$ ls\nTool Result:\n\"ok\"\n\nThinking:\npondering\n\n[Step finish] cost: $0.001234 tokens: 10/20"
    );
}

#[test]
fn plain_export_hides_what_is_off() {
    let (s, aux) = tool_session();
    let r = render_oc_plain(&s, &aux, ToolDisplayMode::Hidden, false, false);
    assert_eq!(r, "");
}

#[test]
fn markdown_export_of_tool_and_thinking() {
    let (s, aux) = tool_session();
    let r = render_oc_markdown(&s, &aux, ToolDisplayMode::Full, true, true);
    assert_eq!(
        r,
        "### Tool: bash\n\n```\n$ ls\n```\n\n### Tool Result\n\n```\n\"ok\"\n```\n\n### Thinking\n\n> pondering\n\n\n**[Step finish]** cost: $0.001234 tokens: 10/20\n"
    );
}

#[test]
fn ledger_export_of_tool_and_timing() {
    let (s, aux) = tool_session();
    let r = render_oc_ledger(&s, &aux, ToolDisplayMode::Full, false, true);
    assert_eq!(
        r,
        "     Tool │ $ ls\n\n   Result │ \"ok\"\n\n     Time │ [Step finish] cost: $0.001234 tokens: 10/20\n\n"
    );
}

#[test]
fn pretty_output_prints_the_tool_result() {
    let part = ViewPart::ToolCall {
        name: "bash".to_string(),
        call_id: "c1".to_string(),
        input: serde_json::Value::Null,
        output: Some(serde_json::Value::String("ok".to_string())),
        status: "completed".to_string(),
    };
    let r = with_pretty_output(&part, rendering());
    assert_eq!(r.tool_output, Some("\"ok\"".to_string()));
    let text = ViewPart::Text("x".to_string());
    let r = with_pretty_output(&text, rendering());
    assert_eq!(r.tool_output, None);
}

#[test]
fn format_menu_and_extensions() {
    assert_eq!(ExportFormat::from_index(0), Some(ExportFormat::Ledger));
    assert_eq!(ExportFormat::from_index(1), Some(ExportFormat::Plain));
    assert_eq!(ExportFormat::from_index(2), Some(ExportFormat::Markdown));
    assert_eq!(ExportFormat::from_index(3), None);
    assert_eq!(ExportFormat::Markdown.extension(), "md");
    assert_eq!(ExportFormat::Ledger.extension(), "txt");
    assert_eq!(export_tool_width(ExportFormat::Ledger), 78);
    assert_eq!(export_tool_width(ExportFormat::Plain), usize::MAX);
}
