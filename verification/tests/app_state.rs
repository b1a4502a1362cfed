use oc_history::error::AppError;
use oc_history::history::Conversation;
use oc_history::opencode::loader::{build_conversation, MessageTotals};
use oc_history::opencode::models::{DeleteResult, MessageView, OcSessionView, Session, SessionTime, UsdAmount, ViewPart};
use oc_history::opencode::sse::SseEvent;
use oc_history::tui::app::{
    deferred_action_notice, keep_pinned, octmux_args, spawn_failure_text, SpawnFailure, session_id_of_path, Action, App, AppMode, DialogMode, Effect, ExportJob,
    LoadingState, ViewSearchMode,
};
use oc_history::tui::export::ExportFormat;
use oc_history::tui::keys::{BoundKey, KeyCode, KeyInput};
use oc_history::tui::viewer::PartRendering;
use oc_history::tui::ToolDisplayMode;

fn zero() -> UsdAmount {
    UsdAmount { fixed6: "0.000000".to_string(), fixed4: "0.0000".to_string() }
}

fn session(id: &str, title: &str, updated: i64) -> Session {
    Session {
        id: id.to_string(),
        project_id: "p".to_string(),
        directory: "/work".to_string(),
        title: title.to_string(),
        version: "1".to_string(),
        time: SessionTime { created: 0, updated, compacting: None },
        parent_id: None,
    }
}

fn conv(idx: usize, id: &str, title: &str, updated: i64) -> Conversation {
    let totals = MessageTotals { turn_count: 0, tokens_in: 0, tokens_out: 0, tokens_reasoning: 0, message_count: 0 };
    build_conversation(idx, &session(id, title, updated), Ok(totals), zero(), None)
}

fn three() -> App {
    App::new(
        vec![conv(0, "ses_a", "alpha", 3), conv(1, "ses_b", "beta", 2), conv(2, "ses_c", "alpha", 1)],
        ToolDisplayMode::Truncated,
        false,
    )
}

fn key(code: KeyCode) -> KeyInput {
    KeyInput { code, ctrl: false, alt: false, bound: None, now_ms: 0 }
}

fn ch(c: char) -> KeyInput {
    key(KeyCode::Char(c))
}

fn ctrl(c: char) -> KeyInput {
    KeyInput { code: KeyCode::Char(c), ctrl: true, alt: false, bound: None, now_ms: 0 }
}

fn at(k: KeyInput, now_ms: u64) -> KeyInput {
    KeyInput { now_ms, ..k }
}

fn status(app: &App) -> Option<String> {
    app.status_message().map(|s| s.0.clone())
}

#[test]
fn list_navigation_stays_inside_the_list() {
    let mut app = three();
    assert_eq!(app.selected(), Some(0));
    app.handle_key(&key(KeyCode::Down), 20);
    app.handle_key(&key(KeyCode::Down), 20);
    assert_eq!(app.selected(), Some(2));
    app.handle_key(&key(KeyCode::Down), 20);
    assert_eq!(app.selected(), Some(2));
    app.handle_key(&key(KeyCode::Up), 20);
    assert_eq!(app.selected(), Some(1));
    app.handle_key(&key(KeyCode::Home), 20);
    assert_eq!(app.selected(), Some(0));
    app.handle_key(&key(KeyCode::PageDown), 20);
    assert_eq!(app.selected(), Some(2));
    app.handle_key(&key(KeyCode::PageUp), 20);
    assert_eq!(app.selected(), Some(0));
    app.handle_key(&key(KeyCode::End), 20);
    assert_eq!(app.selected(), Some(2));
    app.handle_key(&ctrl('p'), 20);
    assert_eq!(app.selected(), Some(1));
}

#[test]
fn typing_searches_and_backspace_undoes() {
    let mut app = three();
    let out = app.handle_key(&ch('x'), 20);
    assert_eq!(app.query(), "x");
    assert_eq!(app.cursor_pos(), 1);
    match out.effect {
        Some(Effect::Search { query, generation, workspace_filter, project }) => {
            assert_eq!(query, "x");
            assert_eq!(generation, 1);
            assert!(!workspace_filter);
            assert!(project.is_none());
        },
        _ => panic!("expected a search"),
    }
    assert!(app.search_in_flight());
    let out = app.handle_key(&key(KeyCode::Backspace), 20);
    assert_eq!(app.query(), "");
    assert_eq!(app.cursor_pos(), 0);
    assert!(matches!(out.effect, Some(Effect::Search { generation: 2, .. })));
}

#[test]
fn second_escape_quits() {
    let mut app = three();
    let out = app.handle_key(&at(key(KeyCode::Esc), 1_000), 20);
    assert!(out.action.is_none());
    assert_eq!(status(&app).as_deref(), Some("Press Esc again to exit"));
    let out = app.handle_key(&at(key(KeyCode::Esc), 2_500), 20);
    assert!(matches!(out.action, Some(Action::Quit)));
}

#[test]
fn late_second_escape_still_quits() {
    let mut app = three();
    app.handle_key(&at(key(KeyCode::Esc), 1_000), 20);
    let out = app.handle_key(&at(key(KeyCode::Esc), 60_000), 20);
    assert!(matches!(out.action, Some(Action::Quit)));
}

#[test]
fn another_key_forgets_the_pending_escape() {
    let mut app = three();
    app.handle_key(&at(key(KeyCode::Esc), 1_000), 20);
    app.handle_key(&at(key(KeyCode::Down), 1_100), 20);
    let out = app.handle_key(&at(key(KeyCode::Esc), 1_200), 20);
    assert!(out.action.is_none());
}

#[test]
fn escape_with_text_clears_the_line() {
    let mut app = three();
    app.handle_key(&ch('a'), 20);
    let out = app.handle_key(&key(KeyCode::Esc), 20);
    assert_eq!(app.query(), "");
    assert!(out.action.is_none());
    assert!(matches!(out.effect, Some(Effect::Search { .. })));
}

#[test]
fn ctrl_w_deletes_the_word_before_the_cursor() {
    let mut app = three();
    for c in "foo bar".chars() {
        app.handle_key(&ch(c), 20);
    }
    app.handle_key(&ctrl('w'), 20);
    assert_eq!(app.query(), "foo ");
    assert_eq!(app.cursor_pos(), 4);
    app.handle_key(&ctrl('a'), 20);
    assert_eq!(app.cursor_pos(), 0);
    app.handle_key(&ctrl('k'), 20);
    assert_eq!(app.query(), "");
}

#[test]
fn editing_in_the_middle_of_the_line() {
    let mut app = three();
    for c in "ac".chars() {
        app.handle_key(&ch(c), 20);
    }
    app.handle_key(&key(KeyCode::Left), 20);
    app.handle_key(&ch('b'), 20);
    assert_eq!(app.query(), "abc");
    assert_eq!(app.cursor_pos(), 2);
    app.handle_key(&key(KeyCode::Delete), 20);
    assert_eq!(app.query(), "ab");
    app.handle_key(&ctrl('u'), 20);
    assert_eq!(app.query(), "");
    assert_eq!(app.cursor_pos(), 0);
}

#[test]
fn tab_pins_the_selected_title() {
    let mut app = three();
    let out = app.handle_key(&key(KeyCode::Tab), 20);
    assert!(matches!(out.effect, Some(Effect::Refilter)));
    assert!(app.workspace_filter());
    assert_eq!(app.current_project_name(), Some("alpha"));
    app.apply_filter(vec![0, 1, 2]);
    assert_eq!(app.filtered(), &[0, 2]);
    assert_eq!(app.selected(), Some(0));
    let out = app.handle_key(&key(KeyCode::Tab), 20);
    assert!(matches!(out.effect, Some(Effect::Refilter)));
    assert!(!app.workspace_filter());
    assert_eq!(app.current_project_name(), None);
}

#[test]
fn keep_pinned_keeps_matching_titles() {
    let convs = vec![conv(0, "ses_a", "alpha", 3), conv(1, "ses_b", "beta", 2)];
    assert_eq!(keep_pinned(&convs, &vec![1, 0], true, Some("alpha")), vec![0]);
    assert_eq!(keep_pinned(&convs, &vec![1, 0], false, Some("alpha")), vec![1, 0]);
}

#[test]
fn stale_search_results_are_ignored() {
    let mut app = three();
    app.handle_key(&ch('a'), 20);
    app.handle_key(&ch('b'), 20);
    assert!(!app.receive_search_results(vec![2], 1));
    assert_eq!(app.filtered(), &[0, 1, 2]);
    assert!(app.receive_search_results(vec![2, 0], 2));
    assert_eq!(app.filtered(), &[2, 0]);
    assert_eq!(app.selected(), Some(0));
    assert!(!app.search_in_flight());
}

#[test]
fn removing_keeps_the_other_conversations_in_order() {
    let mut app = three();
    app.handle_key(&key(KeyCode::Down), 20);
    app.remove_selected_from_list();
    let ids: Vec<String> = app.conversations().iter().map(|c| c.id.clone()).collect();
    assert_eq!(ids, vec!["ses_a".to_string(), "ses_c".to_string()]);
    assert_eq!(app.filtered(), &[0, 1]);
    assert_eq!(app.selected(), Some(1));
    app.remove_selected_from_list();
    assert_eq!(app.selected(), Some(0));
    app.remove_selected_from_list();
    assert_eq!(app.selected(), None);
    assert!(app.filtered().is_empty());
}

#[test]
fn delete_binding_asks_for_confirmation() {
    let mut app = three();
    let k = KeyInput { bound: Some(BoundKey::Delete), ..ctrl('x') };
    app.handle_key(&k, 20);
    assert_eq!(app.dialog_mode(), DialogMode::ConfirmDelete);
    let out = app.handle_key(&ch('y'), 20);
    assert_eq!(app.dialog_mode(), DialogMode::Closed);
    match out.action {
        Some(Action::Delete(p)) => assert_eq!(p, "ses_a"),
        _ => panic!("expected a delete"),
    }
}

#[test]
fn confirmation_can_be_cancelled() {
    let mut app = three();
    let k = KeyInput { bound: Some(BoundKey::Delete), ..ctrl('x') };
    app.handle_key(&k, 20);
    let out = app.handle_key(&ch('n'), 20);
    assert!(out.action.is_none());
    assert_eq!(app.dialog_mode(), DialogMode::Closed);
}

#[test]
fn resume_binding_names_the_selection() {
    let mut app = three();
    let k = KeyInput { bound: Some(BoundKey::Resume), ..ctrl('r') };
    let out = app.handle_key(&k, 20);
    match out.action {
        Some(Action::Resume(p)) => {
            assert_eq!(p, "ses_a");
            let args = octmux_args(&Action::Resume(p)).unwrap();
            assert_eq!(args, vec!["--resume".to_string(), "ses_a".to_string()]);
        },
        _ => panic!("expected a resume"),
    }
}

#[test]
fn help_opens_and_closes() {
    let mut app = three();
    app.handle_key(&ch('?'), 20);
    assert_eq!(app.dialog_mode(), DialogMode::Help);
    app.handle_key(&ch('x'), 20);
    assert_eq!(app.dialog_mode(), DialogMode::Help);
    app.handle_key(&ch('q'), 20);
    assert_eq!(app.dialog_mode(), DialogMode::Closed);
}

#[test]
fn reload_and_loading() {
    let mut app = three();
    let out = app.handle_key(&ctrl('l'), 20);
    assert!(matches!(out.action, Some(Action::ReloadSessions)));
    app.reset_for_reload();
    assert!(app.is_loading());
    assert!(app.conversations().is_empty());
    assert_eq!(app.selected(), None);
    app.append_conversations(vec![conv(0, "ses_old", "old", 1), conv(1, "ses_new", "new", 9)], vec![true, true]);
    assert_eq!(app.selected(), Some(0));
    assert_eq!(app.loading_state(), LoadingState::Loading { loaded: 2 });
    app.handle_key(&ch('z'), 20);
    assert_eq!(app.query(), "z");
    app.handle_key(&key(KeyCode::Backspace), 20);
    let e = app.finish_loading();
    assert!(e.is_none());
    assert!(!app.is_loading());
    let ids: Vec<String> = app.conversations().iter().map(|c| c.id.clone()).collect();
    assert_eq!(ids, vec!["ses_new".to_string(), "ses_old".to_string()]);
    assert_eq!(app.conversations()[0].index, 0);
    assert_eq!(app.conversations()[1].index, 1);
    assert_eq!(app.filtered(), &[0, 1]);
    app.select_session_id("ses_old");
    assert_eq!(app.selected(), Some(1));
    assert!(app.loaded_nothing().is_none());
}

#[test]
fn nothing_loaded_is_an_error() {
    let mut app = App::new_loading(ToolDisplayMode::Truncated, false, false, None);
    app.finish_loading();
    match app.loaded_nothing() {
        Some(AppError::NoHistoryFound(s)) => assert_eq!(s, "selected scope"),
        _ => panic!("expected an error"),
    }
}

fn session_view() -> OcSessionView {
    OcSessionView {
        session_id: "ses_a".to_string(),
        messages: vec![
            MessageView { role: "user".to_string(), created: 0, model: None, parts: vec![ViewPart::Text("hi".to_string())] },
            MessageView {
                role: "assistant".to_string(),
                created: 0,
                model: Some("m".to_string()),
                parts: vec![ViewPart::Text("bye".to_string())],
            },
        ],
    }
}

fn aux_for(s: &OcSessionView) -> Vec<Vec<PartRendering>> {
    s.messages
        .iter()
        .map(|m| {
            m.parts
                .iter()
                .map(|p| PartRendering {
                    markdown: match p {
                        ViewPart::Text(t) | ViewPart::Reasoning(t) => t.clone(),
                        _ => String::new(),
                    },
                    tool_header: String::new(),
                    tool_body: None,
                    tool_output: None,
                })
                .collect()
        })
        .collect()
}

fn opened() -> App {
    let mut app = three();
    let s = session_view();
    let aux = aux_for(&s);
    assert!(app.enter_view_mode(Ok(s), &aux, 60, 20, 0, 0));
    app
}

#[test]
fn entering_the_viewer_renders_and_counts_turns() {
    let app = opened();
    assert!(app.sse_active());
    assert_eq!(app.conversations()[0].turn_count, 1);
    match app.app_mode() {
        AppMode::View(v) => {
            assert_eq!(v.conversation_path, "ses_a");
            assert_eq!(v.custom_title.as_deref(), Some("alpha"));
            assert!(v.total_lines >= 2);
            assert_eq!(v.message_ranges.len(), 2);
            assert_eq!(v.focused_message, Some(0));
        },
        AppMode::List => panic!("expected the viewer"),
    }
    assert_eq!(app.view_session_id().as_deref(), Some("ses_a"));
}

#[test]
fn failed_load_is_reported() {
    let mut app = three();
    let aux: Vec<Vec<PartRendering>> = vec![];
    assert!(!app.enter_view_mode(Err(AppError::Other("boom".to_string())), &aux, 60, 20, 5, 0));
    assert_eq!(status(&app).as_deref(), Some("Failed to load session: boom"));
    assert!(matches!(app.app_mode(), AppMode::List));
}

#[test]
fn q_leaves_the_viewer() {
    let mut app = opened();
    let out = app.handle_key(&ch('q'), 20);
    assert!(out.action.is_none());
    assert!(matches!(app.app_mode(), AppMode::List));
    assert!(!app.sse_active());
}

#[test]
fn viewer_search_finds_matches() {
    let mut app = opened();
    app.handle_key(&ch('/'), 20);
    match app.app_mode() {
        AppMode::View(v) => assert_eq!(v.search_mode, ViewSearchMode::Typing),
        _ => panic!(),
    }
    app.handle_key(&ch('B'), 20);
    app.handle_key(&ch('y'), 20);
    app.handle_key(&key(KeyCode::Enter), 20);
    match app.app_mode() {
        AppMode::View(v) => {
            assert_eq!(v.search_mode, ViewSearchMode::Active);
            assert_eq!(v.last_search_query, "By");
            assert_eq!(v.search_matches.len(), 1);
            assert_eq!(v.current_match, 0);
        },
        _ => panic!(),
    }
    app.handle_key(&ch('n'), 20);
    match app.app_mode() {
        AppMode::View(v) => assert_eq!(v.current_match, 0),
        _ => panic!(),
    }
    app.handle_key(&key(KeyCode::Esc), 20);
    match app.app_mode() {
        AppMode::View(v) => {
            assert!(!v.message_nav_active);
            assert_eq!(v.search_mode, ViewSearchMode::Active);
        },
        _ => panic!(),
    }
    app.handle_key(&key(KeyCode::Esc), 20);
    match app.app_mode() {
        AppMode::View(v) => {
            assert_eq!(v.search_mode, ViewSearchMode::Off);
            assert!(v.search_query.is_empty());
        },
        _ => panic!(),
    }
}

#[test]
fn search_without_matches_ends() {
    let mut app = opened();
    app.handle_key(&ch('/'), 20);
    app.handle_key(&ch('q'), 20);
    app.handle_key(&ch('q'), 20);
    app.handle_key(&key(KeyCode::Enter), 20);
    match app.app_mode() {
        AppMode::View(v) => {
            assert_eq!(v.search_mode, ViewSearchMode::Off);
            assert!(v.search_matches.is_empty());
        },
        _ => panic!(),
    }
}

#[test]
fn toggles_ask_for_rendering() {
    let mut app = opened();
    let out = app.handle_key(&ch('t'), 20);
    assert!(matches!(out.effect, Some(Effect::ReRender)));
    assert_eq!(app.tool_display(), ToolDisplayMode::Full);
    let out = app.handle_key(&ch('T'), 20);
    assert!(matches!(out.effect, Some(Effect::ReRender)));
    assert!(app.show_thinking());
    let s = session_view();
    let aux = aux_for(&s);
    app.re_render_view(&aux, 20);
    let out = app.handle_key(&ch('m'), 20);
    assert!(matches!(out.action, Some(Action::ToggleMouse)));
    assert!(!app.mouse_capture());
}

#[test]
fn copy_keys_ask_for_the_clipboard() {
    let mut app = opened();
    let out = app.handle_key(&ch('Y'), 20);
    match out.effect {
        Some(Effect::Copy { text, success }) => {
            assert_eq!(text, "ses_a");
            assert_eq!(success, "Path copied to clipboard");
        },
        _ => panic!(),
    }
    let out = app.handle_key(&ch('I'), 20);
    match out.effect {
        Some(Effect::Copy { text, success }) => {
            assert_eq!(text, "ses_a");
            assert_eq!(success, "Session ID copied to clipboard");
        },
        _ => panic!(),
    }
    app.clipboard_finished("Path copied to clipboard", &Err("no clipboard".to_string()), 7);
    assert_eq!(status(&app).as_deref(), Some("no clipboard"));
    app.handle_key(&ch('p'), 20);
    assert_eq!(status(&app).as_deref(), Some("ses_a"));
}

#[test]
fn export_menu_chooses_a_format() {
    let mut app = opened();
    app.handle_key(&ch('e'), 20);
    assert_eq!(app.dialog_mode(), DialogMode::ExportMenu { selected: 0 });
    app.handle_key(&key(KeyCode::Down), 20);
    app.handle_key(&key(KeyCode::Down), 20);
    app.handle_key(&key(KeyCode::Down), 20);
    assert_eq!(app.dialog_mode(), DialogMode::ExportMenu { selected: 2 });
    let out = app.handle_key(&ch('2'), 20);
    assert_eq!(app.dialog_mode(), DialogMode::Closed);
    assert!(matches!(out.effect, Some(Effect::Export { format: ExportFormat::Plain, to_clipboard: false })));
    app.handle_key(&ch('y'), 20);
    assert_eq!(app.dialog_mode(), DialogMode::YankMenu { selected: 0 });
    let out = app.handle_key(&ch('4'), 20);
    assert!(out.effect.is_none());
    assert_eq!(app.dialog_mode(), DialogMode::Closed);
}

#[test]
fn export_request_names_the_file() {
    let app = opened();
    let s = session_view();
    let aux = aux_for(&s);
    match app.export_request(ExportFormat::Markdown, false, &aux) {
        Some(ExportJob::File { filename, text }) => {
            assert!(filename.starts_with("alpha--"));
            assert!(filename.ends_with(".md"));
            assert!(text.contains("hi"));
        },
        _ => panic!("expected a file"),
    }
    match app.export_request(ExportFormat::Plain, true, &aux) {
        Some(ExportJob::Clipboard { text }) => assert!(text.contains("bye")),
        _ => panic!("expected the clipboard"),
    }
}

#[test]
fn reports_of_exports() {
    let mut app = opened();
    app.file_written("a.md", &Ok(()), 1);
    assert_eq!(status(&app).as_deref(), Some("Exported to a.md"));
    app.file_written("a.md", &Err("denied".to_string()), 1);
    assert_eq!(status(&app).as_deref(), Some("Failed to write: denied"));
}

#[test]
fn delete_results_update_the_list() {
    let mut app = opened();
    app.apply_delete_result("ses_a", &Ok(DeleteResult::Deleted), 3);
    assert_eq!(status(&app).as_deref(), Some("Deleted ses_a"));
    assert!(matches!(app.app_mode(), AppMode::List));
    assert_eq!(app.conversations().len(), 2);
    app.apply_delete_result("ses_b", &Ok(DeleteResult::Refused("locked".to_string())), 3);
    assert_eq!(status(&app).as_deref(), Some("Delete refused: locked"));
    app.apply_delete_result("ses_b", &Ok(DeleteResult::NotFound), 3);
    assert_eq!(status(&app).as_deref(), Some("Session already gone (404)"));
    assert_eq!(app.conversations().len(), 1);
    app.apply_delete_result("ses_b", &Err(AppError::Other("down".to_string())), 3);
    assert_eq!(status(&app).as_deref(), Some("Delete failed: down"));
}

#[test]
fn live_events_are_reported() {
    let mut app = opened();
    assert!(app.apply_sse_event(&SseEvent::ContentChanged, 1));
    assert!(!app.apply_sse_event(&SseEvent::Reconnecting { attempt: 3 }, 1));
    assert_eq!(status(&app).as_deref(), Some("SSE reconnecting (attempt 3)…"));
    assert!(app.sse_active());
    assert!(!app.apply_sse_event(&SseEvent::Failed("gone".to_string()), 1));
    assert_eq!(status(&app).as_deref(), Some("SSE failed: gone"));
    assert!(!app.sse_active());
}

#[test]
fn refresh_follows_the_end() {
    let mut app = opened();
    let mut s = session_view();
    for i in 0..30 {
        s.messages.push(MessageView {
            role: "assistant".to_string(),
            created: 0,
            model: Some("m".to_string()),
            parts: vec![ViewPart::Text(format!("more {i}"))],
        });
    }
    let aux = aux_for(&s);
    app.refresh_view(Ok(s), &aux, 10, 0);
    match app.app_mode() {
        AppMode::View(v) => {
            assert!(v.total_lines > 10);
            assert_eq!(v.scroll_offset, v.total_lines - 10);
        },
        _ => panic!(),
    }
    assert_eq!(app.conversations()[0].turn_count, 31);
}

#[test]
fn status_messages_expire_after_three_seconds() {
    let mut app = three();
    app.set_status_message("hello", 1_000);
    assert_eq!(app.status_message_remaining(2_000), Some(2_000));
    assert_eq!(app.status_message_remaining(4_000), Some(0));
    assert_eq!(app.status_message_remaining(4_001), None);
    assert_eq!(app.poll_timeout_ms(2_000), 2_000);
}

#[test]
fn clicks_select_list_entries() {
    let mut app = three();
    // Frame at row 0, 20 rows: list starts at row 3, three rows per entry.
    assert!(app.handle_list_click(6, 0, 20));
    assert_eq!(app.selected(), Some(1));
    assert!(!app.handle_list_click(1, 0, 20));
    assert!(!app.handle_list_click(12, 0, 20));
    assert_eq!(app.selected(), Some(1));
}

#[test]
fn mouse_wheel_moves_one_entry() {
    let mut app = three();
    app.scroll_mouse(3, 20);
    assert_eq!(app.selected(), Some(1));
    app.scroll_mouse(-3, 20);
    assert_eq!(app.selected(), Some(0));
}

#[test]
fn single_file_viewer_quits_on_q() {
    let mut app = App::new_single_file("a/b/file.jsonl".to_string(), ToolDisplayMode::Truncated, false, 0);
    assert!(app.is_single_file_mode());
    let out = app.handle_key(&ch('q'), 20);
    assert!(matches!(out.action, Some(Action::Quit)));
}

#[test]
fn session_ids_come_from_paths() {
    assert_eq!(session_id_of_path("ses_abc"), "ses_abc");
    assert_eq!(session_id_of_path("dir/abc.jsonl"), "abc");
}

#[test]
fn resume_and_fork_run_octmux() {
    assert_eq!(
        octmux_args(&Action::ForkResume("ses_b".to_string())),
        Some(vec!["--fork".to_string(), "ses_b".to_string()])
    );
    assert_eq!(octmux_args(&Action::Quit), None);
    assert_eq!(deferred_action_notice(&Action::Resume("ses_b".to_string())), None);
    assert_eq!(deferred_action_notice(&Action::Select("x".to_string())), Some("Select mode: deferred to later stage"));
    assert_eq!(
        spawn_failure_text(false, &SpawnFailure::NotFound),
        "octmux not found in $PATH \u{2014} install octmux to use resume"
    );
    assert_eq!(spawn_failure_text(false, &SpawnFailure::Other("bad".to_string())), "octmux --resume failed: bad");
    assert_eq!(spawn_failure_text(true, &SpawnFailure::Other("bad".to_string())), "octmux --fork failed: bad");
}

#[test]
fn ctrl_w_cuts_after_wide_white_space() {
    let mut app = opened();
    app.handle_key(&ch('/'), 20);
    for c in ['a', 'b', '\u{3000}', 'c', 'd'] {
        app.handle_key(&ch(c), 20);
    }
    app.handle_key(&ctrl('w'), 20);
    match app.app_mode() {
        AppMode::View(v) => assert_eq!(v.search_query, "ab\u{3000}"),
        _ => panic!(),
    }
    app.handle_key(&ctrl('w'), 20);
    match app.app_mode() {
        AppMode::View(v) => assert_eq!(v.search_query, ""),
        _ => panic!(),
    }
}
