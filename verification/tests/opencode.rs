use oc_history::error::AppError;
use oc_history::opencode::client::{
    delete_outcome, events_url, health_verdict, messages_url, normalize_base_url, probe_outcome, session_url,
    sessions_url, HealthVerdict, HttpReply,
};
use oc_history::opencode::content::{message_view, session_view, view_part};
use oc_history::opencode::loader::{
    aggregate, build_conversation, into_batches, project_short_name, project_worktree, list_sessions_failure, newest_first_order, session_title,
    sessions_newest_first, MessageTotals,
};
use oc_history::opencode::models::{
    DeleteResult, MessageEnvelope, MessageInfo, MessageModel, MessageTime, Project, RawPart, RawToolState, Session,
    SessionTime, TokenCounts, UsdAmount, ViewPart,
};
use oc_history::opencode::sse::{
    after_connection, backoff_secs, collect_line, event_of_payload, process_event_lines, stream_status_error, SseEvent,
    SsePayload, SseStep,
    StreamEnd,
};

fn raw(kind: &str) -> RawPart {
    RawPart {
        kind: Some(kind.to_string()),
        text: None,
        tool: None,
        call_id: None,
        state: None,
        cost: None,
        input_tokens: None,
        output_tokens: None,
    }
}

fn info(role: &str) -> MessageInfo {
    MessageInfo { role: role.to_string(), cost: None, tokens: None, time: None, model: None, model_id: None, provider_id: None }
}

fn session(id: &str, title: &str, updated: i64) -> Session {
    Session {
        id: id.to_string(),
        project_id: "p".to_string(),
        directory: "/work".to_string(),
        title: title.to_string(),
        version: "1".to_string(),
        time: SessionTime { created: 0, updated, compacting: None },
        parent_id: None,
    }
}

#[test]
fn text_and_reasoning_parts_keep_their_text() {
    let mut p = raw("text");
    p.text = Some("hello".to_string());
    assert!(matches!(view_part(p), Some(ViewPart::Text(t)) if t == "hello"));
    let mut p = raw("reasoning");
    p.text = Some("hmm".to_string());
    assert!(matches!(view_part(p), Some(ViewPart::Reasoning(t)) if t == "hmm"));
    assert!(view_part(raw("text")).is_none());
}

#[test]
fn tool_parts_keep_output_only_when_completed() {
    let mut p = raw("tool");
    p.tool = Some("bash".to_string());
    p.state = Some(RawToolState {
        status: Some("completed".to_string()),
        input: serde_json::Value::Bool(true),
        output: Some(serde_json::Value::String("ok".to_string())),
    });
    match view_part(p) {
        Some(ViewPart::ToolCall { name, call_id, input, output, status }) => {
            assert_eq!(name, "bash");
            assert_eq!(call_id, "");
            assert_eq!(input, serde_json::Value::Bool(true));
            assert_eq!(output, Some(serde_json::Value::String("ok".to_string())));
            assert_eq!(status, "completed");
        },
        _ => panic!("expected a tool call"),
    }
    let mut p = raw("tool");
    p.tool = Some("bash".to_string());
    p.call_id = Some("c1".to_string());
    p.state = Some(RawToolState {
        status: Some("running".to_string()),
        input: serde_json::Value::Null,
        output: Some(serde_json::Value::String("partial".to_string())),
    });
    match view_part(p) {
        Some(ViewPart::ToolCall { call_id, output, .. }) => {
            assert_eq!(call_id, "c1");
            assert!(output.is_none());
        },
        _ => panic!("expected a tool call"),
    }
}

#[test]
fn step_finish_defaults_tokens_and_drops_unknown_parts() {
    let mut p = raw("step-finish");
    p.input_tokens = Some(5);
    match view_part(p) {
        Some(ViewPart::StepFinish { cost, input_tokens, output_tokens }) => {
            assert!(cost.is_none());
            assert_eq!(input_tokens, 5);
            assert_eq!(output_tokens, 0);
        },
        _ => panic!("expected a step finish"),
    }
    assert!(view_part(raw("step-start")).is_none());
    assert!(view_part(raw("snapshot")).is_none());
}

#[test]
fn message_view_prefers_the_flat_model_id() {
    let mut i = info("assistant");
    i.model_id = Some("gpt".to_string());
    i.model = Some(MessageModel { provider_id: "x".to_string(), model_id: "nested".to_string() });
    i.time = Some(MessageTime { created: 42, completed: None });
    let mut p = raw("text");
    p.text = Some("a".to_string());
    let v = message_view(MessageEnvelope { info: i, parts: vec![raw("step-start"), p] });
    assert_eq!(v.model.as_deref(), Some("gpt"));
    assert_eq!(v.created, 42);
    assert_eq!(v.parts.len(), 1);

    let mut i = info("user");
    i.model = Some(MessageModel { provider_id: "x".to_string(), model_id: "nested".to_string() });
    let v = message_view(MessageEnvelope { info: i, parts: vec![] });
    assert_eq!(v.model.as_deref(), Some("nested"));
    assert_eq!(v.created, 0);

    let mut i = info("assistant");
    i.model_id = Some(String::new());
    i.model = Some(MessageModel { provider_id: "x".to_string(), model_id: "nested".to_string() });
    let v = message_view(MessageEnvelope { info: i, parts: vec![] });
    assert!(v.model.is_none());
}

#[test]
fn session_view_keeps_message_order() {
    let s = session_view("ses_1", vec![
        MessageEnvelope { info: info("user"), parts: vec![] },
        MessageEnvelope { info: info("assistant"), parts: vec![] },
    ]);
    assert_eq!(s.session_id, "ses_1");
    assert_eq!(s.messages.len(), 2);
    assert_eq!(s.messages[1].role, "assistant");
}

#[test]
fn sessions_are_ordered_newest_first_and_stably() {
    let sorted = sessions_newest_first(vec![
        session("a", "", 1),
        session("b", "", 3),
        session("c", "", 1),
        session("d", "", 2),
    ]);
    let ids: Vec<&str> = sorted.iter().map(|s| s.id.as_str()).collect();
    assert_eq!(ids, vec!["b", "d", "a", "c"]);
    assert_eq!(newest_first_order(&vec![5, 7, 5]), vec![1, 0, 2]);
}

#[test]
fn blank_titles_fall_back_to_the_id() {
    assert_eq!(session_title(&session("ses_abcdefghij", "  ", 0)), "ses_abcdefg");
    assert_eq!(session_title(&session("xyz", "", 0)), "ses_xyz");
    assert_eq!(session_title(&session("ses_1", "Real title", 0)), "Real title");
}

#[test]
fn totals_count_assistant_turns_and_tokens() {
    let mut a = info("assistant");
    a.tokens = Some(TokenCounts { input: 10, output: 5, reasoning: 1 });
    let mut b = info("assistant");
    b.tokens = Some(TokenCounts { input: 1, output: 2, reasoning: 3 });
    let envs = vec![
        MessageEnvelope { info: info("user"), parts: vec![] },
        MessageEnvelope { info: a, parts: vec![] },
        MessageEnvelope { info: b, parts: vec![] },
    ];
    let t = aggregate(&envs);
    assert_eq!(t.turn_count, 2);
    assert_eq!(t.tokens_in, 11);
    assert_eq!(t.tokens_out, 7);
    assert_eq!(t.tokens_reasoning, 4);
    assert_eq!(t.message_count, 3);
}

#[test]
fn conversations_record_fetch_failures() {
    let cost = UsdAmount { fixed6: "0.000000".to_string(), fixed4: "0.0000".to_string() };
    let c = build_conversation(3, &session("ses_q", "T", 77), Err(AppError::Other("timeout".to_string())), cost, None);
    assert_eq!(c.index, 3);
    assert_eq!(c.timestamp_ms, 77);
    assert_eq!(c.parse_errors.len(), 1);
    assert_eq!(c.parse_errors[0].message, "list_messages(ses_q): timeout");
    let cost = UsdAmount { fixed6: "0.500000".to_string(), fixed4: "0.5000".to_string() };
    let totals = MessageTotals { turn_count: 2, tokens_in: 1, tokens_out: 2, tokens_reasoning: 3, message_count: 4 };
    let c = build_conversation(0, &session("ses_q", "T", 77), Ok(totals), cost, None);
    assert_eq!(c.total_tokens, 6);
    assert_eq!(c.turn_count, 2);
    assert_eq!(c.path, "ses_q");
    assert!(c.parse_errors.is_empty());
    assert_eq!(c.cost_usd.fixed4, "0.5000");
}

#[test]
fn batches_hold_twenty() {
    let items: Vec<u32> = (0..45).collect();
    let b = into_batches(items);
    assert_eq!(b.len(), 3);
    assert_eq!(b[0].len(), 20);
    assert_eq!(b[1].len(), 20);
    assert_eq!(b[2].len(), 5);
    assert_eq!(b[2][4], 44);
    let empty = into_batches(Vec::<u32>::new());
    assert_eq!(empty.len(), 1);
    assert!(empty[0].is_empty());
    assert_eq!(list_sessions_failure(&AppError::Other("x".to_string())), "list_sessions: x");
}

#[test]
fn addresses_of_the_endpoint() {
    let base = normalize_base_url("http://localhost:4096///");
    assert_eq!(base, "http://localhost:4096");
    assert_eq!(sessions_url(&base), "http://localhost:4096/session");
    assert_eq!(session_url(&base, "s1"), "http://localhost:4096/session/s1");
    assert_eq!(messages_url(&base, "s1"), "http://localhost:4096/session/s1/message");
    assert_eq!(events_url(&base), "http://localhost:4096/global/event");
}

#[test]
fn health_probe_decisions() {
    assert_eq!(health_verdict(&HttpReply::Response(200)), HealthVerdict::Up);
    assert_eq!(health_verdict(&HttpReply::Response(302)), HealthVerdict::TrySessions);
    assert_eq!(health_verdict(&HttpReply::ErrorStatus(404, String::new())), HealthVerdict::TrySessions);
    assert_eq!(health_verdict(&HttpReply::ErrorStatus(500, String::new())), HealthVerdict::Down);
    assert!(probe_outcome("b", &HttpReply::Response(204), None).is_ok());
    assert!(probe_outcome("b", &HttpReply::ErrorStatus(404, String::new()), Some(&HttpReply::Response(200))).is_ok());
    match probe_outcome("http://x", &HttpReply::Transport("refused".to_string()), None) {
        Err(AppError::EndpointUnreachable(u)) => assert_eq!(u, "http://x"),
        _ => panic!("expected unreachable"),
    }
    let e = AppError::EndpointUnreachable("http://x".to_string());
    assert_eq!(e.message(), "cannot reach opencode at http://x (use --endpoint or OPENCODE_BASE_URL to point elsewhere)");
}

#[test]
fn delete_decisions() {
    assert!(matches!(delete_outcome(&HttpReply::Response(200)), Ok(DeleteResult::Deleted)));
    assert!(matches!(delete_outcome(&HttpReply::ErrorStatus(404, String::new())), Ok(DeleteResult::NotFound)));
    match delete_outcome(&HttpReply::ErrorStatus(409, "busy".to_string())) {
        Ok(DeleteResult::Refused(m)) => assert_eq!(m, "HTTP 409: busy"),
        _ => panic!(),
    }
    match delete_outcome(&HttpReply::Response(302)) {
        Ok(DeleteResult::Refused(m)) => assert_eq!(m, "unexpected status 302"),
        _ => panic!(),
    }
    match delete_outcome(&HttpReply::Transport("reset".to_string())) {
        Err(AppError::Other(m)) => assert_eq!(m, "delete_session: reset"),
        _ => panic!(),
    }
}

#[test]
fn stream_events_for_the_session() {
    let lines = vec![
        "event: x".to_string(),
        r#"data: {"type":"message.part.delta","properties":{"sessionID":"s1"}}"#.to_string(),
        r#"data: {"type":"message.updated","properties":{"info":{"sessionID":"s2"}}}"#.to_string(),
        r#"data: {"type":"message.part.updated","properties":{"part":{"sessionID":"s1"}}}"#.to_string(),
        r#"data: {"type":"session.idle","properties":{"sessionID":"s1"}}"#.to_string(),
        "data: not json".to_string(),
    ];
    let evs = process_event_lines(&lines, "s1");
    assert_eq!(evs.len(), 3);
    assert!(matches!(evs[0], SseEvent::ContentChanged));
    assert!(matches!(evs[1], SseEvent::ContentChanged));
    assert!(matches!(evs[2], SseEvent::SessionIdle));
    assert!(process_event_lines(&lines, "s3").is_empty());
}

#[test]
fn stream_lines_group_into_events() {
    let mut pending = Vec::new();
    assert!(collect_line(&mut pending, "data: a".to_string()).is_none());
    assert!(collect_line(&mut pending, "data: b".to_string()).is_none());
    let ev = collect_line(&mut pending, String::new()).unwrap();
    assert_eq!(ev, vec!["data: a".to_string(), "data: b".to_string()]);
    assert!(pending.is_empty());
    assert_eq!(stream_status_error(503).as_deref(), Some("sse status 503"));
    assert!(stream_status_error(200).is_none());
}

#[test]
fn reconnect_backoff_doubles_up_to_thirty_seconds() {
    let waits: Vec<u64> = (1..8).map(backoff_secs).collect();
    assert_eq!(waits, vec![2, 4, 8, 16, 30, 30, 30]);
    match after_connection(0, &Err("x".to_string())) {
        (1, SseStep::Retry { attempt: 1, delay_secs: 2 }) => {},
        _ => panic!(),
    }
    assert!(matches!(after_connection(5, &Ok(StreamEnd::Closed)), (0, SseStep::Reconnect)));
    assert!(matches!(after_connection(5, &Ok(StreamEnd::ReceiverGone)), (5, SseStep::Stop)));
    match after_connection(9, &Err("refused".to_string())) {
        (10, SseStep::GiveUp(m)) => assert_eq!(m, "SSE failed after 10 attempts: refused"),
        _ => panic!(),
    }
}

#[test]
fn conversations_take_the_project_worktree() {
    let cost = UsdAmount { fixed6: "0.000000".to_string(), fixed4: "0.0000".to_string() };
    let projects = vec![
        Project { id: "q".to_string(), worktree: "/elsewhere".to_string(), vcs_dir: None, vcs: None },
        Project { id: "p".to_string(), worktree: "/home/u/octmux/".to_string(), vcs_dir: None, vcs: None },
    ];
    let w = project_worktree(&projects, "p");
    assert_eq!(w.as_deref(), Some("/home/u/octmux/"));
    assert_eq!(project_worktree(&projects, "z"), None);
    let c = build_conversation(0, &session("ses_q", "Fix The Bug", 77), Err(AppError::Other("x".to_string())), cost.clone(), w);
    assert_eq!(c.project, "/home/u/octmux/");
    assert_eq!(c.project_name.as_deref(), Some("octmux"));
    assert_eq!(c.search_text_lower, "fix the bug octmux");
    let c = build_conversation(0, &session("ses_q", "", 77), Err(AppError::Other("x".to_string())), cost, None);
    assert_eq!(c.project, "/work");
    assert_eq!(c.project_name.as_deref(), Some("work"));
    assert_eq!(c.search_text_lower, "ses_q work");
}

#[test]
fn short_names_of_project_paths() {
    assert_eq!(project_short_name("/a/b/c"), "c");
    assert_eq!(project_short_name("/a/b/c//"), "c");
    assert_eq!(project_short_name("/"), "/");
    assert_eq!(project_short_name("plain"), "plain");
    assert_eq!(project_short_name(""), "");
}

#[test]
fn token_totals_wrap_around() {
    let info = |input: u64| MessageInfo {
        role: "assistant".to_string(),
        cost: None,
        tokens: Some(TokenCounts { input, output: 1, reasoning: 1 }),
        time: None,
        model: None,
        model_id: None,
        provider_id: None,
    };
    let big = vec![
        MessageEnvelope { info: info(u64::MAX - 3), parts: Vec::new() },
        MessageEnvelope { info: info(5), parts: Vec::new() },
    ];
    let t = aggregate(&big);
    assert_eq!(t.tokens_in, 1);
    assert_eq!(t.tokens_out, 2);
    let cost = UsdAmount { fixed6: "0.000000".to_string(), fixed4: "0.0000".to_string() };
    let c = build_conversation(0, &session("ses_q", "T", 1), Ok(t), cost, None);
    assert_eq!(c.total_tokens, 5);
    let huge = MessageTotals { turn_count: 0, tokens_in: u64::MAX, tokens_out: 2, tokens_reasoning: 0, message_count: 0 };
    let cost = UsdAmount { fixed6: "0.000000".to_string(), fixed4: "0.0000".to_string() };
    let c = build_conversation(0, &session("ses_q", "T", 1), Ok(huge), cost, None);
    assert_eq!(c.total_tokens, 1);
}

#[test]
fn payloads_become_events() {
    let p = |t: &str, props: Option<&str>, part: Option<&str>, info: Option<&str>| SsePayload {
        event_type: Some(t.to_string()),
        properties_session: props.map(String::from),
        part_session: part.map(String::from),
        info_session: info.map(String::from),
    };
    assert!(matches!(event_of_payload(&p("message.part.delta", Some("s1"), None, None), "s1"), Some(SseEvent::ContentChanged)));
    assert!(matches!(event_of_payload(&p("message.part.updated", None, Some("s1"), None), "s1"), Some(SseEvent::ContentChanged)));
    assert!(matches!(event_of_payload(&p("message.updated", None, None, Some("s1")), "s1"), Some(SseEvent::ContentChanged)));
    assert!(matches!(event_of_payload(&p("session.idle", Some("s1"), None, None), "s1"), Some(SseEvent::SessionIdle)));
    assert!(event_of_payload(&p("session.idle", Some("s2"), None, None), "s1").is_none());
    assert!(event_of_payload(&p("message.part.updated", Some("s1"), None, None), "s1").is_none());
    assert!(event_of_payload(&p("other", Some("s1"), None, None), "s1").is_none());
}
