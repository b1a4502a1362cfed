use oc_history::history::global_log::{is_meaningful_display, session_display_pairs, HistoryEntry};

fn entry(display: &str, session: &str) -> HistoryEntry {
    HistoryEntry {
        display: display.to_string(),
        session_id: session.to_string(),
        project: "/p".to_string(),
        timestamp: 1,
        paste_contents: serde_json::Value::Object(serde_json::Map::new()),
    }
}

#[test]
fn filters_out_commands() {
    let entries = vec![
        r#"{"display": "/exit", "sessionId": "s1", "project": "/p", "timestamp": 1, "pastedContents": {}}"#,
        r#"{"display": "hello", "sessionId": "s1", "project": "/p", "timestamp": 2, "pastedContents": {}}"#,
    ];
    let first: serde_json::Value = serde_json::from_str(entries[0]).unwrap();
    let first_display = first["display"].as_str().unwrap();
    assert!(first_display.starts_with('/'));
    assert!(!is_meaningful_display(first_display));

    let second: serde_json::Value = serde_json::from_str(entries[1]).unwrap();
    let second_display = second["display"].as_str().unwrap();
    assert!(!second_display.starts_with('/'));
    assert!(is_meaningful_display(second_display));
}

#[test]
fn filters_out_dots_and_empty() {
    let display_vals = vec![".", "", "hello", "/cmd"];
    for (i, display) in display_vals.iter().enumerate() {
        let is_meaningful = is_meaningful_display(display);
        match i {
            0 | 1 | 3 => assert!(!is_meaningful),
            2 => assert!(is_meaningful),
            _ => {}
        }
    }
}

#[test]
fn first_meaningful_display_per_session() {
    let entries = vec![
        entry("/clear", "s1"),
        entry("fix the build", "s1"),
        entry(".", "s2"),
        entry("second thought", "s1"),
        entry("hello", "s2"),
        entry("", "s3"),
    ];
    let pairs = session_display_pairs(&entries);
    assert_eq!(
        pairs,
        vec![
            ("s1".to_string(), "fix the build".to_string()),
            ("s2".to_string(), "hello".to_string()),
        ]
    );
}
