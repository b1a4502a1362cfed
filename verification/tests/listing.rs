use oc_history::opencode::listing::{
    next_page, session_list_url, session_of_item, session_of_new_item, session_page_query, SESSION_PAGE_CAP,
};
use oc_history::opencode::models::{SessionTime, V2Cursor, V2Location, V2NewSessionItem, V2SessionItem};

#[test]
fn page_queries() {
    assert_eq!(session_list_url("http://h:1"), "http://h:1/api/session");
    assert_eq!(session_page_query(None), vec![("limit".to_string(), "100".to_string())]);
    assert_eq!(
        session_page_query(Some("ab/c=")),
        vec![("limit".to_string(), "100".to_string()), ("cursor".to_string(), "ab/c=".to_string())]
    );
}

#[test]
fn the_cursor_walk_ends() {
    let more = V2Cursor { previous: None, next: Some("n2".to_string()) };
    let last = V2Cursor { previous: Some("n1".to_string()), next: None };
    assert_eq!(next_page(1, &more), Some("n2".to_string()));
    assert_eq!(next_page(1, &last), None);
    assert_eq!(next_page(SESSION_PAGE_CAP, &more), None);
    assert_eq!(next_page(SESSION_PAGE_CAP - 1, &more), Some("n2".to_string()));
}

#[test]
fn items_become_sessions() {
    let time = SessionTime { created: 1, updated: 2, compacting: None };
    let s = session_of_item(V2SessionItem {
        id: "ses_1".to_string(),
        project_id: "p".to_string(),
        path: "home/u/x".to_string(),
        title: "T".to_string(),
        time,
    });
    assert_eq!(s.directory, "/home/u/x");
    assert_eq!(s.id, "ses_1");
    let root = session_of_item(V2SessionItem {
        id: "ses_2".to_string(),
        project_id: "p".to_string(),
        path: String::new(),
        title: String::new(),
        time,
    });
    assert_eq!(root.directory, "/");
    let n = session_of_new_item(V2NewSessionItem {
        id: "ses_3".to_string(),
        project_id: "q".to_string(),
        title: "U".to_string(),
        location: V2Location { directory: "/abs/dir".to_string() },
        time,
    });
    assert_eq!(n.directory, "/abs/dir");
    assert_eq!(n.project_id, "q");
}
