use oc_history::tui::search_queue::{merge_backlog, SearchCommand, SearchRequest};

fn req(q: &str, generation: u64) -> SearchRequest {
    SearchRequest { query: q.to_string(), generation, workspace_filter: false, project: None }
}

#[test]
fn the_latest_search_and_update_win() {
    let pending = vec![
        SearchCommand::UpdateData(1u32),
        SearchCommand::Search(req("ab", 2)),
        SearchCommand::UpdateData(2u32),
        SearchCommand::Search(req("abc", 3)),
    ];
    let (data, search) = merge_backlog(req("a", 1), pending);
    assert_eq!(data, Some(2));
    assert_eq!(search.query, "abc");
    assert_eq!(search.generation, 3);
}

#[test]
fn an_empty_backlog_keeps_the_first_search() {
    let (data, search) = merge_backlog::<u32>(req("a", 1), Vec::new());
    assert_eq!(data, None);
    assert_eq!(search.generation, 1);
}
