use abbs::session::{result_label, Article, EditOutcome, SearchResultState};

fn article(title: &str) -> Article {
    Article { title: title.to_string(), content_html: format!("<p>{}</p>", title) }
}

fn titles(state: &SearchResultState) -> Vec<String> {
    state.results().iter().map(|a| a.title.clone()).collect()
}

#[test]
fn fresh_session_shows_nothing() {
    let state = SearchResultState::new();
    assert_eq!(state.dispatch_counter(), 0);
    assert_eq!(state.applied_counter(), 0);
    assert!(state.results().is_empty());
    assert!(!state.is_dirty());
}

#[test]
fn edit_hands_out_growing_tickets() {
    let mut state = SearchResultState::new();
    assert_eq!(state.on_edit("a"), EditOutcome::Dispatch(1));
    assert_eq!(state.on_edit("ab"), EditOutcome::Dispatch(2));
    assert_eq!(state.on_edit("abc"), EditOutcome::Dispatch(3));
    assert_eq!(state.dispatch_counter(), 3);
    assert_eq!(state.applied_counter(), 0);
    assert!(state.is_dirty());
}

#[test]
fn completions_out_of_order_show_the_last_request() {
    let mut state = SearchResultState::new();
    assert_eq!(state.on_edit("c"), EditOutcome::Dispatch(1));
    assert_eq!(state.on_edit("ca"), EditOutcome::Dispatch(2));
    assert_eq!(state.on_edit("cat"), EditOutcome::Dispatch(3));

    assert!(state.complete(3, vec![article("third")]));
    assert_eq!(titles(&state), vec!["third".to_string()]);
    assert_eq!(state.applied_counter(), 3);

    assert!(!state.complete(1, vec![article("first")]));
    assert_eq!(titles(&state), vec!["third".to_string()]);
    assert_eq!(state.applied_counter(), 3);

    assert!(!state.complete(2, vec![article("second")]));
    assert_eq!(titles(&state), vec!["third".to_string()]);
    assert_eq!(state.applied_counter(), 3);
    assert_eq!(state.results()[0].content_html, "<p>third</p>");
}

#[test]
fn completions_in_order_replace_each_other() {
    let mut state = SearchResultState::new();
    state.on_edit("a");
    state.on_edit("ab");
    assert!(state.complete(1, vec![article("one")]));
    assert_eq!(titles(&state), vec!["one".to_string()]);
    assert!(state.complete(2, vec![article("two"), article("deux")]));
    assert_eq!(titles(&state), vec!["two".to_string(), "deux".to_string()]);
}

#[test]
fn a_ticket_is_applied_only_once() {
    let mut state = SearchResultState::new();
    state.on_edit("a");
    assert!(state.complete(1, vec![article("one")]));
    assert!(!state.complete(1, vec![article("again")]));
    assert_eq!(titles(&state), vec!["one".to_string()]);
}

#[test]
fn a_ticket_that_was_never_handed_out_is_dropped() {
    let mut state = SearchResultState::new();
    state.on_edit("a");
    assert!(!state.complete(2, vec![article("early")]));
    assert!(!state.complete(0, vec![article("zero")]));
    assert!(state.results().is_empty());
    assert_eq!(state.applied_counter(), 0);
}

#[test]
fn empty_edit_clears_results_at_once() {
    let mut state = SearchResultState::new();
    state.on_edit("a");
    state.complete(1, vec![article("one")]);
    state.refresh();
    assert!(!state.is_dirty());

    assert_eq!(state.on_edit(""), EditOutcome::Cleared);
    assert!(state.results().is_empty());
    assert!(state.is_dirty());
    assert_eq!(state.dispatch_counter(), 2);
    assert_eq!(state.applied_counter(), 2);
}

#[test]
fn empty_edit_fences_off_requests_in_flight() {
    let mut state = SearchResultState::new();
    assert_eq!(state.on_edit("a"), EditOutcome::Dispatch(1));
    assert_eq!(state.on_edit(""), EditOutcome::Cleared);
    assert!(!state.complete(1, vec![article("late")]));
    assert!(state.results().is_empty());
}

#[test]
fn failed_search_shows_an_empty_list() {
    let mut state = SearchResultState::new();
    state.on_edit("a");
    state.complete(1, vec![article("one")]);
    state.on_edit("ab");
    assert!(state.complete_failed(2));
    assert!(state.results().is_empty());
    assert_eq!(state.applied_counter(), 2);
    assert!(state.is_dirty());
}

#[test]
fn failure_of_a_stale_search_changes_nothing() {
    let mut state = SearchResultState::new();
    state.on_edit("a");
    state.on_edit("ab");
    state.complete(2, vec![article("two")]);
    assert!(!state.complete_failed(1));
    assert_eq!(titles(&state), vec!["two".to_string()]);
}

#[test]
fn refresh_rebuilds_the_list_once() {
    let mut state = SearchResultState::new();
    assert_eq!(state.refresh(), None);
    state.on_edit("a");
    state.complete(1, vec![article("Alpha"), article("Beta")]);
    assert_eq!(
        state.refresh(),
        Some(vec!["  1: Alpha".to_string(), "  2: Beta".to_string()])
    );
    assert!(!state.is_dirty());
    assert_eq!(state.refresh(), None);
    assert_eq!(titles(&state), vec!["Alpha".to_string(), "Beta".to_string()]);
}

#[test]
fn refresh_after_dispatch_shows_the_old_results() {
    let mut state = SearchResultState::new();
    state.on_edit("a");
    state.complete(1, vec![article("Alpha")]);
    state.refresh();
    state.on_edit("ab");
    assert_eq!(state.refresh(), Some(vec!["  1: Alpha".to_string()]));
}

#[test]
fn labels_align_the_rank_in_three_columns() {
    assert_eq!(result_label(1, "a"), "  1: a");
    assert_eq!(result_label(9, "a"), "  9: a");
    assert_eq!(result_label(10, "a"), " 10: a");
    assert_eq!(result_label(99, ""), " 99: ");
    assert_eq!(result_label(100, "a b"), "100: a b");
    assert_eq!(result_label(1234, "x"), "1234: x");
    assert_eq!(result_label(0, "x"), "  0: x");
}

#[test]
fn labels_agree_with_the_formatter() {
    for rank in [0usize, 5, 17, 305, 99999, usize::MAX] {
        assert_eq!(result_label(rank, "Tïtle"), format!("{:3}: {}", rank, "Tïtle"));
    }
}
