use file_finder::paths::{file_name, relative_path};
use file_finder::scan::{query_matches, scan_entries};
use file_finder::state::SearchState;
use file_finder::text::contains_substring;

#[test]
fn substring_found_in_the_middle() {
    assert!(contains_substring("hello", "ell"));
}

#[test]
fn substring_equal_to_haystack() {
    assert!(contains_substring("hello", "hello"));
}

#[test]
fn empty_needle_is_always_found() {
    assert!(contains_substring("hello", ""));
    assert!(contains_substring("", ""));
}

#[test]
fn needle_longer_than_haystack_is_not_found() {
    assert!(!contains_substring("ab", "abc"));
}

#[test]
fn substring_search_is_case_sensitive() {
    assert!(!contains_substring("hello", "Hello"));
    assert!(contains_substring("Hello", "H"));
}

#[test]
fn empty_query_matches_any_name() {
    assert!(query_matches("anything", ""));
    assert!(query_matches("", ""));
}

#[test]
fn nonempty_query_needs_a_substring_match() {
    assert!(query_matches("report.txt", "port"));
    assert!(!query_matches("report.txt", "ports"));
}

#[test]
fn file_name_is_the_final_component() {
    assert_eq!(file_name("/tmp/x/a.txt"), "a.txt");
    assert_eq!(file_name("a.txt"), "a.txt");
    assert_eq!(file_name("/tmp/x/sub/"), "");
}

#[test]
fn relative_path_strips_the_root_prefix() {
    assert_eq!(relative_path("/tmp/x", "/tmp/x/sub/b.txt").unwrap(), "sub/b.txt");
    assert_eq!(relative_path("/tmp/x", "/tmp/x").unwrap(), "");
    assert!(relative_path("/tmp/x", "/tmp/xy").is_none());
}

#[test]
fn fresh_state_cannot_search() {
    let state = SearchState::new();
    assert!(!state.enabled);
    assert!(state.root.is_none());
    assert_eq!(state.query, "");
}

#[test]
fn picking_a_root_enables_searching() {
    let mut state = SearchState::new();
    state.pick_root("/tmp/x".to_string());
    assert!(state.enabled);
    assert_eq!(state.root.as_deref(), Some("/tmp/x"));
}

#[test]
fn search_through_state_matches_direct_scan() {
    let entries = vec![
        "/tmp/x".to_string(),
        "/tmp/x/a.txt".to_string(),
        "/tmp/x/sub".to_string(),
        "/tmp/x/sub/b.txt".to_string(),
    ];
    let mut state = SearchState::new();
    state.pick_root("/tmp/x".to_string());
    state.set_query("txt".to_string());
    let through_state = state.run_search(&entries);
    let direct = scan_entries("/tmp/x", &entries, "txt");
    assert_eq!(through_state, direct);
    assert_eq!(through_state.len(), 2);
}
