use file_finder::item::make_file_item;
use file_finder::scan::scan_entries;

fn fixture_entries() -> Vec<String> {
    vec![
        "/tmp/x".to_string(),
        "/tmp/x/a.txt".to_string(),
        "/tmp/x/sub".to_string(),
        "/tmp/x/sub/b.txt".to_string(),
    ]
}

fn relative_paths(items: &[file_finder::item::FileItem]) -> Vec<String> {
    items.iter().map(|it| it.relative_path.clone()).collect()
}

#[test]
fn empty_query_lists_whole_tree() {
    let entries = fixture_entries();
    let items = scan_entries("/tmp/x", &entries, "");
    // The walk yields the root itself too; its relative path is empty.
    assert_eq!(
        relative_paths(&items),
        vec![
            "".to_string(),
            "a.txt".to_string(),
            "sub".to_string(),
            "sub/b.txt".to_string(),
        ]
    );
}

#[test]
fn query_filters_by_name_substring() {
    let entries = fixture_entries();
    // Directories are filtered by name like files: "sub" contains "b" too.
    let items = scan_entries("/tmp/x", &entries, "b");
    assert_eq!(
        relative_paths(&items),
        vec!["sub".to_string(), "sub/b.txt".to_string()]
    );
    let items = scan_entries("/tmp/x", &entries, "b.txt");
    assert_eq!(relative_paths(&items), vec!["sub/b.txt".to_string()]);
}

#[test]
fn query_with_no_match_yields_empty_list() {
    let entries = fixture_entries();
    let items = scan_entries("/tmp/x", &entries, "zzz");
    assert!(items.is_empty());
}

#[test]
fn query_is_case_sensitive() {
    let entries = fixture_entries();
    let items = scan_entries("/tmp/x", &entries, "A.TXT");
    assert!(items.is_empty());
}

#[test]
fn every_result_name_contains_query() {
    let entries = fixture_entries();
    let items = scan_entries("/tmp/x", &entries, "t");
    assert!(!items.is_empty());
    for it in &items {
        assert!(it.name.contains("t"));
    }
}

#[test]
fn scanning_twice_yields_the_same_list() {
    let entries = fixture_entries();
    let first = scan_entries("/tmp/x", &entries, "b");
    let second = scan_entries("/tmp/x", &entries, "b");
    assert_eq!(first, second);
}

#[test]
fn deleted_path_no_longer_appears() {
    let deleted = "/tmp/x/a.txt".to_string();
    let entries: Vec<String> = fixture_entries()
        .into_iter()
        .filter(|e| *e != deleted)
        .collect();
    let items = scan_entries("/tmp/x", &entries, "");
    for it in &items {
        assert_ne!(it.absolute_path, deleted);
    }
    assert_eq!(items.len(), 3);
}

#[test]
fn entry_outside_root_is_skipped() {
    let entries = vec!["/tmp/x/a.txt".to_string(), "/etc/hosts".to_string()];
    let items = scan_entries("/tmp/x", &entries, "");
    assert_eq!(relative_paths(&items), vec!["a.txt".to_string()]);
}

#[test]
fn direct_child_item_fields() {
    let it = make_file_item("/tmp/x", "/tmp/x/a.txt").unwrap();
    assert_eq!(it.name, "a.txt");
    assert_eq!(it.absolute_path, "/tmp/x/a.txt");
    assert_eq!(it.relative_path, "a.txt");
}

#[test]
fn nested_item_keeps_intervening_directories() {
    let it = make_file_item("/tmp/x", "/tmp/x/sub/deep/c.txt").unwrap();
    assert_eq!(it.name, "c.txt");
    assert_eq!(it.relative_path, "sub/deep/c.txt");
}

#[test]
fn root_itself_has_empty_relative_path() {
    let it = make_file_item("/tmp/x", "/tmp/x").unwrap();
    assert_eq!(it.name, "x");
    assert_eq!(it.relative_path, "");
}

#[test]
fn path_not_under_root_gives_nothing() {
    assert!(make_file_item("/tmp/x", "/tmp/other/f.txt").is_none());
    assert!(make_file_item("/tmp/x", "/tmp/xy/f.txt").is_none());
}

#[test]
fn path_with_empty_final_component_gives_nothing() {
    assert!(make_file_item("/tmp/x", "/tmp/x/sub/").is_none());
}
