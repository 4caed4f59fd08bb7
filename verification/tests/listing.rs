use adr_core::listing::{entry_is_hidden, is_hidden, list_all_adr, WalkEntry};

fn entry(path: &str, depth: usize, is_file: bool) -> WalkEntry {
    let file_name = path.rsplit('/').next().map(String::from);
    WalkEntry { path: String::from(path), file_name, depth, is_file }
}

#[test]
fn names_that_begin_with_a_dot_are_hidden() {
    assert!(is_hidden(Some(".git")));
    assert!(is_hidden(Some(".")));
    assert!(!is_hidden(Some("a.adoc")));
    assert!(!is_hidden(Some("")));
    assert!(!is_hidden(Some("a.")));
    assert!(!is_hidden(None));
    assert!(entry_is_hidden(&entry("docs/.hidden", 1, true)));
    assert!(!entry_is_hidden(&entry("docs/shown", 1, true)));
    let unreadable = WalkEntry { path: String::from("docs/?"), file_name: None, depth: 1, is_file: true };
    assert!(!entry_is_hidden(&unreadable));
}

#[test]
fn an_empty_or_missing_directory_lists_nothing() {
    assert_eq!(list_all_adr(false, &vec![]), Vec::<String>::new());
    assert_eq!(list_all_adr(true, &vec![]), Vec::<String>::new());
    assert_eq!(list_all_adr(true, &vec![entry("docs", 0, false)]), Vec::<String>::new());
    assert_eq!(list_all_adr(false, &vec![entry("docs", 0, true)]), Vec::<String>::new());
}

#[test]
fn regular_files_are_listed_in_the_order_of_the_walk() {
    let walk = vec![
        entry("docs", 0, false),
        entry("docs/b.adoc", 1, true),
        entry("docs/sub", 1, false),
        entry("docs/sub/c.adoc", 2, true),
        entry("docs/a.adoc", 1, true),
    ];
    assert_eq!(list_all_adr(true, &walk), vec!["docs/b.adoc", "docs/sub/c.adoc", "docs/a.adoc"]);
}

#[test]
fn hidden_entries_and_what_lies_below_them_are_left_out() {
    let walk = vec![
        entry("docs", 0, false),
        entry("docs/.git", 1, false),
        entry("docs/.git/config", 2, true),
        entry("docs/.git/refs", 2, false),
        entry("docs/.git/refs/.x", 3, false),
        entry("docs/.git/refs/.x/deep", 4, true),
        entry("docs/.git/refs/head", 3, true),
        entry("docs/.draft.adoc", 1, true),
        entry("docs/0001-a.adoc", 1, true),
        entry("docs/sub", 1, false),
        entry("docs/sub/.keep", 2, true),
        entry("docs/sub/0002-b.adoc", 2, true),
    ];
    assert_eq!(list_all_adr(true, &walk), vec!["docs/0001-a.adoc", "docs/sub/0002-b.adoc"]);
}

#[test]
fn a_hidden_root_hides_the_whole_walk() {
    let walk = vec![entry(".adr", 0, false), entry(".adr/a.adoc", 1, true)];
    assert_eq!(list_all_adr(true, &walk), Vec::<String>::new());
}

#[test]
fn a_hidden_file_hides_only_itself() {
    let walk = vec![
        entry("d", 0, false),
        entry("d/x", 1, false),
        entry("d/x/.h", 2, true),
        entry("d/x/y", 2, true),
        entry("d/z", 1, true),
    ];
    assert_eq!(list_all_adr(true, &walk), vec!["d/x/y", "d/z"]);
}
