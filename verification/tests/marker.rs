use adr_core::marker::{read, skip_blanks, skip_word, status_here, Marker};
use adr_core::status::Status;
use adr_core::text::{copy_range, find, matches_at, replace_first, splice};

fn marker(status: Status, start: usize, end: usize, reference: &str) -> Marker {
    Marker { status, start, end, reference: reference.as_bytes().to_vec() }
}

#[test]
fn a_document_without_a_tag_has_no_marker() {
    assert_eq!(read(b""), None);
    assert_eq!(read(b"= Title\n\nSome notes.\n"), None);
    assert_eq!(read(b"{wip"), None);
    assert_eq!(read(b"{ wip }"), None);
    assert_eq!(read(b"{WIP}"), None);
    assert_eq!(read(b"{draft}"), None);
}

#[test]
fn every_tag_is_read() {
    assert_eq!(read(b"{wip}"), Some(marker(Status::WorkInProgress, 0, 5, "")));
    assert_eq!(read(b"x{decided}"), Some(marker(Status::Decided, 1, 10, "")));
    assert_eq!(read(b"{superseded}"), Some(marker(Status::Superseded, 0, 12, "")));
    assert_eq!(read(b"{completed}"), Some(marker(Status::Completed, 0, 11, "")));
    assert_eq!(read(b"{supersedes}"), Some(marker(Status::Supersedes, 0, 12, "")));
    assert_eq!(read(b"{completes}"), Some(marker(Status::Completes, 0, 11, "")));
}

#[test]
fn the_first_marker_counts() {
    let content = b"= ADR\n*Status:* {decided} and later {wip}\n";
    assert_eq!(read(content), Some(marker(Status::Decided, 16, 25, "")));
    assert_eq!(read(b"{{wip}{decided}"), Some(marker(Status::WorkInProgress, 1, 6, "")));
}

#[test]
fn a_relational_marker_names_a_path() {
    let content = b"Status: {completed} /path/to/other.adoc\nNotes";
    assert_eq!(read(content), Some(marker(Status::Completed, 8, 39, "/path/to/other.adoc")));
    assert_eq!(read(b"{supersedes} \t a.adoc"), Some(marker(Status::Supersedes, 0, 21, "a.adoc")));
    assert_eq!(read(b"{completes} b"), Some(marker(Status::Completes, 0, 13, "b")));
}

#[test]
fn a_reference_needs_a_blank_and_a_word_on_the_line() {
    assert_eq!(read(b"{superseded}x.adoc"), Some(marker(Status::Superseded, 0, 12, "")));
    assert_eq!(read(b"{superseded} "), Some(marker(Status::Superseded, 0, 12, "")));
    assert_eq!(read(b"{superseded} \nx.adoc"), Some(marker(Status::Superseded, 0, 12, "")));
    assert_eq!(read(b"{superseded}\nx.adoc"), Some(marker(Status::Superseded, 0, 12, "")));
}

#[test]
fn a_plain_marker_names_nothing() {
    assert_eq!(read(b"{decided} x.adoc"), Some(marker(Status::Decided, 0, 9, "")));
    assert_eq!(read(b"{wip} x.adoc"), Some(marker(Status::WorkInProgress, 0, 5, "")));
}

#[test]
fn tags_are_found_where_they_stand() {
    assert_eq!(status_here(b"ab{wip}", 2), Some(Status::WorkInProgress));
    assert_eq!(status_here(b"ab{wip}", 1), None);
    assert_eq!(status_here(b"ab{wip}", 7), None);
    assert_eq!(status_here(b"ab{wip}", 100), None);
    assert_eq!(status_here(b"{supersedes}", 0), Some(Status::Supersedes));
}

#[test]
fn blanks_and_words_are_skipped() {
    assert_eq!(skip_blanks(b"a \t b", 1), 4);
    assert_eq!(skip_blanks(b"a \t b", 0), 0);
    assert_eq!(skip_blanks(b"  ", 0), 2);
    assert_eq!(skip_blanks(b" \n", 0), 1);
    assert_eq!(skip_word(b"ab cd", 0), 2);
    assert_eq!(skip_word(b"ab\ncd", 0), 2);
    assert_eq!(skip_word(b"ab\rcd", 0), 2);
    assert_eq!(skip_word(b"ab\x0ccd", 0), 2);
    assert_eq!(skip_word(b"ab\tcd", 0), 2);
    assert_eq!(skip_word(b"abcd", 1), 4);
    assert_eq!(skip_word(b" abcd", 0), 0);
}

#[test]
fn writing_replaces_the_first_occurrence_only() {
    let content = b"a {wip} b {wip} c";
    assert_eq!(adr_core::marker::write(content, b"{wip}", b"{decided}"), b"a {decided} b {wip} c");
    assert_eq!(adr_core::marker::write(content, b"{decided}", b"{wip}"), content);
    assert_eq!(adr_core::marker::write(b"", b"x", b"y"), b"");
    assert_eq!(adr_core::marker::write(b"abc", b"", b"-"), b"-abc");
}

#[test]
fn searching_and_splicing() {
    assert_eq!(find(b"hello world", b"o"), Some(4));
    assert_eq!(find(b"hello world", b"world"), Some(6));
    assert_eq!(find(b"hello world", b"worlds"), None);
    assert_eq!(find(b"hello", b""), Some(0));
    assert_eq!(find(b"", b""), Some(0));
    assert_eq!(find(b"", b"a"), None);
    assert_eq!(find(b"aab", b"ab"), Some(1));
    assert!(matches_at(b"abc", b"bc", 1));
    assert!(!matches_at(b"abc", b"bc", 2));
    assert!(matches_at(b"abc", b"", 3));
    assert!(!matches_at(b"abc", b"", 4));
    assert_eq!(splice(b"abcdef", 2, 4, b"XYZ"), b"abXYZef");
    assert_eq!(splice(b"abcdef", 0, 6, b""), b"");
    assert_eq!(splice(b"abcdef", 6, 6, b"!"), b"abcdef!");
    assert_eq!(copy_range(b"abcdef", 1, 3), b"bc");
    assert_eq!(replace_first(b"a-b-c", b"-", b"+"), b"a+b-c");
}
