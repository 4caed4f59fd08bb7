use adr_core::naming::{document_file_name, format_decision_name, template_file_name};

#[test]
fn test_format_decision_name() {
    let name = format_decision_name("my-decision").unwrap();
    assert_eq!(name, "my-decision");
    let name = format_decision_name("my decision").unwrap();
    assert_eq!(name, "my-decision");
    let name = format_decision_name("my Decision").unwrap();
    assert_eq!(name, "my-decision");
}

#[test]
fn titles_are_lowered_and_hyphenated() {
    assert_eq!(format_decision_name("My Decision").unwrap(), "my-decision");
    assert_eq!(format_decision_name("USE  Rust NOW").unwrap(), "use--rust-now");
    assert_eq!(format_decision_name(" a ").unwrap(), "-a-");
    assert_eq!(format_decision_name("").unwrap(), "");
}

#[test]
fn only_letters_and_spaces_change() {
    assert_eq!(format_decision_name("AZ az 09 _-./").unwrap(), "az-az-09-_-./");
    assert_eq!(format_decision_name("@[`{").unwrap(), "@[`{");
    assert_eq!(format_decision_name("a\tB\nC").unwrap(), "a\tb\nc");
}

#[test]
fn letters_of_every_script_are_lowered() {
    assert_eq!(format_decision_name("\u{c9}cole Un").unwrap(), "\u{e9}cole-un");
    assert_eq!(
        format_decision_name("\u{c9}t\u{e9} \u{c0}\tB").unwrap(),
        "\u{e9}t\u{e9}-\u{e0}\tb"
    );
    assert_eq!(format_decision_name("\u{3a9}MEGA \u{416}").unwrap(), "\u{3c9}mega-\u{436}");
    assert_eq!(format_decision_name("\u{4e2d}\u{6587} X").unwrap(), "\u{4e2d}\u{6587}-x");
}

#[test]
fn normalizing_twice_changes_nothing() {
    for title in ["My Decision", "my decision", "A  B\tC", "\u{c9}cole Primaire", "\u{3a3}\u{3a3} \u{130}", ""] {
        let once = format_decision_name(title).unwrap();
        let twice = format_decision_name(&once).unwrap();
        assert_eq!(once, twice);
    }
}

#[test]
fn file_names_carry_the_extension() {
    assert_eq!(document_file_name("My Decision"), "my-decision.adoc");
    assert_eq!(document_file_name("\u{c9}cole Un"), "\u{e9}cole-un.adoc");
    assert_eq!(document_file_name(""), ".adoc");
    assert_eq!(template_file_name(), "adr-template-v0.1.adoc");
}
