use adr_core::error::AdrError;
use adr_core::seq_id::{extract_seq_id, only_digits, seq_id_from_match};

#[test]
fn test_get_seq() {
    let seq = extract_seq_id("01-my-decision.adoc").unwrap();
    assert_eq!(seq, 1);
    let seq = extract_seq_id("00000010-my-decision.adoc").unwrap();
    assert_eq!(seq, 10);
    let seq = extract_seq_id("mypath/00000001-my-decision.adoc").unwrap();
    assert_eq!(seq, 1);
    let seq = extract_seq_id("mypath/00000001-my-decision-594.adoc").unwrap();
    assert_eq!(seq, 1);
    let seq = extract_seq_id("mypath/00000001-my-decision-594-full.adoc").unwrap();
    assert_eq!(seq, 1);
    let seq = extract_seq_id("00000001-my-decision-594-full.adoc").unwrap();
    assert_eq!(seq, 1);
    let seq = extract_seq_id("mypath/00000001/00000002-my-decision-594-full.adoc").unwrap();
    assert_eq!(seq, 1);

    let result = extract_seq_id("path/my-decision-full.adoc");
    assert!(result.is_err());
}

#[test]
fn a_name_without_digits_has_no_sequence_number() {
    assert_eq!(extract_seq_id("path/my-decision-full.adoc"), Err(AdrError::NoSequenceNumber));
    assert_eq!(extract_seq_id(""), Err(AdrError::NoSequenceNumber));
}

#[test]
fn the_first_run_of_digits_counts() {
    assert_eq!(extract_seq_id("abc12def345"), Ok(12));
    assert_eq!(extract_seq_id("7"), Ok(7));
    assert_eq!(extract_seq_id("x0y"), Ok(0));
    assert_eq!(extract_seq_id("v1.25"), Ok(1));
    assert_eq!(extract_seq_id("-42"), Ok(42));
}

#[test]
fn a_number_beyond_the_word_is_too_large() {
    assert_eq!(
        extract_seq_id("340282366920938463463374607431768211456-big.adoc"),
        Err(AdrError::SequenceNumberTooLarge)
    );
    assert_eq!(extract_seq_id("18446744073709551616"), Err(AdrError::SequenceNumberTooLarge));
    assert_eq!(extract_seq_id("4294967295"), Ok(4294967295));
    assert_eq!(extract_seq_id("000000000000000000000000000000000000000001"), Ok(1));
}

#[test]
fn digits_of_other_scripts_are_malformed() {
    assert_eq!(extract_seq_id("\u{663}-decision"), Err(AdrError::MalformedSequenceNumber));
    assert_eq!(extract_seq_id("a\u{663}5"), Err(AdrError::MalformedSequenceNumber));
}

#[test]
fn a_found_run_is_read_as_decimal() {
    assert_eq!(seq_id_from_match(None), Err(AdrError::NoSequenceNumber));
    assert_eq!(seq_id_from_match(Some(String::from("00000010"))), Ok(10));
    assert_eq!(seq_id_from_match(Some(String::from("594"))), Ok(594));
    assert_eq!(seq_id_from_match(Some(String::new())), Err(AdrError::MalformedSequenceNumber));
    assert_eq!(
        seq_id_from_match(Some(String::from("12a"))),
        Err(AdrError::MalformedSequenceNumber)
    );
    assert_eq!(
        seq_id_from_match(Some(String::from("+12"))),
        Err(AdrError::MalformedSequenceNumber)
    );
    assert_eq!(
        seq_id_from_match(Some(String::from("99999999999999999999999999x"))),
        Err(AdrError::MalformedSequenceNumber)
    );
    assert_eq!(
        seq_id_from_match(Some(String::from("99999999999999999999999999"))),
        Err(AdrError::SequenceNumberTooLarge)
    );
    assert_eq!(seq_id_from_match(Some(usize::MAX.to_string())), Ok(usize::MAX));
}

#[test]
fn digits_are_zero_to_nine() {
    assert!(only_digits("0123456789"));
    assert!(only_digits(""));
    assert!(!only_digits("12 "));
    assert!(!only_digits("/"));
    assert!(!only_digits(":"));
    assert!(!only_digits("\u{663}"));
}
