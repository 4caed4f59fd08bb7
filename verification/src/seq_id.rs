//! The sequence number in the name of a decision document.

use vstd::prelude::*;
use vstd::utf8::is_ascii_chars;
use crate::error::AdrError;

verus! {

/// One of the decimal digits `0` to `9`.
pub open spec fn is_digit(c: char) -> bool {
    '0' <= c && c <= '9'
}

/// The value of a decimal digit.
pub open spec fn digit_value(c: char) -> nat {
    (c as u8 - '0' as u8) as nat
}

/// Every character is a decimal digit.
pub open spec fn all_digits(text: Seq<char>) -> bool {
    forall|i: int| 0 <= i < text.len() ==> is_digit(#[trigger] text[i])
}

/// The number that a text of decimal digits denotes.
pub open spec fn decimal_value(digits: Seq<char>) -> nat
    decreases digits.len(),
{
    if digits.len() == 0 {
        0
    } else {
        decimal_value(digits.drop_last()) * 10 + digit_value(digits.last())
    }
}

/// The position of the first decimal digit of `text` from `from` on, or the
/// length of `text` where there is none.
pub open spec fn digits_start(text: Seq<char>, from: int) -> int
    decreases text.len() - from,
{
    if 0 <= from < text.len() && !is_digit(text[from]) {
        digits_start(text, from + 1)
    } else {
        from
    }
}

/// The position behind the decimal digits that stand in `text` from `from` on.
pub open spec fn digits_end(text: Seq<char>, from: int) -> int
    decreases text.len() - from,
{
    if 0 <= from < text.len() && is_digit(text[from]) {
        digits_end(text, from + 1)
    } else {
        from
    }
}

/// The first run of decimal digits in `text`, as long as it goes.
pub open spec fn first_digit_run(text: Seq<char>) -> Option<Seq<char>> {
    let start = digits_start(text, 0);
    if start < text.len() {
        Some(text.subrange(start, digits_end(text, start)))
    } else {
        None
    }
}

/// The pattern of a run of digits.
pub open spec fn digit_run_pattern() -> Seq<char> {
    "(\\d+)"@
}

/// The text of an optional string.
pub open spec fn text_of(found: Option<String>) -> Option<Seq<char>> {
    match found {
        Some(text) => Some(text@),
        None => None,
    }
}

/// The sequence number that a found run of digits gives.
pub open spec fn seq_id_of(found: Option<Seq<char>>) -> Result<usize, AdrError> {
    match found {
        None => Err(AdrError::NoSequenceNumber),
        Some(run) => if run.len() == 0 || !all_digits(run) {
            Err(AdrError::MalformedSequenceNumber)
        } else if decimal_value(run) > usize::MAX {
            Err(AdrError::SequenceNumberTooLarge)
        } else {
            Ok(decimal_value(run) as usize)
        },
    }
}

/// `run` stands in `text`, in one piece.
pub open spec fn is_part_of(run: Seq<char>, text: Seq<char>) -> bool {
    exists|i: int, j: int| 0 <= i <= j <= text.len() && run == #[trigger] text.subrange(i, j)
}

/// What `regex::Regex::captures` finds for the regex that `regex::Regex::new`
/// compiles from `pattern`, searching `text`: the text of the whole first
/// match. Nothing where there is no match, or no such regex.
pub uninterp spec fn first_match(pattern: Seq<char>, text: Seq<char>) -> Option<Seq<char>>;

/// Compiles `pattern` with `regex::Regex::new` and searches `text` with
/// `regex::Regex::captures`; returns the text of the whole first match,
/// which the crate cuts out of the searched text. The pattern of a run of
/// digits asks for one digit at least, so what it finds is not empty. The
/// crate searches leftmost first and repeats greedily, and among ASCII
/// characters its class `\d` holds `0` to `9` and no other: so in a text of
/// ASCII characters that pattern finds the first run of decimal digits, as
/// long as it goes.
#[verifier::external_body]
fn find_first_match(pattern: &str, text: &str) -> (found: Option<String>)
    ensures
        text_of(found) == first_match(pattern@, text@),
        found matches Some(run) ==> is_part_of(run@, text@),
        pattern@ == digit_run_pattern() ==> (found matches Some(run) ==> run@.len() > 0),
        pattern@ == digit_run_pattern() && is_ascii_chars(text@) ==> text_of(found)
            == first_digit_run(text@),
{
    match regex::Regex::new(pattern) {
        Ok(regex) => match regex.captures(text) {
            Some(captures) => Some(captures[0].to_string()),
            None => None,
        },
        Err(_) => None,
    }
}

/// Where the first digit from `from` on stands.
pub proof fn digits_start_is_first(text: Seq<char>, from: int)
    requires
        0 <= from <= text.len(),
    ensures
        from <= digits_start(text, from) <= text.len(),
        forall|k: int| from <= k < digits_start(text, from) ==> !is_digit(#[trigger] text[k]),
        digits_start(text, from) < text.len() ==> is_digit(text[digits_start(text, from)]),
    decreases text.len() - from,
{
    if from < text.len() && !is_digit(text[from]) {
        digits_start_is_first(text, from + 1);
    }
}

/// Where the digits from `from` on end.
pub proof fn digits_end_is_last(text: Seq<char>, from: int)
    requires
        0 <= from <= text.len(),
    ensures
        from <= digits_end(text, from) <= text.len(),
        forall|k: int| from <= k < digits_end(text, from) ==> is_digit(#[trigger] text[k]),
        digits_end(text, from) < text.len() ==> !is_digit(text[digits_end(text, from)]),
        from < text.len() && is_digit(text[from]) ==> from < digits_end(text, from),
    decreases text.len() - from,
{
    if from < text.len() && is_digit(text[from]) {
        digits_end_is_last(text, from + 1);
    }
}

/// A name has a first run of digits exactly where it holds a digit, and the
/// run is a decimal number: so a name with a digit in it has a sequence
/// number unless that number is too large, and a name without one has none.
pub proof fn sequence_number_needs_a_digit(text: Seq<char>)
    ensures
        first_digit_run(text) is Some <==> exists|i: int|
            0 <= i < text.len() && is_digit(#[trigger] text[i]),
        first_digit_run(text) matches Some(run) ==> run.len() > 0 && all_digits(run),
        seq_id_of(first_digit_run(text)) == Err::<usize, AdrError>(AdrError::NoSequenceNumber)
            <==> forall|i: int| 0 <= i < text.len() ==> !is_digit(#[trigger] text[i]),
        seq_id_of(first_digit_run(text)) != Err::<usize, AdrError>(
            AdrError::MalformedSequenceNumber,
        ),
{
    digits_start_is_first(text, 0);
    let start = digits_start(text, 0);
    if start < text.len() {
        digits_end_is_last(text, start);
        let run = text.subrange(start, digits_end(text, start));
        assert(all_digits(run)) by {
            assert forall|i: int| 0 <= i < run.len() implies is_digit(#[trigger] run[i]) by {
                assert(run[i] == text[start + i]);
            }
        }
        assert(is_digit(text[start]));
    }
}

/// A prefix of a text of digits denotes no more than the whole.
pub proof fn decimal_value_of_prefix(digits: Seq<char>, len: int)
    requires
        0 <= len <= digits.len(),
    ensures
        decimal_value(digits.subrange(0, len)) <= decimal_value(digits),
    decreases digits.len() - len,
{
    if len < digits.len() {
        assert(digits.drop_last().subrange(0, len) == digits.subrange(0, len));
        decimal_value_of_prefix(digits.drop_last(), len);
    } else {
        assert(digits.subrange(0, len) == digits);
    }
}

/// Whether every character of `text` is a decimal digit.
pub fn only_digits(text: &str) -> (digits: bool)
    ensures
        digits == all_digits(text@),
{
    if !text.is_ascii() {
        assert(!all_digits(text@)) by {
            if all_digits(text@) {
                assert forall|i: int| 0 <= i < text@.len() implies '\0' <= #[trigger] text@[i]
                    <= '\u{7f}' by {
                    assert(is_digit(text@[i]));
                }
            }
        }
        return false;
    }
    let len: usize = text.unicode_len();
    let mut i: usize = 0;
    while i < len
        invariant
            i <= len,
            len == text@.len(),
            text.is_ascii(),
            forall|k: int| 0 <= k < i ==> is_digit(#[trigger] text@[k]),
        decreases len - i,
    {
        let b: u8 = text.get_ascii(i);
        if b < 48 || b > 57 {
            assert(!is_digit(text@[i as int]));
            return false;
        }
        i += 1;
    }
    true
}

/// The sequence number that a found run of digits gives: the run is read
/// as a decimal number.
pub fn seq_id_from_match(found: Option<String>) -> (id: Result<usize, AdrError>)
    ensures
        id == seq_id_of(text_of(found)),
{
    match found {
        None => Err(AdrError::NoSequenceNumber),
        Some(run) => {
            let digits = run.as_str();
            if !only_digits(digits) {
                return Err(AdrError::MalformedSequenceNumber);
            }
            assert(digits.is_ascii()) by {
                assert forall|i: int| 0 <= i < digits@.len() implies '\0' <= #[trigger] digits@[i]
                    <= '\u{7f}' by {
                    assert(is_digit(digits@[i]));
                }
            }
            let len: usize = digits.unicode_len();
            if len == 0 {
                return Err(AdrError::MalformedSequenceNumber);
            }
            let mut value: usize = 0;
            let mut i: usize = 0;
            while i < len
                invariant
                    i <= len,
                    0 < len == digits@.len(),
                    text_of(found) == Some(digits@),
                    digits.is_ascii(),
                    all_digits(digits@),
                    value == decimal_value(digits@.subrange(0, i as int)),
                decreases len - i,
            {
                let b: u8 = digits.get_ascii(i);
                assert(is_digit(digits@[i as int]));
                let d: usize = (b - 48) as usize;
                proof {
                    let next = digits@.subrange(0, i + 1);
                    assert(next.drop_last() == digits@.subrange(0, i as int));
                    assert(next.last() == digits@[i as int]);
                    assert(decimal_value(next) == value * 10 + d);
                    decimal_value_of_prefix(digits@, i + 1);
                }
                let grown = match value.checked_mul(10) {
                    Some(tenfold) => tenfold.checked_add(d),
                    None => None,
                };
                match grown {
                    Some(next_value) => {
                        value = next_value;
                    },
                    None => {
                        assert(value * 10 + d > usize::MAX);
                        assert(decimal_value(digits@) > usize::MAX);
                        return Err(AdrError::SequenceNumberTooLarge);
                    },
                }
                i += 1;
            }
            assert(digits@.subrange(0, len as int) == digits@);
            Ok(value)
        },
    }
}

/// A name holds no decimal digit.
pub open spec fn has_no_digit(name: Seq<char>) -> bool {
    forall|i: int| 0 <= i < name.len() ==> !is_digit(#[trigger] name[i])
}

/// A piece of a name without decimal digits, if it is not empty, is no
/// decimal number.
pub proof fn no_number_without_digits(run: Seq<char>, name: Seq<char>)
    requires
        is_part_of(run, name),
        has_no_digit(name),
        run.len() > 0,
    ensures
        !all_digits(run),
{
    let (i, j) = choose|i: int, j: int|
        0 <= i <= j <= name.len() && run == #[trigger] name.subrange(i, j);
    assert(run[0] == name[i]);
}

/// The sequence number of a document, read from its name: the first run of
/// digits in the name, as a decimal number. A name without a decimal digit
/// has none.
pub fn extract_seq_id(name: &str) -> (id: Result<usize, AdrError>)
    ensures
        id == seq_id_of(first_match(digit_run_pattern(), name@)),
        is_ascii_chars(name@) ==> id == seq_id_of(first_digit_run(name@)),
        has_no_digit(name@) ==> id is Err,
{
    let found = find_first_match("(\\d+)", name);
    proof {
        if has_no_digit(name@) && found is Some {
            no_number_without_digits(found->0@, name@);
        }
    }
    seq_id_from_match(found)
}

} // verus!
