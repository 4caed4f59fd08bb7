//! File stems for decision titles.

use vstd::prelude::*;
use vstd::string::StringExecFns;
use vstd::utf8::is_ascii_chars;
use crate::error::AdrError;

verus! {

/// The lower-case form of an ASCII character: 'A' to 'Z' become 'a' to 'z',
/// any other is left as it is.
pub open spec fn lower(c: char) -> char {
    if 'A' <= c && c <= 'Z' {
        ((c as u8) + 32) as char
    } else {
        c
    }
}

/// What `str::to_lowercase` returns for a text: its lower-case equivalent
/// by the rules of Unicode.
pub uninterp spec fn lowercase_of(text: Seq<char>) -> Seq<char>;

/// A title in lower case. For a title of ASCII characters that is the
/// title with each letter lowered; for any other it is what Unicode's rules
/// give.
pub open spec fn lowered(title: Seq<char>) -> Seq<char> {
    if is_ascii_chars(title) {
        title.map_values(|c: char| lower(c))
    } else {
        lowercase_of(title)
    }
}

/// A text with each space replaced by a hyphen.
pub open spec fn hyphenated(text: Seq<char>) -> Seq<char> {
    text.map_values(
        |c: char|
            if c == ' ' {
                '-'
            } else {
                c
            },
    )
}

/// The canonical file stem of a title: the title in lower case, with
/// hyphens for its spaces.
pub open spec fn normalized(title: Seq<char>) -> Seq<char> {
    hyphenated(lowered(title))
}

/// The extension of a decision document, with its dot.
pub open spec fn extension() -> Seq<char> {
    ".adoc"@
}

/// The name of the file that holds the decision with the given title.
pub open spec fn file_name_of(title: Seq<char>) -> Seq<char> {
    normalized(title) + extension()
}

/// The name of the file that new decisions are copied from.
pub open spec fn template_name() -> Seq<char> {
    "adr-template-v0.1.adoc"@
}

/// `str::to_lowercase`: the lower-case equivalent of the text. Among ASCII
/// characters only 'A' to 'Z' have one that differs from themselves, 'a' to
/// 'z': so a text of ASCII characters comes back with each letter lowered.
#[verifier::external_body]
fn lowercase(text: &str) -> (lowered: String)
    ensures
        lowered@ == lowercase_of(text@),
        is_ascii_chars(text@) ==> lowered@ == text@.map_values(|c: char| lower(c)),
{
    text.to_lowercase()
}

/// `str::replace` with a pattern and a replacement of one character each:
/// every occurrence of the one is replaced by the other.
#[verifier::external_body]
fn replace_each(text: &str, from: &str, to: &str) -> (replaced: String)
    requires
        from@.len() == 1,
        to@.len() == 1,
    ensures
        replaced@ == text@.map_values(
            |c: char|
                if c == from@[0] {
                    to@[0]
                } else {
                    c
                },
        ),
{
    text.replace(from, to)
}

/// The stem of a title.
fn stem_of(name: &str) -> (stem: String)
    ensures
        stem@ == normalized(name@),
{
    let lower_case = lowercase(name);
    assert(lower_case@ == lowered(name@));
    proof {
        reveal_strlit(" ");
        reveal_strlit("-");
    }
    let stem = replace_each(lower_case.as_str(), " ", "-");
    assert(stem@ =~= normalized(name@));
    stem
}

/// The canonical stem of a decision title: every character in lower case,
/// spaces replaced by hyphens. Every title has one.
pub fn format_decision_name(name: &str) -> (stem: Result<String, AdrError>)
    ensures
        stem matches Ok(text) && text@ == normalized(name@),
{
    Ok(stem_of(name))
}

/// The name of the file that holds the decision with the given title: its
/// stem and the extension.
pub fn document_file_name(name: &str) -> (file_name: String)
    ensures
        file_name@ == file_name_of(name@),
{
    stem_of(name).concat(".adoc")
}

/// The name of the file that new decisions are copied from.
pub fn template_file_name() -> (file_name: &'static str)
    ensures
        file_name@ == template_name(),
{
    "adr-template-v0.1.adoc"
}

/// The stem of a title of ASCII characters is the title with each letter
/// lowered and each space replaced by a hyphen, and is itself made of ASCII
/// characters.
pub proof fn stem_of_ascii_title(title: Seq<char>)
    requires
        is_ascii_chars(title),
    ensures
        normalized(title) == title.map_values(
            |c: char|
                if c == ' ' {
                    '-'
                } else {
                    lower(c)
                },
        ),
        is_ascii_chars(normalized(title)),
{
    assert(normalized(title) =~= title.map_values(
        |c: char|
            if c == ' ' {
                '-'
            } else {
                lower(c)
            },
    ));
}

/// Normalizing the stem of a title of ASCII characters again changes
/// nothing.
pub proof fn normalize_is_idempotent(title: Seq<char>)
    requires
        is_ascii_chars(title),
    ensures
        normalized(normalized(title)) == normalized(title),
{
    stem_of_ascii_title(title);
    stem_of_ascii_title(normalized(title));
    assert(normalized(normalized(title)) =~= normalized(title));
}

} // verus!
