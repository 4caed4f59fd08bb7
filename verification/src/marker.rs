//! The status marker of a document: where it stands and what it says.

use vstd::prelude::*;
use crate::status::{reveal_tags, differing_index, Status};
use crate::text::{
    copy_range, matches_at, occurs_at, replace_first, replaced_first, CARRIAGE_RETURN, FORM_FEED,
    LINE_FEED, SPACE, TAB,
};

verus! {

/// A marker as it was found in a document: its status, the positions of its
/// first byte and of the byte behind its last, and the path it names.
#[derive(Debug, PartialEq, Eq)]
pub struct Marker {
    pub status: Status,
    pub start: usize,
    pub end: usize,
    pub reference: Vec<u8>,
}

/// What a `Marker` stands for.
pub struct MarkerModel {
    pub status: Status,
    pub start: int,
    pub end: int,
    pub reference: Seq<u8>,
}

impl View for Marker {
    type V = MarkerModel;

    open spec fn view(&self) -> MarkerModel {
        MarkerModel {
            status: self.status,
            start: self.start as int,
            end: self.end as int,
            reference: self.reference@,
        }
    }
}

/// A space or a tab.
pub open spec fn is_blank(b: u8) -> bool {
    b == SPACE || b == TAB
}

/// A byte of ASCII white space.
pub open spec fn is_space(b: u8) -> bool {
    b == SPACE || b == TAB || b == LINE_FEED || b == FORM_FEED || b == CARRIAGE_RETURN
}

/// The status whose tag stands in `content` at `pos`.
pub open spec fn status_at(content: Seq<u8>, pos: int) -> Option<Status> {
    if occurs_at(content, Status::WorkInProgress.tag(), pos) {
        Some(Status::WorkInProgress)
    } else if occurs_at(content, Status::Decided.tag(), pos) {
        Some(Status::Decided)
    } else if occurs_at(content, Status::Superseded.tag(), pos) {
        Some(Status::Superseded)
    } else if occurs_at(content, Status::Completed.tag(), pos) {
        Some(Status::Completed)
    } else if occurs_at(content, Status::Supersedes.tag(), pos) {
        Some(Status::Supersedes)
    } else if occurs_at(content, Status::Completes.tag(), pos) {
        Some(Status::Completes)
    } else {
        None
    }
}

/// The least position from `from` on at which a tag stands in `content`, or
/// the length of `content` plus one where there is none.
pub open spec fn marker_from(content: Seq<u8>, from: int) -> int
    decreases content.len() + 1 - from,
{
    if from < 0 || from > content.len() {
        content.len() as int + 1
    } else if status_at(content, from) is Some {
        from
    } else {
        marker_from(content, from + 1)
    }
}

/// The position behind the blanks that stand in `content` from `from` on.
pub open spec fn blanks_end(content: Seq<u8>, from: int) -> int
    decreases content.len() - from,
{
    if 0 <= from < content.len() && is_blank(content[from]) {
        blanks_end(content, from + 1)
    } else {
        from
    }
}

/// The position behind the bytes other than white space that stand in
/// `content` from `from` on.
pub open spec fn word_end(content: Seq<u8>, from: int) -> int
    decreases content.len() - from,
{
    if 0 <= from < content.len() && !is_space(content[from]) {
        word_end(content, from + 1)
    } else {
        from
    }
}

/// The marker whose tag stands in `content` at `start`. A relational status
/// takes as its reference the word that follows the tag after at least one
/// blank, where there is one.
pub open spec fn marker_at(content: Seq<u8>, start: int, status: Status) -> MarkerModel {
    let tag_end = start + status.tag().len();
    let word_start = blanks_end(content, tag_end);
    let word_stop = word_end(content, word_start);
    if status.carries_reference() && tag_end < word_start && word_start < word_stop {
        MarkerModel {
            status,
            start,
            end: word_stop,
            reference: content.subrange(word_start, word_stop),
        }
    } else {
        MarkerModel { status, start, end: tag_end, reference: Seq::empty() }
    }
}

/// The first marker of a document.
pub open spec fn marker_of(content: Seq<u8>) -> Option<MarkerModel> {
    let start = marker_from(content, 0);
    match status_at(content, start) {
        Some(status) => Some(marker_at(content, start, status)),
        None => None,
    }
}

/// The status of a document: that of its first marker.
pub open spec fn status_of(content: Seq<u8>) -> Option<Status> {
    match marker_of(content) {
        Some(marker) => Some(marker.status),
        None => None,
    }
}

/// The first marker of the document has the status `status`, and stands
/// there as that status and `path` are written: the tag, and for a
/// relational status a space and the path.
pub open spec fn names(content: Seq<u8>, status: Status, path: Seq<u8>) -> bool {
    match marker_of(content) {
        Some(marker) => marker.status == status && occurs_at(
            content,
            status.literal(path),
            marker.start,
        ),
        None => false,
    }
}

/// At one position the tag of at most one status stands.
pub proof fn one_status_at(content: Seq<u8>, pos: int, status: Status)
    requires
        occurs_at(content, status.tag(), pos),
    ensures
        status_at(content, pos) == Some(status),
{
    reveal_tags();
    assert forall|other: Status| other != status implies !occurs_at(
        content,
        other.tag(),
        pos,
    ) by {
        if occurs_at(content, other.tag(), pos) {
            let k = differing_index(other, status);
            assert(content.subrange(pos, pos + other.tag().len())[k] == content[pos + k]);
            assert(content.subrange(pos, pos + status.tag().len())[k] == content[pos + k]);
        }
    }
}

/// Where `status_at` names a status, its tag stands there.
pub proof fn status_at_occurs(content: Seq<u8>, pos: int)
    ensures
        match status_at(content, pos) {
            Some(status) => occurs_at(content, status.tag(), pos),
            None => forall|status: Status| !occurs_at(content, #[trigger] status.tag(), pos),
        },
{
}

/// What `marker_from` returns is the first position with a tag from `from` on.
pub proof fn marker_from_is_first(content: Seq<u8>, from: int)
    requires
        0 <= from <= content.len() + 1,
    ensures
        from <= marker_from(content, from) <= content.len() + 1,
        marker_from(content, from) <= content.len() <==> status_at(
            content,
            marker_from(content, from),
        ) is Some,
        forall|q: int| from <= q < marker_from(content, from) ==> status_at(content, q) is None,
    decreases content.len() + 1 - from,
{
    reveal_tags();
    if from <= content.len() && status_at(content, from) is None {
        marker_from_is_first(content, from + 1);
    }
}

/// A position with a tag and none before it, from `from` on, is what
/// `marker_from` returns.
pub proof fn first_is_marker_from(content: Seq<u8>, from: int, pos: int)
    requires
        0 <= from <= pos,
        status_at(content, pos) is Some,
        forall|q: int| from <= q < pos ==> status_at(content, q) is None,
    ensures
        marker_from(content, from) == pos,
    decreases pos - from,
{
    reveal_tags();
    if from < pos {
        first_is_marker_from(content, from + 1, pos);
    }
}

/// The blanks from `from` on end within the document.
pub proof fn blanks_end_bounds(content: Seq<u8>, from: int)
    requires
        0 <= from <= content.len(),
    ensures
        from <= blanks_end(content, from) <= content.len(),
    decreases content.len() - from,
{
    if from < content.len() && is_blank(content[from]) {
        blanks_end_bounds(content, from + 1);
    }
}

/// The word from `from` on ends within the document.
pub proof fn word_end_bounds(content: Seq<u8>, from: int)
    requires
        0 <= from <= content.len(),
    ensures
        from <= word_end(content, from) <= content.len(),
    decreases content.len() - from,
{
    if from < content.len() && !is_space(content[from]) {
        word_end_bounds(content, from + 1);
    }
}

/// A run of bytes other than white space that ends at white space, or at
/// the end of the document, is one word.
pub proof fn word_end_of_run(content: Seq<u8>, from: int, to: int)
    requires
        0 <= from <= to <= content.len(),
        forall|k: int| from <= k < to ==> !is_space(#[trigger] content[k]),
        to < content.len() ==> is_space(content[to]),
    ensures
        word_end(content, from) == to,
    decreases to - from,
{
    if from < to {
        word_end_of_run(content, from + 1, to);
    }
}

/// The first marker of a document lies within it, its tag stands at its
/// start, and no tag stands before it; a document without a marker holds no
/// tag at all.
pub proof fn marker_of_is_first(content: Seq<u8>)
    ensures
        match marker_of(content) {
            Some(marker) => {
                &&& marker.start == marker_from(content, 0)
                &&& 0 <= marker.start
                &&& marker.start + marker.status.tag().len() <= marker.end <= content.len()
                &&& occurs_at(content, marker.status.tag(), marker.start)
                &&& forall|q: int| 0 <= q < marker.start ==> status_at(content, q) is None
            },
            None => forall|q: int| status_at(content, q) is None,
        },
{
    reveal_tags();
    marker_from_is_first(content, 0);
    let start = marker_from(content, 0);
    match status_at(content, start) {
        Some(status) => {
            let tag_end = start + status.tag().len();
            blanks_end_bounds(content, tag_end);
            word_end_bounds(content, blanks_end(content, tag_end));
        },
        None => {
            assert forall|q: int| status_at(content, q) is None by {
                if 0 <= q <= content.len() {
                } else {
                }
            }
        },
    }
}

/// The status whose tag stands in `content` at `pos`.
pub fn status_here(content: &[u8], pos: usize) -> (found: Option<Status>)
    ensures
        found == status_at(content@, pos as int),
{
    if matches_at(content, Status::WorkInProgress.tag_bytes(), pos) {
        Some(Status::WorkInProgress)
    } else if matches_at(content, Status::Decided.tag_bytes(), pos) {
        Some(Status::Decided)
    } else if matches_at(content, Status::Superseded.tag_bytes(), pos) {
        Some(Status::Superseded)
    } else if matches_at(content, Status::Completed.tag_bytes(), pos) {
        Some(Status::Completed)
    } else if matches_at(content, Status::Supersedes.tag_bytes(), pos) {
        Some(Status::Supersedes)
    } else if matches_at(content, Status::Completes.tag_bytes(), pos) {
        Some(Status::Completes)
    } else {
        None
    }
}

/// The position behind the blanks that stand in `content` from `from` on.
pub fn skip_blanks(content: &[u8], from: usize) -> (end: usize)
    requires
        from <= content.len(),
    ensures
        end == blanks_end(content@, from as int),
        from <= end <= content.len(),
{
    let mut i: usize = from;
    while i < content.len() && (content[i] == SPACE || content[i] == TAB)
        invariant
            from <= i <= content.len(),
            blanks_end(content@, from as int) == blanks_end(content@, i as int),
        decreases content.len() - i,
    {
        i += 1;
    }
    i
}

/// The position behind the bytes other than white space that stand in
/// `content` from `from` on.
pub fn skip_word(content: &[u8], from: usize) -> (end: usize)
    requires
        from <= content.len(),
    ensures
        end == word_end(content@, from as int),
        from <= end <= content.len(),
{
    let mut i: usize = from;
    while i < content.len() && !(content[i] == SPACE || content[i] == TAB || content[i]
        == LINE_FEED || content[i] == FORM_FEED || content[i] == CARRIAGE_RETURN)
        invariant
            from <= i <= content.len(),
            word_end(content@, from as int) == word_end(content@, i as int),
        decreases content.len() - i,
    {
        i += 1;
    }
    i
}

/// Reads the marker whose tag stands in `content` at `start`.
fn read_at(content: &[u8], start: usize, status: Status) -> (marker: Marker)
    requires
        occurs_at(content@, status.tag(), start as int),
    ensures
        marker@ == marker_at(content@, start as int, status),
{
    let tag = status.tag_bytes();
    let total: usize = content.len();
    assert(start + tag.len() <= total);
    let tag_end: usize = start + tag.len();
    let word_start = skip_blanks(content, tag_end);
    let word_stop = skip_word(content, word_start);
    if status.has_reference() && tag_end < word_start && word_start < word_stop {
        Marker { status, start, end: word_stop, reference: copy_range(content, word_start, word_stop) }
    } else {
        Marker { status, start, end: tag_end, reference: Vec::new() }
    }
}

/// Reads the first marker of a document: the first place at which one of the
/// six tags stands, with the reference that follows it.
pub fn read(content: &[u8]) -> (found: Option<Marker>)
    ensures
        match found {
            Some(marker) => marker_of(content@) == Some(marker@),
            None => marker_of(content@) is None,
        },
{
    let mut pos: usize = 0;
    loop
        invariant
            pos <= content.len(),
            forall|q: int| 0 <= q < pos ==> status_at(content@, q) is None,
        decreases content.len() - pos,
    {
        match status_here(content, pos) {
            Some(status) => {
                proof {
                    first_is_marker_from(content@, 0, pos as int);
                    status_at_occurs(content@, pos as int);
                }
                return Some(read_at(content, pos, status));
            },
            None => {},
        }
        if pos == content.len() {
            proof {
                marker_from_is_first(content@, 0);
            }
            return None;
        }
        pos += 1;
    }
}

/// Whether the first marker of the document has the status `status` and
/// stands there as that status and `path` are written.
pub fn marker_names(content: &[u8], status: Status, path: &[u8]) -> (named: bool)
    ensures
        named == names(content@, status, path@),
{
    match read(content) {
        Some(marker) => {
            let literal = status.literal_bytes(path);
            marker.status == status && matches_at(content, literal.as_slice(), marker.start)
        },
        None => false,
    }
}

/// Writes a marker: the first occurrence of `old_literal` in `content` is
/// replaced by `new_literal`, and every other byte stays as it is.
pub fn write(content: &[u8], old_literal: &[u8], new_literal: &[u8]) -> (out: Vec<u8>)
    ensures
        out@ == replaced_first(content@, old_literal@, new_literal@),
{
    replace_first(content, old_literal, new_literal)
}

} // verus!
