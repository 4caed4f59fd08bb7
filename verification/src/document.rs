//! Transitions of a decision document, and the links between two of them.

use vstd::prelude::*;
use vstd::slice::slice_subrange;
use vstd::utf8::encode_utf8;
use crate::marker::{
    blanks_end, first_is_marker_from, is_space, marker_from, marker_of, marker_of_is_first,
    names, one_status_at, read, status_at, status_at_occurs, status_of, word_end_of_run, Marker,
    MarkerModel,
};
use crate::status::{next_status, reveal_tags, validate, Status, Transition};
use crate::text::{
    first_is_occurrence_from, first_occurrence, occurs_at, spliced, spliced_bytes, SPACE,
};

verus! {

/// The document with its first marker, whatever its status, replaced by
/// the marker of `to` and `reference`; nothing where it has no marker.
pub open spec fn remarked(content: Seq<u8>, to: Status, reference: Seq<u8>) -> Option<Seq<u8>> {
    match marker_of(content) {
        Some(marker) => Some(spliced(content, marker.start, marker.end, to.literal(reference))),
        None => None,
    }
}

/// The document whose status is `from`, with its first marker replaced by
/// the marker of `to` and `reference`; nothing where the document has no
/// marker or another status.
pub open spec fn restated(content: Seq<u8>, from: Status, to: Status, reference: Seq<u8>) -> Option<
    Seq<u8>,
> {
    if status_of(content) == Some(from) {
        remarked(content, to, reference)
    } else {
        None
    }
}

/// The document after `transition`: its first marker replaced by that of
/// the next status and the path that the transition names. Nothing where
/// the document has no marker, or its status does not allow the transition.
pub open spec fn transitioned(content: Seq<u8>, transition: Transition) -> Option<Seq<u8>> {
    match marker_of(content) {
        Some(marker) => match next_status(marker.status, transition) {
            Some(next) => Some(
                spliced(content, marker.start, marker.end, next.literal(transition.reference())),
            ),
            None => None,
        },
        None => None,
    }
}

/// The two documents of a relation after both were rewritten. The source
/// must be decided: its marker becomes that of `to` and names the target.
/// The target must have a marker, of whatever status: it becomes that of
/// `back` and names the source. Nothing where the source is not decided or
/// the target has no marker.
pub open spec fn linked(
    source: Seq<u8>,
    source_path: Seq<u8>,
    target: Seq<u8>,
    target_path: Seq<u8>,
    to: Status,
    back: Status,
) -> Option<(Seq<u8>, Seq<u8>)> {
    match (
        restated(source, Status::Decided, to, target_path),
        remarked(target, back, source_path),
    ) {
        (Some(new_source), Some(new_target)) => Some((new_source, new_target)),
        _ => None,
    }
}

/// The marker as it stands in the document is found first at its own start.
pub proof fn marker_literal_is_first(content: Seq<u8>)
    requires
        marker_of(content) is Some,
    ensures
        first_occurrence(
            content,
            content.subrange(marker_of(content)->0.start, marker_of(content)->0.end),
        ) == Some(marker_of(content)->0.start),
{
    let marker = marker_of(content)->0;
    let literal = content.subrange(marker.start, marker.end);
    let tag = marker.status.tag();
    marker_of_is_first(content);
    reveal_tags();
    assert(content.subrange(marker.start, marker.start + literal.len()) == literal);
    assert forall|q: int| 0 <= q < marker.start implies !occurs_at(content, literal, q) by {
        if occurs_at(content, literal, q) {
            assert(content.subrange(q, q + tag.len()) == literal.subrange(0, tag.len() as int));
            assert(literal.subrange(0, tag.len() as int) == content.subrange(
                marker.start,
                marker.start + tag.len(),
            ));
            one_status_at(content, q, marker.status);
        }
    }
    first_is_occurrence_from(content, literal, 0, marker.start);
}

/// A path that a marker can name and give back: at least one byte, and no
/// white space.
pub open spec fn is_reference(path: Seq<u8>) -> bool {
    path.len() > 0 && forall|k: int| 0 <= k < path.len() ==> !is_space(#[trigger] path[k])
}

/// The first marker of the document is followed by white space or by
/// nothing.
pub open spec fn marker_stands_alone(content: Seq<u8>) -> bool {
    match marker_of(content) {
        Some(marker) => marker.end == content.len() || is_space(content[marker.end]),
        None => false,
    }
}

/// A rewritten marker stands where the old one stood, is the first of the
/// new document, has the new status, and stands there as it was written.
pub proof fn remarked_has_status(content: Seq<u8>, to: Status, reference: Seq<u8>)
    requires
        marker_of(content) is Some,
    ensures
        remarked(content, to, reference) is Some,
        marker_from(remarked(content, to, reference)->0, 0) == marker_from(content, 0),
        status_of(remarked(content, to, reference)->0) == Some(to),
        names(remarked(content, to, reference)->0, to, reference),
{
    let marker = marker_of(content)->0;
    let literal = to.literal(reference);
    let new_content = spliced(content, marker.start, marker.end, literal);
    marker_of_is_first(content);
    reveal_tags();
    spliced_bytes(content, marker.start, marker.end, literal);
    let tag = to.tag();
    assert(literal.subrange(0, tag.len() as int) == tag);
    assert(new_content.subrange(marker.start, marker.start + tag.len()) == tag);
    assert(new_content.subrange(marker.start, marker.start + literal.len()) == literal);
    one_status_at(new_content, marker.start, to);
    assert forall|q: int| 0 <= q < marker.start implies status_at(new_content, q) is None by {
        status_at_occurs(new_content, q);
        if status_at(new_content, q) is Some {
            let other = status_at(new_content, q)->0;
            let width = other.tag().len() as int;
            if q + width <= marker.start {
                assert(content.subrange(q, q + width) == new_content.subrange(q, q + width));
                one_status_at(content, q, other);
            } else {
                let k = marker.start - q;
                assert(new_content.subrange(q, q + width)[k] == new_content[marker.start]);
                assert(new_content[marker.start] == tag[0]);
            }
        }
    }
    first_is_marker_from(new_content, 0, marker.start);
}

/// A rewritten relational marker is read back with the reference it was
/// written with, where that is a path without white space and the old
/// marker stood alone.
pub proof fn remarked_reads_back(content: Seq<u8>, to: Status, reference: Seq<u8>)
    requires
        to.carries_reference(),
        is_reference(reference),
        marker_stands_alone(content),
    ensures
        remarked(content, to, reference) is Some,
        marker_of(remarked(content, to, reference)->0) == Some(
            MarkerModel {
                status: to,
                start: marker_of(content)->0.start,
                end: marker_of(content)->0.start + to.literal(reference).len(),
                reference,
            },
        ),
{
    let marker = marker_of(content)->0;
    let literal = to.literal(reference);
    let new_content = spliced(content, marker.start, marker.end, literal);
    let tag = to.tag();
    let tag_end = marker.start + tag.len();
    let run_end = tag_end + 1 + reference.len();
    remarked_has_status(content, to, reference);
    marker_of_is_first(content);
    reveal_tags();
    spliced_bytes(content, marker.start, marker.end, literal);
    assert(new_content[tag_end] == SPACE);
    assert(new_content[tag_end + 1] == reference[0]);
    assert(blanks_end(new_content, tag_end + 1) == tag_end + 1);
    assert(blanks_end(new_content, tag_end) == tag_end + 1);
    assert forall|k: int| tag_end + 1 <= k < run_end implies !is_space(
        #[trigger] new_content[k],
    ) by {
        assert(new_content[k] == reference[k - tag_end - 1]);
    }
    if run_end < new_content.len() {
        assert(new_content[run_end] == content[marker.end]);
    }
    word_end_of_run(new_content, tag_end + 1, run_end);
    assert(new_content.subrange(tag_end + 1, run_end) == reference);
}

/// Replaces the first marker of a document, as it was read, by the marker
/// of `to` and `reference`.
fn rewrite(content: &[u8], marker: &Marker, to: Status, reference: &[u8]) -> (out: Vec<u8>)
    requires
        marker_of(content@) == Some(marker@),
    ensures
        out@ == spliced(content@, marker@.start, marker@.end, to.literal(reference@)),
{
    proof {
        marker_of_is_first(content@);
        marker_literal_is_first(content@);
    }
    let old_literal = slice_subrange(content, marker.start, marker.end);
    let new_literal = to.literal_bytes(reference);
    crate::marker::write(content, old_literal, new_literal.as_slice())
}

/// Replaces the first marker of a document, whatever its status, by the
/// marker of `to` and `reference`. Returns nothing where the document has
/// no marker.
pub fn remark(content: &[u8], to: Status, reference: &[u8]) -> (out: Option<Vec<u8>>)
    ensures
        match out {
            Some(new_content) => remarked(content@, to, reference@) == Some(new_content@),
            None => remarked(content@, to, reference@) is None,
        },
{
    match read(content) {
        Some(marker) => Some(rewrite(content, &marker, to, reference)),
        None => None,
    }
}

/// Replaces the first marker of a document by the marker of `to` and
/// `reference`, where the document's status is `from`.
pub fn restate(content: &[u8], from: Status, to: Status, reference: &[u8]) -> (out: Option<
    Vec<u8>,
>)
    ensures
        match out {
            Some(new_content) => restated(content@, from, to, reference@) == Some(new_content@),
            None => restated(content@, from, to, reference@) is None,
        },
{
    match read(content) {
        Some(marker) => {
            if marker.status == from {
                Some(rewrite(content, &marker, to, reference))
            } else {
                None
            }
        },
        None => None,
    }
}

/// Applies `transition` to a document: its marker is rewritten where its
/// status allows the transition, and nothing is returned where it does not.
pub fn transition_to(content: &[u8], transition: &Transition) -> (out: Option<Vec<u8>>)
    ensures
        match out {
            Some(new_content) => transitioned(content@, *transition) == Some(new_content@),
            None => transitioned(content@, *transition) is None,
        },
{
    match read(content) {
        Some(marker) => match validate(marker.status, transition) {
            Some(next) => Some(rewrite(content, &marker, next, transition.reference_bytes())),
            None => None,
        },
        None => None,
    }
}

/// Rewrites the two documents of a relation, both or neither: the decided
/// source gets the marker of `to` and the target's path, the target gets
/// the marker of `back` and the source's path in place of the marker it
/// has. Returns nothing where the source is not decided or the target has
/// no marker.
pub fn link(
    source: &[u8],
    source_path: &str,
    target: &[u8],
    target_path: &str,
    to: Status,
    back: Status,
) -> (out: Option<(Vec<u8>, Vec<u8>)>)
    ensures
        match out {
            Some((new_source, new_target)) => linked(
                source@,
                encode_utf8(source_path@),
                target@,
                encode_utf8(target_path@),
                to,
                back,
            ) == Some((new_source@, new_target@)),
            None => linked(
                source@,
                encode_utf8(source_path@),
                target@,
                encode_utf8(target_path@),
                to,
                back,
            ) is None,
        },
{
    match restate(source, Status::Decided, to, target_path.as_bytes()) {
        Some(new_source) => match remark(target, back, source_path.as_bytes()) {
            Some(new_target) => Some((new_source, new_target)),
            None => None,
        },
        None => None,
    }
}

/// Marks a work-in-progress decision as decided. Returns the new content,
/// or nothing where the document is not work in progress.
pub fn update_to_decided(content: &[u8]) -> (out: Option<Vec<u8>>)
    ensures
        match out {
            Some(new_content) => transitioned(content@, Transition::ToDecided) == Some(
                new_content@,
            ),
            None => transitioned(content@, Transition::ToDecided) is None,
        },
{
    transition_to(content, &Transition::ToDecided)
}

/// Marks the decided document `adr`, which lies at `adr_name`, as superseded
/// by the document `by_adr`, which lies at `by`, and the latter as
/// superseding the former, whatever its status was. Returns both new
/// contents, or nothing where `adr` is not decided or `by_adr` has no
/// marker.
pub fn superseded_by(adr: &[u8], adr_name: &str, by_adr: &[u8], by: &str) -> (out: Option<
    (Vec<u8>, Vec<u8>),
>)
    ensures
        match out {
            Some((new_adr, new_by)) => linked(
                adr@,
                encode_utf8(adr_name@),
                by_adr@,
                encode_utf8(by@),
                Status::Superseded,
                Status::Supersedes,
            ) == Some((new_adr@, new_by@)),
            None => linked(
                adr@,
                encode_utf8(adr_name@),
                by_adr@,
                encode_utf8(by@),
                Status::Superseded,
                Status::Supersedes,
            ) is None,
        },
{
    link(adr, adr_name, by_adr, by, Status::Superseded, Status::Supersedes)
}

/// Marks the decided document `adr`, which lies at `adr_name`, as completed
/// by the document `by_adr`, which lies at `by`, and the latter as
/// completing the former, whatever its status was. Returns both new
/// contents, or nothing where `adr` is not decided or `by_adr` has no
/// marker.
pub fn completed_by(adr: &[u8], adr_name: &str, by_adr: &[u8], by: &str) -> (out: Option<
    (Vec<u8>, Vec<u8>),
>)
    ensures
        match out {
            Some((new_adr, new_by)) => linked(
                adr@,
                encode_utf8(adr_name@),
                by_adr@,
                encode_utf8(by@),
                Status::Completed,
                Status::Completes,
            ) == Some((new_adr@, new_by@)),
            None => linked(
                adr@,
                encode_utf8(adr_name@),
                by_adr@,
                encode_utf8(by@),
                Status::Completed,
                Status::Completes,
            ) is None,
        },
{
    link(adr, adr_name, by_adr, by, Status::Completed, Status::Completes)
}

} // verus!

verus! {

/// Rewriting the marker leaves every byte before it and every byte behind
/// it as it was.
pub proof fn remarked_keeps_the_rest(content: Seq<u8>, to: Status, reference: Seq<u8>)
    requires
        marker_of(content) is Some,
    ensures
        remarked(content, to, reference) is Some,
        ({
            let marker = marker_of(content)->0;
            let new_content = remarked(content, to, reference)->0;
            let new_end = marker.start + to.literal(reference).len();
            &&& new_content.len() == content.len() - (marker.end - marker.start) + to.literal(
                reference,
            ).len()
            &&& new_content.subrange(0, marker.start) == content.subrange(0, marker.start)
            &&& new_content.subrange(new_end, new_content.len() as int) == content.subrange(
                marker.end,
                content.len() as int,
            )
        }),
{
    marker_of_is_first(content);
    let marker = marker_of(content)->0;
    spliced_bytes(content, marker.start, marker.end, to.literal(reference));
}

/// A legal transition leads to its target status, and cannot be made a
/// second time: the document that it gave is refused and so left as it is.
pub proof fn transition_reaches_target(content: Seq<u8>, transition: Transition)
    requires
        status_of(content) == Some(transition.from()),
    ensures
        transitioned(content, transition) is Some,
        status_of(transitioned(content, transition)->0) == Some(transition.to()),
        transitioned(transitioned(content, transition)->0, transition) is None,
{
    remarked_has_status(content, transition.to(), transition.reference());
}

/// A transition from any other status than its own is refused.
pub proof fn transition_refused_elsewhere(content: Seq<u8>, transition: Transition)
    requires
        status_of(content) != Some(transition.from()),
    ensures
        transitioned(content, transition) is None,
{
}

/// A work-in-progress document becomes decided; decided once, it is not
/// decided again.
pub proof fn decided_only_once(content: Seq<u8>)
    requires
        status_of(content) == Some(Status::WorkInProgress),
    ensures
        transitioned(content, Transition::ToDecided) is Some,
        status_of(transitioned(content, Transition::ToDecided)->0) == Some(Status::Decided),
        transitioned(transitioned(content, Transition::ToDecided)->0, Transition::ToDecided)
            is None,
{
    transition_reaches_target(content, Transition::ToDecided);
}

/// Two documents are linked exactly where the source is decided and the
/// target has a marker. Each then has the marker that was written for it,
/// with the other's path: the source that of `to` and the target's path,
/// the target that of `back` and the source's path, each where its old
/// marker stood and with the rest of the document as it was.
pub proof fn linked_documents_name_each_other(
    source: Seq<u8>,
    source_path: Seq<u8>,
    target: Seq<u8>,
    target_path: Seq<u8>,
    to: Status,
    back: Status,
)
    ensures
        linked(source, source_path, target, target_path, to, back) is Some <==> status_of(source)
            == Some(Status::Decided) && marker_of(target) is Some,
        linked(source, source_path, target, target_path, to, back) matches Some(
            (new_source, new_target),
        ) ==> {
            &&& new_source == spliced(
                source,
                marker_of(source)->0.start,
                marker_of(source)->0.end,
                to.literal(target_path),
            )
            &&& new_target == spliced(
                target,
                marker_of(target)->0.start,
                marker_of(target)->0.end,
                back.literal(source_path),
            )
            &&& names(new_source, to, target_path)
            &&& names(new_target, back, source_path)
        },
{
    if status_of(source) == Some(Status::Decided) && marker_of(target) is Some {
        remarked_has_status(source, to, target_path);
        remarked_has_status(target, back, source_path);
    }
}

/// After two documents were linked, each marker is read back with the
/// other's path as its reference. This holds where both paths are without
/// white space and not empty, and both old markers stood alone.
pub proof fn linked_references_are_read_back(
    source: Seq<u8>,
    source_path: Seq<u8>,
    target: Seq<u8>,
    target_path: Seq<u8>,
    to: Status,
    back: Status,
)
    requires
        status_of(source) == Some(Status::Decided),
        to.carries_reference(),
        back.carries_reference(),
        is_reference(source_path),
        is_reference(target_path),
        marker_stands_alone(source),
        marker_stands_alone(target),
    ensures
        linked(source, source_path, target, target_path, to, back) is Some,
        ({
            let (new_source, new_target) = linked(
                source,
                source_path,
                target,
                target_path,
                to,
                back,
            )->0;
            &&& marker_of(new_source) is Some
            &&& marker_of(new_source)->0.status == to
            &&& marker_of(new_source)->0.reference == target_path
            &&& marker_of(new_target) is Some
            &&& marker_of(new_target)->0.status == back
            &&& marker_of(new_target)->0.reference == source_path
        }),
{
    remarked_reads_back(source, to, target_path);
    remarked_reads_back(target, back, source_path);
}

} // verus!
