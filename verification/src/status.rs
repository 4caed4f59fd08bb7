//! The statuses of a decision, their tags, and the transitions between them.

use vstd::prelude::*;
use vstd::string::is_ascii_spec_bytes;
use vstd::utf8::{encode_utf8, is_ascii_chars};
use crate::text::SPACE;

verus! {

/// The status that a decision document carries in its marker.
#[derive(Clone, Copy, Debug, PartialEq, Eq, Structural)]
pub enum Status {
    WorkInProgress,
    Decided,
    Superseded,
    Completed,
    Supersedes,
    Completes,
}

/// A requested change of status. The relational ones name the path of the
/// other document.
#[derive(Clone, Debug, PartialEq, Eq)]
pub enum Transition {
    ToDecided,
    ToSuperseded(String),
    ToCompletedBy(String),
}

/// The bytes of a text of ASCII characters.
pub open spec fn ascii_bytes(text: Seq<char>) -> Seq<u8> {
    Seq::new(text.len(), |i: int| text[i] as u8)
}

/// The byte that opens a tag.
pub open spec fn open_brace() -> u8 {
    '{' as u8
}

impl Status {
    /// The tag as it is spelled in a document.
    pub open spec fn tag_text(self) -> Seq<char> {
        match self {
            Status::WorkInProgress => "{wip}"@,
            Status::Decided => "{decided}"@,
            Status::Superseded => "{superseded}"@,
            Status::Completed => "{completed}"@,
            Status::Supersedes => "{supersedes}"@,
            Status::Completes => "{completes}"@,
        }
    }

    /// The tag as bytes.
    pub open spec fn tag(self) -> Seq<u8> {
        ascii_bytes(self.tag_text())
    }

    /// Whether a marker of this status names another document.
    pub open spec fn carries_reference(self) -> bool {
        self != Status::WorkInProgress && self != Status::Decided
    }

    /// The marker of this status as it is written into a document: the tag,
    /// and for a relational status a space and the reference.
    pub open spec fn literal(self, reference: Seq<u8>) -> Seq<u8> {
        if self.carries_reference() {
            self.tag() + seq![SPACE] + reference
        } else {
            self.tag()
        }
    }

    /// The tag as bytes.
    pub fn tag_bytes(self) -> (tag: &'static [u8])
        ensures
            tag@ == self.tag(),
    {
        let text = match self {
            Status::WorkInProgress => "{wip}",
            Status::Decided => "{decided}",
            Status::Superseded => "{superseded}",
            Status::Completed => "{completed}",
            Status::Supersedes => "{supersedes}",
            Status::Completes => "{completes}",
        };
        proof {
            reveal_tags();
            assert(text@ == self.tag_text());
            assert(is_ascii_chars(self.tag_text()));
            is_ascii_spec_bytes(text);
        }
        let tag = text.as_bytes();
        assert(tag@ =~= self.tag());
        tag
    }

    /// Whether a marker of this status names another document.
    pub fn has_reference(self) -> (relational: bool)
        ensures
            relational == self.carries_reference(),
    {
        match self {
            Status::WorkInProgress => false,
            Status::Decided => false,
            _ => true,
        }
    }

    /// The marker of this status as it is written into a document.
    pub fn literal_bytes(self, reference: &[u8]) -> (literal: Vec<u8>)
        ensures
            literal@ == self.literal(reference@),
    {
        let tag = self.tag_bytes();
        let mut literal: Vec<u8> = Vec::new();
        let mut i: usize = 0;
        while i < tag.len()
            invariant
                i <= tag.len(),
                literal@ == tag@.subrange(0, i as int),
            decreases tag.len() - i,
        {
            literal.push(tag[i]);
            i += 1;
        }
        assert(literal@ == tag@);
        if self.has_reference() {
            literal.push(SPACE);
            let mut j: usize = 0;
            while j < reference.len()
                invariant
                    j <= reference.len(),
                    literal@ == tag@ + seq![SPACE] + reference@.subrange(0, j as int),
                decreases reference.len() - j,
            {
                literal.push(reference[j]);
                j += 1;
            }
            assert(reference@.subrange(0, reference.len() as int) == reference@);
        }
        literal
    }
}

/// An index at which the tags of two different statuses differ.
pub open spec fn differing_index(a: Status, b: Status) -> int {
    if a.carries_reference() && b.carries_reference() && a.tag().len() == b.tag().len() {
        a.tag().len() - 2
    } else {
        1
    }
}

/// Makes the spelling of the six tags known to the prover.
pub proof fn reveal_tags()
    ensures
        "{wip}"@.len() == 5,
        "{decided}"@.len() == 9,
        "{superseded}"@.len() == 12,
        "{completed}"@.len() == 11,
        "{supersedes}"@.len() == 12,
        "{completes}"@.len() == 11,
        forall|status: Status| #[trigger] is_ascii_chars(status.tag_text()),
        forall|status: Status| #[trigger] status.tag().len() == status.tag_text().len(),
        forall|status: Status| 5 <= #[trigger] status.tag().len() <= 12,
        forall|status: Status| (#[trigger] status.tag())[0] == open_brace(),
        forall|status: Status, k: int|
            0 < k < status.tag().len() ==> #[trigger] status.tag()[k] != open_brace(),
        forall|a: Status, b: Status|
            a != b ==> 0 < #[trigger] differing_index(a, b) < a.tag().len() && differing_index(a, b)
                < b.tag().len() && a.tag()[differing_index(a, b)] != b.tag()[differing_index(a, b)],
{
    reveal_strlit("{wip}");
    reveal_strlit("{decided}");
    reveal_strlit("{superseded}");
    reveal_strlit("{completed}");
    reveal_strlit("{supersedes}");
    reveal_strlit("{completes}");
}

impl Transition {
    /// The status that a document must have for this transition.
    pub open spec fn from(self) -> Status {
        match self {
            Transition::ToDecided => Status::WorkInProgress,
            Transition::ToSuperseded(_) => Status::Decided,
            Transition::ToCompletedBy(_) => Status::Decided,
        }
    }

    /// The status that this transition leads to.
    pub open spec fn to(self) -> Status {
        match self {
            Transition::ToDecided => Status::Decided,
            Transition::ToSuperseded(_) => Status::Superseded,
            Transition::ToCompletedBy(_) => Status::Completed,
        }
    }

    /// The bytes of the path that a relational transition names.
    pub open spec fn reference(self) -> Seq<u8> {
        match self {
            Transition::ToDecided => Seq::empty(),
            Transition::ToSuperseded(by) => encode_utf8(by@),
            Transition::ToCompletedBy(by) => encode_utf8(by@),
        }
    }
}

impl Transition {
    /// The bytes of the path that a relational transition names.
    pub fn reference_bytes(&self) -> (reference: &[u8])
        ensures
            reference@ == self.reference(),
    {
        match self {
            Transition::ToDecided => &[],
            Transition::ToSuperseded(by) => by.as_str().as_bytes(),
            Transition::ToCompletedBy(by) => by.as_str().as_bytes(),
        }
    }
}

/// The status after `transition` of a document whose status is `current`,
/// where the transition is legal from there.
pub open spec fn next_status(current: Status, transition: Transition) -> Option<Status> {
    if current == transition.from() {
        Some(transition.to())
    } else {
        None
    }
}

/// Decides whether `transition` is legal from `current`, and to which status
/// it leads.
pub fn validate(current: Status, transition: &Transition) -> (next: Option<Status>)
    ensures
        next == next_status(current, *transition),
{
    match (transition, current) {
        (Transition::ToDecided, Status::WorkInProgress) => Some(Status::Decided),
        (Transition::ToSuperseded(_), Status::Decided) => Some(Status::Superseded),
        (Transition::ToCompletedBy(_), Status::Decided) => Some(Status::Completed),
        _ => None,
    }
}

} // verus!
