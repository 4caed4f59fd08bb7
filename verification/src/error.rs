//! What can go wrong.

use vstd::prelude::*;

verus! {

/// The failures that the library reports.
#[derive(Clone, Copy, Debug, PartialEq, Eq, Structural)]
pub enum AdrError {
    /// A name holds no run of digits.
    NoSequenceNumber,
    /// The digits found in a name are not the decimal digits `0` to `9`.
    MalformedSequenceNumber,
    /// The number in a name does not fit the machine's word.
    SequenceNumberTooLarge,
    /// There is no template to make a new document from.
    TemplateNotFound,
}

} // verus!
