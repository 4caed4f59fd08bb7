//! Making a new decision document from the template.

use vstd::prelude::*;
use crate::error::AdrError;
use crate::marker::status_of;
use crate::status::Status;

verus! {

/// The status that a new decision has.
pub open spec fn initial_status() -> Status {
    Status::WorkInProgress
}

/// What creating a document comes to: where the target is a file already,
/// nothing is to be written; else the template's content is, and without a
/// template there is nothing to make the document from.
pub open spec fn created(target_is_file: bool, template: Option<Seq<u8>>) -> Result<
    Option<Seq<u8>>,
    AdrError,
> {
    if target_is_file {
        Ok(None)
    } else {
        match template {
            Some(content) => Ok(Some(content)),
            None => Err(AdrError::TemplateNotFound),
        }
    }
}

/// The bytes of an optional content.
pub open spec fn content_of(content: Option<Vec<u8>>) -> Option<Seq<u8>> {
    match content {
        Some(bytes) => Some(bytes@),
        None => None,
    }
}

/// Decides what creating a decision document comes to, given whether its
/// file exists already and what the template holds, if there is one.
/// Returns the content to write into the new file; nothing where the file
/// exists, which is then left as it is.
pub fn create_adr(target_is_file: bool, template: Option<Vec<u8>>) -> (out: Result<
    Option<Vec<u8>>,
    AdrError,
>)
    ensures
        match out {
            Ok(content) => created(target_is_file, content_of(template)) == Ok::<
                Option<Seq<u8>>,
                AdrError,
            >(content_of(content)),
            Err(error) => created(target_is_file, content_of(template)) == Err::<
                Option<Seq<u8>>,
                AdrError,
            >(error),
        },
{
    if target_is_file {
        Ok(None)
    } else {
        match template {
            Some(content) => Ok(Some(content)),
            None => Err(AdrError::TemplateNotFound),
        }
    }
}

/// A document created from a template that is marked as work in progress
/// is itself marked so.
pub proof fn created_document_has_initial_status(template: Seq<u8>)
    requires
        status_of(template) == Some(initial_status()),
    ensures
        created(false, Some(template)) matches Ok(Some(content)) && status_of(content) == Some(
            initial_status(),
        ),
{
}

/// Where the target exists nothing is written, whatever the template holds.
pub proof fn existing_document_is_kept(template: Option<Seq<u8>>)
    ensures
        created(true, template) == Ok::<Option<Seq<u8>>, AdrError>(None),
{
}

} // verus!
