//! Architecture decision records: naming, sequence numbers, status markers
//! and the transitions between them, stated and proved over plain values.
//!
//! A decision document is a text with one status marker in it, such as
//! `{decided}` or `{superseded} other.adoc`. The library finds and rewrites
//! that marker, decides which transitions are legal, names the file of a new
//! decision and picks the documents out of a walk through a directory. It
//! reads and writes no file: documents come in and go out as bytes.

pub mod create;
pub mod document;
pub mod error;
pub mod listing;
pub mod marker;
pub mod naming;
pub mod seq_id;
pub mod status;
pub mod text;

pub use create::create_adr;
pub use document::{completed_by, superseded_by, transition_to, update_to_decided};
pub use error::AdrError;
pub use listing::{is_hidden, list_all_adr, WalkEntry};
pub use marker::Marker;
pub use naming::{document_file_name, format_decision_name, template_file_name};
pub use seq_id::extract_seq_id;
pub use status::{validate, Status, Transition};
