//! What is sent to the notes service and what its answers mean: the
//! addresses of the requests for listing, creating, updating and deleting
//! notes, and the error messages a failed request is reported with.

use vstd::prelude::*;

use crate::text::{decimal, decimal_text};

verus! {

/// The base address of the notes service.
pub const API_BASE: &'static str = "https://pdf-viewer-api.hhojin1864.workers.dev/api";

/// The text of the base address.
pub open spec fn api_base() -> Seq<char> {
    API_BASE@
}

/// The address that lists the notes of document `pdf_hash`, of page `page`
/// only when one is given.
pub open spec fn notes_list_url(pdf_hash: Seq<char>, page: Option<u32>) -> Seq<char> {
    let base = api_base() + "/notes?pdf_hash="@ + pdf_hash;
    match page {
        Some(p) => base + "&page="@ + decimal(p as nat),
        None => base,
    }
}

/// The address to which new notes are sent.
pub open spec fn notes_collection_url() -> Seq<char> {
    api_base() + "/notes"@
}

/// The address of the note with identifier `id`.
pub open spec fn note_item_url(id: Seq<char>) -> Seq<char> {
    api_base() + "/notes/"@ + id
}

/// The address that lists the notes of document `pdf_hash`.
pub fn fetch_notes_url(pdf_hash: &str, page: Option<u32>) -> (url: String)
    ensures
        url@ == notes_list_url(pdf_hash@, page),
{
    let mut url = String::from_str(API_BASE);
    url.append("/notes?pdf_hash=");
    url.append(pdf_hash);
    match page {
        Some(p) => {
            url.append("&page=");
            let digits = decimal_text(p as u64);
            url.append(digits.as_str());
        },
        None => {},
    }
    url
}

/// The address to which a new note is posted.
pub fn create_note_url() -> (url: String)
    ensures
        url@ == notes_collection_url(),
{
    let mut url = String::from_str(API_BASE);
    url.append("/notes");
    url
}

/// The address at which the note with identifier `id` is updated or
/// deleted.
pub fn note_url(id: &str) -> (url: String)
    ensures
        url@ == note_item_url(id@),
{
    let mut url = String::from_str(API_BASE);
    url.append("/notes/");
    url.append(id);
    url
}

/// The step of a request that failed before the service answered, or
/// while its answer was read.
#[derive(Clone, Copy, Debug, PartialEq, Eq, Structural)]
pub enum RequestFailure {
    /// Sending the request for the list of notes failed.
    FetchNotes,
    /// The list of notes could not be read from the answer.
    ParseNotes,
    /// A note could not be written as the request body.
    Serialize,
    /// Sending a new note failed.
    CreateNote,
    /// The note sent back could not be read from the answer.
    ParseResponse,
    /// Sending an updated note failed.
    UpdateNote,
    /// Sending a deletion failed.
    DeleteNote,
}

/// The words that open the message of a failed step.
pub open spec fn failure_prefix(f: RequestFailure) -> Seq<char> {
    match f {
        RequestFailure::FetchNotes => "Failed to fetch notes: "@,
        RequestFailure::ParseNotes => "Failed to parse notes: "@,
        RequestFailure::Serialize => "Failed to serialize: "@,
        RequestFailure::CreateNote => "Failed to create note: "@,
        RequestFailure::ParseResponse => "Failed to parse response: "@,
        RequestFailure::UpdateNote => "Failed to update note: "@,
        RequestFailure::DeleteNote => "Failed to delete note: "@,
    }
}

impl RequestFailure {
    /// The message for this failed step, with the cause `detail` at its end.
    pub fn message(&self, detail: &str) -> (m: String)
        ensures
            m@ == failure_prefix(*self) + detail@,
    {
        let mut m = match self {
            RequestFailure::FetchNotes => String::from_str("Failed to fetch notes: "),
            RequestFailure::ParseNotes => String::from_str("Failed to parse notes: "),
            RequestFailure::Serialize => String::from_str("Failed to serialize: "),
            RequestFailure::CreateNote => String::from_str("Failed to create note: "),
            RequestFailure::ParseResponse => String::from_str("Failed to parse response: "),
            RequestFailure::UpdateNote => String::from_str("Failed to update note: "),
            RequestFailure::DeleteNote => String::from_str("Failed to delete note: "),
        };
        m.append(detail);
        m
    }
}

/// The message for an answer whose status is not a success.
pub open spec fn status_error(status: u16) -> Seq<char> {
    "API error: "@ + decimal(status as nat)
}

/// Whether an answer may be read: it may when the service reported success
/// (`ok`); otherwise the error names the answer's `status`.
pub fn check_response(ok: bool, status: u16) -> (r: Result<(), String>)
    ensures
        ok ==> r is Ok,
        !ok ==> (r matches Err(m) && m@ == status_error(status)),
{
    if ok {
        Ok(())
    } else {
        let mut m = String::from_str("API error: ");
        let digits = decimal_text(status as u64);
        m.append(digits.as_str());
        Err(m)
    }
}

} // verus!
