//! The rules of a PDF reader that pins sticky notes to pages: note
//! colours and themes, the note list and its edits, page navigation,
//! the save run, and the requests the notes service is sent.

pub mod api;
pub mod models;
pub mod notes;
pub mod text;
pub mod theme;
pub mod viewer;
