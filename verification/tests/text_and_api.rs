use pdf_viewer::api::{
    check_response, create_note_url, fetch_notes_url, note_url, RequestFailure, API_BASE,
};
use pdf_viewer::text::{chars_of, contains_chars, decimal_text, parse_u32};

#[test]
fn decimal_text_values() {
    assert_eq!(decimal_text(0), "0");
    assert_eq!(decimal_text(7), "7");
    assert_eq!(decimal_text(10), "10");
    assert_eq!(decimal_text(4096), "4096");
    assert_eq!(decimal_text(u64::MAX), "18446744073709551615");
}

#[test]
fn parse_u32_accepts_what_std_accepts() {
    for s in ["0", "1", "+7", "007", "42", "4294967295", "", "+", "-1", "1.5", " 3", "3 ", "4294967296", "abc", "12a", "++1", "\u{0663}"] {
        assert_eq!(parse_u32(s), s.parse::<u32>().ok(), "input {:?}", s);
    }
}

#[test]
fn parse_decimal_roundtrip() {
    for n in [0u32, 1, 9, 10, 99, 100, 65535, 1_000_000, u32::MAX] {
        assert_eq!(parse_u32(&decimal_text(n as u64)), Some(n));
    }
}

#[test]
fn contains_chars_substrings() {
    let hay = chars_of("meeting notes");
    assert!(contains_chars(&hay, &chars_of("notes")));
    assert!(contains_chars(&hay, &chars_of("")));
    assert!(contains_chars(&hay, &chars_of("meeting notes")));
    assert!(!contains_chars(&hay, &chars_of("meeting notes!")));
    assert!(!contains_chars(&hay, &chars_of("nots")));
    assert!(contains_chars(&chars_of("été"), &chars_of("té")));
}

#[test]
fn notes_list_urls() {
    assert_eq!(
        fetch_notes_url("abc", None),
        "https://pdf-viewer-api.hhojin1864.workers.dev/api/notes?pdf_hash=abc"
    );
    assert_eq!(
        fetch_notes_url("abc", Some(12)),
        "https://pdf-viewer-api.hhojin1864.workers.dev/api/notes?pdf_hash=abc&page=12"
    );
}

#[test]
fn note_item_and_collection_urls() {
    assert_eq!(create_note_url(), format!("{}/notes", API_BASE));
    assert_eq!(
        note_url("n-1"),
        "https://pdf-viewer-api.hhojin1864.workers.dev/api/notes/n-1"
    );
}

#[test]
fn failure_messages() {
    assert_eq!(RequestFailure::FetchNotes.message("offline"), "Failed to fetch notes: offline");
    assert_eq!(RequestFailure::ParseNotes.message("x"), "Failed to parse notes: x");
    assert_eq!(RequestFailure::Serialize.message("x"), "Failed to serialize: x");
    assert_eq!(RequestFailure::CreateNote.message("x"), "Failed to create note: x");
    assert_eq!(RequestFailure::ParseResponse.message("x"), "Failed to parse response: x");
    assert_eq!(RequestFailure::UpdateNote.message("x"), "Failed to update note: x");
    assert_eq!(RequestFailure::DeleteNote.message("x"), "Failed to delete note: x");
}

#[test]
fn response_status_check() {
    assert_eq!(check_response(true, 200), Ok(()));
    assert_eq!(check_response(false, 404), Err("API error: 404".to_string()));
    assert_eq!(check_response(false, 500), Err("API error: 500".to_string()));
}
