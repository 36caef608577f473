use pdf_viewer::models::{Note, NoteColor};
use pdf_viewer::notes::{
    category_from_input, filter_notes, find_note, is_editing_note, note_display_text,
    format_date, note_preview, notes_on_page, place_note, remove_note, set_note_category, set_note_color,
    set_note_content, set_note_position,
};

fn note(id: &str, page: u32, color: NoteColor, category: Option<&str>, content: &str) -> Note {
    Note {
        id: id.to_string(),
        pdf_hash: "doc".to_string(),
        page_number: page,
        x_position_bits: 10.5f64.to_bits(),
        y_position_bits: 20.0f64.to_bits(),
        content: content.to_string(),
        color,
        category: category.map(|c| c.to_string()),
        created_at: "2024-01-01T00:00:00.000Z".to_string(),
        updated_at: "2024-01-01T00:00:00.000Z".to_string(),
    }
}

fn sample() -> Vec<Note> {
    vec![
        note("a", 1, NoteColor::Yellow, Some("Work"), "first"),
        note("b", 2, NoteColor::Blue, None, "second"),
        note("c", 1, NoteColor::Blue, Some("Homework"), ""),
        note("a", 3, NoteColor::Pink, Some("x"), "duplicate id"),
    ]
}

fn ids(notes: &[Note]) -> Vec<&str> {
    notes.iter().map(|n| n.id.as_str()).collect()
}

#[test]
fn find_first_note_with_id() {
    let notes = sample();
    assert_eq!(find_note(&notes, &"a".to_string()), Some(0));
    assert_eq!(find_note(&notes, &"c".to_string()), Some(2));
    assert_eq!(find_note(&notes, &"z".to_string()), None);
}

#[test]
fn content_edit_changes_first_match_only() {
    let mut notes = sample();
    set_note_content(&mut notes, &"a".to_string(), "edited".to_string());
    assert_eq!(notes[0].content, "edited");
    assert_eq!(notes[3].content, "duplicate id");
    let idx = find_note(&notes, &"a".to_string()).unwrap();
    assert_eq!(notes[idx].content, "edited");
    let mut untouched = sample();
    set_note_content(&mut untouched, &"zz".to_string(), "edited".to_string());
    assert_eq!(untouched, sample());
}

#[test]
fn color_and_position_edits() {
    let mut notes = sample();
    set_note_color(&mut notes, &"b".to_string(), NoteColor::Orange);
    assert_eq!(notes[1].color, NoteColor::Orange);
    set_note_position(&mut notes, &"c".to_string(), 1.25f64.to_bits(), 7.0f64.to_bits());
    assert_eq!(f64::from_bits(notes[2].x_position_bits), 1.25);
    assert_eq!(f64::from_bits(notes[2].y_position_bits), 7.0);
    assert_eq!(notes[0], sample()[0]);
}

#[test]
fn category_edits() {
    assert_eq!(category_from_input(String::new()), None);
    assert_eq!(category_from_input("Urgent".to_string()), Some("Urgent".to_string()));
    let mut notes = sample();
    set_note_category(&mut notes, &"b".to_string(), "Urgent".to_string());
    assert_eq!(notes[1].category, Some("Urgent".to_string()));
    set_note_category(&mut notes, &"a".to_string(), String::new());
    assert_eq!(notes[0].category, None);
}

#[test]
fn delete_removes_every_match() {
    let mut notes = sample();
    remove_note(&mut notes, &"a".to_string());
    assert_eq!(ids(&notes), vec!["b", "c"]);
    let mut same = sample();
    remove_note(&mut same, &"none".to_string());
    assert_eq!(same, sample());
}

#[test]
fn notes_of_a_page() {
    assert_eq!(ids(&notes_on_page(sample(), 1)), vec!["a", "c"]);
    assert_eq!(ids(&notes_on_page(sample(), 3)), vec!["a"]);
    assert!(notes_on_page(sample(), 9).is_empty());
}

#[test]
fn sidebar_filters() {
    assert_eq!(ids(&filter_notes(sample(), None, &String::new())), vec!["a", "b", "c", "a"]);
    assert_eq!(ids(&filter_notes(sample(), Some(NoteColor::Blue), &String::new())), vec!["b", "c"]);
    assert_eq!(ids(&filter_notes(sample(), None, &"WORK".to_string())), vec!["a", "c"]);
    assert_eq!(ids(&filter_notes(sample(), None, &"work".to_string())), vec!["a", "c"]);
    assert_eq!(ids(&filter_notes(sample(), Some(NoteColor::Blue), &"work".to_string())), vec!["c"]);
    assert!(filter_notes(sample(), None, &"missing".to_string()).is_empty());
}

#[test]
fn editing_marker() {
    assert!(is_editing_note(&Some("a".to_string()), &"a".to_string()));
    assert!(!is_editing_note(&Some("b".to_string()), &"a".to_string()));
    assert!(!is_editing_note(&None, &"a".to_string()));
}

#[test]
fn sticky_note_text() {
    assert_eq!(note_display_text(&String::new()), "Click to edit...");
    assert_eq!(note_display_text(&"hello".to_string()), "hello");
}

#[test]
fn sidebar_previews() {
    assert_eq!(note_preview(&String::new()), "(empty)");
    assert_eq!(note_preview(&"short".to_string()), "short");
    let fifty = "x".repeat(50);
    assert_eq!(note_preview(&fifty), fifty);
    let long = "y".repeat(60);
    assert_eq!(note_preview(&long), format!("{}...", "y".repeat(50)));
    let wide = format!("{}{}", "é".repeat(25), "tail");
    assert_eq!(note_preview(&wide), format!("{}...", "é".repeat(25)));
}

#[test]
fn place_note_in_note_mode() {
    let mut notes = sample();
    let mut note_mode = true;
    let id = place_note(
        &mut notes,
        &mut note_mode,
        "n-9".to_string(),
        "doc".to_string(),
        2,
        3.5f64.to_bits(),
        4.5f64.to_bits(),
        NoteColor::Green,
        "2024-05-01T10:00:00.000Z".to_string(),
    );
    assert_eq!(id, Some("n-9".to_string()));
    assert!(!note_mode);
    assert_eq!(notes.len(), 5);
    let n = notes.last().unwrap();
    assert_eq!(n.id, "n-9");
    assert_eq!(n.pdf_hash, "doc");
    assert_eq!(n.content, "");
    assert_eq!(n.category, None);
    assert_eq!(n.color, NoteColor::Green);
    assert_eq!(n.page_number, 2);
    assert_eq!(f64::from_bits(n.x_position_bits), 3.5);
    assert_eq!(f64::from_bits(n.y_position_bits), 4.5);
    assert_eq!(n.created_at, "2024-05-01T10:00:00.000Z");
    assert_eq!(n.updated_at, "2024-05-01T10:00:00.000Z");
    remove_note(&mut notes, &"n-9".to_string());
    assert_eq!(notes, sample());
}

#[test]
fn no_placement_outside_note_mode() {
    let mut notes = sample();
    let mut note_mode = false;
    let id = place_note(&mut notes, &mut note_mode, "n-9".to_string(), "doc".to_string(), 1, 0, 0, NoteColor::Yellow, "t".to_string());
    assert_eq!(id, None);
    assert!(!note_mode);
    assert_eq!(notes, sample());
}

#[test]
fn no_placement_without_document() {
    let mut notes = sample();
    let mut note_mode = true;
    let id = place_note(&mut notes, &mut note_mode, "n-9".to_string(), String::new(), 1, 0, 0, NoteColor::Yellow, "t".to_string());
    assert_eq!(id, None);
    assert!(note_mode);
    assert_eq!(notes, sample());
}

#[test]
fn sidebar_date_labels() {
    assert_eq!(format_date("2024-05-01T10:30:00.000Z"), "10_30_01_05_2024");
    assert_eq!(format_date("2024-05-01T10:30"), "10_30_01_05_2024");
    assert_eq!(format_date("2024-05-01"), "2024-05-01");
    assert_eq!(format_date(""), "");
}
