use pdf_viewer::viewer::{
    DragPhase,
    next_page, page_from_input, prev_page, should_render_page, url_document_hash, SaveRun,
};

#[test]
fn previous_page_stops_at_first() {
    assert_eq!(prev_page(5), 4);
    assert_eq!(prev_page(2), 1);
    assert_eq!(prev_page(1), 1);
    assert_eq!(prev_page(0), 0);
}

#[test]
fn next_page_stops_at_last() {
    assert_eq!(next_page(1, 3), 2);
    assert_eq!(next_page(3, 3), 3);
    assert_eq!(next_page(1, 0), 1);
}

#[test]
fn next_then_previous_returns() {
    for p in 1..10u32 {
        assert_eq!(prev_page(next_page(p, 10)), p);
    }
    for p in 2..=10u32 {
        assert_eq!(next_page(prev_page(p), 10), p);
    }
}

#[test]
fn typed_page_numbers() {
    assert_eq!(page_from_input("3", 10), Some(3));
    assert_eq!(page_from_input("10", 10), Some(10));
    assert_eq!(page_from_input("11", 10), None);
    assert_eq!(page_from_input("0", 10), None);
    assert_eq!(page_from_input("abc", 10), None);
    assert_eq!(page_from_input("", 10), None);
    assert_eq!(page_from_input("+4", 10), Some(4));
}

#[test]
fn page_rendering_condition() {
    assert!(should_render_page(1, true));
    assert!(!should_render_page(0, true));
    assert!(!should_render_page(3, false));
}

#[test]
fn documents_opened_from_addresses() {
    assert_eq!(url_document_hash("https://example.com/a.pdf"), Some("url:https://example.com/a.pdf".to_string()));
    assert_eq!(url_document_hash(""), None);
}

#[test]
fn save_with_nothing_to_save() {
    match SaveRun::start(0) {
        Err(m) => assert_eq!(m, "Nothing to save"),
        Ok(_) => panic!("a run over no notes"),
    }
}

#[test]
fn save_run_all_saved() {
    let mut run = SaveRun::start(2).ok().unwrap();
    assert_eq!(run.status(), "Saving...");
    run.record(true);
    assert!(!run.is_finished());
    assert_eq!(run.status(), "Saving...");
    run.record(true);
    assert!(run.is_finished());
    assert_eq!(run.failed(), 0);
    assert_eq!(run.status(), "Saved!");
}

#[test]
fn save_run_counts_failures() {
    let mut run = SaveRun::start(3).ok().unwrap();
    run.record(false);
    run.record(true);
    run.record(false);
    assert!(run.is_finished());
    assert_eq!(run.failed(), 2);
    assert_eq!(run.status(), "2 failed");
}

#[test]
fn click_ending_a_drag_is_swallowed() {
    let phase = DragPhase::Idle.press();
    assert!(phase.is_dragging());
    assert_eq!(phase.click(), (false, DragPhase::Dragging));
    let phase = phase.release();
    assert_eq!(phase, DragPhase::Released);
    assert!(!phase.is_dragging());
    let (opens, phase) = phase.click();
    assert!(!opens);
    assert_eq!(phase, DragPhase::Idle);
    assert_eq!(phase.click(), (true, DragPhase::Idle));
    assert_eq!(DragPhase::Idle.release(), DragPhase::Idle);
}

#[test]
fn new_press_forgets_a_lost_drag_click() {
    let phase = DragPhase::Idle.press().release();
    assert_eq!(phase, DragPhase::Released);
    let phase = phase.press_on_note();
    assert_eq!(phase, DragPhase::Idle);
    assert_eq!(phase.click(), (true, DragPhase::Idle));
    assert_eq!(DragPhase::Idle.press_on_note(), DragPhase::Idle);
    assert_eq!(DragPhase::Dragging.press_on_note(), DragPhase::Dragging);
}
