//! The decisions of the viewer's controls: moving between pages, reading a
//! typed page number, naming a document opened from an address, and the
//! run that saves every note to the notes service.

use vstd::prelude::*;

use crate::text::{decimal, decimal_text, parse_u32, parsed_u32};

verus! {

/// The page before `page`; the first page stays where it is.
pub open spec fn page_before(page: u32) -> u32 {
    if page > 1 {
        (page - 1) as u32
    } else {
        page
    }
}

/// The page after `page` in a document of `total` pages; the last page
/// stays where it is.
pub open spec fn page_after(page: u32, total: u32) -> u32 {
    if page < total {
        (page + 1) as u32
    } else {
        page
    }
}

/// The page the previous-page button leads to.
pub fn prev_page(page: u32) -> (p: u32)
    ensures
        p == page_before(page),
{
    if page > 1 {
        page - 1
    } else {
        page
    }
}

/// The page the next-page button leads to, in a document of `total` pages.
pub fn next_page(page: u32, total: u32) -> (p: u32)
    ensures
        p == page_after(page, total),
{
    if page < total {
        page + 1
    } else {
        page
    }
}

/// The page a typed page number selects: the number when it reads as a
/// `u32` between 1 and `total`; none otherwise, and the page stays.
pub open spec fn typed_page(text: Seq<char>, total: u32) -> Option<u32> {
    match parsed_u32(text) {
        Some(v) => if 1 <= v && v <= total {
            Some(v)
        } else {
            None
        },
        None => None,
    }
}

/// The page that the typed text `text` selects in a document of `total`
/// pages.
pub fn page_from_input(text: &str, total: u32) -> (page: Option<u32>)
    ensures
        page == typed_page(text@, total),
{
    match parse_u32(text) {
        Some(v) => if 1 <= v && v <= total {
            Some(v)
        } else {
            None
        },
        None => None,
    }
}

/// Whether the page `page` is drawn: a page has been chosen and a document
/// is loaded.
pub fn should_render_page(page: u32, loaded: bool) -> (r: bool)
    ensures
        r == (page > 0 && loaded),
{
    page > 0 && loaded
}

/// The name under which the notes of a document opened from an address
/// are kept.
pub open spec fn url_hash(url: Seq<char>) -> Seq<char> {
    "url:"@ + url
}

/// The name of the document at address `url`; none when no address was
/// typed, in which case nothing is opened.
pub fn url_document_hash(url: &str) -> (hash: Option<String>)
    ensures
        url@.len() == 0 ==> hash is None,
        url@.len() > 0 ==> (hash matches Some(h) && h@ == url_hash(url@)),
{
    if url.is_empty() {
        None
    } else {
        let mut h = String::from_str("url:");
        h.append(url);
        Some(h)
    }
}

/// Moving back or forward from a page of the document stays within the
/// document, and the first and last pages are where moving stops.
pub proof fn lemma_navigation_stays_in_document(page: u32, total: u32)
    requires
        1 <= page <= total,
    ensures
        1 <= page_before(page) <= total,
        1 <= page_after(page, total) <= total,
        page_before(1) == 1,
        page_after(total, total) == total,
{
}

/// Moving forward and then back, or back and then forward, returns to the
/// page one started from, away from the ends of the document.
pub proof fn lemma_prev_next_inverse(page: u32, total: u32)
    ensures
        1 <= page < total ==> page_before(page_after(page, total)) == page,
        1 < page <= total ==> page_after(page_before(page), total) == page,
{
}

/// Typing the number of a page of the document selects that page.
pub proof fn lemma_typed_page_number(page: u32, total: u32)
    requires
        1 <= page <= total,
    ensures
        typed_page(decimal(page as nat), total) == Some(page),
{
    crate::text::lemma_parse_decimal_roundtrip(page);
}

/// Where a drag of a sticky note by its header stands.
#[derive(Clone, Copy, Debug, PartialEq, Eq, Structural)]
pub enum DragPhase {
    /// No drag is going on.
    Idle,
    /// The mouse is held down on the header and the note follows it.
    Dragging,
    /// The mouse was just released; the click that ends the drag is still
    /// to come.
    Released,
}

/// The phase after the mouse is released.
pub open spec fn released(p: DragPhase) -> DragPhase {
    if p == DragPhase::Dragging {
        DragPhase::Released
    } else {
        p
    }
}

/// The phase after a new press lands on the note outside its header: a
/// released drag whose own click never reached the note is forgotten.
pub open spec fn pressed_on_note(p: DragPhase) -> DragPhase {
    if p == DragPhase::Released {
        DragPhase::Idle
    } else {
        p
    }
}

/// What a click on the note does in phase `p`: whether it opens the note's
/// editor, and the phase after it. Only a click outside any drag opens the
/// editor; the click that ends a drag is swallowed.
pub open spec fn click_outcome(p: DragPhase) -> (bool, DragPhase) {
    match p {
        DragPhase::Idle => (true, DragPhase::Idle),
        DragPhase::Dragging => (false, DragPhase::Dragging),
        DragPhase::Released => (false, DragPhase::Idle),
    }
}

impl DragPhase {
    /// The mouse is pressed on the header: a drag starts.
    pub fn press(self) -> (p: DragPhase)
        ensures
            p == DragPhase::Dragging,
    {
        DragPhase::Dragging
    }

    /// The mouse is released: a drag in progress ends.
    pub fn release(self) -> (p: DragPhase)
        ensures
            p == released(self),
    {
        match self {
            DragPhase::Dragging => DragPhase::Released,
            other => other,
        }
    }

    /// A new press lands on the note outside its header; the click that
    /// follows it belongs to that press, not to an earlier drag.
    pub fn press_on_note(self) -> (p: DragPhase)
        ensures
            p == pressed_on_note(self),
    {
        match self {
            DragPhase::Released => DragPhase::Idle,
            other => other,
        }
    }

    /// A click reaches the note: whether it opens the editor, and the phase
    /// after it.
    pub fn click(self) -> (r: (bool, DragPhase))
        ensures
            r == click_outcome(self),
    {
        match self {
            DragPhase::Idle => (true, DragPhase::Idle),
            DragPhase::Dragging => (false, DragPhase::Dragging),
            DragPhase::Released => (false, DragPhase::Idle),
        }
    }

    /// Whether the note is being dragged.
    pub fn is_dragging(self) -> (r: bool)
        ensures
            r == (self == DragPhase::Dragging),
    {
        match self {
            DragPhase::Dragging => true,
            _ => false,
        }
    }
}

/// The click that ends a drag does not open the editor; the click after it
/// does; and a click that follows a new press on the note opens the editor
/// whether or not the drag's own click ever arrived.
pub proof fn lemma_drag_end_click_swallowed()
    ensures
        !click_outcome(released(DragPhase::Dragging)).0,
        click_outcome(click_outcome(released(DragPhase::Dragging)).1).0,
        click_outcome(pressed_on_note(released(DragPhase::Dragging))).0,
        click_outcome(DragPhase::Idle).0,
        click_outcome(pressed_on_note(DragPhase::Idle)).0,
{
}

/// How far a save run has come.
pub struct SaveRunView {
    /// The notes to save.
    pub total: nat,
    /// The notes whose saving has ended.
    pub done: nat,
    /// The notes whose saving failed.
    pub failed: nat,
}

/// A run that saves the notes one after the other and counts the failures.
pub struct SaveRun {
    total: usize,
    done: usize,
    failed: usize,
}

/// A run in progress is sane: it saves at least one note, and no more notes
/// have failed than have ended, nor more ended than there are.
pub open spec fn run_ok(v: SaveRunView) -> bool {
    v.total > 0 && v.failed <= v.done <= v.total
}

/// The run once the saving of one more note ended, successfully or not.
pub open spec fn run_recorded(v: SaveRunView, saved: bool) -> SaveRunView {
    SaveRunView {
        total: v.total,
        done: v.done + 1,
        failed: if saved {
            v.failed
        } else {
            v.failed + 1
        },
    }
}

/// The status line of a run: `Saving...` while notes remain, `Saved!` when
/// every note was saved, and the number of failures otherwise.
pub open spec fn run_status(v: SaveRunView) -> Seq<char> {
    if v.done < v.total {
        "Saving..."@
    } else if v.failed == 0 {
        "Saved!"@
    } else {
        decimal(v.failed) + " failed"@
    }
}

/// The status line when there is nothing to save.
pub open spec fn nothing_to_save() -> Seq<char> {
    "Nothing to save"@
}

impl View for SaveRun {
    type V = SaveRunView;

    closed spec fn view(&self) -> SaveRunView {
        SaveRunView { total: self.total as nat, done: self.done as nat, failed: self.failed as nat }
    }
}

impl SaveRun {
    /// Starts saving `note_count` notes; with no note there is nothing to
    /// save, and the error is the status line that says so.
    pub fn start(note_count: usize) -> (r: Result<SaveRun, String>)
        ensures
            note_count == 0 ==> (r matches Err(m) && m@ == nothing_to_save()),
            note_count > 0 ==> (r matches Ok(run) && run@ == SaveRunView {
                total: note_count as nat,
                done: 0,
                failed: 0,
            }),
    {
        if note_count == 0 {
            Err(String::from_str("Nothing to save"))
        } else {
            Ok(SaveRun { total: note_count, done: 0, failed: 0 })
        }
    }

    /// Records that the saving of the next note ended; `saved` tells whether
    /// it succeeded.
    pub fn record(&mut self, saved: bool)
        requires
            run_ok(old(self)@),
            old(self)@.done < old(self)@.total,
        ensures
            final(self)@ == run_recorded(old(self)@, saved),
            run_ok(final(self)@),
    {
        self.done = self.done + 1;
        if !saved {
            self.failed = self.failed + 1;
        }
    }

    /// Whether every note has been dealt with.
    pub fn is_finished(&self) -> (r: bool)
        requires
            run_ok(self@),
        ensures
            r == (self@.done == self@.total),
    {
        self.done == self.total
    }

    /// The number of notes whose saving failed so far.
    pub fn failed(&self) -> (n: usize)
        ensures
            n == self@.failed,
    {
        self.failed
    }

    /// The status line of the run.
    pub fn status(&self) -> (s: String)
        requires
            run_ok(self@),
        ensures
            s@ == run_status(self@),
    {
        if self.done < self.total {
            String::from_str("Saving...")
        } else if self.failed == 0 {
            String::from_str("Saved!")
        } else {
            let mut s = decimal_text(self.failed as u64);
            s.append(" failed");
            s
        }
    }
}

/// The number of `false` outcomes.
pub open spec fn failures(outcomes: Seq<bool>) -> nat
    decreases outcomes.len(),
{
    if outcomes.len() == 0 {
        0
    } else {
        failures(outcomes.drop_last()) + if outcomes.last() {
            0nat
        } else {
            1nat
        }
    }
}

/// The run after the outcomes `outcomes`, in order.
pub open spec fn run_after(v: SaveRunView, outcomes: Seq<bool>) -> SaveRunView
    decreases outcomes.len(),
{
    if outcomes.len() == 0 {
        v
    } else {
        run_recorded(run_after(v, outcomes.drop_last()), outcomes.last())
    }
}

/// Saving every note of a list counts exactly the notes that failed, and
/// the run reports `Saved!` exactly when none failed.
pub proof fn lemma_save_run_counts_failures(total: nat, outcomes: Seq<bool>)
    requires
        total > 0,
        outcomes.len() == total,
    ensures
        run_after(SaveRunView { total: total, done: 0, failed: 0 }, outcomes) == (SaveRunView {
            total: total,
            done: total,
            failed: failures(outcomes),
        }),
        run_status(run_after(SaveRunView { total: total, done: 0, failed: 0 }, outcomes))
            == "Saved!"@ <==> failures(outcomes) == 0,
{
    lemma_run_after(SaveRunView { total: total, done: 0, failed: 0 }, outcomes);
    reveal_strlit("Saved!");
    let f = failures(outcomes);
    if f > 0 {
        crate::text::lemma_decimal_digits(f);
        let s = decimal(f) + " failed"@;
        assert(s.len() > "Saved!"@.len() || s[0] != 'S') by {
            reveal_strlit(" failed");
            assert(crate::text::is_digit(decimal(f)[0]));
            assert(s[0] == decimal(f)[0]);
        }
    }
}

/// Replaying outcomes advances the count of ended notes by their number
/// and the count of failures by their failures.
proof fn lemma_run_after(v: SaveRunView, outcomes: Seq<bool>)
    ensures
        run_after(v, outcomes) == (SaveRunView {
            total: v.total,
            done: v.done + outcomes.len(),
            failed: v.failed + failures(outcomes),
        }),
    decreases outcomes.len(),
{
    if outcomes.len() > 0 {
        lemma_run_after(v, outcomes.drop_last());
    }
}

} // verus!
