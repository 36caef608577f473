//! The list of notes of the open document, and every edit the viewer makes
//! to it: placing a note, changing its text, colour, category or position,
//! deleting it, and choosing which notes a page or the sidebar shows.

use vstd::prelude::*;

use crate::models::{Note, NoteColor, NoteView};
use crate::text::{
    ascii_lower, chars_of, contains_chars, contains_text, is_ascii_capital, lowercase_text,
    text_lowercase,
};
use vstd::utf8::is_ascii_chars;
use vstd::string::StringSliceAdditionalSpecFns;
use vstd::utf8::{decode_utf8, encode_utf8, is_char_boundary, valid_utf8};

verus! {

/// Keeps, in order, the notes for which `keep` holds.
fn retain_notes<F: Fn(&Note) -> bool>(
    notes: &mut Vec<Note>,
    keep: F,
    Ghost(pred): Ghost<spec_fn(Note) -> bool>,
)
    requires
        forall|n: &Note| #[trigger] keep.requires((n,)),
        forall|n: &Note, r: bool| keep.ensures((n,), r) ==> r == pred(*n),
    ensures
        final(notes)@ == old(notes)@.filter(pred),
{
    let ghost orig = notes@;
    let mut i: usize = 0;
    let ghost mut j: int = 0;
    while i < notes.len()
        invariant
            forall|n: &Note| #[trigger] keep.requires((n,)),
            forall|n: &Note, r: bool| keep.ensures((n,), r) ==> r == pred(*n),
            0 <= i <= j <= orig.len(),
            i <= notes@.len(),
            notes@.take(i as int) == orig.take(j).filter(pred),
            notes@.skip(i as int) == orig.skip(j),
            notes@.len() - i == orig.len() - j,
        decreases notes@.len() - i,
    {
        proof {
            assert(notes@.skip(i as int)[0] == orig.skip(j)[0]);
            assert(orig.take(j + 1) =~= orig.take(j).push(orig[j]));
            orig.take(j).lemma_filter_push(orig[j], pred);
        }
        let k = keep(&notes[i]);
        if k {
            assert(notes@.take(i + 1) =~= notes@.take(i as int).push(notes@[i as int]));
            assert(notes@.skip(i + 1) =~= notes@.skip(i as int).drop_first());
            assert(orig.skip(j + 1) =~= orig.skip(j).drop_first());
            i = i + 1;
        } else {
            let ghost before = notes@;
            notes.remove(i);
            assert(notes@.take(i as int) =~= before.take(i as int));
            assert(notes@.skip(i as int) =~= before.skip(i as int).drop_first());
            assert(orig.skip(j + 1) =~= orig.skip(j).drop_first());
        }
        proof {
            j = j + 1;
        }
    }
    assert(notes@.skip(i as int).len() == 0);
    assert(j == orig.len());
    assert(orig.take(j) =~= orig);
    assert(notes@.take(i as int) =~= notes@);
}

/// The condition that a note's identifier differs from `id`.
pub open spec fn other_than(id: Seq<char>) -> spec_fn(Note) -> bool {
    |n: Note| n.id@ != id
}

/// The notes that remain once the notes with identifier `id` are deleted.
pub open spec fn without_note(notes: Seq<Note>, id: Seq<char>) -> Seq<Note> {
    notes.filter(other_than(id))
}

/// Deletes every note whose identifier is `id`, keeping the others in order.
pub fn remove_note(notes: &mut Vec<Note>, id: &String)
    ensures
        final(notes)@ == without_note(old(notes)@, id@),
{
    let ghost pred = other_than(id@);
    let other = |n: &Note| -> (r: bool)
        ensures
            r == (n.id@ != id@),
        { !(n.id == *id) };
    retain_notes(notes, other, Ghost(pred));
}

/// The position of the first note with identifier `id`, or -1 when no note
/// has it.
pub open spec fn note_position(notes: Seq<Note>, id: Seq<char>) -> int
    decreases notes.len(),
{
    if notes.len() == 0 {
        -1
    } else {
        let p = note_position(notes.drop_last(), id);
        if p >= 0 {
            p
        } else if notes.last().id@ == id {
            notes.len() - 1
        } else {
            -1
        }
    }
}

/// Some note has identifier `id`.
pub open spec fn has_note(notes: Seq<Note>, id: Seq<char>) -> bool {
    exists|i: int| 0 <= i < notes.len() && #[trigger] notes[i].id@ == id
}

/// `note_position` names the first note with the identifier, and is -1
/// exactly when there is none.
pub proof fn lemma_note_position(notes: Seq<Note>, id: Seq<char>)
    ensures
        -1 <= note_position(notes, id) < notes.len(),
        note_position(notes, id) >= 0 ==> notes[note_position(notes, id)].id@ == id,
        forall|j: int| 0 <= j < note_position(notes, id) ==> #[trigger] notes[j].id@ != id,
        note_position(notes, id) < 0 <==> !has_note(notes, id),
    decreases notes.len(),
{
    if notes.len() > 0 {
        let init = notes.drop_last();
        lemma_note_position(init, id);
        let p = note_position(init, id);
        assert forall|j: int| 0 <= j < init.len() implies init[j] == notes[j] by {}
        if p >= 0 {
            assert(init[p] == notes[p]);
            assert forall|j: int| 0 <= j < p implies #[trigger] notes[j].id@ != id by {
                assert(init[j] == notes[j]);
                assert(init[j].id@ != id);
            }
        } else {
            assert forall|j: int| 0 <= j < init.len() implies #[trigger] notes[j].id@ != id by {
                assert(init[j] == notes[j]);
                assert(!has_note(init, id));
                assert(init[j].id@ != id);
            }
            if !(notes.last().id@ == id) {
                assert forall|i: int| 0 <= i < notes.len() implies #[trigger] notes[i].id@ != id by {
                    if i < init.len() {
                    } else {
                        assert(notes[i] == notes.last());
                    }
                }
            } else {
                assert(notes[notes.len() - 1] == notes.last());
            }
        }
    }
}

/// Finds the first note with identifier `id`.
pub fn find_note(notes: &Vec<Note>, id: &String) -> (found: Option<usize>)
    ensures
        match found {
            Some(i) => i < notes@.len() && i == note_position(notes@, id@),
            None => note_position(notes@, id@) < 0,
        },
{
    let mut i: usize = 0;
    while i < notes.len()
        invariant
            i <= notes@.len(),
            note_position(notes@.take(i as int), id@) == -1,
        decreases notes@.len() - i,
    {
        assert(notes@.take(i + 1).drop_last() =~= notes@.take(i as int));
        if notes[i].id == *id {
            assert(note_position(notes@.take(i + 1), id@) == i);
            proof {
                lemma_position_of_prefix(notes@, id@, i + 1);
            }
            return Some(i);
        }
        i = i + 1;
    }
    assert(notes@.take(i as int) =~= notes@);
    None
}

/// Once the first note with the identifier lies within a prefix, it is the
/// first one in the whole list too.
proof fn lemma_position_of_prefix(notes: Seq<Note>, id: Seq<char>, k: int)
    requires
        0 <= k <= notes.len(),
        note_position(notes.take(k), id) >= 0,
    ensures
        note_position(notes, id) == note_position(notes.take(k), id),
    decreases notes.len() - k,
{
    if k < notes.len() {
        assert(notes.take(k + 1).drop_last() =~= notes.take(k));
        lemma_position_of_prefix(notes, id, k + 1);
    } else {
        assert(notes.take(k) =~= notes);
    }
}

/// `n` with its text replaced by `content`.
pub open spec fn with_content(n: Note, content: String) -> Note {
    Note { content: content, ..n }
}

/// `n` painted in `color`.
pub open spec fn with_color(n: Note, color: NoteColor) -> Note {
    Note { color: color, ..n }
}

/// `n` filed under `category`.
pub open spec fn with_category(n: Note, category: Option<String>) -> Note {
    Note { category: category, ..n }
}

/// `n` moved to the position with bit patterns `x` and `y`.
pub open spec fn with_position(n: Note, x: u64, y: u64) -> Note {
    Note { x_position_bits: x, y_position_bits: y, ..n }
}

/// The list once the first note with identifier `id` has been replaced by
/// `changed`; unchanged when no note has that identifier.
pub open spec fn edit_first(notes: Seq<Note>, id: Seq<char>, changed: Note) -> Seq<Note> {
    let p = note_position(notes, id);
    if p >= 0 {
        notes.update(p, changed)
    } else {
        notes
    }
}

/// Replaces the text of the first note with identifier `id`.
pub fn set_note_content(notes: &mut Vec<Note>, id: &String, content: String)
    ensures
        final(notes)@ == edit_first(
            old(notes)@,
            id@,
            with_content(old(notes)@[note_position(old(notes)@, id@)], content),
        ),
{
    match find_note(notes, id) {
        Some(i) => {
            notes[i].content = content;
        },
        None => {},
    }
}

/// Repaints the first note with identifier `id`.
pub fn set_note_color(notes: &mut Vec<Note>, id: &String, color: NoteColor)
    ensures
        final(notes)@ == edit_first(
            old(notes)@,
            id@,
            with_color(old(notes)@[note_position(old(notes)@, id@)], color),
        ),
{
    match find_note(notes, id) {
        Some(i) => {
            notes[i].color = color;
        },
        None => {},
    }
}

/// The category that the typed text `value` gives: none when the text is
/// empty, the text otherwise.
pub open spec fn category_of_input(value: String) -> Option<String> {
    if value@.len() == 0 {
        None
    } else {
        Some(value)
    }
}

/// The category that the typed text `value` gives.
pub fn category_from_input(value: String) -> (category: Option<String>)
    ensures
        category == category_of_input(value),
{
    if value.as_str().is_empty() {
        None
    } else {
        Some(value)
    }
}

/// Files the first note with identifier `id` under the typed category
/// `value`; an empty text clears the category.
pub fn set_note_category(notes: &mut Vec<Note>, id: &String, value: String)
    ensures
        final(notes)@ == edit_first(
            old(notes)@,
            id@,
            with_category(old(notes)@[note_position(old(notes)@, id@)], category_of_input(value)),
        ),
{
    match find_note(notes, id) {
        Some(i) => {
            notes[i].category = category_from_input(value);
        },
        None => {},
    }
}

/// Moves the first note with identifier `id` to the position whose
/// coordinates have the bit patterns `x` and `y`.
pub fn set_note_position(notes: &mut Vec<Note>, id: &String, x: u64, y: u64)
    ensures
        final(notes)@ == edit_first(
            old(notes)@,
            id@,
            with_position(old(notes)@[note_position(old(notes)@, id@)], x, y),
        ),
{
    match find_note(notes, id) {
        Some(i) => {
            notes[i].x_position_bits = x;
            notes[i].y_position_bits = y;
        },
        None => {},
    }
}

/// The notes of a list that lie on page `page`, in order.
pub open spec fn on_page(notes: Seq<Note>, page: u32) -> Seq<Note> {
    notes.filter(|n: Note| n.page_number == page)
}

/// The notes that lie on page `page`, in order.
pub fn notes_on_page(notes: Vec<Note>, page: u32) -> (shown: Vec<Note>)
    ensures
        shown@ == on_page(notes@, page),
{
    let mut shown = notes;
    let ghost pred = |n: Note| n.page_number == page;
    let same_page = |n: &Note| -> (r: bool)
        ensures
            r == (n.page_number == page),
        { n.page_number == page };
    retain_notes(&mut shown, same_page, Ghost(pred));
    shown
}

/// Whether the sidebar lists note `n` under a colour filter and a typed
/// category filter: the colour must match when one is chosen, and when the
/// category filter is not empty the note must have a category whose lower
/// case holds the lower case of the filter.
pub open spec fn shown_in_sidebar(
    n: Note,
    color: Option<NoteColor>,
    category_filter: Seq<char>,
) -> bool {
    &&& match color {
        Some(c) => n.color == c,
        None => true,
    }
    &&& category_filter.len() > 0 ==> match n.category {
        Some(cat) => contains_text(text_lowercase(cat@), text_lowercase(category_filter)),
        None => false,
    }
}

/// The notes that the sidebar lists under the given filters, in order.
pub fn filter_notes(notes: Vec<Note>, color: Option<NoteColor>, category_filter: &String) -> (shown:
    Vec<Note>)
    ensures
        shown@ == notes@.filter(|n: Note| shown_in_sidebar(n, color, category_filter@)),
{
    let mut shown = notes;
    let ghost pred = |n: Note| shown_in_sidebar(n, color, category_filter@);
    let filtering = !category_filter.as_str().is_empty();
    let wanted = chars_of(lowercase_text(category_filter.as_str()).as_str());
    let listed = |n: &Note| -> (r: bool)
        ensures
            r == shown_in_sidebar(*n, color, category_filter@),
        {
            let color_ok = match color {
                Some(c) => n.color == c,
                None => true,
            };
            if !color_ok {
                false
            } else if filtering {
                match &n.category {
                    Some(cat) => {
                        let have = chars_of(lowercase_text(cat.as_str()).as_str());
                        contains_chars(&have, &wanted)
                    },
                    None => false,
                }
            } else {
                true
            }
        };
    retain_notes(&mut shown, listed, Ghost(pred));
    shown
}

/// ASCII characters `a` and `b` are the same letter up to case, or the same
/// character: a capital letter and the character 32 code points above it
/// count as one.
pub open spec fn same_ignoring_case(a: char, b: char) -> bool {
    ||| a == b
    ||| is_ascii_capital(a) && b as int == a as int + 32
    ||| is_ascii_capital(b) && a as int == b as int + 32
}

/// Characters that are equal up to case have the same lower-case form.
proof fn lemma_same_ignoring_case(a: char, b: char)
    requires
        same_ignoring_case(a, b),
    ensures
        ascii_lower(a) == ascii_lower(b),
{
    if is_ascii_capital(a) && b as int == a as int + 32 {
        crate::text::lemma_ascii_lowercase(seq![a]);
        assert(text_lowercase(seq![a])[0] == ascii_lower(a));
    } else if is_ascii_capital(b) && a as int == b as int + 32 {
        crate::text::lemma_ascii_lowercase(seq![b]);
        assert(text_lowercase(seq![b])[0] == ascii_lower(b));
    }
}

/// With no colour chosen, the sidebar lists a note whose ASCII category
/// holds the typed ASCII filter at some place, letter for letter up to
/// case: `Client Work` is listed under `work`, `WORK` or `Work`.
pub proof fn lemma_sidebar_lists_category_match(n: Note, filter: Seq<char>, at: int)
    requires
        n.category is Some,
        is_ascii_chars(n.category->0@),
        is_ascii_chars(filter),
        0 <= at,
        at + filter.len() <= n.category->0@.len(),
        forall|j: int|
            0 <= j < filter.len() ==> same_ignoring_case(
                #[trigger] n.category->0@[at + j],
                filter[j],
            ),
    ensures
        shown_in_sidebar(n, None, filter),
{
    let cat = n.category->0@;
    let lc = text_lowercase(cat);
    let lf = text_lowercase(filter);
    crate::text::lemma_ascii_lowercase(cat);
    crate::text::lemma_ascii_lowercase(filter);
    assert forall|j: int| 0 <= j < filter.len() implies lc.subrange(at, at + filter.len())[j]
        == lf[j] by {
        lemma_same_ignoring_case(cat[at + j], filter[j]);
        assert(lc[at + j] == ascii_lower(cat[at + j]));
        assert(lf[j] == ascii_lower(filter[j]));
    }
    assert(lc.subrange(at, at + filter.len()) =~= lf);
    assert(contains_text(lc, lf));
}

/// Whether the note with identifier `id` is the one being edited.
pub fn is_editing_note(editing: &Option<String>, id: &String) -> (r: bool)
    ensures
        r == (match editing {
            Some(e) => e@ == id@,
            None => false,
        }),
{
    match editing {
        Some(e) => *e == *id,
        None => false,
    }
}

/// The text a sticky note shows: its content, or an invitation to write
/// when it is empty.
pub open spec fn display_text(content: Seq<char>) -> Seq<char> {
    if content.len() == 0 {
        "Click to edit..."@
    } else {
        content
    }
}

/// The text a sticky note shows.
pub fn note_display_text(content: &String) -> (r: String)
    ensures
        r@ == display_text(content@),
{
    if content.as_str().is_empty() {
        String::from_str("Click to edit...")
    } else {
        content.clone()
    }
}

/// The text the sidebar shows for a note: `(empty)` for an empty note; the
/// first 50 bytes of the UTF-8 text followed by `...` when it is longer;
/// the text itself otherwise.
pub open spec fn preview_text(content: Seq<char>) -> Seq<char> {
    if content.len() == 0 {
        "(empty)"@
    } else if encode_utf8(content).len() > 50 {
        decode_utf8(encode_utf8(content).take(50)) + "..."@
    } else {
        content
    }
}

/// The text the sidebar shows for a note. A text longer than 50 bytes must
/// have a character boundary at byte 50 (cutting inside a character is
/// refused, as slicing the text there would be); its length in bytes fits
/// in memory.
pub fn note_preview(content: &String) -> (r: String)
    requires
        encode_utf8(content@).len() <= usize::MAX,
        encode_utf8(content@).len() <= 50 || is_char_boundary(encode_utf8(content@), 50),
    ensures
        r@ == preview_text(content@),
{
    let s = content.as_str();
    if s.is_empty() {
        String::from_str("(empty)")
    } else if s.len() > 50 {
        let (head, _rest) = s.split_at(50);
        let mut r = head.to_owned();
        r.append("...");
        proof {
            vstd::utf8::encode_utf8_decode_utf8(head@);
            assert(encode_utf8(content@).take(50) =~= encode_utf8(content@).subrange(0, 50));
        }
        r
    } else {
        content.clone()
    }
}

/// An edit that keeps the identifier leaves the edited note where it was
/// found: looking the identifier up afterwards finds the edited note, and
/// every other note is as before.
pub proof fn lemma_edit_first_keeps_position(notes: Seq<Note>, id: Seq<char>, changed: Note)
    requires
        changed.id@ == id,
    ensures
        note_position(edit_first(notes, id, changed), id) == note_position(notes, id),
        edit_first(notes, id, changed).len() == notes.len(),
        note_position(notes, id) >= 0 ==> edit_first(notes, id, changed)[note_position(
            notes,
            id,
        )] == changed,
        forall|j: int|
            0 <= j < notes.len() && j != note_position(notes, id) ==> #[trigger] edit_first(
                notes,
                id,
                changed,
            )[j] == notes[j],
{
    let after = edit_first(notes, id, changed);
    lemma_note_position(notes, id);
    lemma_note_position(after, id);
    let p = note_position(notes, id);
    let q = note_position(after, id);
    if p >= 0 {
        assert(after == notes.update(p, changed));
        assert(after[p].id@ == id);
        assert(has_note(after, id));
        assert(q >= 0);
        if q < p {
            assert(after[q] == notes[q]);
            assert(notes[q].id@ != id);
            assert(false);
        }
        if q > p {
            assert(after[p].id@ != id);
            assert(false);
        }
    } else {
        assert(after == notes);
    }
}

/// Text written into a note is what reading that note back gives.
pub proof fn lemma_content_read_after_write(notes: Seq<Note>, id: Seq<char>, content: String)
    requires
        has_note(notes, id),
    ensures
        ({
            let after = edit_first(
                notes,
                id,
                with_content(notes[note_position(notes, id)], content),
            );
            &&& has_note(after, id)
            &&& after[note_position(after, id)].content == content
            &&& after.len() == notes.len()
        }),
{
    lemma_note_position(notes, id);
    let changed = with_content(notes[note_position(notes, id)], content);
    lemma_edit_first_keeps_position(notes, id, changed);
    lemma_note_position(edit_first(notes, id, changed), id);
}

/// Moving a note puts it at exactly the given position and changes nothing
/// else about it: looking the note up afterwards finds it at the same place
/// with the new coordinates and its own identifier, text, colour, category,
/// page and document.
pub proof fn lemma_move_note(notes: Seq<Note>, id: Seq<char>, x: u64, y: u64)
    requires
        has_note(notes, id),
    ensures
        ({
            let p = note_position(notes, id);
            let after = edit_first(notes, id, with_position(notes[p], x, y));
            &&& after.len() == notes.len()
            &&& note_position(after, id) == p
            &&& after[p].x_position_bits == x
            &&& after[p].y_position_bits == y
            &&& after[p].id == notes[p].id
            &&& after[p].content == notes[p].content
            &&& after[p].color == notes[p].color
            &&& after[p].category == notes[p].category
            &&& after[p].page_number == notes[p].page_number
            &&& after[p].pdf_hash == notes[p].pdf_hash
        }),
{
    lemma_note_position(notes, id);
    let p = note_position(notes, id);
    lemma_edit_first_keeps_position(notes, id, with_position(notes[p], x, y));
}

/// Repainting a note gives it exactly the chosen colour, whatever it holds,
/// and changes nothing else about it.
pub proof fn lemma_repaint_note(notes: Seq<Note>, id: Seq<char>, color: NoteColor)
    requires
        has_note(notes, id),
    ensures
        ({
            let p = note_position(notes, id);
            let after = edit_first(notes, id, with_color(notes[p], color));
            &&& after.len() == notes.len()
            &&& note_position(after, id) == p
            &&& after[p].color == color
            &&& after[p].id == notes[p].id
            &&& after[p].content == notes[p].content
            &&& after[p].category == notes[p].category
            &&& after[p].x_position_bits == notes[p].x_position_bits
            &&& after[p].y_position_bits == notes[p].y_position_bits
            &&& after[p].page_number == notes[p].page_number
        }),
{
    lemma_note_position(notes, id);
    let p = note_position(notes, id);
    lemma_edit_first_keeps_position(notes, id, with_color(notes[p], color));
}

/// Filing a note under typed text files it under that text, or under no
/// category when the text is empty, and changes nothing else about it.
pub proof fn lemma_file_note(notes: Seq<Note>, id: Seq<char>, value: String)
    requires
        has_note(notes, id),
    ensures
        ({
            let p = note_position(notes, id);
            let after = edit_first(notes, id, with_category(notes[p], category_of_input(value)));
            &&& after.len() == notes.len()
            &&& note_position(after, id) == p
            &&& (value@.len() == 0 ==> after[p].category is None)
            &&& (value@.len() > 0 ==> after[p].category == Some(value))
            &&& after[p].id == notes[p].id
            &&& after[p].content == notes[p].content
            &&& after[p].color == notes[p].color
            &&& after[p].x_position_bits == notes[p].x_position_bits
            &&& after[p].y_position_bits == notes[p].y_position_bits
        }),
{
    lemma_note_position(notes, id);
    let p = note_position(notes, id);
    lemma_edit_first_keeps_position(notes, id, with_category(notes[p], category_of_input(value)));
}

/// Deleting a note leaves no note with its identifier, keeps every other
/// note, and changes nothing when no note had the identifier.
pub proof fn lemma_remove_note(notes: Seq<Note>, id: Seq<char>)
    ensures
        !has_note(without_note(notes, id), id),
        forall|i: int|
            0 <= i < notes.len() && notes[i].id@ != id ==> without_note(notes, id).contains(
                #[trigger] notes[i],
            ),
        !has_note(notes, id) ==> without_note(notes, id) == notes,
        without_note(notes, id).len() <= notes.len(),
    decreases notes.len(),
{
    let pred = other_than(id);
    broadcast use vstd::seq_lib::group_filter_ensures;

    let r = without_note(notes, id);
    assert forall|i: int| 0 <= i < r.len() implies #[trigger] r[i].id@ != id by {
        assert(pred(r[i]));
    }
    assert forall|i: int|
        0 <= i < notes.len() && notes[i].id@ != id implies r.contains(#[trigger] notes[i]) by {
        assert(pred(notes[i]));
    }
    if !has_note(notes, id) {
        assert forall|i: int| 0 <= i < notes.len() implies pred(#[trigger] notes[i]) by {
            assert(notes[i].id@ != id);
        }
        lemma_filter_keeps_all(notes, pred);
    }
}

/// Filtering with a condition that every element meets keeps the sequence.
proof fn lemma_filter_keeps_all(s: Seq<Note>, pred: spec_fn(Note) -> bool)
    requires
        forall|i: int| 0 <= i < s.len() ==> pred(#[trigger] s[i]),
    ensures
        s.filter(pred) == s,
    decreases s.len(),
{
    reveal(Seq::filter);
    if s.len() > 0 {
        let init = s.drop_last();
        assert forall|i: int| 0 <= i < init.len() implies pred(#[trigger] init[i]) by {
            assert(init[i] == s[i]);
        }
        lemma_filter_keeps_all(init, pred);
        assert(init.push(s.last()) =~= s);
    }
}

/// Placing a note with a fresh identifier and then deleting it gives back
/// the notes as they were.
pub proof fn lemma_place_then_remove(notes: Seq<Note>, placed: Note)
    requires
        !has_note(notes, placed.id@),
    ensures
        without_note(notes.push(placed), placed.id@) == notes,
{
    let pred = other_than(placed.id@);
    notes.lemma_filter_push(placed, pred);
    lemma_remove_note(notes, placed.id@);
}

/// The notes shown for a page all lie on that page, and every note of that
/// page is shown.
pub proof fn lemma_on_page(notes: Seq<Note>, page: u32)
    ensures
        forall|i: int|
            0 <= i < on_page(notes, page).len() ==> (#[trigger] on_page(notes, page)[i]).page_number
                == page,
        forall|i: int|
            0 <= i < notes.len() && notes[i].page_number == page ==> on_page(notes, page).contains(
                #[trigger] notes[i],
            ),
{
    let pred = |n: Note| n.page_number == page;
    broadcast use vstd::seq_lib::group_filter_ensures;

    assert forall|i: int| 0 <= i < on_page(notes, page).len() implies (#[trigger] on_page(
        notes,
        page,
    )[i]).page_number == page by {
        assert(pred(on_page(notes, page)[i]));
    }
    assert forall|i: int|
        0 <= i < notes.len() && notes[i].page_number == page implies on_page(notes, page).contains(
        #[trigger] notes[i],
    ) by {
        assert(pred(notes[i]));
    }
}

/// With no colour chosen and no category typed, the sidebar lists every
/// note.
pub proof fn lemma_sidebar_without_filters(notes: Seq<Note>)
    ensures
        notes.filter(|n: Note| shown_in_sidebar(n, None, Seq::empty())) == notes,
{
    let pred = |n: Note| shown_in_sidebar(n, None, Seq::empty());
    assert forall|i: int| 0 <= i < notes.len() implies pred(#[trigger] notes[i]) by {}
    lemma_filter_keeps_all(notes, pred);
}

/// The bytes of `s` from `from` to `to`, both character boundaries.
fn byte_range<'a>(s: &'a str, from: usize, to: usize) -> (r: &'a str)
    requires
        from <= to <= s.spec_bytes().len(),
        is_char_boundary(s.spec_bytes(), from as int),
        is_char_boundary(s.spec_bytes(), to as int),
    ensures
        r.spec_bytes() == s.spec_bytes().subrange(from as int, to as int),
{
    let ghost bytes = s.spec_bytes();
    let (_head, rest) = s.split_at(from);
    proof {
        vstd::utf8::encode_utf8_valid_utf8(s@);
        vstd::utf8::valid_utf8_split(bytes, from as int);
        let tail = bytes.subrange(from as int, bytes.len() as int);
        assert(rest.spec_bytes() == tail);
        assert(valid_utf8(tail));
        let k = to - from;
        if to == bytes.len() {
            vstd::utf8::is_char_boundary_start_end_of_seq(tail);
        } else {
            vstd::utf8::is_char_boundary_iff_not_is_continuation_byte(bytes, to as int);
            vstd::utf8::is_char_boundary_iff_not_is_continuation_byte(tail, k as int);
            assert(tail[k as int] == bytes[to as int]);
        }
    }
    let (mid, _rest) = rest.split_at(to - from);
    assert(mid.spec_bytes() =~= bytes.subrange(from as int, to as int));
    mid
}

/// The text of the bytes of `b` from `from` to `to`.
pub open spec fn bytes_text(b: Seq<u8>, from: int, to: int) -> Seq<char> {
    decode_utf8(b.subrange(from, to))
}

/// The date label the sidebar shows for a timestamp such as
/// `2024-05-01T10:30:00Z`: hours, minutes, day, month and year joined by
/// `_`, taken from bytes 11-13, 14-16, 8-10, 5-7 and 0-4; a text shorter
/// than 16 bytes is shown as it is.
pub open spec fn date_label(iso: Seq<char>) -> Seq<char> {
    let b = encode_utf8(iso);
    if b.len() < 16 {
        iso
    } else {
        bytes_text(b, 11, 13) + "_"@ + bytes_text(b, 14, 16) + "_"@ + bytes_text(b, 8, 10) + "_"@
            + bytes_text(b, 5, 7) + "_"@ + bytes_text(b, 0, 4)
    }
}

/// The cut points of a timestamp lie between characters.
pub open spec fn date_cuts_ok(iso: Seq<char>) -> bool {
    let b = encode_utf8(iso);
    b.len() >= 16 ==> {
        &&& is_char_boundary(b, 4)
        &&& is_char_boundary(b, 5)
        &&& is_char_boundary(b, 7)
        &&& is_char_boundary(b, 8)
        &&& is_char_boundary(b, 10)
        &&& is_char_boundary(b, 11)
        &&& is_char_boundary(b, 13)
        &&& is_char_boundary(b, 14)
        &&& is_char_boundary(b, 16)
    }
}

/// The date label of the timestamp `iso`. Every cut point must lie
/// between characters (cutting inside a character is refused, as slicing
/// the text there would be); its length in bytes fits in memory.
pub fn format_date(iso: &str) -> (r: String)
    requires
        encode_utf8(iso@).len() <= usize::MAX,
        date_cuts_ok(iso@),
    ensures
        r@ == date_label(iso@),
{
    if iso.len() < 16 {
        return iso.to_owned();
    }
    proof {
        vstd::utf8::encode_utf8_valid_utf8(iso@);
        vstd::utf8::is_char_boundary_start_end_of_seq(iso.spec_bytes());
    }
    let hours = byte_range(iso, 11, 13);
    let minutes = byte_range(iso, 14, 16);
    let day = byte_range(iso, 8, 10);
    let month = byte_range(iso, 5, 7);
    let year = byte_range(iso, 0, 4);
    proof {
        vstd::utf8::encode_utf8_decode_utf8(hours@);
        vstd::utf8::encode_utf8_decode_utf8(minutes@);
        vstd::utf8::encode_utf8_decode_utf8(day@);
        vstd::utf8::encode_utf8_decode_utf8(month@);
        vstd::utf8::encode_utf8_decode_utf8(year@);
    }
    let mut r = hours.to_owned();
    r.append("_");
    r.append(minutes);
    r.append("_");
    r.append(day);
    r.append("_");
    r.append(month);
    r.append("_");
    r.append(year);
    r
}

/// In ASCII text, the text of a byte range is the same range of characters.
proof fn lemma_ascii_bytes_text(iso: Seq<char>, from: int, to: int)
    requires
        is_ascii_chars(iso),
        0 <= from <= to <= iso.len(),
    ensures
        bytes_text(encode_utf8(iso), from, to) == iso.subrange(from, to),
{
    let part = iso.subrange(from, to);
    let b = encode_utf8(iso);
    vstd::utf8::is_ascii_chars_encode_utf8(iso);
    assert(is_ascii_chars(part)) by {
        assert forall|k: int| 0 <= k < part.len() implies '\0' <= #[trigger] part[k] <= '\u{7f}' by {
            assert(part[k] == iso[from + k]);
        }
    }
    vstd::utf8::is_ascii_chars_encode_utf8(part);
    assert(encode_utf8(part) =~= b.subrange(from, to)) by {
        assert forall|k: int| 0 <= k < part.len() implies encode_utf8(part)[k] == b.subrange(
            from,
            to,
        )[k] by {
            assert(part[k] == iso[from + k]);
            assert(encode_utf8(part)[k] == part[k] as u8);
            assert(b[from + k] == iso[from + k] as u8);
        }
    }
    vstd::utf8::encode_utf8_decode_utf8(part);
}

/// The label of an ASCII timestamp of at least 16 characters is 16
/// characters long: the hours (characters 11 and 12), `_`, the minutes (14
/// and 15), `_`, the day (8 and 9), `_`, the month (5 and 6), `_`, and the
/// year (0 to 3).
pub proof fn lemma_date_label_fields(iso: Seq<char>)
    requires
        is_ascii_chars(iso),
        iso.len() >= 16,
    ensures
        date_label(iso).len() == 16,
        date_label(iso)[0] == iso[11] && date_label(iso)[1] == iso[12],
        date_label(iso)[3] == iso[14] && date_label(iso)[4] == iso[15],
        date_label(iso)[6] == iso[8] && date_label(iso)[7] == iso[9],
        date_label(iso)[9] == iso[5] && date_label(iso)[10] == iso[6],
        date_label(iso).subrange(12, 16) == iso.subrange(0, 4),
        date_label(iso)[2] == '_' && date_label(iso)[5] == '_' && date_label(iso)[8] == '_'
            && date_label(iso)[11] == '_',
{
    vstd::utf8::is_ascii_chars_encode_utf8(iso);
    lemma_ascii_bytes_text(iso, 11, 13);
    lemma_ascii_bytes_text(iso, 14, 16);
    lemma_ascii_bytes_text(iso, 8, 10);
    lemma_ascii_bytes_text(iso, 5, 7);
    lemma_ascii_bytes_text(iso, 0, 4);
    reveal_strlit("_");
    let l = date_label(iso);
    assert(l =~= iso.subrange(11, 13) + seq!['_'] + iso.subrange(14, 16) + seq!['_']
        + iso.subrange(8, 10) + seq!['_'] + iso.subrange(5, 7) + seq!['_'] + iso.subrange(0, 4));
    assert(l.subrange(12, 16) =~= iso.subrange(0, 4));
}

/// The note placed at a spot with identifier `id`: empty, without category, created and last
/// changed at `now`.
pub open spec fn placed_note(
    id: Seq<char>,
    pdf_hash: Seq<char>,
    page_number: u32,
    x: u64,
    y: u64,
    color: NoteColor,
    now: Seq<char>,
) -> NoteView {
    NoteView {
        id: id,
        pdf_hash: pdf_hash,
        page_number: page_number,
        x_position_bits: x,
        y_position_bits: y,
        content: Seq::empty(),
        color: color,
        category: None,
        created_at: now,
        updated_at: now,
    }
}

/// The note placed at a spot carries exactly what it was placed with: it
/// sits at the clicked coordinates, has the given identifier, document,
/// page and colour, is empty and without category, and was created and
/// last changed at `now`.
pub proof fn lemma_placed_note_fields(
    id: Seq<char>,
    pdf_hash: Seq<char>,
    page_number: u32,
    x: u64,
    y: u64,
    color: NoteColor,
    now: Seq<char>,
)
    ensures
        ({
            let v = placed_note(id, pdf_hash, page_number, x, y, color, now);
            &&& v.x_position_bits == x
            &&& v.y_position_bits == y
            &&& v.id == id
            &&& v.pdf_hash == pdf_hash
            &&& v.page_number == page_number
            &&& v.color == color
            &&& v.content.len() == 0
            &&& v.category is None
            &&& v.created_at == now
            &&& v.updated_at == now
        }),
{
}

/// Places a new note with identifier `id` on page `page_number` of the
/// document `pdf_hash`, at the position with coordinate bit patterns `x`
/// and `y`, in `color`, at time `now`, and returns its identifier. A note
/// is placed only while note mode is on and a document is open (`pdf_hash`
/// is not empty); placing it turns note mode off. Otherwise nothing
/// changes.
pub fn place_note(
    notes: &mut Vec<Note>,
    note_mode: &mut bool,
    id: String,
    pdf_hash: String,
    page_number: u32,
    x: u64,
    y: u64,
    color: NoteColor,
    now: String,
) -> (placed: Option<String>)
    ensures
        placed is Some <==> (*old(note_mode) && pdf_hash@.len() > 0),
        placed is None ==> final(notes)@ == old(notes)@ && *final(note_mode) == *old(note_mode),
        placed is Some ==> {
            &&& placed == Some(id)
            &&& !*final(note_mode)
            &&& final(notes)@.len() == old(notes)@.len() + 1
            &&& final(notes)@.take(old(notes)@.len() as int) == old(notes)@
            &&& final(notes)@.last()@ == placed_note(
                id@,
                pdf_hash@,
                page_number,
                x,
                y,
                color,
                now@,
            )
        },
{
    if !*note_mode || pdf_hash.as_str().is_empty() {
        return None;
    }
    let note = Note {
        id: id.clone(),
        pdf_hash: pdf_hash,
        page_number: page_number,
        x_position_bits: x,
        y_position_bits: y,
        content: String::new(),
        color: color,
        category: None,
        created_at: now.clone(),
        updated_at: now,
    };
    let ghost before = notes@;
    notes.push(note);
    assert(notes@.take(before.len() as int) =~= before);
    *note_mode = false;
    Some(id)
}

} // verus!
