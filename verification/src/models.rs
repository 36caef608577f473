//! The notes that are pinned to pages, and the five colours a note can have.

use vstd::prelude::*;

verus! {

/// The colour of a sticky note.
#[derive(Clone, Copy, Debug, PartialEq, Eq, Structural)]
pub enum NoteColor {
    Yellow,
    Blue,
    Green,
    Pink,
    Orange,
}

/// The lower-case name of a colour, as the notes service stores it.
pub open spec fn color_name(c: NoteColor) -> Seq<char> {
    match c {
        NoteColor::Yellow => "yellow"@,
        NoteColor::Blue => "blue"@,
        NoteColor::Green => "green"@,
        NoteColor::Pink => "pink"@,
        NoteColor::Orange => "orange"@,
    }
}

/// The CSS hex colour a note of colour `c` is painted with.
pub open spec fn color_css(c: NoteColor) -> Seq<char> {
    match c {
        NoteColor::Yellow => "#fef08a"@,
        NoteColor::Blue => "#93c5fd"@,
        NoteColor::Green => "#86efac"@,
        NoteColor::Pink => "#f9a8d4"@,
        NoteColor::Orange => "#fdba74"@,
    }
}

/// Every colour, in the order the colour pickers show them.
pub open spec fn all_colors() -> Seq<NoteColor> {
    seq![
        NoteColor::Yellow,
        NoteColor::Blue,
        NoteColor::Green,
        NoteColor::Pink,
        NoteColor::Orange,
    ]
}

impl NoteColor {
    /// The lower-case name of this colour.
    pub fn as_str(&self) -> (s: &'static str)
        ensures
            s@ == color_name(*self),
    {
        match self {
            NoteColor::Yellow => "yellow",
            NoteColor::Blue => "blue",
            NoteColor::Green => "green",
            NoteColor::Pink => "pink",
            NoteColor::Orange => "orange",
        }
    }

    /// The CSS hex colour of this colour.
    pub fn css_color(&self) -> (s: &'static str)
        ensures
            s@ == color_css(*self),
    {
        match self {
            NoteColor::Yellow => "#fef08a",
            NoteColor::Blue => "#93c5fd",
            NoteColor::Green => "#86efac",
            NoteColor::Pink => "#f9a8d4",
            NoteColor::Orange => "#fdba74",
        }
    }

    /// Every colour, in picker order.
    pub fn all() -> (colors: &'static [NoteColor])
        ensures
            colors@ == all_colors(),
    {
        &[NoteColor::Yellow, NoteColor::Blue, NoteColor::Green, NoteColor::Pink, NoteColor::Orange]
    }

    /// The name of this colour as text, as displaying it writes it.
    pub fn to_string(&self) -> (s: String)
        ensures
            s@ == color_name(*self),
    {
        String::from_str(self.as_str())
    }
}

/// Distinct colours have distinct names, so a stored name tells the colour.
pub proof fn lemma_color_name_injective(a: NoteColor, b: NoteColor)
    requires
        color_name(a) == color_name(b),
    ensures
        a == b,
{
    reveal_strlit("yellow");
    reveal_strlit("blue");
    reveal_strlit("green");
    reveal_strlit("pink");
    reveal_strlit("orange");
    assert("yellow"@[0] == 'y' && "blue"@[0] == 'b' && "green"@[0] == 'g' && "pink"@[0] == 'p'
        && "orange"@[0] == 'o');
    assert(color_name(a)[0] == color_name(b)[0]);
}

/// Distinct colours are painted differently.
pub proof fn lemma_color_css_injective(a: NoteColor, b: NoteColor)
    requires
        color_css(a) == color_css(b),
    ensures
        a == b,
{
    reveal_strlit("#fef08a");
    reveal_strlit("#93c5fd");
    reveal_strlit("#86efac");
    reveal_strlit("#f9a8d4");
    reveal_strlit("#fdba74");
    assert("#fef08a"@[1] == 'f' && "#93c5fd"@[1] == '9' && "#86efac"@[1] == '8'
        && "#f9a8d4"@[1] == 'f' && "#fdba74"@[1] == 'f');
    assert("#fef08a"@[2] == 'e' && "#f9a8d4"@[2] == '9' && "#fdba74"@[2] == 'd');
    assert(color_css(a)[1] == color_css(b)[1] && color_css(a)[2] == color_css(b)[2]);
}

/// The picker list holds every colour exactly once.
pub proof fn lemma_all_colors_complete(c: NoteColor)
    ensures
        all_colors().contains(c),
        forall|i: int, j: int|
            0 <= i < j < all_colors().len() ==> all_colors()[i] != all_colors()[j],
        all_colors().len() == 5,
{
    let s = all_colors();
    match c {
        NoteColor::Yellow => assert(s[0] == c),
        NoteColor::Blue => assert(s[1] == c),
        NoteColor::Green => assert(s[2] == c),
        NoteColor::Pink => assert(s[3] == c),
        NoteColor::Orange => assert(s[4] == c),
    }
}

/// A sticky note pinned to a page of a document.
///
/// The position is kept as the IEEE-754 bit patterns of the pixel
/// coordinates within the page area, so that it is carried through
/// unchanged.
#[derive(Clone, Debug, PartialEq)]
pub struct Note {
    pub id: String,
    pub pdf_hash: String,
    pub page_number: u32,
    pub x_position_bits: u64,
    pub y_position_bits: u64,
    pub content: String,
    pub color: NoteColor,
    pub category: Option<String>,
    pub created_at: String,
    pub updated_at: String,
}

/// What a note holds, as plain values.
pub struct NoteView {
    pub id: Seq<char>,
    pub pdf_hash: Seq<char>,
    pub page_number: u32,
    pub x_position_bits: u64,
    pub y_position_bits: u64,
    pub content: Seq<char>,
    pub color: NoteColor,
    pub category: Option<Seq<char>>,
    pub created_at: Seq<char>,
    pub updated_at: Seq<char>,
}

/// The text of an optional string.
pub open spec fn opt_text(s: Option<String>) -> Option<Seq<char>> {
    match s {
        Some(t) => Some(t@),
        None => None,
    }
}

impl View for Note {
    type V = NoteView;

    open spec fn view(&self) -> NoteView {
        NoteView {
            id: self.id@,
            pdf_hash: self.pdf_hash@,
            page_number: self.page_number,
            x_position_bits: self.x_position_bits,
            y_position_bits: self.y_position_bits,
            content: self.content@,
            color: self.color,
            category: opt_text(self.category),
            created_at: self.created_at@,
            updated_at: self.updated_at@,
        }
    }
}

} // verus!
