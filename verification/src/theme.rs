//! The light and dark themes, and how a theme is written to and read back
//! from the browser's storage.

use vstd::prelude::*;

verus! {

/// The look of the viewer.
#[derive(Clone, Copy, Debug, PartialEq, Eq, Structural)]
pub enum Theme {
    Light,
    Dark,
}

/// The name of a theme, as the page's `data-theme` attribute and the
/// stored setting carry it.
pub open spec fn theme_name(t: Theme) -> Seq<char> {
    match t {
        Theme::Light => "light"@,
        Theme::Dark => "dark"@,
    }
}

/// The other theme.
pub open spec fn other_theme(t: Theme) -> Theme {
    match t {
        Theme::Light => Theme::Dark,
        Theme::Dark => Theme::Light,
    }
}

/// The theme a stored setting selects: dark only when the stored text is
/// `dark`; light when it is anything else or when nothing could be read.
pub open spec fn stored_theme(stored: Option<Seq<char>>) -> Theme {
    match stored {
        Some(s) => if s == "dark"@ {
            Theme::Dark
        } else {
            Theme::Light
        },
        None => Theme::Light,
    }
}

/// The icon of the button that switches themes: a moon while the theme is
/// light, a sun while it is dark.
pub open spec fn theme_icon(t: Theme) -> Seq<char> {
    match t {
        Theme::Light => "\u{1F319}"@,
        Theme::Dark => "\u{2600}\u{FE0F}"@,
    }
}

impl Theme {
    /// The name of this theme.
    pub fn as_str(&self) -> (s: &'static str)
        ensures
            s@ == theme_name(*self),
    {
        match self {
            Theme::Light => "light",
            Theme::Dark => "dark",
        }
    }

    /// The other theme.
    pub fn toggle(&self) -> (t: Theme)
        ensures
            t == other_theme(*self),
    {
        match self {
            Theme::Light => Theme::Dark,
            Theme::Dark => Theme::Light,
        }
    }

    /// The icon of the theme button while this theme is shown.
    pub fn toggle_icon(&self) -> (s: &'static str)
        ensures
            s@ == theme_icon(*self),
    {
        match self {
            Theme::Light => "\u{1F319}",
            Theme::Dark => "\u{2600}\u{FE0F}",
        }
    }
}

/// The storage key under which the theme is kept.
pub fn theme_key() -> (s: &'static str)
    ensures
        s@ == "pdf-viewer-theme"@,
{
    "pdf-viewer-theme"
}

/// The theme that a stored setting selects; `stored` is what reading the
/// setting gave, or nothing when it could not be read.
pub fn theme_from_stored(stored: &Option<String>) -> (t: Theme)
    ensures
        t == stored_theme(
            match stored {
                Some(s) => Some(s@),
                None => None,
            },
        ),
{
    match stored {
        Some(s) => {
            let dark = String::from_str("dark");
            if *s == dark {
                Theme::Dark
            } else {
                Theme::Light
            }
        },
        None => Theme::Light,
    }
}

/// Switching the theme twice gives back the theme, and switching always
/// changes it.
pub proof fn lemma_toggle_involution(t: Theme)
    ensures
        other_theme(other_theme(t)) == t,
        other_theme(t) != t,
{
}

/// A theme written to storage under its name is read back as the same theme.
pub proof fn lemma_stored_theme_roundtrip(t: Theme)
    ensures
        stored_theme(Some(theme_name(t))) == t,
{
    reveal_strlit("light");
    reveal_strlit("dark");
    assert("light"@ != "dark"@) by {
        assert("light"@.len() != "dark"@.len());
    }
}

} // verus!
