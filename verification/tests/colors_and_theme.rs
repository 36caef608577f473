use pdf_viewer::models::NoteColor;
use pdf_viewer::theme::{theme_from_stored, theme_key, Theme};

#[test]
fn color_names_are_lowercase() {
    assert_eq!(NoteColor::Yellow.as_str(), "yellow");
    assert_eq!(NoteColor::Blue.as_str(), "blue");
    assert_eq!(NoteColor::Green.as_str(), "green");
    assert_eq!(NoteColor::Pink.as_str(), "pink");
    assert_eq!(NoteColor::Orange.as_str(), "orange");
}

#[test]
fn color_css_values() {
    assert_eq!(NoteColor::Yellow.css_color(), "#fef08a");
    assert_eq!(NoteColor::Blue.css_color(), "#93c5fd");
    assert_eq!(NoteColor::Green.css_color(), "#86efac");
    assert_eq!(NoteColor::Pink.css_color(), "#f9a8d4");
    assert_eq!(NoteColor::Orange.css_color(), "#fdba74");
}

#[test]
fn all_colors_in_picker_order() {
    let all = NoteColor::all();
    assert_eq!(
        all,
        &[NoteColor::Yellow, NoteColor::Blue, NoteColor::Green, NoteColor::Pink, NoteColor::Orange]
    );
    for (i, a) in all.iter().enumerate() {
        for b in all.iter().skip(i + 1) {
            assert_ne!(a, b);
            assert_ne!(a.as_str(), b.as_str());
            assert_ne!(a.css_color(), b.css_color());
        }
    }
}

#[test]
fn color_to_string_is_its_name() {
    assert_eq!(NoteColor::Pink.to_string(), "pink");
    assert_eq!(NoteColor::Orange.to_string(), "orange");
}

#[test]
fn theme_names_and_toggle() {
    assert_eq!(Theme::Light.as_str(), "light");
    assert_eq!(Theme::Dark.as_str(), "dark");
    assert_eq!(Theme::Light.toggle(), Theme::Dark);
    assert_eq!(Theme::Dark.toggle(), Theme::Light);
    assert_eq!(Theme::Light.toggle().toggle(), Theme::Light);
    assert_eq!(Theme::Dark.toggle().toggle(), Theme::Dark);
}

#[test]
fn theme_icons() {
    assert_eq!(Theme::Light.toggle_icon(), "\u{1F319}");
    assert_eq!(Theme::Dark.toggle_icon(), "\u{2600}\u{FE0F}");
}

#[test]
fn stored_theme_roundtrip() {
    for t in [Theme::Light, Theme::Dark] {
        assert_eq!(theme_from_stored(&Some(t.as_str().to_string())), t);
    }
}

#[test]
fn stored_theme_defaults_to_light() {
    assert_eq!(theme_from_stored(&None), Theme::Light);
    assert_eq!(theme_from_stored(&Some("light".to_string())), Theme::Light);
    assert_eq!(theme_from_stored(&Some("Dark".to_string())), Theme::Light);
    assert_eq!(theme_from_stored(&Some("".to_string())), Theme::Light);
    assert_eq!(theme_from_stored(&Some("dark".to_string())), Theme::Dark);
}

#[test]
fn theme_storage_key() {
    assert_eq!(theme_key(), "pdf-viewer-theme");
}
