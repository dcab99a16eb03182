//! Reading a Chord from a key the user pressed in the settings window.

use footman::windows::{capture, key_named, kind_of, Capture};
use footman::{Action, Chord, Key, Modifiers};

#[test]
fn names_that_already_agree_are_taken_as_they_are() {
    assert_eq!(key_named("A"), Some(Key::A));
    assert_eq!(key_named("F7"), Some(Key::F7));
    assert_eq!(key_named("Escape"), Some(Key::Escape));
    assert_eq!(key_named("PageDown"), Some(Key::PageDown));
}

#[test]
fn the_arrows_are_translated() {
    assert_eq!(key_named("ArrowLeft"), Some(Key::Left));
    assert_eq!(key_named("ArrowRight"), Some(Key::Right));
    assert_eq!(key_named("ArrowUp"), Some(Key::Up));
    assert_eq!(key_named("ArrowDown"), Some(Key::Down));
}

#[test]
fn the_digits_are_translated() {
    assert_eq!(key_named("Num0"), Some(Key::Digit0));
    assert_eq!(key_named("Num7"), Some(Key::Digit7));
}

#[test]
fn a_key_footman_does_not_name_is_refused() {
    assert_eq!(key_named("Semicolon"), None);
    assert_eq!(key_named("Backslash"), None);
    assert_eq!(key_named(""), None);
    assert_eq!(key_named("Num"), None);
}

/// Escape abandons recording rather than being recorded.
#[test]
fn escape_cancels_recording() {
    assert_eq!(capture("Escape", false, false, false), Capture::Cancel);
    assert_eq!(capture("Escape", true, true, false), Capture::Cancel);
}

/// The key is recorded under exactly the modifiers held with it.
#[test]
fn a_pressed_key_is_recorded_with_its_modifiers() {
    assert_eq!(
        capture("ArrowLeft", true, false, true),
        Capture::Recorded(Chord::key(Key::Left).with(Modifiers::shift().union(Modifiers::alt())))
    );
    assert_eq!(
        capture("Num3", false, true, false),
        Capture::Recorded(Chord::key(Key::Digit3).with(Modifiers::ctrl()))
    );
    assert_eq!(capture("C", false, false, false), Capture::Recorded(Chord::key(Key::C)));
}

#[test]
fn a_key_without_a_name_is_explained() {
    assert_eq!(
        capture("Semicolon", false, false, false),
        Capture::Unnamed("Footman has no name for Semicolon".to_string())
    );
}

#[test]
fn every_kind_of_action_is_named() {
    assert_eq!(kind_of(&Action::App { id: String::new() }), "app");
    assert_eq!(kind_of(&Action::Open { target: String::new() }), "open");
    assert_eq!(
        kind_of(&Action::Run {
            command: String::new(),
            show_window: false
        }),
        "run"
    );
    assert_eq!(kind_of(&Action::Desktop { index: 1 }), "desktop");
}
