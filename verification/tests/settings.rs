//! The settings window's form: a Config opened for editing, and what is wrong
//! with it before it is saved.

use footman::{Action, Chord, Config, Key, Problem, Settings, TapAction};

fn chrome() -> Action {
    Action::App {
        id: "aumid:Chrome".to_string(),
    }
}

fn chord(text: &str) -> Chord {
    text.parse().unwrap()
}

fn settings() -> Settings {
    Settings::from_config(Config::default())
}

#[test]
fn a_config_survives_a_trip_through_the_form() {
    let mut before = Config {
        hyper: Key::F13,
        tap: TapAction::Escape,
        autostart: true,
        ..Config::default()
    };
    before.bindings.add(chord("C"), chrome());

    let after = Settings::from_config(before.clone()).into_config();

    assert_eq!(after.hyper, before.hyper);
    assert_eq!(after.tap, before.tap);
    assert_eq!(after.autostart, before.autostart);
    assert_eq!(after.bindings.sorted(), before.bindings.sorted());
}

#[test]
fn two_rows_wanting_the_same_chord_are_reported() {
    let mut settings = settings();
    settings.add(chord("C"), chrome());
    settings.add(chord("C"), Action::Desktop { index: 2 });

    assert_eq!(
        settings.problems(),
        vec![Problem::DuplicateChord { row: 1 }],
        "the second row is the problem, not the first"
    );
}

#[test]
fn distinct_chords_are_no_problem() {
    let mut settings = settings();
    settings.add(chord("C"), chrome());
    settings.add(chord("Shift+C"), chrome());

    assert!(settings.problems().is_empty());
}

#[test]
fn an_action_with_nothing_in_it_is_reported() {
    let mut settings = settings();
    settings.add(
        chord("C"),
        Action::Open {
            target: String::new(),
        },
    );

    assert_eq!(settings.problems(), vec![Problem::EmptyAction { row: 0 }]);
}

#[test]
fn desktop_zero_is_reported() {
    let mut settings = settings();
    settings.add(chord("C"), Action::Desktop { index: 0 });

    assert_eq!(settings.problems(), vec![Problem::NoSuchDesktop { row: 0 }]);
}

#[test]
fn a_removed_row_is_gone() {
    let mut settings = settings();
    settings.add(chord("C"), chrome());
    settings.add(chord("J"), chrome());

    settings.remove(0);

    assert_eq!(settings.bindings.len(), 1);
    assert_eq!(settings.bindings[0].0, chord("J"));
}

#[test]
fn only_the_first_of_a_duplicated_chord_is_written() {
    let mut settings = settings();
    settings.add(chord("C"), chrome());
    settings.add(chord("C"), Action::Desktop { index: 2 });

    let written = settings.into_config();

    assert_eq!(written.bindings.sorted().len(), 1);
    assert_eq!(*written.bindings.sorted()[0].1, chrome());
}

#[test]
fn every_problem_is_reported_at_once() {
    let mut settings = settings();
    settings.add(chord("C"), Action::Desktop { index: 0 });
    settings.add(
        chord("J"),
        Action::Run {
            command: String::new(),
            show_window: false,
        },
    );
    settings.add(chord("J"), chrome());

    assert_eq!(
        settings.problems(),
        vec![
            Problem::NoSuchDesktop { row: 0 },
            Problem::EmptyAction { row: 1 },
            Problem::DuplicateChord { row: 2 },
        ]
    );
}

/// A command of nothing but whitespace is as empty as no command at all.
#[test]
fn a_command_of_only_spaces_is_empty() {
    let mut settings = settings();
    settings.add(
        chord("C"),
        Action::Run {
            command: "   ".to_string(),
            show_window: false,
        },
    );
    settings.add(
        chord("J"),
        Action::App {
            id: String::new(),
        },
    );

    assert_eq!(
        settings.problems(),
        vec![Problem::EmptyAction { row: 0 }, Problem::EmptyAction { row: 1 }]
    );
    assert_eq!(Problem::EmptyAction { row: 1 }.row(), 1);
}

/// A problem says what is wrong in words the form can show.
#[test]
fn every_problem_has_its_own_message() {
    let messages = [
        Problem::DuplicateChord { row: 0 }.message(),
        Problem::EmptyAction { row: 0 }.message(),
        Problem::NoSuchDesktop { row: 0 }.message(),
    ];
    assert!(messages.iter().all(|m| !m.is_empty()));
    assert_ne!(messages[0], messages[1]);
    assert_ne!(messages[1], messages[2]);
    assert_ne!(messages[0], messages[2]);
}
