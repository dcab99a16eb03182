//! Behaviour of config loading.
//!
//! The TOML reader turns a file into its structure, a `Document`; what that
//! structure means is decided by `Config::from_document`. Each test here gives
//! the file as text and the structure the reader finds in it.

use footman::config::syntax_error;
use footman::{
    Action, Chord, Config, ConfigError, Document, Key, Loaded, Modifiers, RawBinding, Spanned,
    TapAction, Warning,
};

fn app(id: &str) -> Result<Action, String> {
    Ok(Action::App { id: id.to_string() })
}

fn binding(chord: &str, action: Result<Action, String>) -> RawBinding {
    RawBinding {
        chord: chord.to_string(),
        action,
    }
}

fn bindings_only(bindings: Vec<RawBinding>) -> Document {
    Document {
        hyper_key: None,
        hyper_tap: None,
        autostart: false,
        bindings,
    }
}

fn load(text: &str, document: Document) -> Result<Loaded, ConfigError> {
    Config::from_document(text, document)
}

#[test]
fn a_minimal_config_yields_its_binding() {
    let text = r#"
        [[binding]]
        chord  = "C"
        action = { type = "app", id = "aumid:Chrome" }
        "#;
    let loaded = load(text, bindings_only(vec![binding("C", app("aumid:Chrome"))]))
        .expect("valid config");

    assert_eq!(loaded.config.hyper, Key::CapsLock);
    assert_eq!(loaded.config.tap, TapAction::Nothing);
    assert_eq!(
        loaded.config.bindings.get(&Chord::key(Key::C)),
        Some(&Action::App {
            id: "aumid:Chrome".to_string()
        })
    );
    assert!(loaded.warnings.is_empty());
}

#[test]
fn malformed_toml_is_fatal_and_says_which_line() {
    let text = r#"
        [[binding]]
        chord  = "C"
        action = { type = "app"
        "#;
    let broken = text
        .parse::<toml::Table>()
        .expect_err("structurally broken file must not load");

    let error = syntax_error(
        text,
        broken.message().to_string(),
        broken.span().map(|span| span.start),
    );

    assert_eq!(error.line, Some(4), "the settings window shows this line");
}

#[test]
fn an_empty_file_loads_the_defaults() {
    let loaded = load("", bindings_only(vec![])).expect("an empty file is valid");

    assert_eq!(loaded.config.hyper, Key::CapsLock);
    assert_eq!(loaded.config.tap, TapAction::Nothing);
    assert_eq!(loaded.config.bindings.get(&Chord::key(Key::C)), None);
    assert_eq!(loaded.config, Config::default());
}

#[test]
fn a_binding_with_an_unusable_action_is_skipped_not_fatal() {
    let text = r#"
        [[binding]]
        chord  = "C"
        action = { type = "app", id = "aumid:Chrome" }

        [[binding]]
        chord  = "J"
        action = { type = "teleport" }
        "#;
    let loaded = load(
        text,
        bindings_only(vec![
            binding("C", app("aumid:Chrome")),
            binding(
                "J",
                Err("unknown variant `teleport`, expected one of `app`, `open`, `run`, `desktop`"
                    .to_string()),
            ),
        ]),
    )
    .expect("one unusable Binding must not sink the whole file");

    assert!(loaded.config.bindings.get(&Chord::key(Key::C)).is_some());
    assert!(loaded.config.bindings.get(&Chord::key(Key::J)).is_none());
    assert!(
        matches!(
            loaded.warnings.as_slice(),
            [Warning::UnusableAction { chord, .. }] if chord == "J"
        ),
        "expected one warning naming the skipped Chord, got {:?}",
        loaded.warnings
    );
}

#[test]
fn a_binding_with_an_unreadable_chord_is_skipped() {
    let text = r#"
        [[binding]]
        chord  = "Hyperspace"
        action = { type = "app", id = "aumid:Chrome" }
        "#;
    let loaded = load(
        text,
        bindings_only(vec![binding("Hyperspace", app("aumid:Chrome"))]),
    )
    .expect("an unreadable Chord must not sink the whole file");

    assert!(
        matches!(
            loaded.warnings.as_slice(),
            [Warning::UnreadableChord { chord }] if chord == "Hyperspace"
        ),
        "got {:?}",
        loaded.warnings
    );
}

#[test]
fn a_duplicate_chord_keeps_the_first_and_warns() {
    let text = r#"
        [[binding]]
        chord  = "C"
        action = { type = "app", id = "aumid:Chrome" }

        [[binding]]
        chord  = "C"
        action = { type = "app", id = "aumid:Mozilla.Firefox_n80bbvh6b1yt2!App" }
        "#;
    let loaded = load(
        text,
        bindings_only(vec![
            binding("C", app("aumid:Chrome")),
            binding("C", app("aumid:Mozilla.Firefox_n80bbvh6b1yt2!App")),
        ]),
    )
    .expect("a duplicate is a warning, not a failure");

    assert_eq!(
        loaded.config.bindings.get(&Chord::key(Key::C)),
        Some(&Action::App {
            id: "aumid:Chrome".to_string()
        }),
        "the first Binding wins; the second must never silently overwrite it"
    );
    assert!(
        matches!(
            loaded.warnings.as_slice(),
            [Warning::DuplicateChord { chord }] if chord == "C"
        ),
        "got {:?}",
        loaded.warnings
    );
}

#[test]
fn the_hyper_section_chooses_the_key_and_the_tap_action() {
    let text = r#"
        [hyper]
        key = "capslock"
        tap = "escape"

        [general]
        autostart = true
        "#;
    let loaded = load(
        text,
        Document {
            hyper_key: Some(Spanned {
                text: "capslock".to_string(),
                start: text.find("\"capslock\"").unwrap(),
            }),
            hyper_tap: Some("escape".to_string()),
            autostart: true,
            bindings: vec![],
        },
    )
    .expect("valid config");

    assert_eq!(loaded.config.hyper, Key::CapsLock);
    assert_eq!(loaded.config.tap, TapAction::Escape);
    assert!(loaded.config.autostart);
    assert!(loaded.warnings.is_empty());
}

#[test]
fn an_unreadable_hyper_key_is_fatal() {
    let text = r#"
        [hyper]
        key = "Hyperspace"
        "#;
    let error = load(
        text,
        Document {
            hyper_key: Some(Spanned {
                text: "Hyperspace".to_string(),
                start: text.find("\"Hyperspace\"").unwrap(),
            }),
            hyper_tap: None,
            autostart: false,
            bindings: vec![],
        },
    )
    .expect_err("Footman cannot run without a Hyper Key");

    assert_eq!(error.line, Some(3));
    assert_eq!(error.message, "unknown key `Hyperspace`");
}

#[test]
fn an_unreadable_tap_action_falls_back_to_none_with_a_warning() {
    let text = r#"
        [hyper]
        tap = "somersault"
        "#;
    let loaded = load(
        text,
        Document {
            hyper_key: None,
            hyper_tap: Some("somersault".to_string()),
            autostart: false,
            bindings: vec![],
        },
    )
    .expect("a bad Tap Action must not stop Footman running");

    assert_eq!(loaded.config.tap, TapAction::Nothing);
    assert!(
        matches!(
            loaded.warnings.as_slice(),
            [Warning::UnreadableTapAction { .. }]
        ),
        "got {:?}",
        loaded.warnings
    );
}

#[test]
fn letters_digits_function_keys_and_named_keys_all_parse() {
    let cases = [
        ("A", Key::A),
        ("z", Key::Z),
        ("0", Key::Digit0),
        ("9", Key::Digit9),
        ("F1", Key::F1),
        ("f24", Key::F24),
        ("Left", Key::Left),
        ("Space", Key::Space),
        ("Enter", Key::Enter),
        ("Escape", Key::Escape),
        ("CapsLock", Key::CapsLock),
    ];

    for (name, expected) in cases {
        assert_eq!(name.parse::<Key>(), Ok(expected), "parsing {name:?}");
    }
}

#[test]
fn punctuation_keys_are_not_bindable() {
    for name in ["Semicolon", ";", "BracketLeft", "Comma"] {
        assert!(name.parse::<Key>().is_err(), "{name:?} must not parse");
    }
}

#[test]
fn a_key_name_round_trips_through_display() {
    for name in ["A", "0", "F24", "Left", "CapsLock", "Space"] {
        let key: Key = name.parse().expect(name);
        assert_eq!(key.to_string().parse::<Key>(), Ok(key));
    }
}

#[test]
fn a_chord_reads_its_modifiers_in_any_order_or_case() {
    let expected = Chord::key(Key::C).with(Modifiers::shift().union(Modifiers::ctrl()));

    for text in ["Shift+Ctrl+C", "ctrl+shift+c", " Ctrl + Shift + C "] {
        assert_eq!(text.parse::<Chord>(), Ok(expected), "parsing {text:?}");
    }
}

#[test]
fn all_four_action_kinds_parse() {
    let text = r#"
        [[binding]]
        chord  = "C"
        action = { type = "app", id = "aumid:Chrome" }

        [[binding]]
        chord  = "G"
        action = { type = "open", target = "https://github.com" }

        [[binding]]
        chord  = "P"
        action = { type = "run", command = "pnpm dev", show_window = true }

        [[binding]]
        chord  = "1"
        action = { type = "desktop", index = 1 }
        "#;
    let loaded = load(
        text,
        bindings_only(vec![
            binding("C", app("aumid:Chrome")),
            binding(
                "G",
                Ok(Action::Open {
                    target: "https://github.com".to_string(),
                }),
            ),
            binding(
                "P",
                Ok(Action::Run {
                    command: "pnpm dev".to_string(),
                    show_window: true,
                }),
            ),
            binding("1", Ok(Action::Desktop { index: 1 })),
        ]),
    )
    .expect("valid config");

    let bindings = &loaded.config.bindings;
    assert_eq!(
        bindings.get(&Chord::key(Key::G)),
        Some(&Action::Open {
            target: "https://github.com".to_string()
        })
    );
    assert_eq!(
        bindings.get(&Chord::key(Key::P)),
        Some(&Action::Run {
            command: "pnpm dev".to_string(),
            show_window: true,
        })
    );
    assert_eq!(
        bindings.get(&Chord::key(Key::Digit1)),
        Some(&Action::Desktop { index: 1 })
    );
    assert!(loaded.warnings.is_empty());
}

#[test]
fn run_hides_its_console_by_default() {
    let text = r#"
        [[binding]]
        chord  = "P"
        action = { type = "run", command = "pnpm dev" }
        "#;
    let loaded = load(
        text,
        bindings_only(vec![binding(
            "P",
            Ok(Action::Run {
                command: "pnpm dev".to_string(),
                show_window: false,
            }),
        )]),
    )
    .expect("valid config");

    assert_eq!(
        loaded.config.bindings.get(&Chord::key(Key::P)),
        Some(&Action::Run {
            command: "pnpm dev".to_string(),
            show_window: false,
        })
    );
}

#[test]
fn desktop_zero_is_rejected_as_a_binding() {
    let text = r#"
        [[binding]]
        chord  = "1"
        action = { type = "desktop", index = 0 }
        "#;
    let loaded = load(
        text,
        bindings_only(vec![binding("1", Ok(Action::Desktop { index: 0 }))]),
    )
    .expect("a bad index is a skipped Binding, not a broken file");

    assert!(loaded
        .config
        .bindings
        .get(&Chord::key(Key::Digit1))
        .is_none());
    assert!(
        matches!(
            loaded.warnings.as_slice(),
            [Warning::UnusableAction { chord, reason }]
                if chord == "1" && reason == "desktops are numbered from 1"
        ),
        "got {:?}",
        loaded.warnings
    );
}

const FULL: &str = r#"
[hyper]
key = "capslock"
tap = "escape"

[general]
autostart = true

[[binding]]
chord  = "C"
action = { type = "app", id = "aumid:Chrome" }

[[binding]]
chord  = "Ctrl+Shift+G"
action = { type = "open", target = "https://github.com" }

[[binding]]
chord  = "P"
action = { type = "run", command = "pnpm dev" }

[[binding]]
chord  = "1"
action = { type = "desktop", index = 1 }
"#;

/// The structure the TOML reader finds in `FULL`.
fn full() -> Document {
    Document {
        hyper_key: Some(Spanned {
            text: "capslock".to_string(),
            start: FULL.find("\"capslock\"").unwrap(),
        }),
        hyper_tap: Some("escape".to_string()),
        autostart: true,
        bindings: vec![
            binding("C", app("aumid:Chrome")),
            binding(
                "Ctrl+Shift+G",
                Ok(Action::Open {
                    target: "https://github.com".to_string(),
                }),
            ),
            binding(
                "P",
                Ok(Action::Run {
                    command: "pnpm dev".to_string(),
                    show_window: false,
                }),
            ),
            binding("1", Ok(Action::Desktop { index: 1 })),
        ],
    }
}

/// The structure of the file a Config is written as, as the reader would find
/// it again.
fn reread(config: &Config) -> Document {
    let written = config.written();
    Document {
        hyper_key: Some(Spanned {
            text: written.hyper_key,
            start: 0,
        }),
        hyper_tap: Some(written.tap),
        autostart: written.autostart,
        bindings: written
            .bindings
            .into_iter()
            .map(|b| binding(&b.chord, Ok(b.action)))
            .collect(),
    }
}

#[test]
fn a_config_round_trips_through_the_file_it_writes() {
    let config = load(FULL, full()).expect("valid config").config;

    let reloaded = load("", reread(&config)).expect("what we write, we must be able to read");

    assert_eq!(reloaded.config, config);
    assert!(reloaded.warnings.is_empty(), "got {:?}", reloaded.warnings);
}

#[test]
fn the_written_file_has_a_stable_order() {
    let once = load(FULL, full()).unwrap().config.written();
    let twice = load(FULL, full()).unwrap().config.written();

    assert_eq!(once, twice);
    let chords: Vec<String> = once.bindings.iter().map(|b| b.chord.clone()).collect();
    assert_eq!(chords, vec!["C", "P", "1", "Ctrl+Shift+G"]);
    assert_eq!(once.hyper_key, "CapsLock");
    assert_eq!(once.tap, "escape");
}

/// The line reported for an offset is the 1-based line holding the byte at
/// it; an offset past the end is on the last line.
#[test]
fn lines_are_counted_from_one() {
    let text = "a\nb\nc";
    assert_eq!(syntax_error(text, String::new(), Some(0)).line, Some(1));
    assert_eq!(syntax_error(text, String::new(), Some(1)).line, Some(1));
    assert_eq!(syntax_error(text, String::new(), Some(2)).line, Some(2));
    assert_eq!(syntax_error(text, String::new(), Some(3)).line, Some(2));
    assert_eq!(syntax_error(text, String::new(), Some(4)).line, Some(3));
    assert_eq!(syntax_error(text, String::new(), Some(99)).line, Some(3));
    assert_eq!(syntax_error("", String::new(), Some(0)).line, Some(1));
    assert_eq!(syntax_error(text, String::new(), None).line, None);
}

#[test]
fn a_file_that_cannot_be_read_says_what_and_where() {
    let error = ConfigError::io("read", "/home/ada/.config/footman/config.toml", "denied");

    assert_eq!(
        error.message,
        "could not read /home/ada/.config/footman/config.toml: denied"
    );
    assert_eq!(error.line, None);
}

/// Tap Actions and modifiers read their names the same way keys do.
#[test]
fn tap_actions_and_modifiers_read_in_any_case() {
    assert_eq!("ESCAPE".parse::<TapAction>(), Ok(TapAction::Escape));
    assert_eq!("none".parse::<TapAction>(), Ok(TapAction::Nothing));
    assert!("somersault".parse::<TapAction>().is_err());
    assert_eq!("Ctrl".parse::<Modifiers>(), Ok(Modifiers::ctrl()));
    assert!("Hyper".parse::<Modifiers>().is_err());
    assert_eq!(TapAction::Escape.to_string(), "escape");
}
