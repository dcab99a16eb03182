//! Behaviour of the Core: abstract key events in, a Verdict and perhaps an
//! Effect out.

use footman::{Action, BindingTable, Chord, Core, Effect, Key, KeyEvent, TapAction, Verdict};

fn plain() -> Core {
    Core::new(Key::CapsLock, TapAction::Nothing, BindingTable::empty())
}

fn chrome() -> Action {
    Action::App {
        id: "aumid:Chrome".to_string(),
    }
}

fn bound_c() -> Core {
    Core::new(
        Key::CapsLock,
        TapAction::Nothing,
        BindingTable::from_pairs(vec![(Chord::key(Key::C), chrome())]),
    )
}

#[test]
fn ordinary_keys_pass_when_hyper_is_not_held() {
    let mut core = plain();

    let outcome = core.on_event(KeyEvent::Down(Key::C));

    assert_eq!(outcome.verdict, Verdict::Pass);
    assert!(outcome.effect.is_none());
}

#[test]
fn the_hyper_key_itself_is_suppressed() {
    let mut core = plain();

    let outcome = core.on_event(KeyEvent::Down(Key::CapsLock));

    assert_eq!(outcome.verdict, Verdict::Suppress);
}

#[test]
fn a_bound_chord_is_suppressed_and_fires_its_action() {
    let mut core = bound_c();

    core.on_event(KeyEvent::Down(Key::CapsLock));
    let outcome = core.on_event(KeyEvent::Down(Key::C));

    assert_eq!(outcome.verdict, Verdict::Suppress);
    assert_eq!(outcome.effect, Some(Effect::Run(chrome())));
}

#[test]
fn an_unbound_key_under_hyper_is_suppressed_and_does_nothing() {
    let mut core = bound_c();

    core.on_event(KeyEvent::Down(Key::CapsLock));
    let outcome = core.on_event(KeyEvent::Down(Key::J));

    assert_eq!(outcome.verdict, Verdict::Suppress);
    assert!(outcome.effect.is_none());
}

#[test]
fn holding_a_bound_key_fires_exactly_once() {
    let mut core = bound_c();

    core.on_event(KeyEvent::Down(Key::CapsLock));

    let first = core.on_event(KeyEvent::Down(Key::C));
    let repeats: Vec<_> = (0..30)
        .map(|_| core.on_event(KeyEvent::Down(Key::C)))
        .collect();

    assert_eq!(first.effect, Some(Effect::Run(chrome())));
    assert!(
        repeats.iter().all(|o| o.effect.is_none()),
        "auto-repeat must not re-fire the Action"
    );
    assert!(
        repeats.iter().all(|o| o.verdict == Verdict::Suppress),
        "repeats are still swallowed"
    );
}

#[test]
fn releasing_and_pressing_again_fires_again() {
    let mut core = bound_c();

    core.on_event(KeyEvent::Down(Key::CapsLock));
    core.on_event(KeyEvent::Down(Key::C));
    core.on_event(KeyEvent::Up(Key::C));
    let second = core.on_event(KeyEvent::Down(Key::C));

    assert_eq!(second.effect, Some(Effect::Run(chrome())));
}

/// Hyper pressed and released with nothing in between is a tap, and the Tap
/// Action is what it produces.
#[test]
fn a_bare_tap_of_hyper_fires_the_tap_action() {
    let mut core = Core::new(Key::CapsLock, TapAction::Escape, BindingTable::empty());

    core.on_event(KeyEvent::Down(Key::CapsLock));
    let up = core.on_event(KeyEvent::Up(Key::CapsLock));

    assert_eq!(up.verdict, Verdict::Suppress);
    assert_eq!(up.effect, Some(Effect::Tap(TapAction::Escape)));
}

/// A Chord in between makes it no tap at all.
#[test]
fn a_chord_in_between_is_no_tap() {
    let mut core = Core::new(
        Key::CapsLock,
        TapAction::Escape,
        BindingTable::from_pairs(vec![(Chord::key(Key::C), chrome())]),
    );

    core.on_event(KeyEvent::Down(Key::CapsLock));
    core.on_event(KeyEvent::Down(Key::C));
    core.on_event(KeyEvent::Up(Key::C));
    let up = core.on_event(KeyEvent::Up(Key::CapsLock));

    assert!(up.effect.is_none());
}

/// A key already held when Hyper came down passes on its way up: it was never
/// swallowed, so its release must not be either.
#[test]
fn a_key_held_before_hyper_passes_on_release() {
    let mut core = bound_c();

    core.on_event(KeyEvent::Down(Key::J));
    core.on_event(KeyEvent::Down(Key::CapsLock));
    let up = core.on_event(KeyEvent::Up(Key::J));

    assert_eq!(up.verdict, Verdict::Pass);
}

/// With Hyper untouched, nothing at all is swallowed or fired.
#[test]
fn nothing_is_suppressed_while_hyper_is_untouched() {
    let mut core = Core::new(
        Key::CapsLock,
        TapAction::Escape,
        BindingTable::from_pairs(vec![(Chord::key(Key::C), chrome())]),
    );
    // Stray releases of the Hyper Key among them: its press is never seen.
    let keys = [Key::C, Key::J, Key::Shift, Key::Ctrl, Key::Alt, Key::CapsLock];

    for round in 0..200usize {
        let key = keys[round % keys.len()];
        let event = if round % 3 == 0 || key == Key::CapsLock {
            KeyEvent::Up(key)
        } else {
            KeyEvent::Down(key)
        };
        let outcome = core.on_event(event);
        assert_eq!(outcome.verdict, Verdict::Pass);
        assert!(outcome.effect.is_none());
    }
}

/// With nothing bound, holding Hyper can only swallow, never fire.
#[test]
fn an_empty_binding_table_can_never_fire() {
    let mut core = plain();
    core.on_event(KeyEvent::Down(Key::CapsLock));

    for key in Key::all() {
        if key == Key::CapsLock {
            continue;
        }
        assert!(core.on_event(KeyEvent::Down(key)).effect.is_none());
        assert!(core.on_event(KeyEvent::Up(key)).effect.is_none());
    }
}

/// After `forget`, nothing the Core believed about held keys survives.
#[test]
fn forgetting_drops_a_held_hyper() {
    let mut core = bound_c();

    core.on_event(KeyEvent::Down(Key::CapsLock));
    core.forget();
    let outcome = core.on_event(KeyEvent::Down(Key::C));

    assert_eq!(outcome.verdict, Verdict::Pass);
    assert!(outcome.effect.is_none());
}

/// A key swallowed going down under Hyper is swallowed coming up, even after
/// Hyper has been let go and other keys have come and gone.
#[test]
fn a_key_swallowed_going_down_is_swallowed_coming_up() {
    let mut core = bound_c();

    core.on_event(KeyEvent::Down(Key::CapsLock));
    core.on_event(KeyEvent::Down(Key::J));
    core.on_event(KeyEvent::Up(Key::CapsLock));
    core.on_event(KeyEvent::Down(Key::A));
    core.on_event(KeyEvent::Up(Key::A));
    let up = core.on_event(KeyEvent::Up(Key::J));

    assert_eq!(up.verdict, Verdict::Suppress);
    assert!(up.effect.is_none());
}

/// Auto-repeat of a held Hyper Key is the same hold: a Chord fired during it
/// still rules out the Tap.
#[test]
fn a_chord_rules_out_the_tap_even_if_hyper_repeats() {
    let mut core = Core::new(
        Key::CapsLock,
        TapAction::Escape,
        BindingTable::from_pairs(vec![(Chord::key(Key::C), chrome())]),
    );

    core.on_event(KeyEvent::Down(Key::CapsLock));
    core.on_event(KeyEvent::Down(Key::C));
    core.on_event(KeyEvent::Up(Key::C));
    core.on_event(KeyEvent::Down(Key::CapsLock));
    core.on_event(KeyEvent::Down(Key::CapsLock));
    let up = core.on_event(KeyEvent::Up(Key::CapsLock));

    assert_eq!(up.verdict, Verdict::Suppress);
    assert!(up.effect.is_none());
}

/// A release of Hyper whose press Footman never saw passes.
#[test]
fn a_stray_release_of_hyper_passes() {
    let mut core = Core::new(Key::CapsLock, TapAction::Escape, BindingTable::empty());

    let up = core.on_event(KeyEvent::Up(Key::CapsLock));

    assert_eq!(up.verdict, Verdict::Pass);
    assert!(up.effect.is_none());
}
