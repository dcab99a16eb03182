//! The one hard performance constraint in Footman: the hook callback's budget.

use std::time::Instant;

use footman::{Action, BindingTable, Chord, Core, Key, KeyEvent, TapAction};

/// The real limit is 300 ms per event. Anything approaching a millisecond means
/// I/O or allocation has crept into the decision.
const BUDGET_MICROS: f64 = 100.0;

#[test]
fn deciding_a_key_event_stays_far_inside_the_hook_timeout() {
    let bindings: Vec<_> = Key::all()
        .into_iter()
        .map(|key| {
            (
                Chord::key(key),
                Action::App {
                    id: format!("aumid:{}", key.to_string()),
                },
            )
        })
        .collect();

    let mut table = BindingTable::empty();
    for (chord, action) in bindings {
        table.add(chord, action);
    }

    let mut core = Core::new(Key::CapsLock, TapAction::Nothing, table);
    core.on_event(KeyEvent::Down(Key::CapsLock));

    let rounds = 100_000;
    let started = Instant::now();
    for _ in 0..rounds {
        core.on_event(KeyEvent::Down(Key::C));
        core.on_event(KeyEvent::Up(Key::C));
    }
    let per_event = started.elapsed().as_secs_f64() * 1e6 / (rounds * 2) as f64;

    assert!(
        per_event < BUDGET_MICROS,
        "{per_event:.2}µs per event; the hook callback budget is 300000µs"
    );
}
