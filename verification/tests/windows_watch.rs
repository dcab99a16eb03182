//! When to conclude the keyboard hook has been silently uninstalled.

use footman::windows::{same_clock, Health, HookWatch};

const QUIET: u64 = 30_000;

#[test]
fn a_hook_that_is_seeing_keys_is_alive() {
    let mut watch = HookWatch::new(QUIET, 0);
    watch.saw_key(1_000);

    assert_eq!(watch.check(2_000, 1_000), Health::Alive);
}

#[test]
fn silence_on_an_idle_machine_is_not_death() {
    let mut watch = HookWatch::new(QUIET, 0);
    watch.saw_key(1_000);

    assert_eq!(watch.check(1_000 + QUIET + 1, 1_000), Health::Alive);
}

#[test]
fn input_we_never_saw_means_the_hook_is_gone() {
    let mut watch = HookWatch::new(QUIET, 0);
    watch.saw_key(1_000);

    assert_eq!(watch.check(1_000 + QUIET + 1, 5_000), Health::Dead);
}

#[test]
fn a_short_gap_is_never_death() {
    let mut watch = HookWatch::new(QUIET, 0);
    watch.saw_key(1_000);

    assert_eq!(watch.check(1_000 + QUIET - 1, 5_000), Health::Alive);
}

#[test]
fn reinstalling_clears_the_suspicion() {
    let mut watch = HookWatch::new(QUIET, 0);
    watch.saw_key(1_000);
    let now = 1_000 + QUIET + 1;
    assert_eq!(watch.check(now, 5_000), Health::Dead);

    watch.reinstalled(now);

    assert_eq!(watch.check(now + 1, 5_000), Health::Alive);
}

/// Before the short clock first turns over, the two clocks agree.
#[test]
fn a_reading_before_the_first_turn_is_taken_as_it_is() {
    assert_eq!(same_clock(5_000, 4_000), 4_000);
}

/// After it turns over, the short reading belongs to the current turn.
#[test]
fn a_reading_after_the_turn_is_lifted_onto_the_long_clock() {
    let turn = 1u64 << 32;
    assert_eq!(same_clock(3 * turn + 500, 400), 3 * turn + 400);
}

/// A reading that looks like it is in the future belongs to the turn before.
#[test]
fn a_reading_from_just_before_the_turn_belongs_to_the_turn_before() {
    let turn = 1u64 << 32;
    assert_eq!(same_clock(3 * turn + 10, 0xFFFF_FFF0), 3 * turn - 16);
}
