//! What the keyboard hook makes of one low-level event.

use footman::windows::hook::{
    PAUSE, REBIND, RESUME, WM_KEYDOWN, WM_KEYUP, WM_SYSKEYDOWN, WM_SYSKEYUP, WM_TIMER,
};
use footman::windows::{key_event_of, press, release, tap, Stroke, FOOTMAN_SIGNATURE};
use footman::windows::{chore, tap_strokes, Chore};
use footman::{Duty, Key, KeyEvent, TapAction};

#[test]
fn a_key_going_down_or_up_reaches_the_core() {
    assert_eq!(key_event_of(0, 0x43, WM_KEYDOWN), Some(KeyEvent::Down(Key::C)));
    assert_eq!(key_event_of(0, 0x43, WM_SYSKEYDOWN), Some(KeyEvent::Down(Key::C)));
    assert_eq!(key_event_of(0, 0x43, WM_KEYUP), Some(KeyEvent::Up(Key::C)));
    assert_eq!(key_event_of(0, 0x43, WM_SYSKEYUP), Some(KeyEvent::Up(Key::C)));
}

/// Footman's own strokes are stamped and passed on; anyone else's synthetic
/// input, stamped otherwise, is ordinary input.
#[test]
fn only_footmans_own_strokes_are_ignored() {
    assert_eq!(key_event_of(FOOTMAN_SIGNATURE, 0x43, WM_KEYDOWN), None);
    assert_eq!(key_event_of(0x1234, 0x43, WM_KEYDOWN), Some(KeyEvent::Down(Key::C)));
}

#[test]
fn unbindable_keys_and_other_messages_pass_through() {
    assert_eq!(key_event_of(0, 0xBA, WM_KEYDOWN), None);
    assert_eq!(key_event_of(0, 0x43, 0x0102), None);
}

#[test]
fn footmans_strokes_carry_the_stamp() {
    assert_eq!(
        press(0x1B),
        Stroke {
            vk: 0x1B,
            up: false,
            signature: FOOTMAN_SIGNATURE
        }
    );
    assert_eq!(
        release(0x1B),
        Stroke {
            vk: 0x1B,
            up: true,
            signature: FOOTMAN_SIGNATURE
        }
    );
    assert_eq!(tap(0x1B), vec![press(0x1B), release(0x1B)]);
    assert_eq!(FOOTMAN_SIGNATURE, 0xF007_3A11);
}

/// The Tap Action sends the key the user asked for, or nothing.
#[test]
fn the_tap_action_sends_escape_or_nothing() {
    assert!(tap_strokes(TapAction::Nothing).is_empty());
    assert_eq!(tap_strokes(TapAction::Escape), vec![press(0x1B), release(0x1B)]);
}

/// The watchdog checks a working hook and leaves a paused one alone: a paused
/// Footman is meant to see nothing, and would otherwise be reinstalled
/// against the user's wishes.
#[test]
fn the_watchdog_sleeps_while_paused() {
    assert_eq!(chore(Duty::Active, WM_TIMER), Chore::Supervise);
    assert_eq!(chore(Duty::Paused, WM_TIMER), Chore::Idle);
}

/// A hook that could not be installed is tried again on every tick: Footman
/// is never silently dead.
#[test]
fn a_hook_that_failed_to_install_is_retried() {
    assert_eq!(chore(Duty::Broken, WM_TIMER), Chore::Start);
}

#[test]
fn pausing_resuming_and_rebinding_are_answered() {
    assert_eq!(chore(Duty::Active, PAUSE), Chore::StandDown);
    assert_eq!(chore(Duty::Broken, PAUSE), Chore::StandDown);
    assert_eq!(chore(Duty::Paused, RESUME), Chore::Start);
    assert_eq!(chore(Duty::Broken, RESUME), Chore::Start);
    assert_eq!(chore(Duty::Active, RESUME), Chore::Idle);
    assert_eq!(chore(Duty::Active, REBIND), Chore::Adopt);
    assert_eq!(chore(Duty::Active, WM_KEYDOWN), Chore::Idle);
    assert_eq!((PAUSE, RESUME, REBIND), (0x8001, 0x8002, 0x8003));
}
