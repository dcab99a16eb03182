//! What the keyboard hook makes of one low-level key event.
//!
//! Windows blocks every keystroke on the machine until the hook callback
//! returns, so the callback does exactly one thing: turn the event into a
//! `KeyEvent` for the Core, or decide it is none of Footman's business.

use vstd::prelude::*;

use super::keys::{key_of_vk, vk_to_key};
use crate::action::KeyEvent;
use crate::tray::Duty;

verus! {

/// Stamped into `dwExtraInfo` on every event Footman synthesises, so the hook
/// can recognise its own work.
///
/// Filtering on this rather than on `LLKHF_INJECTED` is deliberate. That flag
/// marks all synthetic input, which would make Footman deaf to on-screen
/// keyboards, accessibility tools, remote desktop sessions and macro tools.
/// Only our own events need excluding, and only to stop a Desktop Action's
/// arrows being fed back into the Core.
pub const FOOTMAN_SIGNATURE: usize = 0xF007_3A11;

/// The window messages a low-level keyboard hook is handed.
pub const WM_KEYDOWN: u32 = 0x0100;
pub const WM_KEYUP: u32 = 0x0101;
pub const WM_SYSKEYDOWN: u32 = 0x0104;
pub const WM_SYSKEYUP: u32 = 0x0105;

/// Why the hook thread could not be started.
#[derive(Debug)]
pub struct HookError(pub String);

/// The event the Core is told about, if any: none for Footman's own strokes,
/// none for keys Footman cannot bind, and none for messages that are neither a
/// key going down nor one coming up.
pub open spec fn event_read(extra_info: usize, vk: u32, message: u32) -> Option<KeyEvent> {
    if extra_info == FOOTMAN_SIGNATURE {
        None
    } else {
        match key_of_vk(vk) {
            None => None,
            Some(key) => if message == WM_KEYDOWN || message == WM_SYSKEYDOWN {
                Some(KeyEvent::Down(key))
            } else if message == WM_KEYUP || message == WM_SYSKEYUP {
                Some(KeyEvent::Up(key))
            } else {
                None
            },
        }
    }
}

/// Reads one low-level keyboard event. `None` means: pass it on untouched.
pub fn key_event_of(extra_info: usize, vk: u32, message: u32) -> (event: Option<KeyEvent>)
    ensures
        event == event_read(extra_info, vk, message),
{
    // Our own synthetic input must not be fed back into the Core. Anyone
    // else's synthetic input is ordinary input as far as Footman cares.
    if extra_info == FOOTMAN_SIGNATURE {
        return None;
    }
    let key = match vk_to_key(vk) {
        Some(key) => key,
        None => return None,
    };
    if message == WM_KEYDOWN || message == WM_SYSKEYDOWN {
        Some(KeyEvent::Down(key))
    } else if message == WM_KEYUP || message == WM_SYSKEYUP {
        Some(KeyEvent::Up(key))
    } else {
        None
    }
}

/// The window messages the hook thread's loop answers.
pub const WM_TIMER: u32 = 0x0113;
pub const WM_APP: u32 = 0x8000;
/// Stand down: uninstall the hook and leave the keyboard entirely normal.
pub const PAUSE: u32 = WM_APP + 1;
/// Install it again.
pub const RESUME: u32 = WM_APP + 2;
/// Take the Core waiting on the channel: the settings were saved.
pub const REBIND: u32 = WM_APP + 3;

/// What the hook thread does with a message, given whether its hook is
/// installed.
#[derive(Debug, Clone, Copy, PartialEq, Eq, Structural)]
pub enum Chore {
    /// Ask the watchdog whether the hook is still alive, and reinstall it if
    /// not.
    Supervise,
    /// Uninstall the hook and report Footman paused.
    StandDown,
    /// Install the hook, forgetting what the Core believed about the keyboard.
    Start,
    /// Take the replacement Core waiting on the channel.
    Adopt,
    /// Nothing.
    Idle,
}

/// What the hook thread does with a message, in a state of duty.
pub open spec fn chore_for(duty: Duty, message: u32) -> Chore {
    if message == WM_TIMER {
        match duty {
            Duty::Active => Chore::Supervise,
            Duty::Broken => Chore::Start,
            Duty::Paused => Chore::Idle,
        }
    } else if message == PAUSE {
        Chore::StandDown
    } else if message == RESUME && duty != Duty::Active {
        Chore::Start
    } else if message == REBIND {
        Chore::Adopt
    } else {
        Chore::Idle
    }
}

/// What the hook thread does with a message, given its state of duty: the
/// hook installed and working, paused by the user, or not installed because
/// installing it failed.
///
/// On each tick of the watchdog a working hook is checked, and a hook that
/// could not be installed is tried again, so Footman is never silently dead.
/// A paused Footman is left alone: it is meant to see nothing, and the
/// watchdog reads silence as death, so left to itself it would reinstall the
/// hook the user just asked to be rid of. Resuming a working hook does
/// nothing, so no keyboard ever has two.
pub fn chore(duty: Duty, message: u32) -> (c: Chore)
    ensures
        c == chore_for(duty, message),
        duty == Duty::Paused ==> c != Chore::Supervise && (c == Chore::Start ==> message == RESUME),
        duty == Duty::Broken && message == WM_TIMER ==> c == Chore::Start,
        duty == Duty::Active ==> c != Chore::Start,
        message == REBIND ==> c == Chore::Adopt,
        message == PAUSE ==> c == Chore::StandDown,
{
    if message == WM_TIMER {
        match duty {
            Duty::Active => Chore::Supervise,
            Duty::Broken => Chore::Start,
            Duty::Paused => Chore::Idle,
        }
    } else if message == PAUSE {
        Chore::StandDown
    } else if message == RESUME && duty != Duty::Active {
        Chore::Start
    } else if message == REBIND {
        Chore::Adopt
    } else {
        Chore::Idle
    }
}

/// Saving the settings and pausing are heard whatever the hook is doing: a
/// replacement Core is adopted in every state of duty, paused or broken
/// included, so the Bindings just saved are the ones in force on Resume; and a
/// pause always stands the hook down.
pub proof fn lemma_rebind_and_pause_in_every_duty(duty: Duty)
    ensures
        chore_for(duty, REBIND) == Chore::Adopt,
        chore_for(duty, PAUSE) == Chore::StandDown,
        chore_for(duty, RESUME) == (if duty == Duty::Active {
            Chore::Idle
        } else {
            Chore::Start
        }),
{
}

} // verus!
