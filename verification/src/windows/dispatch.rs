//! The Dispatcher's decision: which piece of Shell work an Effect is.
//!
//! The Dispatcher runs on a thread of its own so the hook callback does not:
//! every Effect costs far more than the callback's budget. What it does with
//! each one is decided here; doing it is the Shell's.

use vstd::prelude::*;

use super::synthetic::{tap_strokes, tapped, Stroke};
use crate::action::{Action, Effect};

verus! {

/// One piece of Shell work.
#[derive(Debug, PartialEq, Eq)]
pub enum Job {
    /// Raise, cycle or launch the application with this identity.
    Focus(String),
    /// Hand this target to the operating system's default handler.
    Open(String),
    /// Run this command line, in a console of its own or none.
    Run { command: String, show_window: bool },
    /// Switch to this desktop.
    Desktop(usize),
    /// Send these strokes; none at all for a Tap Action of nothing.
    Send(Vec<Stroke>),
}

/// The Job an Effect is.
pub open spec fn job_for(effect: Effect, job: Job) -> bool {
    match (effect, job) {
        (Effect::Run(Action::App { id }), Job::Focus(i)) => i == id,
        (Effect::Run(Action::Open { target }), Job::Open(t)) => t == target,
        (
            Effect::Run(Action::Run { command, show_window }),
            Job::Run { command: c, show_window: s },
        ) => c == command && s == show_window,
        (Effect::Run(Action::Desktop { index }), Job::Desktop(i)) => i == index,
        (Effect::Tap(tap), Job::Send(strokes)) => strokes@ == tapped(tap),
        _ => false,
    }
}

/// The Job an Effect is: an App Action focuses, an Open Action opens, a Run
/// Action runs, a Desktop Action switches, and a Tap sends the key the user
/// asked for, or nothing.
pub fn job_of(effect: Effect) -> (job: Job)
    ensures
        job_for(effect, job),
{
    match effect {
        Effect::Run(Action::App { id }) => Job::Focus(id),
        Effect::Run(Action::Open { target }) => Job::Open(target),
        Effect::Run(Action::Run { command, show_window }) => Job::Run { command, show_window },
        Effect::Run(Action::Desktop { index }) => Job::Desktop(index),
        Effect::Tap(tap) => Job::Send(tap_strokes(tap)),
    }
}

} // verus!
