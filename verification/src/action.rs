//! What a Binding does, and what the Core answers to one key event.

use vstd::prelude::*;

use crate::keys::Key;
use crate::text::{chars_of, eq_ignore_case, same_ignoring_case};

verus! {

/// One raw key transition, as reported by the Shell.
///
/// There is no auto-repeat flag: Windows' low-level hook does not provide one,
/// so the Core derives repeats itself from a second `Down` without an
/// intervening `Up`.
#[derive(Debug, Clone, Copy, PartialEq, Eq, Structural)]
pub enum KeyEvent {
    Down(Key),
    Up(Key),
}

/// What happens when the Hyper Key is released without any Chord having fired.
#[derive(Debug, Clone, Copy, PartialEq, Eq, Structural)]
pub enum TapAction {
    Nothing,
    Escape,
}

/// The name a Tap Action is written with.
pub open spec fn tap_name(t: TapAction) -> Seq<char> {
    match t {
        TapAction::Nothing => seq!['n', 'o', 'n', 'e'],
        TapAction::Escape => seq!['e', 's', 'c', 'a', 'p', 'e'],
    }
}

/// The Tap Action a name stands for, ignoring ASCII case.
pub open spec fn tap_named(s: Seq<char>) -> Option<TapAction> {
    if same_ignoring_case(s, tap_name(TapAction::Nothing)) {
        Some(TapAction::Nothing)
    } else if same_ignoring_case(s, tap_name(TapAction::Escape)) {
        Some(TapAction::Escape)
    } else {
        None
    }
}

impl TapAction {
    /// The name this Tap Action is written with in a config file.
    pub fn name(self) -> (r: &'static str)
        ensures
            r@ == tap_name(self),
    {
        match self {
            TapAction::Nothing => {
                proof {
                    reveal_strlit("none");
                }
                "none"
            },
            TapAction::Escape => {
                proof {
                    reveal_strlit("escape");
                }
                "escape"
            },
        }
    }

    /// The name, as an owned string.
    pub fn to_string(self) -> (r: String)
        ensures
            r@ == tap_name(self),
    {
        self.name().to_owned()
    }

    /// Reads a Tap Action name, ignoring ASCII case.
    pub fn parse(name: &str) -> (t: Option<TapAction>)
        ensures
            t == tap_named(name@),
    {
        let chars = chars_of(name);
        let none = chars_of(TapAction::Nothing.name());
        let escape = chars_of(TapAction::Escape.name());
        if eq_ignore_case(chars.as_slice(), none.as_slice()) {
            Some(TapAction::Nothing)
        } else if eq_ignore_case(chars.as_slice(), escape.as_slice()) {
            Some(TapAction::Escape)
        } else {
            None
        }
    }
}

/// The Core's ruling on one key event.
#[derive(Debug, Clone, Copy, PartialEq, Eq, Structural)]
pub enum Verdict {
    /// The system sees the event untouched.
    Pass,
    /// The event is dropped and never reaches the foreground app.
    Suppress,
}

/// What a Binding does when its Chord fires.
#[derive(Debug, PartialEq, Eq)]
pub enum Action {
    /// Focus an application, launching it first if it is not running.
    ///
    /// The id is opaque here: only the Shell knows what `aumid:` or `path:`
    /// mean.
    App { id: String },
    /// Hand a URL, file or folder to the operating system's default handler.
    Open { target: String },
    /// Execute a command line. A console window is noise for a launcher, so it
    /// is hidden unless asked for.
    Run { command: String, show_window: bool },
    /// Switch to a virtual desktop, numbered from 1 as the user sees them.
    Desktop { index: usize },
}

impl Clone for Action {
    fn clone(&self) -> (r: Self)
        ensures
            r == *self,
    {
        match self {
            Action::App { id } => Action::App { id: id.clone() },
            Action::Open { target } => Action::Open { target: target.clone() },
            Action::Run { command, show_window } => Action::Run {
                command: command.clone(),
                show_window: *show_window,
            },
            Action::Desktop { index } => Action::Desktop { index: *index },
        }
    }
}

/// Whether an Action could ever do what it says. Only shape is judged, never
/// the world: desktops are numbered from 1.
pub open spec fn action_usable(a: Action) -> bool {
    !(a matches Action::Desktop { index } && index == 0)
}

/// Why a Desktop Action on desktop 0 is refused.
pub open spec fn desktop_zero_reason() -> Seq<char> {
    "desktops are numbered from 1"@
}

impl Action {
    /// Whether this Action could ever do what it says, and if not, why.
    pub fn check(&self) -> (r: Result<(), String>)
        ensures
            r.is_ok() == action_usable(*self),
            r matches Err(reason) ==> reason@ == desktop_zero_reason(),
    {
        match self {
            Action::Desktop { index: 0 } => Err("desktops are numbered from 1".to_owned()),
            _ => Ok(()),
        }
    }
}

/// Something for the Dispatcher to carry out, alongside the Verdict.
#[derive(Debug, PartialEq, Eq)]
pub enum Effect {
    Run(Action),
    Tap(TapAction),
}

/// The Core's full reply to one key event.
#[derive(Debug, PartialEq, Eq)]
pub struct Outcome {
    pub verdict: Verdict,
    pub effect: Option<Effect>,
}

impl Outcome {
    pub(crate) fn pass() -> (o: Self)
        ensures
            o == (Outcome { verdict: Verdict::Pass, effect: None }),
    {
        Self { verdict: Verdict::Pass, effect: None }
    }

    pub(crate) fn suppress() -> (o: Self)
        ensures
            o == (Outcome { verdict: Verdict::Suppress, effect: None }),
    {
        Self { verdict: Verdict::Suppress, effect: None }
    }

    pub(crate) fn fire(action: Action) -> (o: Self)
        ensures
            o == (Outcome { verdict: Verdict::Suppress, effect: Some(Effect::Run(action)) }),
    {
        Self { verdict: Verdict::Suppress, effect: Some(Effect::Run(action)) }
    }

    pub(crate) fn tap(tap: TapAction) -> (o: Self)
        ensures
            o == (Outcome { verdict: Verdict::Suppress, effect: Some(Effect::Tap(tap)) }),
    {
        Self { verdict: Verdict::Suppress, effect: Some(Effect::Tap(tap)) }
    }
}

impl std::str::FromStr for TapAction {
    type Err = ();

    /// Reads a Tap Action's name, ignoring ASCII case.
    fn from_str(name: &str) -> (r: Result<TapAction, ()>)
        ensures
            match tap_named(name@) {
                Some(tap) => r == Ok::<TapAction, ()>(tap),
                None => r == Err::<TapAction, ()>(()),
            },
    {
        match TapAction::parse(name) {
            Some(tap) => Ok(tap),
            None => Err(()),
        }
    }
}

} // verus!
