//! Translating a key the settings window saw into one Footman can bind.
//!
//! A Chord is recorded by pressing the key rather than by typing its name,
//! which means going through egui's naming. Most names agree with Footman's;
//! this is where the ones that do not are reconciled. It works on the name
//! rather than on egui's key type, so the reconciliation stands without a
//! window.

use vstd::prelude::*;

use crate::action::Action;
use crate::chord::{slice_chars, Chord, Modifiers};
use crate::keys::Key;
use crate::text::{chars_of, concat, same_text};

verus! {

/// egui's name for a key, spelled the way a config file spells it: the arrows
/// lose their `Arrow`, the digits their `Num`, and everything else is as it
/// was.
pub open spec fn config_spelling(name: Seq<char>) -> Seq<char> {
    if name == "ArrowLeft"@ {
        "Left"@
    } else if name == "ArrowRight"@ {
        "Right"@
    } else if name == "ArrowUp"@ {
        "Up"@
    } else if name == "ArrowDown"@ {
        "Down"@
    } else if name.len() >= 3 && name[0] == 'N' && name[1] == 'u' && name[2] == 'm' {
        name.subrange(3, name.len() as int)
    } else {
        name
    }
}

/// The key egui calls `name`, if Footman has a name for it too.
///
/// Anything still unrecognised is refused rather than guessed at. Footman has
/// no name for punctuation on purpose: where `;` sits depends on the keyboard
/// layout.
pub fn key_named(name: &str) -> (key: Option<Key>)
    ensures
        key == crate::keys::key_named(config_spelling(name@)),
{
    let text = chars_of(name);
    let spelled = if same_text(&text, &chars_of("ArrowLeft")) {
        chars_of("Left")
    } else if same_text(&text, &chars_of("ArrowRight")) {
        chars_of("Right")
    } else if same_text(&text, &chars_of("ArrowUp")) {
        chars_of("Up")
    } else if same_text(&text, &chars_of("ArrowDown")) {
        chars_of("Down")
    } else if text.len() >= 3 && text[0] == 'N' && text[1] == 'u' && text[2] == 'm' {
        slice_chars(&text, 3, text.len())
    } else {
        text
    };
    Key::parse_chars(&spelled)
}

/// What pressing a key while a row is recording its Chord comes to.
#[derive(Debug, PartialEq, Eq)]
pub enum Capture {
    /// Escape: recording is abandoned and the row keeps its Chord. This is
    /// also why Escape cannot be recorded as a Chord.
    Cancel,
    /// A key Footman has no name for; the row keeps its Chord and the user is
    /// told why.
    Unnamed(String),
    /// The Chord the row now holds.
    Recorded(Chord),
}

/// The modifier bits of Shift, Ctrl and Alt held or not.
pub open spec fn held_bits(shift: bool, ctrl: bool, alt: bool) -> u8 {
    ((if shift {
        1int
    } else {
        0int
    }) + (if ctrl {
        2int
    } else {
        0int
    }) + (if alt {
        4int
    } else {
        0int
    })) as u8
}

proof fn lemma_disjoint_bits(s: u8, c: u8, a: u8)
    by (bit_vector)
    requires
        s == 0 || s == 1,
        c == 0 || c == 2,
        a == 0 || a == 4,
    ensures
        (s | c) | a == s + c + a,
{
}

/// The message for a key Footman cannot name.
pub open spec fn unnamed_message(name: Seq<char>) -> Seq<char> {
    "Footman has no name for "@ + name
}

/// Reads a key the settings window saw pressed, under the modifiers held with
/// it, as the Chord a row records.
pub fn capture(name: &str, shift: bool, ctrl: bool, alt: bool) -> (c: Capture)
    ensures
        name@ == "Escape"@ ==> c == Capture::Cancel,
        name@ != "Escape"@ ==> match crate::keys::key_named(config_spelling(name@)) {
            None => c matches Capture::Unnamed(message) && message@ == unnamed_message(name@),
            Some(key) => c matches Capture::Recorded(chord) && chord.key == key && chord.mods@
                == held_bits(shift, ctrl, alt),
        },
{
    if same_text(&chars_of(name), &chars_of("Escape")) {
        return Capture::Cancel;
    }
    let key = match key_named(name) {
        Some(key) => key,
        None => return Capture::Unnamed(concat("Footman has no name for ", name)),
    };
    let s = if shift {
        Modifiers::shift()
    } else {
        Modifiers::none()
    };
    let c = if ctrl {
        Modifiers::ctrl()
    } else {
        Modifiers::none()
    };
    let a = if alt {
        Modifiers::alt()
    } else {
        Modifiers::none()
    };
    let mods = s.union(c).union(a);
    proof {
        lemma_disjoint_bits(s@, c@, a@);
    }
    Capture::Recorded(Chord::key(key).with(mods))
}

/// The kind of an Action, as the settings window's selector names it.
pub open spec fn action_kind(action: Action) -> Seq<char> {
    match action {
        Action::App { .. } => "app"@,
        Action::Open { .. } => "open"@,
        Action::Run { .. } => "run"@,
        Action::Desktop { .. } => "desktop"@,
    }
}

/// The kind of an Action, as the settings window's selector names it.
pub fn kind_of(action: &Action) -> (kind: &'static str)
    ensures
        kind@ == action_kind(*action),
{
    match action {
        Action::App { .. } => "app",
        Action::Open { .. } => "open",
        Action::Run { .. } => "run",
        Action::Desktop { .. } => "desktop",
    }
}

} // verus!
