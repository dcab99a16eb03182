//! The keystrokes Footman produces itself.
//!
//! There are exactly two kinds: the arrows that walk between virtual desktops
//! and the Tap Action's Escape. Hyper is never among them.
//!
//! Everything made here is stamped so the hook recognises Footman's own work
//! and does not feed it back into the Core. The stamp is deliberately not
//! `LLKHF_INJECTED`: that flag also marks on-screen keyboards, accessibility
//! tools and remote desktop sessions, which Footman must still answer to.

use vstd::prelude::*;

use super::hook::FOOTMAN_SIGNATURE;
use crate::action::TapAction;

verus! {

/// One synthetic key event: a virtual key going down or coming up, with the
/// stamp carried in its extra information.
#[derive(Debug, Clone, Copy, PartialEq, Eq, Structural)]
pub struct Stroke {
    pub vk: u16,
    pub up: bool,
    pub signature: usize,
}

/// `vk` going down, stamped as Footman's own.
pub open spec fn pressed(vk: u16) -> Stroke {
    Stroke { vk, up: false, signature: FOOTMAN_SIGNATURE }
}

/// `vk` coming up, stamped as Footman's own.
pub open spec fn released(vk: u16) -> Stroke {
    Stroke { vk, up: true, signature: FOOTMAN_SIGNATURE }
}

pub fn press(vk: u16) -> (s: Stroke)
    ensures
        s == pressed(vk),
{
    Stroke { vk, up: false, signature: FOOTMAN_SIGNATURE }
}

pub fn release(vk: u16) -> (s: Stroke)
    ensures
        s == released(vk),
{
    Stroke { vk, up: true, signature: FOOTMAN_SIGNATURE }
}

/// Down and up, as one keystroke.
pub fn tap(vk: u16) -> (batch: Vec<Stroke>)
    ensures
        batch@ == seq![pressed(vk), released(vk)],
{
    let mut batch = Vec::new();
    batch.push(press(vk));
    batch.push(release(vk));
    batch
}

/// How far `vk` is held down at the end of `strokes`: presses less releases.
pub open spec fn held(strokes: Seq<Stroke>, vk: u16) -> int
    decreases strokes.len(),
{
    if strokes.len() == 0 {
        0
    } else {
        let last = strokes.last();
        held(strokes.drop_last(), vk) + if last.vk != vk {
            0int
        } else if last.up {
            -1int
        } else {
            1int
        }
    }
}

/// Holding adds up across batches sent one after the other.
pub proof fn lemma_held_adds_up(a: Seq<Stroke>, b: Seq<Stroke>, vk: u16)
    ensures
        held(a + b, vk) == held(a, vk) + held(b, vk),
    decreases b.len(),
{
    if b.len() == 0 {
        assert(a + b =~= a);
    } else {
        lemma_held_adds_up(a, b.drop_last(), vk);
        assert((a + b).drop_last() =~= a + b.drop_last());
    }
}

/// A tap leaves no key held.
pub proof fn lemma_tap_leaves_nothing_held(key: u16, vk: u16)
    ensures
        held(seq![pressed(key), released(key)], vk) == 0,
{
    let one = seq![pressed(key)];
    let two = seq![pressed(key), released(key)];
    assert(one.drop_last() =~= Seq::<Stroke>::empty());
    assert(one.last() == pressed(key));
    assert(held(one, vk) == held(Seq::<Stroke>::empty(), vk) + if key != vk {
        0int
    } else {
        1int
    });
    assert(two.drop_last() =~= one);
    assert(two.last() == released(key));
    assert(held(two, vk) == held(one, vk) + if key != vk {
        0int
    } else {
        -1int
    });
}

/// A stroke of a key other than `vk` does not change whether `vk` is held.
pub proof fn lemma_held_single(s: Stroke, vk: u16)
    ensures
        held(seq![s], vk) == if s.vk != vk {
            0int
        } else if s.up {
            -1int
        } else {
            1int
        },
{
    assert(seq![s].drop_last() =~= Seq::<Stroke>::empty());
    assert(seq![s].last() == s);
    assert(held(Seq::<Stroke>::empty(), vk) == 0);
}

/// The virtual key of Escape.
pub const VK_ESCAPE: u16 = 0x1B;

/// What the Tap Action sends.
pub open spec fn tapped(tap: TapAction) -> Seq<Stroke> {
    match tap {
        TapAction::Nothing => Seq::empty(),
        TapAction::Escape => seq![pressed(VK_ESCAPE), released(VK_ESCAPE)],
    }
}

/// The strokes the Dispatcher sends for a Tap Action: the key the user asked
/// for, pressed and released, or nothing at all.
pub fn tap_strokes(tap_action: TapAction) -> (batch: Vec<Stroke>)
    ensures
        batch@ == tapped(tap_action),
{
    match tap_action {
        TapAction::Nothing => Vec::new(),
        TapAction::Escape => tap(VK_ESCAPE),
    }
}

} // verus!
