//! Where the user is among their virtual desktops, and how to get to another.
//!
//! Windows has no documented way to switch desktops by index. Footman reads
//! where it is from two undocumented registry values and walks there with the
//! documented `Ctrl+Win+Left` / `Ctrl+Win+Right` shortcut. Both halves are
//! arithmetic over bytes and indices, and live here; fetching the values and
//! sending the strokes is the Shell's.

use vstd::prelude::*;

use super::hook::{event_read, FOOTMAN_SIGNATURE};
use super::synthetic::{
    held, lemma_held_adds_up, lemma_held_single, lemma_tap_leaves_nothing_held, press, pressed,
    release, released, Stroke,
};
use crate::text::{decimal, push_decimal};

verus! {

/// Where the user is among their desktops, one-based: the numbering a config
/// file uses.
#[derive(Debug, Clone, Copy, PartialEq, Eq, Structural)]
pub struct Desktops {
    pub current: usize,
    pub count: usize,
}

/// How to get from one desktop to another.
#[derive(Debug, Clone, Copy, PartialEq, Eq, Structural)]
pub enum Move {
    Stay,
    Left(usize),
    Right(usize),
}

/// The width of a GUID in the registry's binary values.
pub const GUID_BYTES: usize = 16;

/// The `i`-th GUID of a list of them.
pub open spec fn guid_at(ids: Seq<u8>, i: int) -> Seq<u8> {
    ids.subrange(16 * i, 16 * i + 16)
}

/// The first position, from `i` on, at which `ids` holds `current`.
pub open spec fn first_guid(ids: Seq<u8>, current: Seq<u8>, i: int) -> Option<int>
    decreases ids.len() - 16 * i,
{
    if i < 0 || 16 * i + 16 > ids.len() {
        None
    } else if guid_at(ids, i) == current {
        Some(i)
    } else {
        first_guid(ids, current, i + 1)
    }
}

/// What the two registry values say, if they make sense: `ids` an ordered,
/// non-empty array of GUIDs back to back, `current` one of them.
pub open spec fn reading(ids: Seq<u8>, current: Seq<u8>) -> Option<Desktops> {
    if ids.len() == 0 || ids.len() % 16 != 0 || current.len() != 16 {
        None
    } else {
        match first_guid(ids, current, 0) {
            Some(p) => Some(Desktops { current: (p + 1) as usize, count: (ids.len() / 16) as usize }),
            None => None,
        }
    }
}

/// Whether the 16 bytes of `ids` at `start` are `current`.
fn guid_is(ids: &[u8], start: usize, current: &[u8]) -> (same: bool)
    requires
        start + 16 <= ids@.len(),
        current@.len() == 16,
    ensures
        same == (ids@.subrange(start as int, start + 16) == current@),
{
    let n = ids.len();
    let mut k: usize = 0;
    while k < 16
        invariant
            n == ids@.len(),
            start + 16 <= n,
            current@.len() == 16,
            k <= 16,
            forall|j: int| 0 <= j < k ==> ids@[start + j] == #[trigger] current@[j],
        decreases 16 - k,
    {
        if ids[start + k] != current[k] {
            assert(ids@.subrange(start as int, start + 16)[k as int] != current@[k as int]);
            return false;
        }
        k = k + 1;
    }
    assert(ids@.subrange(start as int, start + 16) =~= current@);
    true
}

/// Reads the two registry values into a position.
///
/// `ids` is `VirtualDesktopIDs`, an ordered array of GUIDs; `current` is
/// `CurrentVirtualDesktop`, one of them. Both are undocumented, so anything
/// that does not fit that shape yields `None` rather than a guess: a guess
/// here would move the user somewhere they did not ask to be.
pub fn desktops_from(ids: &[u8], current: &[u8]) -> (d: Option<Desktops>)
    ensures
        d == reading(ids@, current@),
{
    if ids.len() == 0 || ids.len() % GUID_BYTES != 0 || current.len() != GUID_BYTES {
        return None;
    }
    let n = ids.len();
    let count = n / GUID_BYTES;
    let mut i: usize = 0;
    while i < count
        invariant
            n == ids@.len(),
            count == ids@.len() / 16,
            ids@.len() % 16 == 0,
            current@.len() == 16,
            i <= count,
            first_guid(ids@, current@, 0) == first_guid(ids@, current@, i as int),
        decreases count - i,
    {
        assert(16 * i + 16 <= ids@.len()) by (nonlinear_arith)
            requires
                i < count,
                count == ids@.len() / 16,
        ;
        if guid_is(ids, GUID_BYTES * i, current) {
            return Some(Desktops { current: i + 1, count });
        }
        i = i + 1;
    }
    assert(first_guid(ids@, current@, count as int) is None);
    None
}

/// Where the user is, from the two registry values as they were read, or why
/// it cannot be said.
pub open spec fn position_read(ids: Option<Seq<u8>>, current: Option<Seq<u8>>) -> Result<
    Desktops,
    Seq<char>,
> {
    match (ids, current) {
        (None, _) => Err("Windows did not report its list of virtual desktops"@),
        (Some(_), None) => Err("Windows did not report which virtual desktop is current"@),
        (Some(ids), Some(current)) => match reading(ids, current) {
            Some(d) => Ok(d),
            None => Err("could not make sense of the virtual desktop registry values"@),
        },
    }
}

/// Where the user is, from the two registry values as they were read (`None`
/// where a value could not be read), or why it cannot be said.
pub fn position_from(ids: Option<Vec<u8>>, current: Option<Vec<u8>>) -> (r: Result<Desktops, String>)
    ensures
        match (r, position_read(
            match ids {
                Some(v) => Some(v@),
                None => None,
            },
            match current {
                Some(v) => Some(v@),
                None => None,
            },
        )) {
            (Ok(d), Ok(want)) => d == want,
            (Err(e), Err(want)) => e@ == want,
            _ => false,
        },
{
    let ids = match ids {
        Some(ids) => ids,
        None => return Err(String::from_str("Windows did not report its list of virtual desktops")),
    };
    let current = match current {
        Some(current) => current,
        None => return Err(
            String::from_str("Windows did not report which virtual desktop is current"),
        ),
    };
    match desktops_from(&ids, &current) {
        Some(d) => Ok(d),
        None => Err(String::from_str("could not make sense of the virtual desktop registry values")),
    }
}

/// How to get from `d.current` to `target`, if there is such a desktop.
pub open spec fn steps(d: Desktops, target: usize) -> Option<Move> {
    if target == 0 || target > d.count {
        None
    } else if target == d.current {
        Some(Move::Stay)
    } else if target < d.current {
        Some(Move::Left((d.current - target) as usize))
    } else {
        Some(Move::Right((target - d.current) as usize))
    }
}

/// Where a move from desktop `from` arrives.
pub open spec fn arrival(from: int, m: Move) -> int {
    match m {
        Move::Stay => from,
        Move::Left(n) => from - n,
        Move::Right(n) => from + n,
    }
}

/// How many arrow presses reach `target`, or `None` if there is no such
/// desktop.
///
/// A missing desktop is refused rather than clamped to the nearest one.
/// Walking somewhere the user did not ask for would look like a Footman bug
/// and would never tell them their config names a desktop they do not have.
pub fn steps_to(desktops: Desktops, target: usize) -> (m: Option<Move>)
    ensures
        m == steps(desktops, target),
{
    if target == 0 || target > desktops.count {
        return None;
    }
    if target == desktops.current {
        Some(Move::Stay)
    } else if target < desktops.current {
        Some(Move::Left(desktops.current - target))
    } else {
        Some(Move::Right(target - desktops.current))
    }
}

/// Every move `steps_to` gives arrives exactly at the desktop asked for, which
/// exists; and the move is to stay exactly when that is where the user is.
pub proof fn lemma_steps_arrive(d: Desktops, target: usize)
    ensures
        steps(d, target) matches Some(m) ==> arrival(d.current as int, m) == target && 1 <= target
            <= d.count && (m == Move::Stay <==> target == d.current),
        steps(d, target) is None <==> (target == 0 || target > d.count),
{
}

/// What the user is told when their config names a desktop they do not have.
pub open spec fn no_such_desktop(index: usize, count: usize) -> Seq<char> {
    "there is no desktop "@ + decimal(index as nat) + "; you have "@ + decimal(count as nat)
}

/// The move a switch to desktop `index` makes, or why there is none.
pub fn journey(desktops: Desktops, index: usize) -> (r: Result<Move, String>)
    ensures
        match steps(desktops, index) {
            Some(m) => r == Ok::<Move, String>(m),
            None => r matches Err(message) && message@ == no_such_desktop(index, desktops.count),
        },
{
    match steps_to(desktops, index) {
        Some(m) => Ok(m),
        None => {
            let mut message = String::from_str("there is no desktop ");
            push_decimal(&mut message, index);
            message.append("; you have ");
            push_decimal(&mut message, desktops.count);
            Err(message)
        },
    }
}

/// The virtual keys a walk presses.
pub const VK_CONTROL: u16 = 0x11;
pub const VK_LWIN: u16 = 0x5B;
pub const VK_LEFT: u16 = 0x25;
pub const VK_RIGHT: u16 = 0x27;

/// `times` presses and releases of `arrow`.
pub open spec fn arrow_taps(arrow: u16, times: nat) -> Seq<Stroke>
    decreases times,
{
    if times == 0 {
        Seq::empty()
    } else {
        arrow_taps(arrow, (times - 1) as nat) + seq![pressed(arrow), released(arrow)]
    }
}

/// Ctrl and Win held down across `times` taps of `arrow`.
pub open spec fn chorded(arrow: u16, times: nat) -> Seq<Stroke> {
    seq![pressed(VK_CONTROL), pressed(VK_LWIN)] + arrow_taps(arrow, times) + seq![
        released(VK_LWIN),
        released(VK_CONTROL),
    ]
}

/// The strokes that make a move.
pub open spec fn walked(step: Move) -> Seq<Stroke> {
    match step {
        Move::Stay => Seq::empty(),
        Move::Left(times) => chorded(VK_LEFT, times as nat),
        Move::Right(times) => chorded(VK_RIGHT, times as nat),
    }
}

/// Presses `Ctrl+Win+Left` or `Ctrl+Win+Right` the required number of times.
///
/// The modifiers are held down across the whole run rather than pressed once
/// per arrow: that is what a person does, and it is one switch as far as the
/// user is concerned.
pub fn walk(step: Move) -> (batch: Vec<Stroke>)
    ensures
        batch@ == walked(step),
{
    let (arrow, times) = match step {
        Move::Stay => return Vec::new(),
        Move::Left(times) => (VK_LEFT, times),
        Move::Right(times) => (VK_RIGHT, times),
    };

    let mut batch = Vec::new();
    batch.push(press(VK_CONTROL));
    batch.push(press(VK_LWIN));
    let mut i: usize = 0;
    while i < times
        invariant
            i <= times,
            batch@ == seq![pressed(VK_CONTROL), pressed(VK_LWIN)] + arrow_taps(arrow, i as nat),
        decreases times - i,
    {
        batch.push(press(arrow));
        batch.push(release(arrow));
        i = i + 1;
        assert(batch@ =~= seq![pressed(VK_CONTROL), pressed(VK_LWIN)] + arrow_taps(arrow, i as nat));
    }
    batch.push(release(VK_LWIN));
    batch.push(release(VK_CONTROL));
    assert(batch@ =~= chorded(arrow, times as nat));
    batch
}

proof fn lemma_arrow_taps_leave_nothing_held(arrow: u16, times: nat, vk: u16)
    ensures
        held(arrow_taps(arrow, times), vk) == 0,
    decreases times,
{
    if times > 0 {
        lemma_arrow_taps_leave_nothing_held(arrow, (times - 1) as nat, vk);
        let pair = seq![pressed(arrow), released(arrow)];
        lemma_held_adds_up(arrow_taps(arrow, (times - 1) as nat), pair, vk);
        lemma_tap_leaves_nothing_held(arrow, vk);
    }
}

/// A walk is bounded and single-shot: when it is over, no key is left held
/// down, so it carries no risk of a stuck modifier.
pub proof fn lemma_walk_leaves_nothing_held(step: Move, vk: u16)
    ensures
        held(walked(step), vk) == 0,
{
    match step {
        Move::Stay => {},
        Move::Left(times) => lemma_chorded_leaves_nothing_held(VK_LEFT, times as nat, vk),
        Move::Right(times) => lemma_chorded_leaves_nothing_held(VK_RIGHT, times as nat, vk),
    }
}

proof fn lemma_chorded_leaves_nothing_held(arrow: u16, times: nat, vk: u16)
    ensures
        held(chorded(arrow, times), vk) == 0,
{
    let down = seq![pressed(VK_CONTROL), pressed(VK_LWIN)];
    let up = seq![released(VK_LWIN), released(VK_CONTROL)];
    let taps = arrow_taps(arrow, times);
    lemma_arrow_taps_leave_nothing_held(arrow, times, vk);
    lemma_held_adds_up(down, taps, vk);
    lemma_held_adds_up(down + taps, up, vk);
    assert(down =~= seq![pressed(VK_CONTROL)] + seq![pressed(VK_LWIN)]);
    lemma_held_adds_up(seq![pressed(VK_CONTROL)], seq![pressed(VK_LWIN)], vk);
    lemma_held_single(pressed(VK_CONTROL), vk);
    lemma_held_single(pressed(VK_LWIN), vk);
    assert(up =~= seq![released(VK_LWIN)] + seq![released(VK_CONTROL)]);
    lemma_held_adds_up(seq![released(VK_LWIN)], seq![released(VK_CONTROL)], vk);
    lemma_held_single(released(VK_LWIN), vk);
    lemma_held_single(released(VK_CONTROL), vk);
}

/// Every stroke of a walk carries Footman's stamp, so the hook never reads
/// Footman's own arrows back as a key event for the Core.
pub proof fn lemma_walk_is_never_read_back(step: Move, i: int, message: u32)
    requires
        0 <= i < walked(step).len(),
    ensures
        walked(step)[i].signature == FOOTMAN_SIGNATURE,
        event_read(walked(step)[i].signature, walked(step)[i].vk as u32, message) is None,
{
    match step {
        Move::Stay => {},
        Move::Left(times) => lemma_taps_stamped(VK_LEFT, times as nat),
        Move::Right(times) => lemma_taps_stamped(VK_RIGHT, times as nat),
    }
}

proof fn lemma_taps_stamped(arrow: u16, times: nat)
    ensures
        forall|j: int|
            0 <= j < arrow_taps(arrow, times).len() ==> (#[trigger] arrow_taps(arrow, times)[j]).signature
                == FOOTMAN_SIGNATURE,
        arrow_taps(arrow, times).len() == 2 * times,
    decreases times,
{
    if times > 0 {
        lemma_taps_stamped(arrow, (times - 1) as nat);
    }
}

} // verus!
