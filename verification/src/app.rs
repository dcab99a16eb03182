//! Which window an App Action raises, and when it launches instead.
//!
//! The rule is stated entirely over an ordered list of an application's
//! windows, so it belongs to the Core: no OS call is needed to decide, only to
//! gather the list and to carry out the answer.

use vstd::prelude::*;

verus! {

/// One window of the application a Chord names, as the Shell found it.
#[derive(Debug, Clone, Copy, PartialEq, Eq, Structural)]
pub struct Window {
    /// Stable for as long as the window exists, and comparable: on Windows,
    /// the `HWND`. The cycle depends on both properties.
    pub id: u64,
    pub on_current_desktop: bool,
}

/// What the Dispatcher should do about an App Action.
#[derive(Debug, Clone, Copy, PartialEq, Eq, Structural)]
pub enum AppTarget {
    /// Not running: start it.
    Launch,
    /// Bring this window to the front, switching desktop if it is not here.
    Raise(u64),
    /// The user already has what they asked for.
    Nothing,
}

/// The ids of the windows on the desktop the user is looking at, in the order
/// given.
pub open spec fn here_ids(windows: Seq<Window>) -> Seq<u64>
    decreases windows.len(),
{
    if windows.len() == 0 {
        Seq::empty()
    } else {
        let rest = here_ids(windows.drop_last());
        if windows.last().on_current_desktop {
            rest.push(windows.last().id)
        } else {
            rest
        }
    }
}

/// How many times an id occurs.
pub open spec fn occurrences(ids: Seq<u64>, id: u64) -> nat
    decreases ids.len(),
{
    if ids.len() == 0 {
        0
    } else {
        occurrences(ids.drop_last(), id) + if ids.last() == id {
            1nat
        } else {
            0nat
        }
    }
}

/// The smallest id above `id`, if there is one.
pub open spec fn least_above(ids: Seq<u64>, id: u64) -> Option<u64>
    decreases ids.len(),
{
    if ids.len() == 0 {
        None
    } else {
        let rest = least_above(ids.drop_last(), id);
        let x = ids.last();
        if x > id && (rest is None || x < rest.unwrap()) {
            Some(x)
        } else {
            rest
        }
    }
}

/// The smallest id of all.
pub open spec fn least(ids: Seq<u64>) -> u64
    decreases ids.len(),
{
    if ids.len() <= 1 {
        ids[0]
    } else {
        let rest = least(ids.drop_last());
        if ids.last() < rest {
            ids.last()
        } else {
            rest
        }
    }
}

/// The window after `id` when the ids are put in ascending order, wrapping
/// round from the last to the first: an equal id if there is another, else
/// the next larger, else the smallest.
pub open spec fn next_in_cycle(ids: Seq<u64>, id: u64) -> u64 {
    if occurrences(ids, id) >= 2 {
        id
    } else {
        match least_above(ids, id) {
            Some(next) => next,
            None => least(ids),
        }
    }
}

/// The App Action's decision.
///
/// Not running: launch. Running but not here: raise its topmost window, which
/// switches desktop. Here but not frontmost: raise its topmost window here.
/// Frontmost and alone here: nothing to do. Frontmost with company here: the
/// next of its windows here, in a stable order rather than the Z-order,
/// because every raise rewrites the Z-order.
pub open spec fn chosen(windows: Seq<Window>, foreground: Option<u64>) -> AppTarget {
    let here = here_ids(windows);
    if windows.len() == 0 {
        AppTarget::Launch
    } else if here.len() == 0 {
        AppTarget::Raise(windows[0].id)
    } else if foreground != Some(here[0]) {
        AppTarget::Raise(here[0])
    } else if here.len() == 1 {
        AppTarget::Nothing
    } else {
        AppTarget::Raise(next_in_cycle(here, here[0]))
    }
}

/// Decides an App Action.
///
/// `windows` is every window belonging to the application, in Z-order with
/// the topmost first. `foreground` is the window the user is currently in,
/// whatever application owns it.
pub fn choose_window(windows: &[Window], foreground: Option<u64>) -> (target: AppTarget)
    ensures
        target == chosen(windows@, foreground),
{
    if windows.len() == 0 {
        return AppTarget::Launch;
    }
    let mut here: Vec<u64> = Vec::new();
    let mut i: usize = 0;
    while i < windows.len()
        invariant
            i <= windows@.len(),
            here@ == here_ids(windows@.take(i as int)),
        decreases windows.len() - i,
    {
        proof {
            assert(windows@.take(i + 1).drop_last() =~= windows@.take(i as int));
        }
        if windows[i].on_current_desktop {
            here.push(windows[i].id);
        }
        i = i + 1;
    }
    assert(windows@.take(windows@.len() as int) =~= windows@);
    // Nothing here, but the application is running: go to it. Raising a
    // window on another desktop switches to that desktop.
    if here.len() == 0 {
        return AppTarget::Raise(windows[0].id);
    }
    let topmost = here[0];
    // Not already in this application: raise its topmost window and stop.
    // The cycle only begins once the user is inside it.
    match foreground {
        Some(id) if id == topmost => {},
        _ => return AppTarget::Raise(topmost),
    }
    if here.len() == 1 {
        return AppTarget::Nothing;
    }
    AppTarget::Raise(next_after(&here, topmost))
}

/// The id after `id` in ascending order, wrapping round.
fn next_after(ids: &Vec<u64>, id: u64) -> (next: u64)
    requires
        ids@.len() > 0,
    ensures
        next == next_in_cycle(ids@, id),
{
    let mut count: usize = 0;
    let mut above: Option<u64> = None;
    let mut smallest: u64 = ids[0];
    let mut i: usize = 0;
    assert(ids@.take(1).drop_last() =~= Seq::<u64>::empty());
    while i < ids.len()
        invariant
            i <= ids@.len(),
            ids@.len() > 0,
            count == occurrences(ids@.take(i as int), id),
            count <= i,
            above == least_above(ids@.take(i as int), id),
            i > 0 ==> smallest == least(ids@.take(i as int)),
            i == 0 ==> smallest == ids@[0],
        decreases ids.len() - i,
    {
        let x = ids[i];
        proof {
            assert(ids@.take(i + 1).drop_last() =~= ids@.take(i as int));
            assert(ids@.take(i + 1).last() == x);
        }
        if x == id {
            count = count + 1;
        }
        if x > id {
            match above {
                None => above = Some(x),
                Some(best) => if x < best {
                    above = Some(x);
                },
            }
        }
        if i > 0 && x < smallest {
            smallest = x;
        }
        i = i + 1;
    }
    assert(ids@.take(ids@.len() as int) =~= ids@);
    if count >= 2 {
        id
    } else {
        match above {
            Some(next) => next,
            None => smallest,
        }
    }
}

/// How many ids lie in `lo..hi`.
pub open spec fn count_between(ids: Seq<u64>, lo: int, hi: int) -> nat
    decreases ids.len(),
{
    if ids.len() == 0 {
        0
    } else {
        count_between(ids.drop_last(), lo, hi) + if lo <= ids.last() < hi {
            1nat
        } else {
            0nat
        }
    }
}

/// An id's place in ascending order: how many ids are smaller.
pub open spec fn place(ids: Seq<u64>, id: u64) -> nat {
    count_between(ids, 0, id as int)
}

/// Where pressing the Chord again and again, `k` times, leads from `id`.
pub open spec fn cycled(ids: Seq<u64>, id: u64, k: nat) -> u64
    decreases k,
{
    if k == 0 {
        id
    } else {
        next_in_cycle(ids, cycled(ids, id, (k - 1) as nat))
    }
}

proof fn lemma_count_split(ids: Seq<u64>, lo: int, mid: int, hi: int)
    requires
        lo <= mid <= hi,
    ensures
        count_between(ids, lo, hi) == count_between(ids, lo, mid) + count_between(ids, mid, hi),
    decreases ids.len(),
{
    if ids.len() > 0 {
        lemma_count_split(ids.drop_last(), lo, mid, hi);
    }
}

proof fn lemma_count_all(ids: Seq<u64>)
    ensures
        count_between(ids, 0, u64::MAX + 1) == ids.len(),
    decreases ids.len(),
{
    if ids.len() > 0 {
        lemma_count_all(ids.drop_last());
    }
}

proof fn lemma_count_one(ids: Seq<u64>, id: u64)
    ensures
        count_between(ids, id as int, id + 1) == occurrences(ids, id),
    decreases ids.len(),
{
    if ids.len() > 0 {
        lemma_count_one(ids.drop_last(), id);
    }
}

proof fn lemma_count_none(ids: Seq<u64>, lo: int, hi: int)
    requires
        forall|j: int| 0 <= j < ids.len() ==> !(lo <= #[trigger] ids[j] < hi),
    ensures
        count_between(ids, lo, hi) == 0,
    decreases ids.len(),
{
    if ids.len() > 0 {
        let rest = ids.drop_last();
        assert forall|j: int| 0 <= j < rest.len() implies !(lo <= #[trigger] rest[j] < hi) by {
            assert(rest[j] == ids[j]);
        }
        assert(!(lo <= ids[ids.len() - 1] < hi));
        lemma_count_none(rest, lo, hi);
    }
}

proof fn lemma_count_some(ids: Seq<u64>, lo: int, hi: int, j: int)
    requires
        0 <= j < ids.len(),
        lo <= ids[j] < hi,
    ensures
        count_between(ids, lo, hi) >= 1,
    decreases ids.len(),
{
    if j < ids.len() - 1 {
        assert(ids.drop_last()[j] == ids[j]);
        lemma_count_some(ids.drop_last(), lo, hi, j);
    }
}

proof fn lemma_occurrences_distinct(ids: Seq<u64>, j: int)
    requires
        ids.no_duplicates(),
        0 <= j < ids.len(),
    ensures
        occurrences(ids, ids[j]) == 1,
{
    lemma_count_one(ids, ids[j]);
    lemma_count_split(ids, 0, ids[j] as int, u64::MAX + 1);
    let x = ids[j];
    let without = ids.remove(j);
    assert forall|k: int| 0 <= k < without.len() implies !(x <= #[trigger] without[k] < x + 1) by {
        if k < j {
            assert(without[k] == ids[k]);
        } else {
            assert(without[k] == ids[k + 1]);
        }
    }
    lemma_count_none(without, x as int, x + 1);
    lemma_count_remove(ids, j, x as int, x + 1);
}

proof fn lemma_count_remove(ids: Seq<u64>, j: int, lo: int, hi: int)
    requires
        0 <= j < ids.len(),
    ensures
        count_between(ids, lo, hi) == count_between(ids.remove(j), lo, hi) + if lo <= ids[j]
            < hi {
            1nat
        } else {
            0nat
        },
    decreases ids.len(),
{
    if j == ids.len() - 1 {
        assert(ids.remove(j) =~= ids.drop_last());
    } else {
        let rest = ids.drop_last();
        lemma_count_remove(rest, j, lo, hi);
        assert(ids.remove(j).drop_last() =~= rest.remove(j));
        assert(ids.remove(j).last() == ids.last());
    }
}

proof fn lemma_least_above(ids: Seq<u64>, id: u64)
    ensures
        least_above(ids, id) matches Some(m) ==> ids.contains(m) && m > id && forall|j: int|
            0 <= j < ids.len() && ids[j] > id ==> m <= #[trigger] ids[j],
        least_above(ids, id) is None ==> forall|j: int| 0 <= j < ids.len() ==> #[trigger] ids[j]
            <= id,
    decreases ids.len(),
{
    if ids.len() > 0 {
        let rest = ids.drop_last();
        let x = ids.last();
        lemma_least_above(rest, id);
        match least_above(ids, id) {
            Some(m) => {
                if m == x {
                    assert(ids[ids.len() - 1] == m);
                } else {
                    let k = choose|k: int| 0 <= k < rest.len() && rest[k] == m;
                    assert(ids[k] == m);
                }
                assert forall|j: int| 0 <= j < ids.len() && ids[j] > id implies m
                    <= #[trigger] ids[j] by {
                    if j < ids.len() - 1 {
                        assert(ids[j] == rest[j]);
                    }
                }
            },
            None => {
                assert forall|j: int| 0 <= j < ids.len() implies #[trigger] ids[j] <= id by {
                    if j < ids.len() - 1 {
                        assert(ids[j] == rest[j]);
                    }
                }
            },
        }
    }
}

proof fn lemma_least(ids: Seq<u64>)
    requires
        ids.len() > 0,
    ensures
        ids.contains(least(ids)),
        forall|j: int| 0 <= j < ids.len() ==> least(ids) <= #[trigger] ids[j],
    decreases ids.len(),
{
    if ids.len() > 1 {
        let rest = ids.drop_last();
        lemma_least(rest);
        let k = choose|k: int| 0 <= k < rest.len() && rest[k] == least(rest);
        assert(ids[k] == least(rest));
        assert(ids[ids.len() - 1] == ids.last());
        assert forall|j: int| 0 <= j < ids.len() implies least(ids) <= #[trigger] ids[j] by {
            if j < ids.len() - 1 {
                assert(ids[j] == rest[j]);
            }
        }
    } else {
        assert(ids[0] == least(ids));
    }
}

/// With every window's id different, pressing the Chord again moves one place
/// on in ascending order, wrapping from the last window to the first.
pub proof fn lemma_cycle_steps_one_place(ids: Seq<u64>, id: u64)
    requires
        ids.no_duplicates(),
        ids.len() >= 2,
        ids.contains(id),
    ensures
        ids.contains(next_in_cycle(ids, id)),
        place(ids, next_in_cycle(ids, id)) == (place(ids, id) + 1) % ids.len(),
{
    let n = ids.len() as int;
    let j = choose|j: int| 0 <= j < ids.len() && ids[j] == id;
    lemma_occurrences_distinct(ids, j);
    lemma_least_above(ids, id);
    lemma_count_one(ids, id);
    lemma_count_all(ids);
    match least_above(ids, id) {
        Some(m) => {
            lemma_count_split(ids, 0, id as int, m as int);
            lemma_count_split(ids, id as int, id + 1, m as int);
            assert forall|k: int| 0 <= k < ids.len() implies !(id + 1 <= #[trigger] ids[k]
                < m) by {}
            lemma_count_none(ids, id + 1, m as int);
            lemma_count_split(ids, 0, m as int, u64::MAX + 1);
            let k = choose|k: int| 0 <= k < ids.len() && ids[k] == m;
            lemma_count_split(ids, m as int, m + 1, u64::MAX + 1);
            lemma_count_one(ids, m);
            lemma_occurrences_distinct(ids, k);
            assert(place(ids, m) == place(ids, id) + 1);
            assert(place(ids, m) < n);
            vstd::arithmetic::div_mod::lemma_small_mod(place(ids, id) + 1, n as nat);
        },
        None => {
            lemma_least(ids);
            let lo = least(ids);
            assert forall|k: int| 0 <= k < ids.len() implies !(0 <= #[trigger] ids[k] < lo) by {}
            lemma_count_none(ids, 0, lo as int);
            lemma_count_split(ids, 0, id as int, u64::MAX + 1);
            lemma_count_split(ids, id as int, id + 1, u64::MAX + 1);
            assert forall|k: int| 0 <= k < ids.len() implies !(id + 1 <= #[trigger] ids[k]
                < u64::MAX + 1) by {}
            lemma_count_none(ids, id + 1, u64::MAX + 1);
            assert(place(ids, id) == n - 1);
            assert(place(ids, lo) == 0);
            vstd::arithmetic::div_mod::lemma_mod_self_0(n);
        },
    }
}

/// Ids with the same place are the same id.
proof fn lemma_place_injective(ids: Seq<u64>, a: u64, b: u64)
    requires
        ids.contains(a),
        ids.contains(b),
        place(ids, a) == place(ids, b),
    ensures
        a == b,
{
    if a < b {
        let j = choose|j: int| 0 <= j < ids.len() && ids[j] == a;
        lemma_count_split(ids, 0, a as int, b as int);
        lemma_count_some(ids, a as int, b as int, j);
    } else if b < a {
        let j = choose|j: int| 0 <= j < ids.len() && ids[j] == b;
        lemma_count_split(ids, 0, b as int, a as int);
        lemma_count_some(ids, b as int, a as int, j);
    }
}

proof fn lemma_cycled_place(ids: Seq<u64>, id: u64, k: nat)
    requires
        ids.no_duplicates(),
        ids.len() >= 2,
        ids.contains(id),
    ensures
        ids.contains(cycled(ids, id, k)),
        place(ids, cycled(ids, id, k)) == (place(ids, id) + k) % ids.len(),
    decreases k,
{
    let n = ids.len() as int;
    if k == 0 {
        let j = choose|j: int| 0 <= j < ids.len() && ids[j] == id;
        lemma_count_split(ids, 0, id as int, u64::MAX + 1);
        lemma_count_split(ids, id as int, id + 1, u64::MAX + 1);
        lemma_count_all(ids);
        lemma_count_one(ids, id);
        lemma_occurrences_distinct(ids, j);
        assert(place(ids, id) < n);
        vstd::arithmetic::div_mod::lemma_small_mod(place(ids, id), n as nat);
    } else {
        lemma_cycled_place(ids, id, (k - 1) as nat);
        let prev = cycled(ids, id, (k - 1) as nat);
        lemma_cycle_steps_one_place(ids, prev);
        let p = place(ids, id) as int;
        vstd::arithmetic::div_mod::lemma_add_mod_noop(p + k - 1, 1, n);
        vstd::arithmetic::div_mod::lemma_small_mod(1, n as nat);
    }
}

/// Pressing the Chord again and again visits every window of the
/// application on this desktop before coming back to the first: the cycle
/// wraps rather than bouncing between two.
pub proof fn lemma_cycle_visits_every_window(ids: Seq<u64>, id: u64)
    requires
        ids.no_duplicates(),
        ids.len() >= 2,
        ids.contains(id),
    ensures
        forall|i: nat, j: nat|
            i < j < ids.len() ==> #[trigger] cycled(ids, id, i) != #[trigger] cycled(ids, id, j),
        cycled(ids, id, ids.len()) == id,
{
    let n = ids.len() as int;
    assert forall|i: nat, j: nat| i < j < ids.len() implies #[trigger] cycled(ids, id, i)
        != #[trigger] cycled(ids, id, j) by {
        lemma_cycled_place(ids, id, i);
        lemma_cycled_place(ids, id, j);
        lemma_cycled_place(ids, id, 0);
        let p = place(ids, id) as int;
        if cycled(ids, id, i) == cycled(ids, id, j) {
            vstd::arithmetic::div_mod::lemma_mod_equivalence(p + j, p + i, n);
            vstd::arithmetic::div_mod::lemma_small_mod((j - i) as nat, n as nat);
            assert((p + j - (p + i)) == j - i);
        }
    }
    lemma_cycled_place(ids, id, ids.len());
    lemma_cycled_place(ids, id, 0);
    let p = place(ids, id) as int;
    vstd::arithmetic::div_mod::lemma_mod_add_multiples_vanish(p, n);
    lemma_place_injective(ids, cycled(ids, id, ids.len()), id);
}

proof fn lemma_here_ids_none(windows: Seq<Window>)
    requires
        forall|j: int| 0 <= j < windows.len() ==> !(#[trigger] windows[j]).on_current_desktop,
    ensures
        here_ids(windows).len() == 0,
    decreases windows.len(),
{
    if windows.len() > 0 {
        let rest = windows.drop_last();
        assert forall|j: int| 0 <= j < rest.len() implies !(#[trigger] rest[j]).on_current_desktop by {
            assert(rest[j] == windows[j]);
        }
        assert(!windows[windows.len() - 1].on_current_desktop);
        lemma_here_ids_none(rest);
    }
}

proof fn lemma_here_ids_first(windows: Seq<Window>, i: int)
    requires
        0 <= i < windows.len(),
        windows[i].on_current_desktop,
        forall|j: int| 0 <= j < i ==> !(#[trigger] windows[j]).on_current_desktop,
    ensures
        here_ids(windows).len() > 0,
        here_ids(windows)[0] == windows[i].id,
    decreases windows.len(),
{
    let rest = windows.drop_last();
    if i == windows.len() - 1 {
        assert forall|j: int| 0 <= j < rest.len() implies !(#[trigger] rest[j]).on_current_desktop by {
            assert(rest[j] == windows[j]);
        }
        lemma_here_ids_none(rest);
    } else {
        assert(rest[i] == windows[i]);
        assert forall|j: int| 0 <= j < i implies !(#[trigger] rest[j]).on_current_desktop by {
            assert(rest[j] == windows[j]);
        }
        lemma_here_ids_first(rest, i);
    }
}

/// An application that is not running is launched, whatever window the user
/// is in.
pub proof fn lemma_not_running_launches(foreground: Option<u64>)
    ensures
        chosen(Seq::<Window>::empty(), foreground) == AppTarget::Launch,
{
}

/// An application running only on other desktops: its topmost window is
/// raised, which takes the user to that window's desktop.
pub proof fn lemma_elsewhere_raises_topmost(windows: Seq<Window>, foreground: Option<u64>)
    requires
        windows.len() > 0,
        forall|j: int| 0 <= j < windows.len() ==> !(#[trigger] windows[j]).on_current_desktop,
    ensures
        chosen(windows, foreground) == AppTarget::Raise(windows[0].id),
{
    lemma_here_ids_none(windows);
}

/// When the user is not already in the application's topmost window on this
/// desktop, that window is raised: the first window of the Z-order list that
/// is on the current desktop, whatever its id and whatever lies below it.
pub proof fn lemma_raises_topmost_here(windows: Seq<Window>, foreground: Option<u64>, i: int)
    requires
        0 <= i < windows.len(),
        windows[i].on_current_desktop,
        forall|j: int| 0 <= j < i ==> !(#[trigger] windows[j]).on_current_desktop,
        foreground != Some(windows[i].id),
    ensures
        chosen(windows, foreground) == AppTarget::Raise(windows[i].id),
{
    lemma_here_ids_first(windows, i);
}

/// Already in the application's topmost window here, with no other window of
/// it on this desktop: there is nothing to do.
pub proof fn lemma_alone_and_frontmost_does_nothing(windows: Seq<Window>, i: int)
    requires
        0 <= i < windows.len(),
        windows[i].on_current_desktop,
        forall|j: int| 0 <= j < windows.len() && j != i ==> !(#[trigger] windows[j]).on_current_desktop,
    ensures
        chosen(windows, Some(windows[i].id)) == AppTarget::Nothing,
{
    lemma_here_ids_first(windows, i);
    lemma_here_ids_alone(windows, i);
}

proof fn lemma_here_ids_alone(windows: Seq<Window>, i: int)
    requires
        0 <= i < windows.len(),
        forall|j: int| 0 <= j < windows.len() && j != i ==> !(#[trigger] windows[j]).on_current_desktop,
    ensures
        here_ids(windows).len() <= 1,
    decreases windows.len(),
{
    let rest = windows.drop_last();
    if i == windows.len() - 1 {
        assert forall|j: int| 0 <= j < rest.len() implies !(#[trigger] rest[j]).on_current_desktop by {
            assert(rest[j] == windows[j]);
        }
        lemma_here_ids_none(rest);
    } else {
        assert forall|j: int| 0 <= j < rest.len() && j != i implies !(#[trigger] rest[j]).on_current_desktop by {
            assert(rest[j] == windows[j]);
        }
        assert(!windows[windows.len() - 1].on_current_desktop);
        lemma_here_ids_alone(rest, i);
    }
}

} // verus!
