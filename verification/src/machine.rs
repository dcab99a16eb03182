//! The Hyper state machine.
//!
//! It consumes abstract key events and returns a Verdict plus an optional
//! Effect. It makes no OS calls, reads no clock and performs no I/O: Tap is
//! not a duration but "did a Chord fire before Hyper came back up?", so there
//! is no state the Core can get stuck in.

use vstd::prelude::*;

use crate::action::{Action, Effect, KeyEvent, Outcome, TapAction, Verdict};
use crate::chord::{alt_bit, ctrl_bit, key_modifier, shift_bit, Chord, Modifiers};
use crate::keys::{key_index, lemma_key_rows, Key, KEY_COUNT};
use crate::table::BindingTable;

verus! {

/// A set of keys, one flag per row of the key table.
#[derive(Debug)]
struct KeySet {
    flags: [bool; 79],
}

impl View for KeySet {
    type V = Set<Key>;

    closed spec fn view(&self) -> Set<Key> {
        Set::new(|k: Key| self.flags@[key_index(k)])
    }
}

impl KeySet {
    fn new() -> (s: Self)
        ensures
            s@ == Set::<Key>::empty(),
    {
        let s = KeySet { flags: [false; 79] };
        proof {
            assert forall|k: Key| !s@.contains(k) by {
                lemma_key_rows(k);
            }
        }
        assert(s@ =~= Set::<Key>::empty());
        s
    }

    fn contains(&self, key: Key) -> (r: bool)
        ensures
            r == self@.contains(key),
    {
        proof {
            lemma_key_rows(key);
        }
        self.flags[key.index()]
    }

    /// Sets one flag; returns what it was.
    fn set(&mut self, key: Key, on: bool) -> (was: bool)
        ensures
            was == old(self)@.contains(key),
            final(self)@ == (if on {
                old(self)@.insert(key)
            } else {
                old(self)@.remove(key)
            }),
    {
        proof {
            lemma_key_rows(key);
        }
        let ghost before = self@;
        let i = key.index();
        let was = self.flags[i];
        self.flags[i] = on;
        proof {
            assert forall|k: Key| self@.contains(k) == (if on {
                before.insert(key)
            } else {
                before.remove(key)
            }).contains(k) by {
                lemma_key_rows(k);
                if k != key {
                    assert(key_index(k) != key_index(key));
                }
            }
        }
        assert(self@ =~= (if on {
            before.insert(key)
        } else {
            before.remove(key)
        }));
        was
    }
}

/// Everything the Core knows: its configuration and what it believes about
/// the keyboard.
pub struct CoreView {
    pub hyper: Key,
    pub tap: TapAction,
    pub bindings: Map<(u8, Key), Action>,
    /// Keys currently down. Whether Hyper is held, and whether a `Down` is
    /// auto-repeat rather than a new physical press, are both read off this.
    pub held: Set<Key>,
    /// Keys whose press was suppressed, so their release is suppressed too.
    pub swallowed: Set<Key>,
    /// Ordinary modifiers currently held.
    pub mods: u8,
    /// Whether a Chord has fired since Hyper went down.
    pub chord_fired: bool,
}

/// The Outcome that lets an event through.
pub open spec fn passed() -> Outcome {
    Outcome { verdict: Verdict::Pass, effect: None }
}

/// The Outcome that swallows an event and does nothing else.
pub open spec fn swallowed() -> Outcome {
    Outcome { verdict: Verdict::Suppress, effect: None }
}

/// A key going down.
pub open spec fn on_down(s: CoreView, key: Key) -> (CoreView, Outcome) {
    let repeat = s.held.contains(key);
    let held = s.held.insert(key);
    if key == s.hyper {
        // A fresh press of Hyper begins a new hold; its auto-repeat does not.
        (
            CoreView {
                held,
                swallowed: s.swallowed.insert(key),
                chord_fired: repeat && s.chord_fired,
                ..s
            },
            swallowed(),
        )
    } else if key_modifier(key) is Some {
        (CoreView { held, mods: s.mods | key_modifier(key).unwrap(), ..s }, passed())
    } else if !s.held.contains(s.hyper) {
        (CoreView { held, swallowed: s.swallowed.remove(key), ..s }, passed())
    } else if s.bindings.contains_key((s.mods, key)) && !repeat {
        (
            CoreView { held, swallowed: s.swallowed.insert(key), chord_fired: true, ..s },
            Outcome {
                verdict: Verdict::Suppress,
                effect: Some(Effect::Run(s.bindings[(s.mods, key)])),
            },
        )
    } else {
        (CoreView { held, swallowed: s.swallowed.insert(key), ..s }, swallowed())
    }
}

/// A key coming up.
pub open spec fn on_up(s: CoreView, key: Key) -> (CoreView, Outcome) {
    let held = s.held.remove(key);
    let was_swallowed = s.swallowed.contains(key);
    let after = CoreView { held, swallowed: s.swallowed.remove(key), ..s };
    if key_modifier(key) is Some {
        (CoreView { mods: s.mods & !key_modifier(key).unwrap(), ..after }, passed())
    } else if key != s.hyper {
        (after, if was_swallowed { swallowed() } else { passed() })
    } else if !was_swallowed {
        (after, passed())
    } else if s.chord_fired || s.tap == TapAction::Nothing {
        (after, swallowed())
    } else {
        (after, Outcome { verdict: Verdict::Suppress, effect: Some(Effect::Tap(s.tap)) })
    }
}

/// The Core's reply to one event, and what it believes afterwards.
pub open spec fn step(s: CoreView, event: KeyEvent) -> (CoreView, Outcome) {
    match event {
        KeyEvent::Down(key) => on_down(s, key),
        KeyEvent::Up(key) => on_up(s, key),
    }
}

/// A freshly started Core, believing nothing about the keyboard.
pub open spec fn fresh(hyper: Key, tap: TapAction, bindings: Map<(u8, Key), Action>) -> CoreView {
    CoreView {
        hyper,
        tap,
        bindings,
        held: Set::empty(),
        swallowed: Set::empty(),
        mods: 0,
        chord_fired: false,
    }
}

/// The Hyper state machine and Binding table.
#[derive(Debug)]
pub struct Core {
    hyper: Key,
    tap: TapAction,
    bindings: BindingTable,
    held: KeySet,
    swallowed: KeySet,
    mods: Modifiers,
    chord_fired: bool,
}

impl View for Core {
    type V = CoreView;

    closed spec fn view(&self) -> CoreView {
        CoreView {
            hyper: self.hyper,
            tap: self.tap,
            bindings: self.bindings@,
            held: self.held@,
            swallowed: self.swallowed@,
            mods: self.mods@,
            chord_fired: self.chord_fired,
        }
    }
}

impl Core {
    pub fn new(hyper: Key, tap: TapAction, bindings: BindingTable) -> (core: Self)
        ensures
            core@ == fresh(hyper, tap, bindings@),
    {
        Core {
            hyper,
            tap,
            bindings,
            held: KeySet::new(),
            swallowed: KeySet::new(),
            mods: Modifiers::none(),
            chord_fired: false,
        }
    }

    /// Drops everything the Core believed about the keyboard.
    ///
    /// Called when Footman stops or starts watching. While it is paused keys
    /// go down and come up unseen, so anything remembered from before is not
    /// merely stale but wrong.
    pub fn forget(&mut self)
        ensures
            final(self)@ == fresh(old(self)@.hyper, old(self)@.tap, old(self)@.bindings),
    {
        self.held = KeySet::new();
        self.swallowed = KeySet::new();
        self.mods = Modifiers::none();
        self.chord_fired = false;
    }

    /// Rules on one key event.
    pub fn on_event(&mut self, event: KeyEvent) -> (outcome: Outcome)
        ensures
            (final(self)@, outcome) == step(old(self)@, event),
    {
        match event {
            KeyEvent::Down(key) => self.on_down(key),
            KeyEvent::Up(key) => self.on_up(key),
        }
    }

    fn hyper_held(&self) -> (r: bool)
        ensures
            r == self@.held.contains(self@.hyper),
    {
        self.held.contains(self.hyper)
    }

    fn on_down(&mut self, key: Key) -> (outcome: Outcome)
        ensures
            (final(self)@, outcome) == on_down(old(self)@, key),
    {
        let repeat = self.held.set(key, true);

        if key == self.hyper {
            // Auto-repeat of Hyper is the same hold: a Chord that fired during
            // it still rules out a Tap.
            if !repeat {
                self.chord_fired = false;
            }
            self.swallowed.set(key, true);
            return Outcome::suppress();
        }
        if let Some(modifier) = key.as_modifier() {
            self.mods.insert(modifier);
            // A modifier alone does nothing visible, so passing it keeps the
            // OS's own modifier state in step with ours.
            return Outcome::pass();
        }
        if !self.hyper_held() {
            // This press reaches the application, so its release must too,
            // even if an earlier press of the same key, under Hyper, did not.
            self.swallowed.set(key, false);
            return Outcome::pass();
        }
        // Whatever the lookup says, this press is Footman's; its release is
        // Footman's too.
        self.swallowed.set(key, true);

        let chord = Chord::key(key).with(self.mods);
        let found = match self.bindings.get(&chord) {
            Some(action) => Some(action.clone()),
            None => None,
        };
        // An Action fires once per physical press; auto-repeat is still
        // swallowed, but does nothing.
        match found {
            Some(action) => {
                if repeat {
                    Outcome::suppress()
                } else {
                    self.chord_fired = true;
                    Outcome::fire(action)
                }
            },
            None => Outcome::suppress(),
        }
    }

    fn on_up(&mut self, key: Key) -> (outcome: Outcome)
        ensures
            (final(self)@, outcome) == on_up(old(self)@, key),
    {
        self.held.set(key, false);
        let swallowed = self.swallowed.set(key, false);

        if let Some(modifier) = key.as_modifier() {
            self.mods.remove(modifier);
            return Outcome::pass();
        }
        if key != self.hyper {
            return if swallowed {
                Outcome::suppress()
            } else {
                Outcome::pass()
            };
        }
        // A release whose press Footman never saw: the key was already down
        // when the hook was installed, or went down while Footman was paused.
        // The application has the press; suppressing the release would strand
        // the key held for ever.
        if !swallowed {
            return Outcome::pass();
        }
        // Tap is not a duration: it is simply "Hyper came back up and no Chord
        // fired in between".
        if self.chord_fired {
            Outcome::suppress()
        } else {
            match self.tap {
                TapAction::Nothing => Outcome::suppress(),
                tap => Outcome::tap(tap),
            }
        }
    }
}

/// The key an event is about.
pub open spec fn event_key(e: KeyEvent) -> Key {
    match e {
        KeyEvent::Down(k) => k,
        KeyEvent::Up(k) => k,
    }
}

/// What the Core answers to events one after another, and what it believes
/// at the end.
pub open spec fn run(s: CoreView, events: Seq<KeyEvent>) -> (CoreView, Seq<Outcome>)
    decreases events.len(),
{
    if events.len() == 0 {
        (s, Seq::empty())
    } else {
        let (mid, said) = run(s, events.drop_last());
        let (end, last) = step(mid, events.last());
        (end, said.push(last))
    }
}

/// Whether an Outcome asks for an Action to be carried out.
pub open spec fn fires(o: Outcome) -> bool {
    o.effect matches Some(Effect::Run(_))
}

/// A run answers every event once and never changes what the Core was
/// configured with.
pub proof fn lemma_run_shape(s: CoreView, events: Seq<KeyEvent>)
    ensures
        run(s, events).1.len() == events.len(),
        run(s, events).0.hyper == s.hyper,
        run(s, events).0.tap == s.tap,
        run(s, events).0.bindings == s.bindings,
    decreases events.len(),
{
    if events.len() > 0 {
        lemma_run_shape(s, events.drop_last());
    }
}

/// The fail-open guarantee: if the Hyper Key is never pressed, Footman is
/// invisible. It swallows no key and fires nothing, whatever is typed, stray
/// releases of the Hyper Key included.
pub proof fn lemma_untouched_hyper_is_invisible(s: CoreView, events: Seq<KeyEvent>)
    requires
        !s.held.contains(s.hyper),
        s.swallowed == Set::<Key>::empty(),
        forall|i: int| 0 <= i < events.len() ==> #[trigger] events[i] != KeyEvent::Down(s.hyper),
    ensures
        run(s, events).1.len() == events.len(),
        forall|i: int| 0 <= i < events.len() ==> #[trigger] run(s, events).1[i] == passed(),
        !run(s, events).0.held.contains(s.hyper),
        run(s, events).0.swallowed == Set::<Key>::empty(),
    decreases events.len(),
{
    lemma_run_shape(s, events);
    if events.len() > 0 {
        let rest = events.drop_last();
        assert forall|i: int| 0 <= i < rest.len() implies #[trigger] rest[i] != KeyEvent::Down(
            s.hyper,
        ) by {
            assert(rest[i] == events[i]);
        }
        lemma_untouched_hyper_is_invisible(s, rest);
        lemma_run_shape(s, rest);
        let mid = run(s, rest).0;
        let e = events.last();
        assert(events[events.len() - 1] != KeyEvent::Down(s.hyper));
        assert(mid.swallowed.remove(event_key(e)) =~= Set::<Key>::empty());
        assert(!mid.swallowed.contains(event_key(e)));
    }
}

/// With nothing bound, no event can ever make an Action run; with the Tap
/// Action off as well, no event has any Effect at all. An empty
/// configuration is inert, not dangerous.
pub proof fn lemma_nothing_bound_fires_nothing(s: CoreView, events: Seq<KeyEvent>)
    requires
        s.bindings == Map::<(u8, Key), Action>::empty(),
    ensures
        run(s, events).1.len() == events.len(),
        forall|i: int| 0 <= i < events.len() ==> !fires(#[trigger] run(s, events).1[i]),
        s.tap == TapAction::Nothing ==> forall|i: int|
            0 <= i < events.len() ==> (#[trigger] run(s, events).1[i]).effect is None,
    decreases events.len(),
{
    lemma_run_shape(s, events);
    if events.len() > 0 {
        lemma_nothing_bound_fires_nothing(s, events.drop_last());
        lemma_run_shape(s, events.drop_last());
    }
}

/// However long a key is held, its Action runs at most once: a `Down` of a key
/// already down is auto-repeat, and fires nothing.
pub proof fn lemma_repeat_never_fires(s: CoreView, key: Key)
    requires
        s.held.contains(key),
    ensures
        !fires(step(s, KeyEvent::Down(key)).1),
        step(s, KeyEvent::Down(key)).0.held.contains(key),
{
}

/// `n` key-downs of one key with no release between them.
pub open spec fn presses(key: Key, n: nat) -> Seq<KeyEvent> {
    Seq::new(n, |j: int| KeyEvent::Down(key))
}

/// Pressing a key once and then holding it for any number of repeats fires at
/// most once, on the first press.
pub proof fn lemma_held_key_fires_once(s: CoreView, key: Key, repeats: nat)
    ensures
        forall|i: int|
            1 <= i < repeats + 1 ==> !fires(#[trigger] run(s, presses(key, repeats + 1)).1[i]),
        run(s, presses(key, repeats + 1)).0.held.contains(key),
    decreases repeats,
{
    let events = presses(key, repeats + 1);
    lemma_run_shape(s, events);
    if repeats == 0 {
        assert(events.drop_last() =~= Seq::<KeyEvent>::empty());
    } else {
        let shorter = presses(key, repeats);
        assert(events.drop_last() =~= shorter);
        lemma_held_key_fires_once(s, key, (repeats - 1) as nat);
        lemma_run_shape(s, shorter);
        lemma_repeat_never_fires(run(s, shorter).0, key);
    }
}

/// While Hyper is held, the normal keyboard is suspended: a key that is not a
/// modifier never reaches the application.
pub proof fn lemma_hyper_suspends_the_keyboard(s: CoreView, key: Key)
    requires
        s.held.contains(s.hyper),
        key_modifier(key) is None,
    ensures
        step(s, KeyEvent::Down(key)).1.verdict == Verdict::Suppress,
{
}

/// A release goes where its press went: released straight after being
/// pressed, an ordinary key is suppressed exactly when its press was.
pub proof fn lemma_release_follows_press(s: CoreView, key: Key)
    requires
        key != s.hyper,
        key_modifier(key) is None,
    ensures
        step(step(s, KeyEvent::Down(key)).0, KeyEvent::Up(key)).1.verdict == step(
            s,
            KeyEvent::Down(key),
        ).1.verdict,
        step(step(s, KeyEvent::Down(key)).0, KeyEvent::Up(key)).1.effect is None,
{
}

/// Whether some Outcome among `said` fired an Action.
pub open spec fn any_fired(said: Seq<Outcome>) -> bool {
    exists|i: int| 0 <= i < said.len() && #[trigger] fires(said[i])
}

/// What releasing Hyper says at the end of a hold.
pub open spec fn release_of_hold(tap: TapAction, chord_fired: bool) -> Outcome {
    if chord_fired || tap == TapAction::Nothing {
        swallowed()
    } else {
        Outcome { verdict: Verdict::Suppress, effect: Some(Effect::Tap(tap)) }
    }
}

proof fn lemma_hold(s: CoreView, during: Seq<KeyEvent>)
    requires
        s.held.contains(s.hyper),
        s.swallowed.contains(s.hyper),
        forall|i: int| 0 <= i < during.len() ==> #[trigger] during[i] != KeyEvent::Up(s.hyper),
    ensures
        run(s, during).0.held.contains(s.hyper),
        run(s, during).0.swallowed.contains(s.hyper),
        run(s, during).0.chord_fired == (s.chord_fired || any_fired(run(s, during).1)),
        run(s, during).0.hyper == s.hyper,
        run(s, during).0.tap == s.tap,
        run(s, during).1.len() == during.len(),
    decreases during.len(),
{
    if during.len() > 0 {
        let rest = during.drop_last();
        assert forall|i: int| 0 <= i < rest.len() implies #[trigger] rest[i] != KeyEvent::Up(
            s.hyper,
        ) by {
            assert(rest[i] == during[i]);
        }
        lemma_hold(s, rest);
        let (mid, said) = run(s, rest);
        let last = during[during.len() - 1];
        let (end, out) = step(mid, last);
        let all = said.push(out);
        assert(run(s, during).1 == all);
        if any_fired(said) {
            let i = choose|i: int| 0 <= i < said.len() && #[trigger] fires(said[i]);
            assert(all[i] == said[i]);
        }
        if fires(out) {
            assert(all[all.len() - 1] == out);
        }
        if any_fired(all) {
            let i = choose|i: int| 0 <= i < all.len() && #[trigger] fires(all[i]);
            if i < said.len() {
                assert(said[i] == all[i]);
            }
        }
    }
}

/// A Tap is Hyper released with no Chord fired since it went down: a hold of
/// Hyper is its fresh press, then any events but its release, auto-repeat of
/// Hyper itself included. Releasing it resolves to the Tap Action exactly when
/// no event of the hold fired an Action, and is swallowed otherwise; the press
/// is never seen by the system either.
pub proof fn lemma_tap(s: CoreView, during: Seq<KeyEvent>)
    requires
        key_modifier(s.hyper) is None,
        !s.held.contains(s.hyper),
        forall|i: int| 0 <= i < during.len() ==> #[trigger] during[i] != KeyEvent::Up(s.hyper),
    ensures
        ({
            let pressed = step(s, KeyEvent::Down(s.hyper));
            let (later, said) = run(pressed.0, during);
            &&& pressed.1 == swallowed()
            &&& step(later, KeyEvent::Up(s.hyper)).1 == release_of_hold(s.tap, any_fired(said))
        }),
{
    let pressed = step(s, KeyEvent::Down(s.hyper));
    lemma_hold(pressed.0, during);
}

/// A release of Hyper with no press of it since the last release passes: the
/// application has whatever press there was.
pub proof fn lemma_stray_hyper_release_passes(s: CoreView)
    requires
        !s.swallowed.contains(s.hyper),
    ensures
        step(s, KeyEvent::Up(s.hyper)).1 == passed(),
{
}

/// The Hyper Key's press is swallowed whatever state the Core is in: the
/// system never observes a Hyper press.
pub proof fn lemma_hyper_press_is_never_seen(s: CoreView)
    ensures
        step(s, KeyEvent::Down(s.hyper)).1 == swallowed(),
        step(s, KeyEvent::Down(s.hyper)).0.held.contains(s.hyper),
{
}

/// Only a bound Chord fires, only while Hyper is held, only on the press of
/// its key, and what it fires is exactly the Action bound to it.
pub proof fn lemma_only_bound_chords_fire(s: CoreView, event: KeyEvent)
    requires
        fires(step(s, event).1),
    ensures
        s.held.contains(s.hyper),
        event matches KeyEvent::Down(key) && key != s.hyper && s.bindings.contains_key((s.mods, key))
            && step(s, event).1 == (Outcome {
            verdict: Verdict::Suppress,
            effect: Some(Effect::Run(s.bindings[(s.mods, key)])),
        }),
{
}

proof fn lemma_run_keeps_swallowed(s: CoreView, events: Seq<KeyEvent>, key: Key)
    requires
        forall|i: int| 0 <= i < events.len() ==> event_key(#[trigger] events[i]) != key,
    ensures
        run(s, events).0.swallowed.contains(key) == s.swallowed.contains(key),
    decreases events.len(),
{
    if events.len() > 0 {
        lemma_run_keeps_swallowed(s, events.drop_last(), key);
        assert(event_key(events[events.len() - 1]) != key);
    }
}

/// Keystrokes stay whole, whatever happens to other keys in between: an
/// ordinary key whose press the application saw, it sees released, and one
/// whose press Footman swallowed, Footman swallows released. No application is
/// ever left holding half a keystroke.
pub proof fn lemma_keystrokes_stay_whole(s: CoreView, key: Key, between: Seq<KeyEvent>)
    requires
        key != s.hyper,
        key_modifier(key) is None,
        forall|i: int| 0 <= i < between.len() ==> event_key(#[trigger] between[i]) != key,
    ensures
        ({
            let pressed = step(s, KeyEvent::Down(key));
            let later = run(pressed.0, between).0;
            &&& step(later, KeyEvent::Up(key)).1.verdict == pressed.1.verdict
            &&& step(later, KeyEvent::Up(key)).1.effect is None
        }),
{
    let pressed = step(s, KeyEvent::Down(key));
    lemma_run_shape(pressed.0, between);
    lemma_run_keeps_swallowed(pressed.0, between, key);
}

/// A Core just made, or just told to forget, is invisible for as long as its
/// Hyper Key is not pressed.
pub proof fn lemma_fresh_core_is_invisible(
    hyper: Key,
    tap: TapAction,
    bindings: Map<(u8, Key), Action>,
    events: Seq<KeyEvent>,
)
    requires
        forall|i: int| 0 <= i < events.len() ==> #[trigger] events[i] != KeyEvent::Down(hyper),
    ensures
        forall|i: int|
            0 <= i < events.len() ==> #[trigger] run(fresh(hyper, tap, bindings), events).1[i]
                == passed(),
{
    lemma_untouched_hyper_is_invisible(fresh(hyper, tap, bindings), events);
}

/// The bit each modifier key stands for in a Chord.
pub open spec fn modifier_bit(m: Key) -> u8 {
    if m == Key::Shift {
        shift_bit()
    } else if m == Key::Ctrl {
        ctrl_bit()
    } else {
        alt_bit()
    }
}

proof fn lemma_set_and_clear(x: u8, b: u8)
    by (bit_vector)
    ensures
        (x | b) & b == b,
        (x | b) & !b == x & !b,
        (x & !b) & b == 0,
        (x & !b) & !b == x & !b,
{
}

/// A modifier held down counts in the Chord, and once released it no longer
/// does: its press sets its own bit and its release clears it, leaving the
/// other modifiers as they were, and neither is hidden from the system.
pub proof fn lemma_modifier_press_and_release(s: CoreView, m: Key)
    requires
        m == Key::Shift || m == Key::Ctrl || m == Key::Alt,
    ensures
        m != s.hyper ==> step(s, KeyEvent::Down(m)).0.mods & modifier_bit(m) == modifier_bit(m)
            && step(s, KeyEvent::Down(m)).0.mods & !modifier_bit(m) == s.mods & !modifier_bit(m)
            && step(s, KeyEvent::Down(m)).1 == passed(),
        step(s, KeyEvent::Up(m)).0.mods & modifier_bit(m) == 0,
        step(s, KeyEvent::Up(m)).0.mods & !modifier_bit(m) == s.mods & !modifier_bit(m),
        step(s, KeyEvent::Up(m)).1 == passed(),
{
    lemma_set_and_clear(s.mods, modifier_bit(m));
}

/// A modifier pressed and released before Hyper is no part of the Chord: with
/// Hyper then held, the key fires the Binding of the modifiers still down,
/// not one that includes the released modifier.
pub proof fn lemma_released_modifier_leaves_the_chord(s: CoreView, m: Key, key: Key)
    requires
        m == Key::Shift || m == Key::Ctrl || m == Key::Alt,
        m != s.hyper,
        key != s.hyper,
        key != Key::Shift && key != Key::Ctrl && key != Key::Alt,
        !s.held.contains(key),
        s.bindings.contains_key((s.mods & !modifier_bit(m), key)),
    ensures
        ({
            let pressed = step(s, KeyEvent::Down(m)).0;
            let released = step(pressed, KeyEvent::Up(m)).0;
            let hyper_down = step(released, KeyEvent::Down(s.hyper)).0;
            step(hyper_down, KeyEvent::Down(key)).1 == (Outcome {
                verdict: Verdict::Suppress,
                effect: Some(Effect::Run(s.bindings[(s.mods & !modifier_bit(m), key)])),
            })
        }),
{
    let pressed = step(s, KeyEvent::Down(m)).0;
    lemma_modifier_press_and_release(s, m);
    lemma_modifier_press_and_release(pressed, m);
    let released = step(pressed, KeyEvent::Up(m)).0;
    lemma_set_and_clear(s.mods, modifier_bit(m));
    assert(released.mods == (s.mods | modifier_bit(m)) & !modifier_bit(m));
    assert(released.mods == s.mods & !modifier_bit(m));
}

} // verus!
