//! Inferring whether the keyboard hook is still installed.
//!
//! Windows uninstalls a low-level hook whose callback overruns
//! `LowLevelHooksTimeout` and reports nothing: the process keeps running and
//! silently stops seeing keys. Nor is there an API to ask whether a hook is
//! still in place. So liveness is inferred from a disagreement: the system
//! recorded input that our hook never saw.
//!
//! Everything here takes tick counts as arguments rather than reading a clock,
//! so the policy holds for every reading the clock could give.

use vstd::prelude::*;

verus! {

/// What the evidence says about the hook.
#[derive(Debug, Clone, Copy, PartialEq, Eq, Structural)]
pub enum Health {
    Alive,
    /// Input happened that we did not see. Reinstall.
    Dead,
}

/// The verdict on a hook last seen alive at `last_seen`, given how long it may
/// stay quiet, the time now and the system's last input of any kind.
pub open spec fn health(quiet_ms: u64, last_seen: u64, now: u64, system_last_input: u64) -> Health {
    let quiet_for = if now >= last_seen {
        now - last_seen
    } else {
        0
    };
    if quiet_for >= quiet_ms && system_last_input > last_seen {
        Health::Dead
    } else {
        Health::Alive
    }
}

/// Watches for the gap between what the system saw and what we saw.
#[derive(Debug)]
pub struct HookWatch {
    /// How long we tolerate seeing nothing before the comparison means anything.
    quiet_ms: u64,
    /// Tick of the last key event our hook observed, or of the last reinstall.
    last_seen: u64,
}

impl HookWatch {
    /// The tolerated quiet spell.
    pub closed spec fn quiet(self) -> u64 {
        self.quiet_ms
    }

    /// The tick of the last evidence that the hook was alive.
    pub closed spec fn last(self) -> u64 {
        self.last_seen
    }

    pub fn new(quiet_ms: u64, now: u64) -> (watch: Self)
        ensures
            watch.quiet() == quiet_ms,
            watch.last() == now,
    {
        Self { quiet_ms, last_seen: now }
    }

    /// Our hook saw a key event, so it is demonstrably alive.
    pub fn saw_key(&mut self, now: u64)
        ensures
            final(self).quiet() == old(self).quiet(),
            final(self).last() == now,
    {
        self.last_seen = now;
    }

    /// The hook was reinstalled, so earlier evidence no longer applies.
    pub fn reinstalled(&mut self, now: u64)
        ensures
            final(self).quiet() == old(self).quiet(),
            final(self).last() == now,
    {
        self.last_seen = now;
    }

    /// `system_last_input` is the tick of the last input of any kind, as
    /// `GetLastInputInfo` reports it.
    ///
    /// It counts mouse input too, which our keyboard hook would never see, so a
    /// spell of mouse-only work reads as death. That false positive is
    /// accepted: its only cost is an unnecessary reinstall, whereas the false
    /// negative is Footman sitting there looking fine and responding to
    /// nothing.
    pub fn check(&self, now: u64, system_last_input: u64) -> (h: Health)
        ensures
            h == health(self.quiet(), self.last(), now, system_last_input),
    {
        let quiet_for_long_enough = now.saturating_sub(self.last_seen) >= self.quiet_ms;
        let system_saw_more_than_us = system_last_input > self.last_seen;

        if quiet_for_long_enough && system_saw_more_than_us {
            Health::Dead
        } else {
            Health::Alive
        }
    }
}

/// Fresh evidence of life (a key seen, or a reinstall, at `last`) keeps a hook
/// alive for every reading before the tolerated quiet spell is up, and for
/// every reading in which the system saw nothing newer than that evidence.
pub proof fn lemma_fresh_evidence_keeps_hook_alive(
    quiet_ms: u64,
    last: u64,
    now: u64,
    system_last_input: u64,
)
    ensures
        now < last + quiet_ms ==> health(quiet_ms, last, now, system_last_input) == Health::Alive
            || quiet_ms == 0,
        system_last_input <= last ==> health(quiet_ms, last, now, system_last_input)
            == Health::Alive,
{
}

/// The 32-bit tick `short` read on the 64-bit clock: the latest tick no later
/// than `now` whose low 32 bits are `short`.
pub open spec fn lifted(now: u64, short: u32) -> int {
    let high = now - now % 0x1_0000_0000;
    if high + short > now {
        high + short - 0x1_0000_0000
    } else {
        high + short
    }
}

/// Reads a 32-bit tick count on the 64-bit clock.
///
/// `GetLastInputInfo` reports the shorter one and `GetTickCount64` the
/// longer, and they agree only until the shorter wraps, about seven weeks
/// after a machine is switched on. Compared raw after that, the system's last
/// input would look like it happened at the dawn of the clock and the watchdog
/// could never notice a dead hook again.
///
/// A reading from before the clock's first turn that lies in the future has
/// no turn before it to belong to; such readings are not taken.
pub fn same_clock(now: u64, short: u32) -> (tick: u64)
    requires
        now >= 0x1_0000_0000 || short <= now,
    ensures
        tick == lifted(now, short),
        tick <= now,
        tick % 0x1_0000_0000 == short,
        now - tick < 0x1_0000_0000,
{
    let high = now & !0xFFFF_FFFFu64;
    let lifted_tick = high | (short as u64);
    assert(high == now - now % 0x1_0000_0000) by (bit_vector)
        requires
            high == now & !0xFFFF_FFFFu64,
    ;
    assert(high % 0x1_0000_0000 == 0) by (bit_vector)
        requires
            high == now & !0xFFFF_FFFFu64,
    ;
    assert(lifted_tick == high + short) by (bit_vector)
        requires
            high % 0x1_0000_0000 == 0,
            lifted_tick == high | (short as u64),
    ;
    if lifted_tick > now {
        assert(high >= 0x1_0000_0000);
        lifted_tick - 0x1_0000_0000
    } else {
        lifted_tick
    }
}

} // verus!
