//! The death watch and the out-of-combat clock. Time is a monotonic
//! millisecond count handed in by the caller.

use vstd::prelude::*;

verus! {

/// Grace period between noticing our own death and requesting respawn.
pub const RESPAWN_DELAY_MS: u64 = 5000;

/// Milliseconds from `from` to `to`, zero when `to` is the earlier one.
pub open spec fn elapsed(from: u64, to: u64) -> int {
    if to >= from { to - from } else { 0 }
}

/// What the death watch says at `now`, and what it remembers afterwards.
pub open spec fn respawn_watch(dead: bool, dead_since: Option<u64>, now: u64) -> (bool, Option<u64>) {
    if !dead {
        (false, None)
    } else {
        match dead_since {
            None => (false, Some(now)),
            Some(t) => if elapsed(t, now) >= RESPAWN_DELAY_MS {
                (true, None)
            } else {
                (false, Some(t))
            },
        }
    }
}

/// Death watch: fires once `dead` has held for `RESPAWN_DELAY_MS`, then
/// re-arms so a lost request is retried after another delay. Revival clears
/// it.
pub fn respawn_due(dead: bool, dead_since: &mut Option<u64>, now: u64) -> (fire: bool)
    ensures
        (fire, *final(dead_since)) == respawn_watch(dead, *old(dead_since), now),
{
    if !dead {
        *dead_since = None;
        return false;
    }
    match *dead_since {
        None => {
            *dead_since = Some(now);
            false
        },
        Some(t) => {
            if now.saturating_sub(t) >= RESPAWN_DELAY_MS {
                *dead_since = None;
                true
            } else {
                false
            }
        },
    }
}

/// When we last traded a blow, against how long the server keeps us in
/// combat after one. Nothing on the wire reports the window, so the clock is
/// kept from the messages that carry a blow either way.
#[derive(Debug, Clone, Copy)]
pub struct CombatClock {
    pub last_blow: Option<u64>,
    pub window_ms: u64,
}

impl CombatClock {
    /// A clock that has never seen a blow.
    pub fn new(window_ms: u64) -> (c: Self)
        ensures
            c.last_blow is None,
            c.window_ms == window_ms,
    {
        CombatClock { last_blow: None, window_ms }
    }

    /// A blow landed either way at `now`.
    pub fn note_combat(&mut self, now: u64)
        ensures
            final(self).last_blow == Some(now),
            final(self).window_ms == old(self).window_ms,
    {
        self.last_blow = Some(now);
    }

    /// Whether we are still in combat at `now`: a blow within the window.
    pub fn in_combat(&self, now: u64) -> (r: bool)
        ensures
            r == (self.last_blow matches Some(t) && elapsed(t, now) < self.window_ms),
    {
        match self.last_blow {
            Some(t) => now.saturating_sub(t) < self.window_ms,
            None => false,
        }
    }
}

/// The death watch fires only once death has held for the whole delay, and
/// firing re-arms it: the very next look, however late, does not fire again
/// but starts a new delay. Revival clears it.
pub proof fn law_respawn_fires_only_after_the_delay(dead: bool, since: Option<u64>, now: u64, later: u64)
    ensures
        respawn_watch(dead, since, now).0 ==> dead && (since matches Some(t) && elapsed(t, now)
            >= RESPAWN_DELAY_MS),
        respawn_watch(dead, since, now).0 ==> respawn_watch(dead, since, now).1 is None
            && !respawn_watch(dead, respawn_watch(dead, since, now).1, later).0,
        !dead ==> respawn_watch(dead, since, now) == (false, None::<u64>),
{
}

/// A blow starts the out-of-combat clock: right after it we are in combat,
/// for any window longer than nothing.
pub proof fn law_a_blow_starts_the_clock(window_ms: u64, now: u64)
    ensures
        (Some(now) matches Some(t) && elapsed(t, now) < window_ms) == (window_ms > 0),
{
}

} // verus!
