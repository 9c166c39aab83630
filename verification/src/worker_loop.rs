//! The rule-based worker's loop, tick by tick: how long it sleeps, what
//! death does, that whatever hits us becomes the target, that staying
//! alive comes before the next swing, when a swing is due, and where the
//! last kill fell. The caller performs what each tick decides (the rescue
//! steps, the swing, the next step of the worker's purpose) and hands back
//! what came of it. Time is a monotonic millisecond count; `P` is a
//! position, carried and never inspected.

use vstd::prelude::*;

use crate::timers::{elapsed, respawn_watch, respawn_due};

verus! {

/// How long the worker sleeps between ticks when it is not fighting.
pub const IDLE_TICK_MS: u64 = 500;

/// The shortest sleep between ticks.
pub const MIN_TICK_MS: u64 = 50;

/// What the loop carries from tick to tick.
pub struct WorkerLoop<P> {
    /// The monster being fought.
    pub attack_target: Option<String>,
    /// When the last swing went out; none when the next may go at once.
    pub last_attack_at: Option<u64>,
    /// When we were first seen dead, for the respawn delay.
    pub dead_since: Option<u64>,
    /// Where the target stood the last time we could see it.
    pub last_seen: Option<P>,
}

/// What a tick does once the world has been read.
#[derive(Debug, Clone, Copy, PartialEq, Eq, Structural)]
pub enum Phase {
    /// We are dead: nothing else runs; `respawn` says the request is due.
    Dead { respawn: bool },
    /// Run the rescue steps (drink, read, eat) before anything else.
    Rescue,
    /// Swing at the target now.
    Swing,
    /// Fighting, but the swing is not due yet.
    Cooling,
    /// Nothing to fight: the next step of the worker's purpose.
    Decide,
}

/// Whether a swing is due at `now`.
pub open spec fn swing_due(last: Option<u64>, now: u64, cooldown: u64) -> bool {
    match last {
        Some(t) => elapsed(t, now) >= cooldown,
        None => true,
    }
}

/// How long to sleep before the next tick: what is left of the cooldown
/// while fighting, the idle tick otherwise, never less than the floor.
pub open spec fn wait_spec(fighting: bool, last: Option<u64>, now: u64, cooldown: u64) -> int {
    let w: int = if fighting {
        match last {
            Some(t) => if elapsed(t, now) >= cooldown {
                0
            } else {
                cooldown - elapsed(t, now)
            },
            None => 0,
        }
    } else {
        IDLE_TICK_MS as int
    };
    if w > MIN_TICK_MS {
        w
    } else {
        MIN_TICK_MS as int
    }
}

/// One tick, after the world was read.
pub open spec fn tick_spec<P>(
    l: WorkerLoop<P>,
    dead: bool,
    attacker: Option<String>,
    rescue: bool,
    now: u64,
    cooldown: u64,
) -> (Phase, WorkerLoop<P>) {
    let (respawn, dead_since) = respawn_watch(dead, l.dead_since, now);
    if dead {
        (Phase::Dead { respawn }, WorkerLoop { attack_target: None, dead_since, ..l })
    } else {
        let target = match attacker {
            Some(id) => Some(id),
            None => l.attack_target,
        };
        let next = WorkerLoop { attack_target: target, dead_since, ..l };
        let phase = if rescue {
            Phase::Rescue
        } else if target is Some {
            if swing_due(l.last_attack_at, now, cooldown) {
                Phase::Swing
            } else {
                Phase::Cooling
            }
        } else {
            Phase::Decide
        };
        (phase, next)
    }
}

/// The swing went out at `now`; `keep_fighting` says the target stands.
pub open spec fn swung_spec<P>(l: WorkerLoop<P>, keep_fighting: bool, now: u64) -> (
    Option<(P, u32)>,
    WorkerLoop<P>,
) {
    if keep_fighting {
        (None, WorkerLoop { last_attack_at: Some(now), ..l })
    } else {
        (
            match l.last_seen {
                Some(p) => Some((p, 0u32)),
                None => None,
            },
            WorkerLoop { last_attack_at: Some(now), attack_target: None, last_seen: None, ..l },
        )
    }
}

/// The worker's step picked `target` to fight.
pub open spec fn engage_spec<P>(l: WorkerLoop<P>, target: String) -> WorkerLoop<P> {
    WorkerLoop { attack_target: Some(target), last_attack_at: None, ..l }
}

impl<P: Copy> WorkerLoop<P> {
    /// A worker that has just come into the game.
    pub fn new() -> (r: Self)
        ensures
            r.attack_target is None,
            r.last_attack_at is None,
            r.dead_since is None,
            r.last_seen is None,
    {
        WorkerLoop { attack_target: None, last_attack_at: None, dead_since: None, last_seen: None }
    }

    /// How long to sleep before the next tick.
    pub fn wait_ms(&self, now: u64, cooldown: u64) -> (ms: u64)
        ensures
            ms == wait_spec(self.attack_target is Some, self.last_attack_at, now, cooldown),
    {
        let w: u64 = if self.attack_target.is_some() {
            match self.last_attack_at {
                Some(t) => cooldown.saturating_sub(now.saturating_sub(t)),
                None => 0,
            }
        } else {
            IDLE_TICK_MS
        };
        if w > MIN_TICK_MS {
            w
        } else {
            MIN_TICK_MS
        }
    }

    /// One tick, after the world was read: `dead` says we are, `attacker`
    /// is the last monster that hit us this tick, `rescue` whether the
    /// survival rules ask for steps. Death clears the target and runs the
    /// respawn watch; anything that hits us becomes the target, however
    /// big; a rescue comes before the next swing.
    pub fn tick(&mut self, dead: bool, attacker: Option<String>, rescue: bool, now: u64, cooldown: u64) -> (r: Phase)
        ensures
            (r, *final(self)) == tick_spec(*old(self), dead, attacker, rescue, now, cooldown),
    {
        let respawn = respawn_due(dead, &mut self.dead_since, now);
        if dead {
            self.attack_target = None;
            return Phase::Dead { respawn };
        }
        match attacker {
            Some(id) => {
                self.attack_target = Some(id);
            },
            None => {},
        }
        if rescue {
            return Phase::Rescue;
        }
        if self.attack_target.is_some() {
            let due = match self.last_attack_at {
                Some(t) => now.saturating_sub(t) >= cooldown,
                None => true,
            };
            if due {
                Phase::Swing
            } else {
                Phase::Cooling
            }
        } else {
            Phase::Decide
        }
    }

    /// The rescue steps ran; a worker sent off to town by them drops its
    /// fight.
    pub fn rescued(&mut self, still_at_work: bool)
        ensures
            final(self).attack_target == (if still_at_work {
                old(self).attack_target
            } else {
                None
            }),
            final(self).last_attack_at == old(self).last_attack_at,
            final(self).dead_since == old(self).dead_since,
            final(self).last_seen == old(self).last_seen,
    {
        if !still_at_work {
            self.attack_target = None;
        }
    }

    /// Before a swing: remember where the target stands while we can still
    /// see it (a kill is only noticed after the killing blow, when the
    /// corpse is gone); never having seen it, we stand in melee range of it,
    /// so where we stand will do.
    pub fn sighted(&mut self, target_at: Option<P>, me_at: Option<P>)
        ensures
            final(self).last_seen == (match target_at {
                Some(p) => Some(p),
                None => match old(self).last_seen {
                    Some(q) => Some(q),
                    None => me_at,
                },
            }),
            final(self).attack_target == old(self).attack_target,
            final(self).last_attack_at == old(self).last_attack_at,
            final(self).dead_since == old(self).dead_since,
    {
        match target_at {
            Some(p) => {
                self.last_seen = Some(p);
            },
            None => {
                if self.last_seen.is_none() {
                    self.last_seen = me_at;
                }
            },
        }
    }

    /// The swing went out at `now`; `keep_fighting` says the target still
    /// stands. When the fight is over, its loot site (with no pickup tried
    /// yet) is where the target was last seen.
    pub fn swung(&mut self, keep_fighting: bool, now: u64) -> (loot_at: Option<(P, u32)>)
        ensures
            (loot_at, *final(self)) == swung_spec(*old(self), keep_fighting, now),
    {
        self.last_attack_at = Some(now);
        if keep_fighting {
            return None;
        }
        self.attack_target = None;
        let seen = self.last_seen;
        self.last_seen = None;
        match seen {
            Some(p) => Some((p, 0)),
            None => None,
        }
    }

    /// The worker's step picked a monster to fight: the first swing goes
    /// at once.
    pub fn engage(&mut self, target: String)
        ensures
            *final(self) == engage_spec(*old(self), target),
    {
        self.attack_target = Some(target);
        self.last_attack_at = None;
    }
}

/// A dead worker holds no target and runs nothing else that tick; a live
/// one hit this tick fights what hit it, however big; staying alive comes
/// before the next swing.
pub proof fn law_whatever_hits_us_is_fought_and_survival_comes_first<P>(
    l: WorkerLoop<P>,
    dead: bool,
    attacker: Option<String>,
    rescue: bool,
    now: u64,
    cooldown: u64,
)
    ensures
        dead ==> tick_spec(l, dead, attacker, rescue, now, cooldown).0 is Dead && tick_spec(
            l,
            dead,
            attacker,
            rescue,
            now,
            cooldown,
        ).1.attack_target is None,
        !dead && attacker is Some ==> tick_spec(l, dead, attacker, rescue, now, cooldown).1.attack_target
            == attacker,
        !dead && rescue ==> tick_spec(l, dead, attacker, rescue, now, cooldown).0 == Phase::Rescue,
        !dead && !rescue && attacker is Some ==> tick_spec(l, dead, attacker, rescue, now, cooldown).0
            is Swing || tick_spec(l, dead, attacker, rescue, now, cooldown).0 is Cooling,
{
}

/// A monster the worker picks is swung at on the very next tick it is
/// alive and needs no rescue, and a fight that ends leaves the loot site
/// where the target was last seen, with no pickup tried.
pub proof fn law_a_picked_target_is_swung_at_once_and_its_kill_site_is_kept<P>(
    l: WorkerLoop<P>,
    target: String,
    now: u64,
    cooldown: u64,
    at: u64,
)
    ensures
        tick_spec(engage_spec(l, target), false, None, false, now, cooldown).0 == Phase::Swing,
        swung_spec(l, false, at).0 == (match l.last_seen {
            Some(p) => Some((p, 0u32)),
            None => None,
        }),
        swung_spec(l, false, at).1.attack_target is None,
        swung_spec(l, true, at).1.attack_target == l.attack_target,
{
}

/// Sleep is never shorter than the floor; an idle worker ticks at the idle
/// pace; a fighter whose swing is due ticks at once.
pub proof fn law_the_tick_pace(last: Option<u64>, now: u64, cooldown: u64)
    ensures
        wait_spec(true, last, now, cooldown) >= MIN_TICK_MS,
        wait_spec(false, last, now, cooldown) == IDLE_TICK_MS,
        swing_due(last, now, cooldown) ==> wait_spec(true, last, now, cooldown) == MIN_TICK_MS,
{
}

} // verus!
