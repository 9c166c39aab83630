//! When the agent's driver sends the next prompt: a pending prompt waits
//! out a debounce after its trigger and a floor since the last prompt (a
//! shorter floor for an urgent event), prompts come on their own at the
//! routine cadence while the agent is active and at the idle cadence while
//! it is not, and a forced prompt skips both waits. Time is a monotonic
//! millisecond count.

use vstd::prelude::*;

verus! {

/// How urgent the pending prompt is, most urgent first.
#[derive(Debug, Clone, Copy, PartialEq, Eq, Structural)]
pub enum Urgency {
    /// A player talking to us, a hit landing.
    Urgent,
    Routine,
    Idle,
}

/// The rank of an urgency: lower is more urgent.
pub open spec fn rank(u: Urgency) -> int {
    match u {
        Urgency::Urgent => 0,
        Urgency::Routine => 1,
        Urgency::Idle => 2,
    }
}

/// The more urgent of two.
pub open spec fn most_urgent_spec(a: Urgency, b: Urgency) -> Urgency {
    if rank(b) < rank(a) {
        b
    } else {
        a
    }
}

/// The more urgent of two.
pub fn most_urgent(a: Urgency, b: Urgency) -> (r: Urgency)
    ensures
        r == most_urgent_spec(a, b),
{
    match (a, b) {
        (Urgency::Urgent, _) => Urgency::Urgent,
        (_, Urgency::Urgent) => Urgency::Urgent,
        (Urgency::Routine, _) => Urgency::Routine,
        (_, Urgency::Routine) => Urgency::Routine,
        _ => Urgency::Idle,
    }
}

/// The driver's cadence settings, in milliseconds.
#[derive(Debug, Clone, Copy)]
pub struct Cadence {
    /// Floor between prompts.
    pub min_interval: u64,
    /// Floor between prompts once an urgent event is pending.
    pub urgent_min_interval: u64,
    /// Wait after a trigger before prompting, so a burst lands in one prompt.
    pub debounce: u64,
    /// Cadence while nobody is around and nothing happens.
    pub idle_interval: u64,
    /// How long after the last event the agent counts as active.
    pub activity_window: u64,
}

/// The pacing state carried between ticks.
#[derive(Debug, Clone, Copy, PartialEq, Eq, Structural)]
pub struct Pacer {
    pub last_prompt_at: u64,
    pub last_activity_at: u64,
    /// When the pending prompt was triggered.
    pub pending_since: Option<u64>,
    pub urgency: Urgency,
    /// The next prompt skips the debounce and the floor.
    pub forced: bool,
}

/// What a poll decides.
#[derive(Debug, Clone, Copy, PartialEq, Eq, Structural)]
pub enum Poll {
    Wait,
    /// Send the prompt now; `forced` says the pacing was skipped.
    Prompt { forced: bool },
}

/// Milliseconds from `then` to `now`, none when `then` is later.
pub open spec fn since(now: u64, then: u64) -> int {
    if now >= then {
        now - then
    } else {
        0
    }
}

/// The floor the pending urgency calls for.
pub open spec fn floor_spec(p: Pacer, c: Cadence) -> u64 {
    if p.urgency == Urgency::Urgent {
        c.urgent_min_interval
    } else {
        c.min_interval
    }
}

/// One poll of the pacer at `now`; `fighting` says a fight is on.
pub open spec fn poll_spec(p: Pacer, c: Cadence, now: u64, fighting: bool) -> (Poll, Pacer) {
    let active = fighting || since(now, p.last_activity_at) < c.activity_window;
    let floor = floor_spec(p, c);
    let interval = if active {
        floor
    } else {
        c.idle_interval
    };
    let p1 = if p.pending_since is None && since(now, p.last_prompt_at) >= interval {
        Pacer {
            pending_since: Some(now),
            urgency: if p.urgency == Urgency::Idle && active {
                Urgency::Routine
            } else {
                p.urgency
            },
            ..p
        }
    } else {
        p
    };
    let ready = match p1.pending_since {
        Some(t) => p1.forced || since(now, t) >= c.debounce,
        None => false,
    };
    if !ready || (!p1.forced && since(now, p1.last_prompt_at) < floor) {
        (Poll::Wait, p1)
    } else {
        (Poll::Prompt { forced: p1.forced }, Pacer { pending_since: None, forced: false, ..p1 })
    }
}

impl Pacer {
    /// A pacer that last prompted at `last_prompt_at` and last saw activity
    /// at `last_activity_at`, with nothing pending.
    pub fn new(last_prompt_at: u64, last_activity_at: u64) -> (r: Self)
        ensures
            r == (Pacer {
                last_prompt_at,
                last_activity_at,
                pending_since: None,
                urgency: Urgency::Idle,
                forced: false,
            }),
    {
        Pacer { last_prompt_at, last_activity_at, pending_since: None, urgency: Urgency::Idle, forced: false }
    }

    /// An event woke the driver: the agent is active, the pending urgency
    /// rises to the event's, and the debounce starts now unless it already
    /// runs.
    pub fn woken(&mut self, now: u64, by: Urgency)
        ensures
            *final(self) == (Pacer {
                last_activity_at: now,
                urgency: most_urgent_spec(old(self).urgency, by),
                pending_since: match old(self).pending_since {
                    Some(t) => Some(t),
                    None => Some(now),
                },
                ..*old(self)
            }),
    {
        self.last_activity_at = now;
        self.urgency = most_urgent(self.urgency, by);
        if self.pending_since.is_none() {
            self.pending_since = Some(now);
        }
    }

    /// One event that must be answered at once (a visit): no debounce, no
    /// floor.
    pub fn force(&mut self, now: u64)
        ensures
            *final(self) == (Pacer {
                last_activity_at: now,
                urgency: Urgency::Urgent,
                pending_since: Some(now),
                forced: true,
                ..*old(self)
            }),
    {
        self.pending_since = Some(now);
        self.urgency = Urgency::Urgent;
        self.forced = true;
        self.last_activity_at = now;
    }

    /// A reply came back at `now`.
    pub fn answered(&mut self, now: u64)
        ensures
            *final(self) == (Pacer { last_prompt_at: now, ..*old(self) }),
    {
        self.last_prompt_at = now;
    }

    /// The pending events were handled (or dropped): the urgency starts
    /// over.
    pub fn settle(&mut self)
        ensures
            *final(self) == (Pacer { urgency: Urgency::Idle, ..*old(self) }),
    {
        self.urgency = Urgency::Idle;
    }

    /// Whether to send a prompt at `now`.
    pub fn poll(&mut self, c: &Cadence, now: u64, fighting: bool) -> (r: Poll)
        ensures
            (r, *final(self)) == poll_spec(*old(self), *c, now, fighting),
    {
        let active = fighting || now.saturating_sub(self.last_activity_at) < c.activity_window;
        let floor: u64 = if self.urgency == Urgency::Urgent {
            c.urgent_min_interval
        } else {
            c.min_interval
        };
        let interval: u64 = if active {
            floor
        } else {
            c.idle_interval
        };
        if self.pending_since.is_none() && now.saturating_sub(self.last_prompt_at) >= interval {
            self.pending_since = Some(now);
            if self.urgency == Urgency::Idle && active {
                self.urgency = Urgency::Routine;
            }
        }
        let ready = match self.pending_since {
            Some(t) => self.forced || now.saturating_sub(t) >= c.debounce,
            None => false,
        };
        if !ready || (!self.forced && now.saturating_sub(self.last_prompt_at) < floor) {
            return Poll::Wait;
        }
        let forced = self.forced;
        self.pending_since = None;
        self.forced = false;
        Poll::Prompt { forced }
    }
}

/// The most urgent of `start` and every event's urgency.
pub open spec fn most_urgent_of(start: Urgency, events: Seq<Urgency>) -> Urgency
    decreases events.len(),
{
    if events.len() == 0 {
        start
    } else {
        most_urgent_spec(most_urgent_of(start, events.drop_last()), events.last())
    }
}

/// Whether a due turn is dropped without prompting: the agent is asleep,
/// or nobody is around to see it, unless it always thinks or the prompt was
/// forced (a visit's human may not be on our floor yet).
pub open spec fn turn_dropped(sleeping: bool, always_active: bool, forced: bool, audience: bool) -> bool {
    sleeping || !(always_active || forced || audience)
}

impl Pacer {
    /// A prompt is due: none when the turn is dropped, else the urgency it
    /// goes out with, the most urgent of what was pending and of the events
    /// drained for it. Either way the urgency starts over.
    pub fn take_turn(
        &mut self,
        sleeping: bool,
        always_active: bool,
        forced: bool,
        audience: bool,
        events: &Vec<Urgency>,
    ) -> (r: Option<Urgency>)
        ensures
            *final(self) == (Pacer { urgency: Urgency::Idle, ..*old(self) }),
            r == (if turn_dropped(sleeping, always_active, forced, audience) {
                None
            } else {
                Some(most_urgent_of(old(self).urgency, events@))
            }),
    {
        let pending = self.urgency;
        self.urgency = Urgency::Idle;
        if sleeping || !(always_active || forced || audience) {
            return None;
        }
        let mut u = pending;
        let mut k: usize = 0;
        while k < events.len()
            invariant
                k <= events.len(),
                u == most_urgent_of(pending, events@.take(k as int)),
            decreases events.len() - k,
        {
            assert(events@.take(k + 1).drop_last() == events@.take(k as int));
            u = most_urgent(u, events[k]);
            k = k + 1;
        }
        assert(events@.take(events.len() as int) == events@);
        Some(u)
    }
}

/// The urgency a turn goes out with is no less urgent than anything
/// pending or drained for it.
pub proof fn law_a_turn_goes_out_as_urgent_as_its_most_urgent_event(start: Urgency, events: Seq<Urgency>)
    ensures
        rank(most_urgent_of(start, events)) <= rank(start),
        forall|i: int| 0 <= i < events.len() ==> rank(most_urgent_of(start, events)) <= rank(#[trigger] events[i]),
    decreases events.len(),
{
    if events.len() > 0 {
        law_a_turn_goes_out_as_urgent_as_its_most_urgent_event(start, events.drop_last());
        assert forall|i: int| 0 <= i < events.len() implies rank(most_urgent_of(start, events)) <= rank(
            #[trigger] events[i],
        ) by {
            if i < events.len() - 1 {
                assert(events.drop_last()[i] == events[i]);
            }
        }
    }
}

/// An unforced prompt waits out both the debounce after its trigger and
/// the floor since the last prompt; a prompt leaves nothing pending.
pub proof fn law_an_unforced_prompt_waits_out_the_debounce_and_the_floor(
    p: Pacer,
    c: Cadence,
    now: u64,
    fighting: bool,
)
    ensures
        poll_spec(p, c, now, fighting).0 == (Poll::Prompt { forced: false }) ==> {
            &&& since(now, p.last_prompt_at) >= floor_spec(p, c)
            &&& (match p.pending_since {
                Some(t) => since(now, t) >= c.debounce,
                None => c.debounce == 0,
            })
        },
        poll_spec(p, c, now, fighting).0 is Prompt ==> {
            &&& poll_spec(p, c, now, fighting).1.pending_since is None
            &&& !poll_spec(p, c, now, fighting).1.forced
        },
{
}

/// A forced prompt goes out on the next poll, whatever the cadence.
pub proof fn law_a_forced_prompt_goes_at_once(p: Pacer, c: Cadence, now: u64, fighting: bool)
    requires
        p.forced,
        p.pending_since is Some,
    ensures
        poll_spec(p, c, now, fighting).0 == (Poll::Prompt { forced: true }),
{
}

/// Urgency only rises until the pending events are handled: waking never
/// lowers it.
pub proof fn law_urgency_only_rises(a: Urgency, b: Urgency)
    ensures
        rank(most_urgent_spec(a, b)) <= rank(a),
        rank(most_urgent_spec(a, b)) <= rank(b),
        most_urgent_spec(a, b) == a || most_urgent_spec(a, b) == b,
{
}

} // verus!
