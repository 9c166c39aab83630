//! Step pacing for walks: how long to wait after handing the server a leg,
//! and the one head start a walk borrows so the server's queue never runs
//! dry between two legs of the same route.

use vstd::prelude::*;
use vstd::string::StringExecFns;

verus! {

/// How early the next leg is handed to the server. Borrowed once, at the
/// start of a walk, and given back where the route runs out.
pub const HANDOVER_LEAD_MS: u64 = 250;

/// The shortest wait after a step.
pub const MIN_STEP_WAIT_MS: u64 = 50;

/// How long to wait after handing over a leg the server takes `step_ms` to
/// walk. `queued` says the server is already walking one of ours, which is
/// what the lead has already bought.
pub open spec fn pace_spec(step_ms: u64, queued: bool) -> u64 {
    let lead: u64 = if queued {
        0
    } else {
        HANDOVER_LEAD_MS
    };
    let rest: u64 = if step_ms > lead {
        (step_ms - lead) as u64
    } else {
        0
    };
    if rest > MIN_STEP_WAIT_MS {
        rest
    } else {
        MIN_STEP_WAIT_MS
    }
}

/// How long to wait after handing over a leg the server takes `step_ms` to
/// walk. `queued` says the server is already walking one of ours, which is
/// what the lead has already bought.
pub fn pace_after_step(step_ms: u64, queued: bool) -> (ms: u64)
    ensures
        ms == pace_spec(step_ms, queued),
{
    let lead = if queued {
        0
    } else {
        HANDOVER_LEAD_MS
    };
    let rest = step_ms.saturating_sub(lead);
    if rest > MIN_STEP_WAIT_MS {
        rest
    } else {
        MIN_STEP_WAIT_MS
    }
}

/// Pace one step of a walk: the wait to sleep, with the part of the step
/// not waited out added to what the walk owes back at its end.
pub fn pace_step(owed: &mut u64, step_ms: u64, queued: bool) -> (ms: u64)
    requires
        *old(owed) + HANDOVER_LEAD_MS <= u64::MAX,
    ensures
        ms == pace_spec(step_ms, queued),
        *final(owed) == *old(owed) + (if step_ms > ms {
            step_ms - ms
        } else {
            0
        }),
{
    let paced = pace_after_step(step_ms, queued);
    *owed = *owed + step_ms.saturating_sub(paced);
    paced
}

/// The wait that settles a walk's head start, leaving nothing owed.
pub fn settle_handover(owed: &mut u64) -> (wait: u64)
    ensures
        wait == *old(owed),
        *final(owed) == 0,
{
    let wait = *owed;
    *owed = 0;
    wait
}

/// Where a walk is headed.
#[derive(Debug, Clone, Copy, PartialEq, Eq, Structural)]
pub enum WalkKind {
    Monster,
    Character,
    GroundItem,
    /// A fixed spot nearby.
    Point,
    /// Somewhere on the map, however far.
    Place,
}

/// Whether this leg is one a worker is willing to give up for something
/// worth fighting: only a walk to a place — a patrol leg, the commute. A
/// walk already aimed at something runs to it.
pub fn interruptible(to: WalkKind) -> (r: bool)
    ensures
        r == (to == WalkKind::Place),
{
    match to {
        WalkKind::Place => true,
        _ => false,
    }
}

/// The head start is borrowed once per walk: a step the server is already
/// queued for is waited out in full, a first step is waited out short by at
/// most the lead, and no wait is ever shorter than the floor.
pub proof fn law_the_lead_is_paid_once(step_ms: u64)
    ensures
        pace_spec(step_ms, true) >= step_ms,
        pace_spec(step_ms, false) + HANDOVER_LEAD_MS >= step_ms,
        pace_spec(step_ms, true) >= MIN_STEP_WAIT_MS,
        pace_spec(step_ms, false) >= MIN_STEP_WAIT_MS,
{
}

/// Why a walk gave up, tagged where the walk knew the ground truth.
#[derive(Debug, Clone, PartialEq)]
pub enum LostReason {
    /// The target left the world state: died, despawned, or out of sight.
    TargetGone,
    /// We died (or vanished) on the way.
    PlayerDied,
    /// The target sits this far away (whole metres, as shown to the agent
    /// and formatted by the caller), beyond the walk's leash.
    TooFar(String),
    /// The clock ran out before arriving.
    Timeout,
    /// No route on this floor — walls or shut doors all the way around.
    NoPath,
    /// The only way on is a locked door and we hold no key for it.
    LockedDoor,
    /// The server kept refusing our steps: its layout disagrees with ours.
    Desynced,
    /// Given up part-way because something worth fighting turned up.
    PreyInReach,
}

/// The target-neutral clause completing "You could not reach X — ...".
pub open spec fn lost_clause(r: LostReason) -> Seq<char> {
    match r {
        LostReason::TargetGone => "your target is no longer there"@,
        LostReason::PlayerDied => "you died on the way"@,
        LostReason::TooFar(d) => "your target is "@ + d@ + "m away, beyond your reach"@,
        LostReason::Timeout => "you ran out of time before arriving"@,
        LostReason::NoPath => "no route leads there from here"@,
        LostReason::LockedDoor => "the way on is a locked door and you hold no key for it"@,
        LostReason::Desynced => "the ground kept refusing your steps"@,
        LostReason::PreyInReach => "something worth fighting is here"@,
    }
}

impl LostReason {
    /// Target-neutral clause completing "You could not reach X — {clause}."
    pub fn clause(&self) -> (r: String)
        ensures
            r@ == lost_clause(*self),
    {
        match self {
            LostReason::TargetGone => String::from_str("your target is no longer there"),
            LostReason::PlayerDied => String::from_str("you died on the way"),
            LostReason::TooFar(d) => {
                let mut r = String::from_str("your target is ");
                r.append(d.as_str());
                r.append("m away, beyond your reach");
                r
            },
            LostReason::Timeout => String::from_str("you ran out of time before arriving"),
            LostReason::NoPath => String::from_str("no route leads there from here"),
            LostReason::LockedDoor => String::from_str(
                "the way on is a locked door and you hold no key for it",
            ),
            LostReason::Desynced => String::from_str("the ground kept refusing your steps"),
            LostReason::PreyInReach => String::from_str("something worth fighting is here"),
        }
    }
}

/// Feedback for an attack whose chase never reached the monster, so the
/// agent stops re-issuing it: walk up to a monster that is too far, pick
/// another when the way is blocked or the monster is gone.
pub open spec fn unreachable_spec(id: Seq<char>, loss: LostReason) -> Seq<char> {
    match loss {
        LostReason::TargetGone => "[Unreachable] Monster "@ + id + " is gone. Pick a different target."@,
        LostReason::PlayerDied => "[Unreachable] You died before reaching monster "@ + id + "."@,
        LostReason::TooFar(d) => "[Unreachable] Monster "@ + id + " is "@ + d@
            + "m away, beyond your chase range. Move closer first, or pick a nearer monster."@,
        LostReason::Timeout => "[Unreachable] The chase for monster "@ + id
            + " ran out of time — the way may be blocked. Move first, or pick a different target."@,
        LostReason::NoPath => "[Unreachable] No route leads to monster "@ + id
            + " from here — it is behind walls or on another floor. Pick a reachable monster."@,
        _ => "[Unreachable] You could not reach monster "@ + id + " — "@ + lost_clause(loss) + "."@,
    }
}

/// Feedback for an attack whose chase never reached the monster. The
/// reason comes from the chase itself, not a guess.
pub fn unreachable_note(monster_id: &str, loss: &LostReason) -> (r: String)
    ensures
        r@ == unreachable_spec(monster_id@, *loss),
{
    match loss {
        LostReason::TargetGone => {
            let mut r = String::from_str("[Unreachable] Monster ");
            r.append(monster_id);
            r.append(" is gone. Pick a different target.");
            r
        },
        LostReason::PlayerDied => {
            let mut r = String::from_str("[Unreachable] You died before reaching monster ");
            r.append(monster_id);
            r.append(".");
            r
        },
        LostReason::TooFar(d) => {
            let mut r = String::from_str("[Unreachable] Monster ");
            r.append(monster_id);
            r.append(" is ");
            r.append(d.as_str());
            r.append("m away, beyond your chase range. Move closer first, or pick a nearer monster.");
            r
        },
        LostReason::Timeout => {
            let mut r = String::from_str("[Unreachable] The chase for monster ");
            r.append(monster_id);
            r.append(" ran out of time — the way may be blocked. Move first, or pick a different target.");
            r
        },
        LostReason::NoPath => {
            let mut r = String::from_str("[Unreachable] No route leads to monster ");
            r.append(monster_id);
            r.append(" from here — it is behind walls or on another floor. Pick a reachable monster.");
            r
        },
        _ => {
            let mut r = String::from_str("[Unreachable] You could not reach monster ");
            r.append(monster_id);
            r.append(" — ");
            let c = loss.clause();
            r.append(c.as_str());
            r.append(".");
            r
        },
    }
}

/// How many shut doors one walk may unlatch on its way. A floor carries a
/// handful; the cap only stops a pathological loop.
pub const MAX_DOORS_PER_WALK: u32 = 6;

/// A chase is short and its target is moving: two tries, then let it go.
pub const MAX_CHASE_DOORS: u32 = 2;

/// How many times one walk searches again after the server snaps us back.
/// A persistent disagreement burns through these in seconds and gives up.
pub const MAX_CORRECTION_REPATHS: u32 = 3;

/// How a walk of each kind is run, apart from its distances and deadlines
/// (which are the caller's, in metres and seconds).
#[derive(Debug, Clone, Copy, PartialEq, Eq, Structural)]
pub struct WalkPolicy {
    /// Arriving also needs a clear attack line: stopping at range through
    /// a shut door is no arrival at all.
    pub needs_clear_line: bool,
    /// How many shut doors the walk may open.
    pub max_doors: u32,
    /// A destination that cannot move is given up the moment no route
    /// reaches it; a target that walks may stand somewhere reachable on the
    /// next look.
    pub give_up_when_unreachable: bool,
    /// Walking out the route is itself the arrival: the goal is a cell, and
    /// the route's last waypoint is smoothed onto it.
    pub route_end_is_arrival: bool,
}

/// The policy of each kind of walk.
pub open spec fn policy_spec(k: WalkKind) -> WalkPolicy {
    match k {
        WalkKind::Monster => WalkPolicy {
            needs_clear_line: true,
            max_doors: MAX_CHASE_DOORS,
            give_up_when_unreachable: false,
            route_end_is_arrival: false,
        },
        WalkKind::Character | WalkKind::GroundItem => WalkPolicy {
            needs_clear_line: false,
            max_doors: MAX_CHASE_DOORS,
            give_up_when_unreachable: false,
            route_end_is_arrival: false,
        },
        WalkKind::Point => WalkPolicy {
            needs_clear_line: false,
            max_doors: MAX_CHASE_DOORS,
            give_up_when_unreachable: true,
            route_end_is_arrival: false,
        },
        WalkKind::Place => WalkPolicy {
            needs_clear_line: false,
            max_doors: MAX_DOORS_PER_WALK,
            give_up_when_unreachable: true,
            route_end_is_arrival: true,
        },
    }
}

/// The policy of a walk of this kind.
pub fn policy(k: WalkKind) -> (r: WalkPolicy)
    ensures
        r == policy_spec(k),
{
    match k {
        WalkKind::Monster => WalkPolicy {
            needs_clear_line: true,
            max_doors: MAX_CHASE_DOORS,
            give_up_when_unreachable: false,
            route_end_is_arrival: false,
        },
        WalkKind::Character | WalkKind::GroundItem => WalkPolicy {
            needs_clear_line: false,
            max_doors: MAX_CHASE_DOORS,
            give_up_when_unreachable: false,
            route_end_is_arrival: false,
        },
        WalkKind::Point => WalkPolicy {
            needs_clear_line: false,
            max_doors: MAX_CHASE_DOORS,
            give_up_when_unreachable: true,
            route_end_is_arrival: false,
        },
        WalkKind::Place => WalkPolicy {
            needs_clear_line: false,
            max_doors: MAX_DOORS_PER_WALK,
            give_up_when_unreachable: true,
            route_end_is_arrival: true,
        },
    }
}

/// How a walk ended.
#[derive(Debug, Clone, PartialEq)]
pub enum Walked {
    Arrived,
    Lost(LostReason),
    /// Sending a step failed.
    Error,
}

/// What the walk sees between two steps, as the caller measured it.
#[derive(Debug, Clone)]
pub struct Checkpoint {
    /// The walk's deadline has passed.
    pub timed_out: bool,
    /// The target is still in the world state.
    pub target_present: bool,
    /// We are alive.
    pub alive: bool,
    /// The worker gives up walks for prey, and some is in reach.
    pub prey_in_reach: bool,
    /// The target is within the walk's arrive range.
    pub in_range: bool,
    /// Walls or a shut door stand between us and the target.
    pub line_blocked: bool,
    /// We stand on the floor the target is on.
    pub on_target_floor: bool,
    /// The target is beyond the walk's leash: the distance, as shown.
    pub too_far: Option<String>,
}

/// Whether the walk ends at this checkpoint, and how: the deadline first,
/// then a vanished target, our own death, prey for a walk that may be
/// given up, arrival, and the leash.
pub open spec fn checkpoint_spec(k: WalkKind, c: Checkpoint) -> Option<Walked> {
    if c.timed_out {
        Some(Walked::Lost(LostReason::Timeout))
    } else if !c.target_present {
        Some(Walked::Lost(LostReason::TargetGone))
    } else if !c.alive {
        Some(Walked::Lost(LostReason::PlayerDied))
    } else if k == WalkKind::Place && c.prey_in_reach {
        Some(Walked::Lost(LostReason::PreyInReach))
    } else if c.in_range && !(policy_spec(k).needs_clear_line && c.line_blocked) && !(k
        == WalkKind::Place && !c.on_target_floor) {
        Some(Walked::Arrived)
    } else {
        match c.too_far {
            Some(d) => Some(Walked::Lost(LostReason::TooFar(d))),
            None => None,
        }
    }
}

/// Whether the walk ends at this checkpoint, and how. On an arrival the
/// caller settles the walk's head start first.
pub fn checkpoint(k: WalkKind, c: Checkpoint) -> (r: Option<Walked>)
    ensures
        r == checkpoint_spec(k, c),
{
    if c.timed_out {
        return Some(Walked::Lost(LostReason::Timeout));
    }
    if !c.target_present {
        return Some(Walked::Lost(LostReason::TargetGone));
    }
    if !c.alive {
        return Some(Walked::Lost(LostReason::PlayerDied));
    }
    if interruptible(k) && c.prey_in_reach {
        return Some(Walked::Lost(LostReason::PreyInReach));
    }
    let pol = policy(k);
    let place = match k {
        WalkKind::Place => true,
        _ => false,
    };
    if c.in_range && !(pol.needs_clear_line && c.line_blocked) && !(place && !c.on_target_floor) {
        return Some(Walked::Arrived);
    }
    match c.too_far {
        Some(d) => Some(Walked::Lost(LostReason::TooFar(d))),
        None => None,
    }
}

/// The part of a route a walk keeps: all of it when it reaches the goal;
/// otherwise the leg that gets closest, only as far as it stays on the
/// floor it starts on (with the way down sealed, the closest node is the
/// surface above the target, and walking there climbs out).
pub open spec fn kept_len_spec(floors: Seq<u8>, start_floor: u8, found: bool) -> int {
    if found {
        floors.len() as int
    } else {
        match first_off_floor(floors, start_floor) {
            Some(i) => i,
            None => floors.len() as int,
        }
    }
}

/// The first waypoint off the start floor.
pub open spec fn first_off_floor(floors: Seq<u8>, start_floor: u8) -> Option<int> {
    if exists|i: int| 0 <= i < floors.len() && floors[i] != start_floor {
        Some(
            choose|i: int|
                0 <= i < floors.len() && floors[i] != start_floor && forall|j: int|
                    0 <= j < i ==> floors[j] == start_floor,
        )
    } else {
        None
    }
}

/// The first waypoint off the start floor is the one before which all
/// stay on it.
pub proof fn lemma_first_off_floor_is(floors: Seq<u8>, start_floor: u8, i: int)
    requires
        0 <= i < floors.len(),
        floors[i] != start_floor,
        forall|j: int| 0 <= j < i ==> floors[j] == start_floor,
    ensures
        first_off_floor(floors, start_floor) == Some(i),
{
    assert(0 <= i < floors.len() && floors[i] != start_floor && forall|j: int|
        0 <= j < i ==> floors[j] == start_floor);
    let w = choose|w: int|
        0 <= w < floors.len() && floors[w] != start_floor && forall|j: int|
            0 <= j < w ==> floors[j] == start_floor;
    if w < i {
        assert(floors[w] == start_floor);
    } else if w > i {
        assert(floors[i] == start_floor);
    }
}

/// How many of the route's waypoints (given by their floors) a walk keeps.
pub fn kept_len(floors: &Vec<u8>, start_floor: u8, found: bool) -> (k: usize)
    ensures
        k == kept_len_spec(floors@, start_floor, found),
        k <= floors.len(),
        !found ==> forall|j: int| 0 <= j < k ==> floors@[j] == start_floor,
{
    if found {
        return floors.len();
    }
    let mut i: usize = 0;
    while i < floors.len()
        invariant
            !found,
            i <= floors.len(),
            forall|j: int| 0 <= j < i ==> floors@[j] == start_floor,
        decreases floors.len() - i,
    {
        if floors[i] != start_floor {
            proof {
                lemma_first_off_floor_is(floors@, start_floor, i as int);
            }
            return i;
        }
        i = i + 1;
    }
    i
}

/// The counters a walk carries from step to step.
#[derive(Debug, Clone, Copy, PartialEq, Eq, Structural)]
pub struct WalkProgress {
    /// Searches restarted after the server snapped us back.
    pub repaths: u32,
    /// Shut doors opened on the way.
    pub doors_opened: u32,
    /// The server is still walking a leg of ours.
    pub queued: bool,
    /// The head start borrowed by the first handover, owed back at the end.
    pub lead_owed: u64,
}

/// What comes after a route that has been walked out.
#[derive(Debug, Clone, Copy, PartialEq, Eq, Structural)]
pub enum AfterRoute {
    Arrived,
    /// The target moved: search again from here.
    LookAgain,
    /// No route: try to open the shut door in the way.
    TryDoor,
    /// No route, and no door left to try.
    Stuck,
}

/// What comes after a route that has been walked out.
pub open spec fn after_route_spec(p: WalkProgress, pol: WalkPolicy, unreachable: bool) -> (
    AfterRoute,
    WalkProgress,
) {
    if !unreachable {
        if pol.route_end_is_arrival {
            (AfterRoute::Arrived, p)
        } else {
            (AfterRoute::LookAgain, WalkProgress { repaths: 0, ..p })
        }
    } else if p.doors_opened < pol.max_doors {
        (AfterRoute::TryDoor, p)
    } else {
        (AfterRoute::Stuck, p)
    }
}

/// What a stuck walk does: underground a missing route is a wall or a shut
/// door, never open ground, so it ends there; on the surface it tries a
/// straight step, then gives up if the policy says so.
#[derive(Debug, Clone, Copy, PartialEq, Eq, Structural)]
pub enum WhenStuck {
    GiveUp { locked: bool },
    Nudge { then_give_up: bool },
}

/// What a stuck walk does.
pub open spec fn when_stuck_spec(pol: WalkPolicy, underground: bool, locked_without_key: bool) -> WhenStuck {
    if underground {
        WhenStuck::GiveUp { locked: locked_without_key }
    } else {
        WhenStuck::Nudge { then_give_up: pol.give_up_when_unreachable }
    }
}

/// What a stuck walk does.
pub fn when_stuck(pol: WalkPolicy, underground: bool, locked_without_key: bool) -> (r: WhenStuck)
    ensures
        r == when_stuck_spec(pol, underground, locked_without_key),
{
    if underground {
        WhenStuck::GiveUp { locked: locked_without_key }
    } else {
        WhenStuck::Nudge { then_give_up: pol.give_up_when_unreachable }
    }
}

/// The server snapped us back: one more search, and the head start is
/// dropped unless the walk gives up for it (the first value).
pub open spec fn corrected_spec(p: WalkProgress) -> (bool, WalkProgress) {
    let n = (p.repaths + 1) as u32;
    if n > MAX_CORRECTION_REPATHS {
        (true, WalkProgress { repaths: n, ..p })
    } else {
        (false, WalkProgress { repaths: n, queued: false, lead_owed: 0, ..p })
    }
}

/// `n` corrections in a row, and whether the last gave up.
pub open spec fn after_corrections(p: WalkProgress, n: nat) -> (bool, WalkProgress)
    decreases n,
{
    if n == 0 {
        (false, p)
    } else {
        corrected_spec(after_corrections(p, (n - 1) as nat).1)
    }
}

impl WalkProgress {
    /// A walk about to start.
    pub fn new() -> (r: Self)
        ensures
            r == (WalkProgress { repaths: 0, doors_opened: 0, queued: false, lead_owed: 0 }),
    {
        WalkProgress { repaths: 0, doors_opened: 0, queued: false, lead_owed: 0 }
    }

    /// The server snapped us back: the route is dropped and searched again,
    /// and whatever the server was walking for us is overruled, so no head
    /// start is owed. Returns whether the walk gives up for it.
    pub fn corrected(&mut self) -> (desynced: bool)
        requires
            old(self).repaths <= MAX_CORRECTION_REPATHS,
        ensures
            (desynced, *final(self)) == corrected_spec(*old(self)),
    {
        self.repaths = self.repaths + 1;
        if self.repaths > MAX_CORRECTION_REPATHS {
            return true;
        }
        self.queued = false;
        self.lead_owed = 0;
        false
    }

    /// A leg the server takes `step_ms` to walk was handed over: the wait
    /// to sleep, the part not waited out owed back at the end, and the
    /// server now walking one of ours.
    pub fn stepped(&mut self, step_ms: u64) -> (wait: u64)
        requires
            old(self).lead_owed + HANDOVER_LEAD_MS <= u64::MAX,
        ensures
            wait == pace_spec(step_ms, old(self).queued),
            final(self).lead_owed == old(self).lead_owed + (if step_ms > wait {
                step_ms - wait
            } else {
                0
            }),
            final(self).queued,
            final(self).repaths == old(self).repaths,
            final(self).doors_opened == old(self).doors_opened,
    {
        let queued = self.queued;
        let wait = pace_step(&mut self.lead_owed, step_ms, queued);
        self.queued = true;
        wait
    }

    /// Nothing left to send, or the walk arrived: the head start is given
    /// back (the wait returned), and the server holds no leg of ours.
    pub fn settle(&mut self) -> (wait: u64)
        ensures
            wait == old(self).lead_owed,
            *final(self) == (WalkProgress { lead_owed: 0, queued: false, ..*old(self) }),
    {
        self.queued = false;
        settle_handover(&mut self.lead_owed)
    }

    /// The route was walked out; `unreachable` says no route reached the
    /// goal.
    pub fn route_walked_out(&mut self, pol: WalkPolicy, unreachable: bool) -> (r: AfterRoute)
        ensures
            (r, *final(self)) == after_route_spec(*old(self), pol, unreachable),
    {
        if !unreachable {
            if pol.route_end_is_arrival {
                return AfterRoute::Arrived;
            }
            self.repaths = 0;
            return AfterRoute::LookAgain;
        }
        if self.doors_opened < pol.max_doors {
            AfterRoute::TryDoor
        } else {
            AfterRoute::Stuck
        }
    }

    /// A door in the way was opened.
    pub fn door_opened(&mut self, pol: WalkPolicy)
        requires
            old(self).doors_opened < pol.max_doors,
        ensures
            *final(self) == (WalkProgress { doors_opened: (old(self).doors_opened + 1) as u32, ..*old(self) }),
    {
        self.doors_opened = self.doors_opened + 1;
    }
}

/// How a stuck walk ends, where it ends.
pub fn stuck_loss(locked: bool) -> (r: LostReason)
    ensures
        r == (if locked {
            LostReason::LockedDoor
        } else {
            LostReason::NoPath
        }),
{
    if locked {
        LostReason::LockedDoor
    } else {
        LostReason::NoPath
    }
}

/// A walk never arrives off its target's floor when the target is a
/// place, never through a blocked line when it needs a clear one, and never
/// out of range; and nothing is decided before the deadline, the target and
/// our own life are checked.
pub proof fn law_an_arrival_is_in_range_on_the_floor_and_in_the_clear(k: WalkKind, c: Checkpoint)
    ensures
        checkpoint_spec(k, c) == Some(Walked::Arrived) ==> {
            &&& c.in_range
            &&& !c.timed_out && c.target_present && c.alive
            &&& (k == WalkKind::Place ==> c.on_target_floor && !c.prey_in_reach)
            &&& (policy_spec(k).needs_clear_line ==> !c.line_blocked)
        },
        c.timed_out ==> checkpoint_spec(k, c) == Some(Walked::Lost(LostReason::Timeout)),
        k != WalkKind::Place ==> checkpoint_spec(k, c) != Some(Walked::Lost(LostReason::PreyInReach)),
{
}

/// A walk opens no more doors than its policy allows: a door is tried only
/// while the count is under the cap, and opening one keeps it within.
pub proof fn law_the_door_budget_holds(p: WalkProgress, pol: WalkPolicy, unreachable: bool)
    requires
        p.doors_opened <= pol.max_doors,
    ensures
        after_route_spec(p, pol, unreachable).0 == AfterRoute::TryDoor ==> p.doors_opened + 1
            <= pol.max_doors,
        after_route_spec(p, pol, unreachable).1.doors_opened == p.doors_opened,
        after_route_spec(p, pol, unreachable).0 == AfterRoute::Stuck ==> unreachable
            && p.doors_opened == pol.max_doors,
{
}

/// A walk gives up on the first correction past its budget and on no
/// earlier one: from a walk with no corrections yet, the corrections up to
/// the budget are searched again.
pub proof fn law_a_walk_gives_up_on_the_first_correction_past_the_budget(p: WalkProgress, n: nat)
    requires
        p.repaths == 0,
        1 <= n <= MAX_CORRECTION_REPATHS + 1,
    ensures
        after_corrections(p, n).0 == (n == MAX_CORRECTION_REPATHS + 1),
        after_corrections(p, n).1.repaths == n,
    decreases n,
{
    let prev = after_corrections(p, (n - 1) as nat);
    if n > 1 {
        law_a_walk_gives_up_on_the_first_correction_past_the_budget(p, (n - 1) as nat);
    } else {
        assert(prev == (false, p));
    }
    assert(prev.1.repaths == n - 1);
    assert(after_corrections(p, n) == corrected_spec(prev.1));
}

} // verus!
