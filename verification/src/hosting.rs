//! An innkeeper NPC's day around its prompts: the wrap-up turn before a
//! schedule move, eating a plate served to it, clearing the plates guests
//! left behind, serving orders, going over to a guest who sits down or to
//! a sick-room bed, and letting a guest go when they stand. The claim board
//! keeps two staff from answering one call. The caller reads the world,
//! walks, and sends the commands; time is a monotonic millisecond count.

use vstd::prelude::*;
use vstd::string::StringExecFns;
use std::collections::HashMap;

use crate::claims::{
    claim_spec, holder_spec, release_spec, ClaimKey, VisitClaims, CLEAR_DWELL_MS,
    GUEST_CLAIM_TTL_MS, VISIT_DWELL_MS,
};
use crate::text::{joined, push_joined};
use crate::timers::elapsed;

verus! {

broadcast use vstd::string::group_string_axioms, vstd::std_specs::hash::group_hash_axioms;

/// How long a due schedule move waits for the agent's wrap-up turn: the
/// prompt debounce and one round trip. The move starts as soon as that
/// turn lands, so the whole grace is only spent on a silent agent.
pub const SCHEDULE_WRAPUP_GRACE_MS: u64 = 30_000;

/// A seated NPC eats a plate this long after it lands.
pub const EAT_DELAY_MS: u64 = 6_000;

/// The moment a guest gets after standing before their plate is cleared.
pub const CLEAR_DELAY_MS: u64 = 8_000;

/// What the schedule does this tick.
#[derive(Debug, Clone, Copy, PartialEq, Eq, Structural)]
pub enum WrapupStep {
    /// Stay where we are.
    Stay,
    /// Tell the agent it sets off in a moment, and wait for its wrap-up
    /// turn.
    Announce,
    /// Move to the due entry now.
    Go,
}

/// The schedule's wrap-up, tick by tick. `pending` is the deadline of an
/// announced move and whether a prompt carrying the announcement has gone
/// out; `due_is_active` says the due entry is the one we are on,
/// `same_entry` that only its start changed (a recurring entry has nothing
/// to wrap up), `to_nothing` that no entry is due.
pub open spec fn wrapup_spec(
    pending: Option<(u64, bool)>,
    due_is_active: bool,
    same_entry: bool,
    to_nothing: bool,
    in_flight: bool,
    sleeping: bool,
    audience: bool,
    now: u64,
) -> (WrapupStep, Option<(u64, bool)>) {
    if due_is_active {
        (WrapupStep::Stay, None)
    } else if same_entry || to_nothing {
        (WrapupStep::Go, None)
    } else {
        match pending {
            Some((deadline, prompted)) => if (prompted && !in_flight) || now >= deadline {
                (WrapupStep::Go, None)
            } else {
                (WrapupStep::Stay, pending)
            },
            None => if !sleeping && audience {
                (WrapupStep::Announce, Some(((now + SCHEDULE_WRAPUP_GRACE_MS) as u64, false)))
            } else {
                (WrapupStep::Go, None)
            },
        }
    }
}

/// A pending schedule move waiting for the agent to wrap up.
pub struct Wrapup {
    pub pending: Option<(u64, bool)>,
}

impl Wrapup {
    /// Nothing announced.
    pub fn new() -> (r: Self)
        ensures
            r.pending is None,
    {
        Wrapup { pending: None }
    }

    /// One tick of the schedule. `in_flight` says a prompt is out,
    /// `sleeping` that the entry we are on is a sleep, `audience` that the
    /// agent thinks now (it always does, or someone is around).
    pub fn next_move(
        &mut self,
        due_is_active: bool,
        same_entry: bool,
        to_nothing: bool,
        in_flight: bool,
        sleeping: bool,
        audience: bool,
        now: u64,
    ) -> (r: WrapupStep)
        requires
            now + SCHEDULE_WRAPUP_GRACE_MS <= u64::MAX,
        ensures
            (r, final(self).pending) == wrapup_spec(
                old(self).pending,
                due_is_active,
                same_entry,
                to_nothing,
                in_flight,
                sleeping,
                audience,
                now,
            ),
    {
        if due_is_active {
            self.pending = None;
            return WrapupStep::Stay;
        }
        if same_entry || to_nothing {
            self.pending = None;
            return WrapupStep::Go;
        }
        match self.pending {
            Some((deadline, prompted)) => {
                if (prompted && !in_flight) || now >= deadline {
                    self.pending = None;
                    WrapupStep::Go
                } else {
                    WrapupStep::Stay
                }
            },
            None => {
                if !sleeping && audience {
                    self.pending = Some((now + SCHEDULE_WRAPUP_GRACE_MS, false));
                    WrapupStep::Announce
                } else {
                    WrapupStep::Go
                }
            },
        }
    }

    /// A prompt went out: it carries the announcement, if one is pending.
    pub fn prompted(&mut self)
        ensures
            final(self).pending == (match old(self).pending {
                Some((d, _)) => Some((d, true)),
                None => None,
            }),
    {
        match self.pending {
            Some((d, _)) => {
                self.pending = Some((d, true));
            },
            None => {},
        }
    }
}

/// The announcement of a move to the entry labelled `label`.
pub fn wrapup_note(label: &str) -> (r: String)
    ensures
        r@ == "[Schedule] Time to head to "@ + label@
            + " — you set off in a moment. Wrap up what you are doing now (pack up, finish your tune, say goodbye)."@,
{
    let mut r = String::from_str("[Schedule] Time to head to ");
    r.append(label);
    r.append(
        " — you set off in a moment. Wrap up what you are doing now (pack up, finish your tune, say goodbye).",
    );
    r
}

/// An announced move waits no longer than the grace, and goes as soon as
/// the agent's wrap-up turn has landed; a move with no one to see it, or to
/// the same spot, is not announced at all.
pub proof fn law_an_announced_move_waits_at_most_the_grace(
    deadline: u64,
    prompted: bool,
    in_flight: bool,
    sleeping: bool,
    audience: bool,
    now: u64,
)
    ensures
        now >= deadline ==> wrapup_spec(
            Some((deadline, prompted)),
            false,
            false,
            false,
            in_flight,
            sleeping,
            audience,
            now,
        ).0 == WrapupStep::Go,
        prompted && !in_flight ==> wrapup_spec(
            Some((deadline, prompted)),
            false,
            false,
            false,
            in_flight,
            sleeping,
            audience,
            now,
        ).0 == WrapupStep::Go,
        !audience ==> wrapup_spec(None, false, false, false, in_flight, sleeping, audience, now).0
            == WrapupStep::Go,
        wrapup_spec(Some((deadline, prompted)), false, true, false, in_flight, sleeping, audience, now).0
            == WrapupStep::Go,
{
}

/// The entries of `m` for the meals still on the tables.
pub open spec fn still_served<V>(m: Map<u64, V>, meals: Seq<u64>) -> Map<u64, V> {
    Map::new(|k: u64| m.contains_key(k) && meals.contains(k), |k: u64| m[k])
}

/// What to do about the plate in front of us.
#[derive(Debug, Clone, Copy, PartialEq, Eq, Structural)]
pub enum PlateStep {
    Nothing,
    /// It just landed: thank whoever brought it.
    Thank,
    /// Eat it now.
    Eat,
}

/// The plate in front of us this tick: `mine` is the meal served to us at
/// our chair and not yet eaten. A new plate is thanked for and timed; once
/// it has stood `EAT_DELAY_MS` it is eaten, and then only the echo is
/// awaited.
pub open spec fn plate_spec(m: Map<u64, Option<u64>>, meals: Seq<u64>, mine: Option<u64>, now: u64) -> (
    PlateStep,
    Map<u64, Option<u64>>,
) {
    let kept = still_served(m, meals);
    match mine {
        Some(id) => if !kept.contains_key(id) {
            (PlateStep::Thank, kept.insert(id, Some(now)))
        } else {
            match kept[id] {
                Some(since) => if elapsed(since, now) >= EAT_DELAY_MS {
                    (PlateStep::Eat, kept.insert(id, None))
                } else {
                    (PlateStep::Nothing, kept)
                },
                None => (PlateStep::Nothing, kept),
            }
        },
        None => (PlateStep::Nothing, kept),
    }
}

/// Plates served to us: when each landed, or none once the eat was sent.
pub struct MyPlates {
    plates: HashMap<u64, Option<u64>>,
}

impl View for MyPlates {
    type V = Map<u64, Option<u64>>;

    closed spec fn view(&self) -> Map<u64, Option<u64>> {
        self.plates@
    }
}

impl MyPlates {
    /// No plate served yet.
    pub fn new() -> (r: Self)
        ensures
            r@ == Map::<u64, Option<u64>>::empty(),
    {
        MyPlates { plates: HashMap::new() }
    }

    /// This tick's plate. `meals` are the meals still on the tables.
    pub fn tick(&mut self, meals: &Vec<u64>, mine: Option<u64>, now: u64) -> (r: PlateStep)
        ensures
            (r, final(self)@) == plate_spec(old(self)@, meals@, mine, now),
    {
        let ghost start = self.plates@;
        let mut kept: HashMap<u64, Option<u64>> = HashMap::new();
        let mut k: usize = 0;
        while k < meals.len()
            invariant
                k <= meals.len(),
                start == self.plates@,
                kept@ == still_served(start, meals@.take(k as int)),
            decreases meals.len() - k,
        {
            let id = meals[k];
            let ghost before = kept@;
            match self.plates.get(&id) {
                Some(v) => {
                    kept.insert(id, *v);
                },
                None => {},
            }
            proof {
                assert(meals@.take(k + 1) == meals@.take(k as int).push(id));
                assert forall|x: u64| #[trigger] meals@.take(k + 1).contains(x) <==> (meals@.take(
                    k as int,
                ).contains(x) || x == id) by {
                    vstd::seq_lib::lemma_seq_contains_after_push(meals@.take(k as int), id, x);
                }
                assert(kept@ =~= still_served(start, meals@.take(k + 1)));
            }
            k = k + 1;
        }
        assert(meals@.take(meals.len() as int) == meals@);
        self.plates = kept;
        match mine {
            Some(id) => {
                match self.plates.get(&id) {
                    None => {
                        self.plates.insert(id, Some(now));
                        PlateStep::Thank
                    },
                    Some(Some(since)) => {
                        if now.saturating_sub(*since) >= EAT_DELAY_MS {
                            self.plates.insert(id, None);
                            PlateStep::Eat
                        } else {
                            PlateStep::Nothing
                        }
                    },
                    Some(None) => PlateStep::Nothing,
                }
            },
            None => PlateStep::Nothing,
        }
    }
}

/// The note for a plate set in front of us.
pub fn meal_note(dish: &str) -> (r: String)
    ensures
        r@ == "[Meal] A plate of "@ + dish@
            + " was set in front of you. Thank whoever brought it in your own words; you eat it by yourself in a moment — no action needed."@,
{
    let mut r = String::from_str("[Meal] A plate of ");
    r.append(dish);
    r.append(
        " was set in front of you. Thank whoever brought it in your own words; you eat it by yourself in a moment — no action needed.",
    );
    r
}

/// A plate is thanked for once and eaten once: an eaten plate that is
/// still on the table asks nothing more, and a fresh one is never eaten on
/// the tick it lands.
pub proof fn law_a_plate_is_thanked_once_and_eaten_once(
    m: Map<u64, Option<u64>>,
    meals: Seq<u64>,
    id: u64,
    now: u64,
    later: u64,
)
    requires
        meals.contains(id),
    ensures
        plate_spec(m, meals, Some(id), now).0 == PlateStep::Thank ==> plate_spec(
            plate_spec(m, meals, Some(id), now).1,
            meals,
            Some(id),
            later,
        ).0 != PlateStep::Thank,
        plate_spec(m, meals, Some(id), now).0 == PlateStep::Eat ==> plate_spec(
            plate_spec(m, meals, Some(id), now).1,
            meals,
            Some(id),
            later,
        ).0 == PlateStep::Nothing,
{
    let first = plate_spec(m, meals, Some(id), now).1;
    let kept = still_served(first, meals);
    assert(first.contains_key(id) ==> kept.contains_key(id));
    if plate_spec(m, meals, Some(id), now).0 == PlateStep::Eat {
        assert(first[id] == None::<u64>);
        assert(kept[id] == first[id]);
    }
}

/// The plate to clear, walking the abandoned plates in order from `k`:
/// each is timed from when it was first seen abandoned; one abandoned for
/// `CLEAR_DELAY_MS` is claimed, and taken when the claim is won and there
/// is a spot beside its chair to clear it from (a claim won without such a
/// spot is kept, and the walk goes on).
pub open spec fn clear_from(
    since: Map<u64, u64>,
    board: Map<ClaimKey, (Seq<char>, u64)>,
    plates: Seq<u64>,
    spots: Seq<bool>,
    who: Seq<char>,
    now: u64,
    k: int,
) -> (Option<int>, Map<u64, u64>, Map<ClaimKey, (Seq<char>, u64)>)
    decreases plates.len() - k,
{
    if k < 0 || k >= plates.len() {
        (None, since, board)
    } else {
        let id = plates[k];
        let t = if since.contains_key(id) {
            since[id]
        } else {
            now
        };
        let since2 = since.insert(id, t);
        if elapsed(t, now) >= CLEAR_DELAY_MS {
            let (won, b2) = claim_spec(board, ClaimKey::Meal(id), who, CLEAR_DWELL_MS, now);
            if won && k < spots.len() && spots[k] {
                (Some(k), since2, b2)
            } else {
                clear_from(since2, b2, plates, spots, who, now, k + 1)
            }
        } else {
            clear_from(since2, board, plates, spots, who, now, k + 1)
        }
    }
}

/// When each plate left behind was first seen abandoned.
pub struct AbandonedPlates {
    since: HashMap<u64, u64>,
}

impl View for AbandonedPlates {
    type V = Map<u64, u64>;

    closed spec fn view(&self) -> Map<u64, u64> {
        self.since@
    }
}

impl AbandonedPlates {
    /// Nothing seen yet.
    pub fn new() -> (r: Self)
        ensures
            r@ == Map::<u64, u64>::empty(),
    {
        AbandonedPlates { since: HashMap::new() }
    }

    /// The plate to clear this tick, if any: `plates` are the plates whose
    /// guest has left, in the order the world lists them, and `spots[i]`
    /// says a spot beside plate `i`'s chair is known. Plates no longer
    /// abandoned are forgotten first.
    pub fn pick(
        &mut self,
        plates: &Vec<u64>,
        spots: &Vec<bool>,
        claims: &mut VisitClaims,
        who: &str,
        now: u64,
    ) -> (r: Option<usize>)
        requires
            now + CLEAR_DWELL_MS <= u64::MAX,
        ensures
            ({
                let (pick, since, board) = clear_from(
                    still_served(old(self)@, plates@),
                    old(claims)@,
                    plates@,
                    spots@,
                    who@,
                    now,
                    0,
                );
                &&& final(self)@ == since
                &&& final(claims)@ == board
                &&& match r {
                    Some(i) => pick == Some(i as int),
                    None => pick is None,
                }
            }),
    {
        let ghost start = self.since@;
        let mut kept: HashMap<u64, u64> = HashMap::new();
        let mut k: usize = 0;
        while k < plates.len()
            invariant
                k <= plates.len(),
                start == self.since@,
                kept@ == still_served(start, plates@.take(k as int)),
            decreases plates.len() - k,
        {
            let id = plates[k];
            match self.since.get(&id) {
                Some(v) => {
                    kept.insert(id, *v);
                },
                None => {},
            }
            proof {
                assert(plates@.take(k + 1) == plates@.take(k as int).push(id));
                assert forall|x: u64| #[trigger] plates@.take(k + 1).contains(x) <==> (plates@.take(
                    k as int,
                ).contains(x) || x == id) by {
                    vstd::seq_lib::lemma_seq_contains_after_push(plates@.take(k as int), id, x);
                }
                assert(kept@ =~= still_served(start, plates@.take(k + 1)));
            }
            k = k + 1;
        }
        assert(plates@.take(plates.len() as int) == plates@);
        self.since = kept;
        let ghost target = clear_from(self.since@, claims@, plates@, spots@, who@, now, 0);
        let mut i: usize = 0;
        while i < plates.len()
            invariant
                i <= plates.len(),
                now + CLEAR_DWELL_MS <= u64::MAX,
                clear_from(self.since@, claims@, plates@, spots@, who@, now, i as int) == target,
                target == clear_from(
                    still_served(old(self)@, plates@),
                    old(claims)@,
                    plates@,
                    spots@,
                    who@,
                    now,
                    0,
                ),
            decreases plates.len() - i,
        {
            let id = plates[i];
            let ghost since_i = self.since@;
            let ghost board_i = claims@;
            let t: u64 = match self.since.get(&id) {
                Some(v) => *v,
                None => now,
            };
            self.since.insert(id, t);
            assert(self.since@ == since_i.insert(id, t));
            if now.saturating_sub(t) >= CLEAR_DELAY_MS {
                let won = claims.try_claim(ClaimKey::Meal(id), who, CLEAR_DWELL_MS, now);
                if won && i < spots.len() && spots[i] {
                    assert(clear_from(since_i, board_i, plates@, spots@, who@, now, i as int) == (
                        Some(i as int),
                        self.since@,
                        claims@,
                    ));
                    return Some(i);
                }
            }
            i = i + 1;
        }
        None
    }
}

/// A plate is cleared only after its delay, under a claim this worker
/// holds, from a known spot; a plate whose delay has not run is never
/// claimed.
pub proof fn law_a_plate_is_cleared_only_after_its_delay_under_our_claim(
    since: Map<u64, u64>,
    board: Map<ClaimKey, (Seq<char>, u64)>,
    plates: Seq<u64>,
    spots: Seq<bool>,
    who: Seq<char>,
    now: u64,
    k: int,
)
    requires
        0 <= k,
        now + CLEAR_DWELL_MS <= u64::MAX,
    ensures
        clear_from(since, board, plates, spots, who, now, k).0 matches Some(i) ==> {
            &&& k <= i < plates.len() && i < spots.len() && spots[i]
            &&& clear_from(since, board, plates, spots, who, now, k).1.contains_key(plates[i])
            &&& elapsed(clear_from(since, board, plates, spots, who, now, k).1[plates[i]], now)
                >= CLEAR_DELAY_MS
            &&& holder_spec(
                clear_from(since, board, plates, spots, who, now, k).2,
                ClaimKey::Meal(plates[i]),
                now,
            ) == Some(who)
        },
    decreases plates.len() - k,
{
    if k < plates.len() {
        let id = plates[k];
        let t = if since.contains_key(id) {
            since[id]
        } else {
            now
        };
        let since2 = since.insert(id, t);
        if elapsed(t, now) >= CLEAR_DELAY_MS {
            let (won, b2) = claim_spec(board, ClaimKey::Meal(id), who, CLEAR_DWELL_MS, now);
            if won && k < spots.len() && spots[k] {
                assert(b2.contains_key(ClaimKey::Meal(id)));
            } else {
                law_a_plate_is_cleared_only_after_its_delay_under_our_claim(
                    since2,
                    b2,
                    plates,
                    spots,
                    who,
                    now,
                    k + 1,
                );
                lemma_clear_keeps_stamps(since2, b2, plates, spots, who, now, k + 1);
            }
        } else {
            law_a_plate_is_cleared_only_after_its_delay_under_our_claim(
                since2,
                board,
                plates,
                spots,
                who,
                now,
                k + 1,
            );
        }
    }
}

/// The walk over the plates only adds stamps and never moves one.
proof fn lemma_clear_keeps_stamps(
    since: Map<u64, u64>,
    board: Map<ClaimKey, (Seq<char>, u64)>,
    plates: Seq<u64>,
    spots: Seq<bool>,
    who: Seq<char>,
    now: u64,
    k: int,
)
    ensures
        forall|x: u64|
            since.contains_key(x) ==> #[trigger] clear_from(since, board, plates, spots, who, now, k).1.contains_key(x)
                && clear_from(since, board, plates, spots, who, now, k).1[x] == since[x],
    decreases plates.len() - k,
{
    if 0 <= k < plates.len() {
        let id = plates[k];
        let t = if since.contains_key(id) {
            since[id]
        } else {
            now
        };
        let since2 = since.insert(id, t);
        assert forall|x: u64| since.contains_key(x) implies #[trigger] since2.contains_key(x)
            && since2[x] == since[x] by {
            if x == id {
                assert(since2[x] == t);
            }
        }
        let (won, b2) = claim_spec(board, ClaimKey::Meal(id), who, CLEAR_DWELL_MS, now);
        lemma_clear_keeps_stamps(since2, b2, plates, spots, who, now, k + 1);
        lemma_clear_keeps_stamps(since2, board, plates, spots, who, now, k + 1);
        let r = clear_from(since, board, plates, spots, who, now, k);
        assert forall|x: u64| since.contains_key(x) implies #[trigger] r.1.contains_key(x) && r.1[x]
            == since[x] by {
            assert(since2.contains_key(x) && since2[x] == since[x]);
            if elapsed(t, now) >= CLEAR_DELAY_MS {
                if won && k < spots.len() && spots[k] {
                    assert(r.1 == since2);
                } else {
                    assert(clear_from(since2, b2, plates, spots, who, now, k + 1).1.contains_key(x));
                    assert(r == clear_from(since2, b2, plates, spots, who, now, k + 1));
                }
            } else {
                assert(clear_from(since2, board, plates, spots, who, now, k + 1).1.contains_key(x));
                assert(r == clear_from(since2, board, plates, spots, who, now, k + 1));
            }
        }
    }
}

/// What became of a taken order.
#[derive(Debug)]
pub enum Serve {
    /// We do not serve tables.
    NotServing,
    /// Another staff member looks after this guest.
    OthersGuest { holder: String },
    /// Ours: carry it over.
    Trip,
    /// Ours, but the guest is no longer at a table.
    LeftSeat,
}

/// What becomes of an order a guest gave us: refused when we do not serve
/// tables; left to whoever holds the guest; else the guest is ours, and
/// the order is carried over while they sit at a table (`at_table`).
pub fn serve_order(
    claims: &mut VisitClaims,
    serve_tables: bool,
    guest: u64,
    at_table: bool,
    who: &str,
    now: u64,
) -> (r: Serve)
    requires
        now + GUEST_CLAIM_TTL_MS <= u64::MAX,
    ensures
        !serve_tables ==> r is NotServing && final(claims)@ == old(claims)@,
        serve_tables ==> {
            let (won, b) = claim_spec(old(claims)@, ClaimKey::Guest(guest), who@, GUEST_CLAIM_TTL_MS, now);
            &&& final(claims)@ == b
            &&& !won ==> (r matches Serve::OthersGuest { holder } && holder@ == (match holder_spec(
                b,
                ClaimKey::Guest(guest),
                now,
            ) {
                Some(h) => h,
                None => "the other maid"@,
            }))
            &&& won && at_table ==> r is Trip
            &&& won && !at_table ==> r is LeftSeat
        },
{
    if !serve_tables {
        return Serve::NotServing;
    }
    if !claims.try_claim(ClaimKey::Guest(guest), who, GUEST_CLAIM_TTL_MS, now) {
        let holder = match claims.holder(ClaimKey::Guest(guest), now) {
            Some(h) => h,
            None => String::from_str("the other maid"),
        };
        return Serve::OthersGuest { holder };
    }
    if at_table {
        Serve::Trip
    } else {
        Serve::LeftSeat
    }
}

/// The dishes of an order, as it is read out.
pub open spec fn order_spec(dishes: Seq<String>) -> Seq<char> {
    joined(dishes.map_values(|d: String| d@), " and "@)
}

/// The note for an order that is not carried over.
pub open spec fn serve_note_spec(r: Serve, guest: Seq<char>, dishes: Seq<String>) -> Option<Seq<char>> {
    match r {
        Serve::NotServing => Some(
            "[ServeFailed] You don't serve tables here — "@ + guest + " will have to buy the "@
                + order_spec(dishes) + " or ask the inn staff."@,
        ),
        Serve::OthersGuest { holder } => Some(
            "[ServeFailed] "@ + guest + " is "@ + holder@
                + "'s guest — she brings their order. Stay out of it; nothing was served."@,
        ),
        Serve::LeftSeat => Some(
            "[ServeFailed] "@ + guest + " left the seat before the "@ + order_spec(dishes)
                + " was ready."@,
        ),
        Serve::Trip => None,
    }
}

/// The note for an order that is not carried over.
pub fn serve_note(r: &Serve, guest: &str, dishes: &Vec<String>) -> (n: Option<String>)
    ensures
        match n {
            Some(t) => serve_note_spec(*r, guest@, dishes@) == Some(t@),
            None => serve_note_spec(*r, guest@, dishes@) is None,
        },
{
    match r {
        Serve::NotServing => {
            let mut t = String::from_str("[ServeFailed] You don't serve tables here — ");
            t.append(guest);
            t.append(" will have to buy the ");
            push_joined(&mut t, dishes, " and ");
            t.append(" or ask the inn staff.");
            Some(t)
        },
        Serve::OthersGuest { holder } => {
            let mut t = String::from_str("[ServeFailed] ");
            t.append(guest);
            t.append(" is ");
            t.append(holder.as_str());
            t.append("'s guest — she brings their order. Stay out of it; nothing was served.");
            Some(t)
        },
        Serve::LeftSeat => {
            let mut t = String::from_str("[ServeFailed] ");
            t.append(guest);
            t.append(" left the seat before the ");
            push_joined(&mut t, dishes, " and ");
            t.append(" was ready.");
            Some(t)
        },
        Serve::Trip => None,
    }
}

/// The note once an order is set down in front of the guest.
pub fn served_note(guest: &str, dishes: &Vec<String>) -> (n: String)
    ensures
        n@ == "[Served] You set the "@ + order_spec(dishes@) + " down in front of "@ + guest@
            + ". A word to them in your own voice, then leave them to eat."@,
{
    let mut t = String::from_str("[Served] You set the ");
    push_joined(&mut t, dishes, " and ");
    t.append(" down in front of ");
    t.append(guest);
    t.append(". A word to them in your own voice, then leave them to eat.");
    t
}

/// The guest to go over to, looking at the seatings from the newest back
/// (`n` of them left): a seating with a table spot (`tables`) is claimed;
/// the first won is ours; one held by another staff member is noted with
/// who holds it (index and holder), in the order met.
pub open spec fn seat_from(
    board: Map<ClaimKey, (Seq<char>, u64)>,
    seatings: Seq<u64>,
    tables: Seq<bool>,
    who: Seq<char>,
    now: u64,
    n: int,
) -> (Option<int>, Map<ClaimKey, (Seq<char>, u64)>, Seq<(int, Seq<char>)>)
    decreases n,
{
    if n <= 0 || n > seatings.len() {
        (None, board, Seq::empty())
    } else {
        let i = n - 1;
        if !(i < tables.len() && tables[i]) {
            seat_from(board, seatings, tables, who, now, i)
        } else {
            let (won, b2) = claim_spec(board, ClaimKey::Guest(seatings[i]), who, GUEST_CLAIM_TTL_MS, now);
            if won {
                (Some(i), b2, Seq::empty())
            } else {
                let rest = seat_from(b2, seatings, tables, who, now, i);
                let noted: Seq<(int, Seq<char>)> = match holder_spec(b2, ClaimKey::Guest(seatings[i]), now) {
                    Some(h) => seq![(i, h)],
                    None => Seq::empty(),
                };
                (rest.0, rest.1, noted + rest.2)
            }
        }
    }
}

/// The seatings noted as another's, as values.
pub open spec fn noted_view(v: Seq<(usize, String)>) -> Seq<(int, Seq<char>)> {
    v.map_values(|p: (usize, String)| (p.0 as int, p.1@))
}

/// The guest to go over to among the seatings since the last tick (oldest
/// first; `tables[i]` says seating `i` has a table spot within reach), and
/// the seatings another staff member holds, with who holds them.
pub fn greet_seated(
    claims: &mut VisitClaims,
    seatings: &Vec<u64>,
    tables: &Vec<bool>,
    who: &str,
    now: u64,
) -> (r: (Option<usize>, Vec<(usize, String)>))
    requires
        now + GUEST_CLAIM_TTL_MS <= u64::MAX,
    ensures
        ({
            let (pick, board, noted) = seat_from(
                old(claims)@,
                seatings@,
                tables@,
                who@,
                now,
                seatings@.len() as int,
            );
            &&& final(claims)@ == board
            &&& noted_view(r.1@) == noted
            &&& match r.0 {
                Some(i) => pick == Some(i as int),
                None => pick is None,
            }
        }),
{
    let ghost target = seat_from(claims@, seatings@, tables@, who@, now, seatings@.len() as int);
    let mut noted: Vec<(usize, String)> = Vec::new();
    let mut n: usize = seatings.len();
    while n > 0
        invariant
            n <= seatings.len(),
            now + GUEST_CLAIM_TTL_MS <= u64::MAX,
            seat_from(claims@, seatings@, tables@, who@, now, n as int).0 == target.0,
            seat_from(claims@, seatings@, tables@, who@, now, n as int).1 == target.1,
            noted_view(noted@) + seat_from(claims@, seatings@, tables@, who@, now, n as int).2
                == target.2,
            target == seat_from(old(claims)@, seatings@, tables@, who@, now, seatings@.len() as int),
        decreases n,
    {
        let i = n - 1;
        let ghost board_i = claims@;
        let ghost before = noted@;
        if i < tables.len() && tables[i] {
            let pid = seatings[i];
            if claims.try_claim(ClaimKey::Guest(pid), who, GUEST_CLAIM_TTL_MS, now) {
                proof {
                    assert(noted_view(noted@) + Seq::<(int, Seq<char>)>::empty() == noted_view(noted@));
                }
                return (Some(i), noted);
            }
            let h = claims.holder(ClaimKey::Guest(pid), now);
            match h {
                Some(name) => {
                    noted.push((i, name));
                    proof {
                        assert(noted_view(noted@) == noted_view(before).push((i as int, name@)));
                        let rest = seat_from(claims@, seatings@, tables@, who@, now, i as int);
                        assert(noted_view(noted@) + rest.2 == noted_view(before) + (seq![
                            (i as int, name@),
                        ] + rest.2));
                    }
                },
                None => {
                    proof {
                        let rest = seat_from(claims@, seatings@, tables@, who@, now, i as int);
                        assert(Seq::<(int, Seq<char>)>::empty() + rest.2 == rest.2);
                    }
                },
            }
        }
        n = i;
    }
    proof {
        assert(noted_view(noted@) + Seq::<(int, Seq<char>)>::empty() == noted_view(noted@));
    }
    (None, noted)
}

/// The note for a seating another staff member looks after.
pub fn taken_guest_note(guest: &str, holder: &str) -> (n: String)
    ensures
        n@ == "[Guest] "@ + guest@ + " took a seat, but "@ + holder@
            + " is looking after them — leave their table and their orders to her; don't answer what they ask her for."@,
{
    let mut t = String::from_str("[Guest] ");
    t.append(guest);
    t.append(" took a seat, but ");
    t.append(holder);
    t.append(
        " is looking after them — leave their table and their orders to her; don't answer what they ask her for.",
    );
    t
}

/// The note when we go over to a guest who sat down.
pub fn guest_visit_note(guest: &str) -> (n: String)
    ensures
        n@ == "[Guest] "@ + guest@
            + " just took a seat at one of your tables and you are on your way over — no move action needed. Greet them in your own words and take their order. A dish they ask for, you bring with the serve action; other goods they buy by clicking you to open your shop. If they have already left the seat, let it go."@,
{
    let mut t = String::from_str("[Guest] ");
    t.append(guest);
    t.append(
        " just took a seat at one of your tables and you are on your way over — no move action needed. Greet them in your own words and take their order. A dish they ask for, you bring with the serve action; other goods they buy by clicking you to open your shop. If they have already left the seat, let it go.",
    );
    t
}

/// A guest we go over to is one we now hold, and no guest another staff
/// member holds is taken from them.
pub proof fn law_a_guest_is_only_ever_one_maids(
    board: Map<ClaimKey, (Seq<char>, u64)>,
    seatings: Seq<u64>,
    tables: Seq<bool>,
    who: Seq<char>,
    now: u64,
    n: int,
)
    requires
        now + GUEST_CLAIM_TTL_MS <= u64::MAX,
        n <= seatings.len(),
    ensures
        seat_from(board, seatings, tables, who, now, n).0 matches Some(i) ==> {
            &&& 0 <= i < n
            &&& i < tables.len() && tables[i]
            &&& holder_spec(seat_from(board, seatings, tables, who, now, n).1, ClaimKey::Guest(seatings[i]), now)
                == Some(who)
        },
    decreases n,
{
    if 0 < n <= seatings.len() {
        let i = n - 1;
        if i < tables.len() && tables[i] {
            let (won, b2) = claim_spec(board, ClaimKey::Guest(seatings[i]), who, GUEST_CLAIM_TTL_MS, now);
            if !won {
                law_a_guest_is_only_ever_one_maids(b2, seatings, tables, who, now, i);
            }
        } else {
            law_a_guest_is_only_ever_one_maids(board, seatings, tables, who, now, i);
        }
    }
}

/// The first sick-room spot at bed `bed`.
pub open spec fn first_spot(beds: Seq<u32>, bed: u32) -> Option<int> {
    if exists|j: int| 0 <= j < beds.len() && beds[j] == bed && forall|k: int| 0 <= k < j ==> beds[k] != bed {
        Some(choose|j: int| 0 <= j < beds.len() && beds[j] == bed && forall|k: int| 0 <= k < j ==> beds[k] != bed)
    } else {
        None
    }
}

/// The bedside to go to, looking at the respawns from the newest back
/// (`n` of them left, each by the bed it woke in): a respawn in one of our
/// sick-room beds is claimed; the first won is ours, as the respawn's index
/// and the spot's.
pub open spec fn bedside_from(
    board: Map<ClaimKey, (Seq<char>, u64)>,
    woke_in: Seq<u32>,
    beds: Seq<u32>,
    who: Seq<char>,
    now: u64,
    n: int,
) -> (Option<(int, int)>, Map<ClaimKey, (Seq<char>, u64)>)
    decreases n,
{
    if n <= 0 || n > woke_in.len() {
        (None, board)
    } else {
        let i = n - 1;
        match first_spot(beds, woke_in[i]) {
            None => bedside_from(board, woke_in, beds, who, now, i),
            Some(j) => {
                let (won, b2) = claim_spec(board, ClaimKey::Bed(woke_in[i]), who, VISIT_DWELL_MS, now);
                if won {
                    (Some((i, j)), b2)
                } else {
                    bedside_from(b2, woke_in, beds, who, now, i)
                }
            },
        }
    }
}

/// The first sick-room spot at bed `bed`.
fn find_spot(beds: &Vec<u32>, bed: u32) -> (r: Option<usize>)
    ensures
        match r {
            Some(j) => first_spot(beds@, bed) == Some(j as int),
            None => first_spot(beds@, bed) is None,
        },
{
    let mut k: usize = 0;
    while k < beds.len()
        invariant
            k <= beds.len(),
            forall|m: int| 0 <= m < k ==> beds@[m] != bed,
        decreases beds.len() - k,
    {
        if beds[k] == bed {
            proof {
                assert(0 <= k < beds@.len() && beds@[k as int] == bed && forall|m: int|
                    0 <= m < k ==> beds@[m] != bed);
                let w = choose|j: int|
                    0 <= j < beds@.len() && beds@[j] == bed && forall|m: int| 0 <= m < j ==> beds@[m] != bed;
                if w < k {
                    assert(beds@[w] != bed);
                } else if w > k {
                    assert(beds@[k as int] != bed);
                }
            }
            return Some(k);
        }
        k = k + 1;
    }
    None
}

/// The bedside to go to among the respawns since the last tick (oldest
/// first, each by the bed it woke in): none while asleep (claiming then
/// would leave the bed unanswered).
pub fn bedside(
    claims: &mut VisitClaims,
    woke_in: &Vec<u32>,
    beds: &Vec<u32>,
    sleeping: bool,
    who: &str,
    now: u64,
) -> (r: Option<(usize, usize)>)
    requires
        now + VISIT_DWELL_MS <= u64::MAX,
    ensures
        sleeping ==> r is None && final(claims)@ == old(claims)@,
        !sleeping ==> ({
            let (pick, board) = bedside_from(old(claims)@, woke_in@, beds@, who@, now, woke_in@.len() as int);
            &&& final(claims)@ == board
            &&& match r {
                Some((i, j)) => pick == Some((i as int, j as int)),
                None => pick is None,
            }
        }),
{
    if sleeping {
        return None;
    }
    let ghost target = bedside_from(claims@, woke_in@, beds@, who@, now, woke_in@.len() as int);
    let mut n: usize = woke_in.len();
    while n > 0
        invariant
            !sleeping,
            n <= woke_in.len(),
            now + VISIT_DWELL_MS <= u64::MAX,
            bedside_from(claims@, woke_in@, beds@, who@, now, n as int) == target,
            target == bedside_from(old(claims)@, woke_in@, beds@, who@, now, woke_in@.len() as int),
        decreases n,
    {
        let i = n - 1;
        let bed = woke_in[i];
        match find_spot(beds, bed) {
            Some(j) => {
                if claims.try_claim(ClaimKey::Bed(bed), who, VISIT_DWELL_MS, now) {
                    return Some((i, j));
                }
            },
            None => {},
        }
        n = i;
    }
    None
}

/// The note when we go to the bedside of someone who woke in the sick room.
pub fn sickroom_note(name: &str) -> (n: String)
    ensures
        n@ == "[SickRoom] "@ + name@
            + " just came back to their senses in the sick room — they fell out there and were carried up. You are on your way to their bedside; no move action needed. Welcome them back with warm relief in your own words and offer something hot to eat. If they have already left the room, let them go — don't shout after them."@,
{
    let mut t = String::from_str("[SickRoom] ");
    t.append(name);
    t.append(
        " just came back to their senses in the sick room — they fell out there and were carried up. You are on your way to their bedside; no move action needed. Welcome them back with warm relief in your own words and offer something hot to eat. If they have already left the room, let them go — don't shout after them.",
    );
    t
}

/// The guests we hold, minus those who stood up, whose holds are given up
/// (`seated[i]` says guest `i` still sits), in order.
pub open spec fn standing_released(
    board: Map<ClaimKey, (Seq<char>, u64)>,
    guests: Seq<u64>,
    seated: Seq<bool>,
    who: Seq<char>,
    n: int,
) -> (Seq<u64>, Map<ClaimKey, (Seq<char>, u64)>)
    decreases n,
{
    if n <= 0 || n > guests.len() {
        (Seq::empty(), board)
    } else {
        let (kept, b) = standing_released(board, guests, seated, who, n - 1);
        if n - 1 < seated.len() && seated[n - 1] {
            (kept.push(guests[n - 1]), b)
        } else {
            (kept, release_spec(b, ClaimKey::Guest(guests[n - 1]), who))
        }
    }
}

/// Guests who left their chair are nobody's now: their holds are given up
/// so a returning guest can be anyone's, and the rest are kept.
pub fn release_standing(claims: &mut VisitClaims, guests: &Vec<u64>, seated: &Vec<bool>, who: &str) -> (kept: Vec<
    u64,
>)
    ensures
        (kept@, final(claims)@) == standing_released(old(claims)@, guests@, seated@, who@, guests@.len() as int),
{
    let mut kept: Vec<u64> = Vec::new();
    let mut k: usize = 0;
    while k < guests.len()
        invariant
            k <= guests.len(),
            (kept@, claims@) == standing_released(old(claims)@, guests@, seated@, who@, k as int),
        decreases guests.len() - k,
    {
        if k < seated.len() && seated[k] {
            kept.push(guests[k]);
        } else {
            claims.release(ClaimKey::Guest(guests[k]), who);
        }
        k = k + 1;
    }
    kept
}

/// One more guest we hold, once.
pub fn add_guest(guests: &mut Vec<u64>, guest: u64)
    ensures
        final(guests)@ == (if old(guests)@.contains(guest) {
            old(guests)@
        } else {
            old(guests)@.push(guest)
        }),
{
    let mut k: usize = 0;
    while k < guests.len()
        invariant
            k <= guests.len(),
            forall|m: int| 0 <= m < k ==> guests@[m] != guest,
        decreases guests.len() - k,
    {
        if guests[k] == guest {
            return;
        }
        k = k + 1;
    }
    guests.push(guest);
}

} // verus!
