//! One tick of a worker's decision: survival first, then the town round
//! trip, then the loot of its own kill. Time is a monotonic millisecond
//! count; spots on the map are the caller's `P`.

use vstd::prelude::*;
use vstd::string::StringExecFns;

use crate::fighter::{best_index, best_index_spec, best_spec, free_kill, Field, MonsterLevels, STRIKE_RANGE_SQ_KEY, UNBOUNDED_KEY};
use crate::items::{first_in, units_in, ItemCategory};
use crate::labels::BagLabels;
use crate::worker::{
    bag_item_in_category, bag_units_in_category, health_pct_spec, should_drink_potion,
    should_eat, should_eat_spec, should_town_trip, should_town_trip_spec, should_use_return_scroll,
    step_views, town_business, town_business_spec, Step, StepView, WorkerConfig, WorkerKind,
    WorkerView, ROD,
};

verus! {

broadcast use crate::items::lemma_units_in_le_total;

/// How long a town trip that achieved nothing stops being retried.
pub const TOWN_RETRY_DELAY_MS: u64 = 300_000;

/// Breathing room after a trip that did do business.
pub const TOWN_VISIT_DELAY_MS: u64 = 60_000;

/// Pickups attempted at one kill site before writing the loot off.
pub const MAX_LOOT_TRIES: u32 = 3;

/// Where the worker is in the town round trip.
#[derive(Debug, Clone, Copy, PartialEq, Eq, Structural)]
pub enum Errand {
    Work,
    ToTown,
    InTown,
}

/// Why the town errand is paused, and until when. A pause after a visit
/// that achieved something is a breather; one after a town that could not
/// help is a verdict (`useless`).
#[derive(Debug, Clone, Copy, PartialEq, Eq, Structural)]
pub struct TownPause {
    pub until: u64,
    pub useless: bool,
}

/// The pause still in force at `now`.
pub open spec fn live_pause(pause: Option<TownPause>, now: u64) -> Option<TownPause> {
    match pause {
        Some(p) if now < p.until => Some(p),
        _ => None,
    }
}

/// Drink, flee or eat — checked every tick, fight or no fight: a potion at
/// low health; the return scroll at low health with no potion left (only
/// while working, and the errand then reads `InTown`); else a meal once the
/// sprint is gone. `None` means nothing needs saving right now.
pub open spec fn rescue_spec<P>(s: &WorkerView, cfg: &WorkerConfig, errand: Errand) -> (Option<
    Seq<StepView<P>>,
>, Errand) {
    let defs = s.defs();
    let bag = s.bag_v();
    let low = health_pct_spec(s.me) < cfg.low_health_pct;
    let potions = units_in(defs, bag, ItemCategory::HealingPotion);
    let scrolls = units_in(defs, bag, ItemCategory::ReturnScroll);
    if low && potions > 0 && first_in(defs, bag, ItemCategory::HealingPotion) is Some {
        (Some(seq![StepView::Use(first_in(defs, bag, ItemCategory::HealingPotion)->0)]), errand)
    } else if errand == Errand::Work && low && potions == 0 && scrolls > 0 && first_in(
        defs,
        bag,
        ItemCategory::ReturnScroll,
    ) is Some {
        (
            Some(seq![StepView::Use(first_in(defs, bag, ItemCategory::ReturnScroll)->0)]),
            Errand::InTown,
        )
    } else {
        match should_eat_spec(s) {
            Some(food) => (Some(seq![StepView::Use(food)]), errand),
            None => (None, errand),
        }
    }
}

/// Drink, flee or eat — checked every tick, fight or no fight. `None` means
/// nothing needs saving right now. Only ever one scroll: reading it
/// teleports but does not heal, and the errand reading `InTown` is what says
/// the escape already happened.
pub fn self_rescue<P: Copy>(s: &WorkerView, cfg: &WorkerConfig, errand: &mut Errand) -> (r: Option<
    Vec<Step<P>>,
>)
    requires
        s.wf(),
    ensures
        (match r {
            Some(steps) => Some(step_views(steps@)),
            None => None,
        }, *final(errand)) == rescue_spec::<P>(s, cfg, *old(errand)),
{
    if should_drink_potion(s, cfg) {
        if let Some(potion) = bag_item_in_category(s, ItemCategory::HealingPotion) {
            let steps = vec![Step::Use(potion)];
            assert(step_views(steps@) == seq![StepView::<P>::Use(potion@)]);
            return Some(steps);
        }
    }
    if *errand == Errand::Work && should_use_return_scroll(s, cfg) {
        if let Some(scroll) = bag_item_in_category(s, ItemCategory::ReturnScroll) {
            *errand = Errand::InTown;
            let steps = vec![Step::Use(scroll)];
            assert(step_views(steps@) == seq![StepView::<P>::Use(scroll@)]);
            return Some(steps);
        }
    }
    match should_eat(s) {
        Some(food) => {
            let steps = vec![Step::Use(food)];
            assert(step_views(steps@) == seq![StepView::<P>::Use(food@)]);
            Some(steps)
        },
        None => None,
    }
}

/// The first stop at or after `from` we are not standing on already.
pub open spec fn next_unreached<P>(stops: Seq<(P, bool)>, from: int) -> int
    decreases stops.len() - from,
{
    if from < 0 || from >= stops.len() {
        stops.len() as int
    } else if !stops[from].1 {
        from
    } else {
        next_unreached(stops, from + 1)
    }
}

/// What the town round trip decides this tick, and the errand, pause and
/// stop cursor it leaves behind.
///
/// A trip is started when working, not waiting out a pause, and the bag or
/// hunger calls for it: with more than one scroll it reads one and is in
/// town; otherwise it walks. On the way, a merchant in sight is arriving:
/// the shop's business is done (a breather pause follows), or, with nothing
/// to do there, the town is left (a verdict pause follows). With no merchant
/// in sight the next town stop not yet stood on is walked to, and a town
/// with every stop stood on and no merchant is left too.
pub open spec fn errand_spec<P>(
    s: &WorkerView,
    cfg: &WorkerConfig,
    labels: &BagLabels,
    now: u64,
    errand: Errand,
    pause: Option<TownPause>,
    stop: int,
    stops: Seq<(P, bool)>,
    leave: Seq<StepView<P>>,
) -> (Option<Seq<StepView<P>>>, Errand, Option<TownPause>, int) {
    let defs = s.defs();
    let bag = s.bag_v();
    let trip = errand == Errand::Work && live_pause(pause, now) is None && should_town_trip_spec(
        s,
        cfg,
    );
    let verdict = Some(TownPause { until: (now + TOWN_RETRY_DELAY_MS) as u64, useless: true });
    if trip && units_in(defs, bag, ItemCategory::ReturnScroll) > 1 && first_in(
        defs,
        bag,
        ItemCategory::ReturnScroll,
    ) is Some {
        (
            Some(seq![StepView::Use(first_in(defs, bag, ItemCategory::ReturnScroll)->0)]),
            Errand::InTown,
            pause,
            stop,
        )
    } else {
        let errand = if trip {
            Errand::ToTown
        } else {
            errand
        };
        if errand == Errand::Work {
            (None, Errand::Work, pause, stop)
        } else if s.merchant_in_sight {
            let business = town_business_spec::<P>(s, cfg, labels);
            if business.len() == 0 {
                (Some(leave), Errand::Work, verdict, 0)
            } else {
                (
                    Some(business),
                    Errand::Work,
                    Some(TownPause { until: (now + TOWN_VISIT_DELAY_MS) as u64, useless: false }),
                    0,
                )
            }
        } else {
            let j = next_unreached(stops, stop);
            if j < stops.len() {
                (Some(seq![StepView::Walk(stops[j].0)]), Errand::ToTown, pause, j)
            } else {
                (Some(leave), Errand::Work, verdict, 0)
            }
        }
    }
}

/// The first stop at or after `from` we are not standing on already, or
/// `stops.len()` when there is none.
pub fn first_unreached<P: Copy>(stops: &Vec<(P, bool)>, from: usize) -> (j: usize)
    ensures
        j as int == next_unreached(stops@, from as int),
{
    let mut k: usize = from;
    if k >= stops.len() {
        return stops.len();
    }
    while k < stops.len()
        invariant
            from <= k <= stops@.len(),
            next_unreached(stops@, from as int) == next_unreached(stops@, k as int),
        decreases stops@.len() - k,
    {
        if !stops[k].1 {
            return k;
        }
        k += 1;
    }
    k
}

/// The town round trip's part of one tick. `stops` are the town's stops
/// in search order, each marked with whether we already stand on it;
/// `leave` is the walk out of a town that cannot help. `None` hands the
/// tick on to the loot and the worker's own purpose.
pub fn town_errand<P: Copy>(
    s: &WorkerView,
    cfg: &WorkerConfig,
    labels: &BagLabels,
    now: u64,
    errand: &mut Errand,
    town_blocked_until: &mut Option<TownPause>,
    town_stop: &mut usize,
    stops: &Vec<(P, bool)>,
    leave: Vec<Step<P>>,
) -> (r: Option<Vec<Step<P>>>)
    requires
        s.wf(),
        now <= u64::MAX - TOWN_RETRY_DELAY_MS,
    ensures
        (
            match r {
                Some(steps) => Some(step_views(steps@)),
                None => None,
            },
            *final(errand),
            *final(town_blocked_until),
            *final(town_stop) as int,
        ) == errand_spec::<P>(
            s,
            cfg,
            labels,
            now,
            *old(errand),
            *old(town_blocked_until),
            *old(town_stop) as int,
            stops@,
            step_views(leave@),
        ),
{
    let waiting = match *town_blocked_until {
        Some(p) => now < p.until,
        None => false,
    };
    let trip = *errand == Errand::Work && !waiting && should_town_trip(s, cfg);
    if trip {
        if bag_units_in_category(s, ItemCategory::ReturnScroll) > 1 {
            if let Some(scroll) = bag_item_in_category(s, ItemCategory::ReturnScroll) {
                *errand = Errand::InTown;
                let steps = vec![Step::Use(scroll)];
                assert(step_views(steps@) == seq![StepView::<P>::Use(scroll@)]);
                return Some(steps);
            }
        }
        *errand = Errand::ToTown;
    }
    if *errand == Errand::Work {
        return None;
    }
    if s.merchant_in_sight {
        *errand = Errand::Work;
        *town_stop = 0;
        let business: Vec<Step<P>> = town_business(s, cfg, labels);
        if business.len() == 0 {
            *town_blocked_until = Some(TownPause { until: now + TOWN_RETRY_DELAY_MS, useless: true });
            return Some(leave);
        }
        *town_blocked_until = Some(TownPause { until: now + TOWN_VISIT_DELAY_MS, useless: false });
        return Some(business);
    }
    *errand = Errand::ToTown;
    let j: usize = first_unreached(stops, *town_stop);
    if j < stops.len() {
        *town_stop = j;
        let steps = vec![Step::Walk(stops[j].0)];
        assert(step_views(steps@) == seq![StepView::<P>::Walk(stops@[j as int].0)]);
        return Some(steps);
    }
    *errand = Errand::Work;
    *town_stop = 0;
    *town_blocked_until = Some(TownPause { until: now + TOWN_RETRY_DELAY_MS, useless: true });
    Some(leave)
}

/// The drops of our own kill, before anything else: one pickup of the
/// first candidate per tick while tries are left; the site is written off
/// once nothing is left to pick or the tries run out.
pub open spec fn loot_spec<S>(loot_at: Option<(S, u32)>, first: Option<u64>) -> (Option<u64>, Option<
    (S, u32),
>) {
    match loot_at {
        None => (None, None),
        Some((site, tries)) => match first {
            Some(id) if tries < MAX_LOOT_TRIES => (Some(id), Some((site, (tries + 1) as u32))),
            _ => (None, None),
        },
    }
}

/// Fresh drops from our own kill, before anything else. Bounded: an item
/// that will not come up (unreachable, too heavy) must not hold the worker
/// at the corpse forever. `first` is the nearest loot candidate around the
/// kill site.
pub fn loot_step<S: Copy, P>(loot_at: &mut Option<(S, u32)>, first: Option<u64>) -> (r: Option<
    Step<P>,
>)
    ensures
        (match r {
            Some(Step::Pickup(id)) => Some(id),
            _ => None,
        }, *final(loot_at)) == loot_spec(*old(loot_at), first),
        r is Some ==> r matches Some(Step::Pickup(_)),
{
    if let Some((site, tries)) = *loot_at {
        if let Some(id) = first {
            if tries < MAX_LOOT_TRIES {
                *loot_at = Some((site, tries + 1));
                return Some(Step::Pickup(id));
            }
        }
        *loot_at = None;
    }
    None
}

/// Whether the fighter is town-bound: a trip is wanted, unless a town that
/// said it cannot help is still being waited out — hunting beats standing
/// in front of it hoping the answer changes.
pub fn fighter_town_bound(
    s: &WorkerView,
    cfg: &WorkerConfig,
    now: u64,
    town_blocked_until: Option<TownPause>,
) -> (r: bool)
    ensures
        r == (should_town_trip_spec(s, cfg) && !(live_pause(town_blocked_until, now) matches Some(
            p,
        ) && p.useless)),
{
    let useless_pause = match town_blocked_until {
        Some(p) => now < p.until && p.useless,
        None => false,
    };
    should_town_trip(s, cfg) && !useless_pause
}

/// The walk interrupt's arming for a fighter's tick: armed with the level
/// margin for a leg walked to find a fight, disarmed for a town-bound leg
/// and for the commute back into the circle.
pub fn hunting_arm(cfg: &WorkerConfig, town_bound: bool, beyond_circle: bool) -> (r: Option<u32>)
    ensures
        r == (if !town_bound && !beyond_circle {
            Some(cfg.level_margin)
        } else {
            None::<u32>
        }),
{
    if !town_bound && !beyond_circle {
        Some(cfg.level_margin)
    } else {
        None
    }
}

/// The fighter's own tick: out of the world, idle; walk back when a chase
/// or a town trip took it out of its circle (unless town-bound); kill what
/// is in reach; walk up to the best target inside the circle. `None` means
/// there is nothing to fight and no town to reach: the caller walks out of a
/// town's dead zone, or takes one patrol leg. `approaches[i]` is where to
/// walk to close on sighting `i`; `reins` are the reins to climb on for the
/// commute back (see `reins_for_leg`), the longest leg a fighter walks.
pub open spec fn fighter_step_spec<P>(
    f: &Field,
    levels: Seq<(Seq<char>, u8)>,
    cfg: &WorkerConfig,
    town_bound: bool,
    beyond_circle: bool,
    anchor: P,
    approaches: Seq<P>,
    reins: Option<Seq<char>>,
) -> Option<Seq<StepView<P>>> {
    if f.my_level is None {
        Some(seq![StepView::Idle])
    } else if !town_bound && beyond_circle {
        match reins {
            Some(r) => Some(seq![StepView::Use(r), StepView::Walk(anchor)]),
            None => Some(seq![StepView::Walk(anchor)]),
        }
    } else {
        match best_spec(f, levels, cfg.level_margin, STRIKE_RANGE_SQ_KEY, false) {
            Some(id) => Some(seq![StepView::Attack(id)]),
            None => match best_index_spec(f, levels, cfg.level_margin, UNBOUNDED_KEY, true) {
                Some(i) => Some(seq![StepView::Walk(approaches[i])]),
                None => if town_bound {
                    Some(seq![StepView::Idle])
                } else {
                    None
                },
            },
        }
    }
}

/// The fighter's own tick. A town trip outranks every walk here: a full bag
/// cannot hold loot anyway, and the walk back to the anchor would march the
/// worker out of the town it is reaching for. Whatever is in reach is
/// swung at before any walk, because that is the question the walk
/// interrupt asks.
pub fn fighter_step<P: Copy>(
    f: &Field,
    levels: &MonsterLevels,
    cfg: &WorkerConfig,
    town_bound: bool,
    beyond_circle: bool,
    anchor: P,
    approaches: &Vec<P>,
    reins: Option<String>,
) -> (r: Option<Vec<Step<P>>>)
    requires
        f.level() + cfg.level_margin <= u32::MAX,
        approaches@.len() == f.monsters@.len(),
    ensures
        (match r {
            Some(steps) => Some(step_views(steps@)),
            None => None,
        }) == fighter_step_spec(
            f,
            levels@,
            cfg,
            town_bound,
            beyond_circle,
            anchor,
            approaches@,
            match reins {
                Some(r) => Some(r@),
                None => None,
            },
        ),
{
    if f.my_level.is_none() {
        let r = vec![Step::Idle];
        assert(step_views(r@) =~= seq![StepView::<P>::Idle]);
        return Some(r);
    }
    if !town_bound && beyond_circle {
        match reins {
            Some(id) => {
                let ghost v = id@;
                let r = vec![Step::Use(id), Step::Walk(anchor)];
                assert(step_views(r@) =~= seq![StepView::<P>::Use(v), StepView::<P>::Walk(anchor)]);
                return Some(r);
            },
            None => {
                let r = vec![Step::Walk(anchor)];
                assert(step_views(r@) =~= seq![StepView::<P>::Walk(anchor)]);
                return Some(r);
            },
        }
    }
    match free_kill(f, levels, cfg.level_margin) {
        Some(id) => {
            let ghost v = id@;
            let r = vec![Step::Attack(id)];
            assert(step_views(r@) =~= seq![StepView::<P>::Attack(v)]);
            return Some(r);
        },
        None => {},
    }
    match best_index(f, levels, cfg.level_margin, UNBOUNDED_KEY, true) {
        Some(i) => {
            let r = vec![Step::Walk(approaches[i])];
            assert(step_views(r@) =~= seq![StepView::<P>::Walk(approaches@[i as int])]);
            Some(r)
        },
        None => if town_bound {
            let r = vec![Step::Idle];
            assert(step_views(r@) =~= seq![StepView::<P>::Idle]);
            Some(r)
        } else {
            None
        },
    }
}

/// The monster that hit us last among `hits` (monster id, player hit), if
/// any.
pub open spec fn last_attacker(hits: Seq<(Seq<char>, u64)>, me: Option<u64>) -> Option<Seq<char>>
    decreases hits.len(),
{
    if hits.len() == 0 {
        None
    } else if me == Some(hits.last().1) {
        Some(hits.last().0)
    } else {
        last_attacker(hits.drop_last(), me)
    }
}

/// The monster that just hit us, if any — self-defence overrides every
/// eligibility rule, including the level margin. `hits` are this tick's
/// monster-attacked-player events in arrival order, as (monster id, player
/// hit); `me` is our player id.
pub fn attacker_in(hits: &Vec<(String, u64)>, me: Option<u64>) -> (r: Option<String>)
    ensures
        match r {
            Some(id) => last_attacker(hits@.map_values(|h: (String, u64)| (h.0@, h.1)), me) == Some(id@),
            None => last_attacker(hits@.map_values(|h: (String, u64)| (h.0@, h.1)), me) is None,
        },
{
    let ghost hv = hits@.map_values(|h: (String, u64)| (h.0@, h.1));
    let mut k: usize = hits.len();
    assert(hv.take(k as int) =~= hv);
    while k > 0
        invariant
            k <= hits@.len(),
            hv == hits@.map_values(|h: (String, u64)| (h.0@, h.1)),
            last_attacker(hv, me) == last_attacker(hv.take(k as int), me),
        decreases k,
    {
        let ghost t = hv.take(k as int);
        assert(t.last() == hv[k - 1]);
        assert(t.drop_last() =~= hv.take(k - 1));
        if me == Some(hits[k - 1].1) {
            return Some(hits[k - 1].0.clone());
        }
        k -= 1;
    }
    assert(hv.take(0).len() == 0);
    None
}

/// A worker with no purpose of its own idles; the others are driven by
/// their own engines.
pub fn idle_for(kind: WorkerKind) -> (r: bool)
    ensures
        r == (kind == WorkerKind::Llm),
{
    match kind {
        WorkerKind::Llm => true,
        _ => false,
    }
}

/// The fisher's first checks: with no rod in hand, put the one in the bag
/// in hand, or stand idle without one (the town trip buys one); with a
/// cast out, stand idle (hooking and landing the catch are reflexes).
/// None when it may go on to look for water.
pub fn fisher_gear<P: Copy>(rod_in_hand: bool, rod_in_bag: bool, fishing: bool) -> (r: Option<
    Vec<Step<P>>,
>)
    ensures
        match r {
            Some(v) => v@.len() == 1 && v@[0]@ == (if !rod_in_hand && rod_in_bag {
                StepView::<P>::Use(ROD@)
            } else {
                StepView::<P>::Idle
            }),
            None => rod_in_hand && !fishing,
        },
        r is Some <==> (!rod_in_hand || fishing),
{
    if !rod_in_hand {
        if rod_in_bag {
            return Some(vec![Step::Use(String::from_str(ROD))]);
        }
        return Some(vec![Step::Idle]);
    }
    if fishing {
        return Some(vec![Step::Idle]);
    }
    None
}

/// The next move from a remembered cast (where to stand, and the water):
/// cast while the water is within range, walk back to the shore while away
/// from it, and otherwise forget the cast, for standing on the shore with
/// the water still out of reach means the scan is worth redoing.
pub fn resume_cast<P: Copy>(cast: &mut Option<(P, P)>, in_range: bool, off_shore: bool) -> (r: Option<
    Step<P>,
>)
    ensures
        match *old(cast) {
            None => r is None && *final(cast) == *old(cast),
            Some((stand, water)) => if in_range {
                (r matches Some(s) && s@ == StepView::Fish(water)) && *final(cast) == *old(cast)
            } else if off_shore {
                (r matches Some(s) && s@ == StepView::Walk(stand)) && *final(cast) == *old(cast)
            } else {
                r is None && *final(cast) is None
            },
        },
{
    match *cast {
        None => None,
        Some((stand, water)) => {
            if in_range {
                Some(Step::Fish(water))
            } else if off_shore {
                Some(Step::Walk(stand))
            } else {
                *cast = None;
                None
            }
        },
    }
}

/// The town errand never reads the last return scroll: a trip starts in
/// town by scroll only while more than one is carried, so one is always
/// kept for the escape at low health.
pub proof fn law_the_errand_keeps_the_last_scroll<P>(
    s: &WorkerView,
    cfg: &WorkerConfig,
    labels: &BagLabels,
    now: u64,
    errand: Errand,
    pause: Option<TownPause>,
    stop: int,
    stops: Seq<(P, bool)>,
    leave: Seq<StepView<P>>,
)
    requires
        errand != Errand::InTown,
    ensures
        errand_spec(s, cfg, labels, now, errand, pause, stop, stops, leave).1 == Errand::InTown
            ==> units_in(s.defs(), s.bag_v(), ItemCategory::ReturnScroll) > 1,
{
}

/// The escape by scroll happens once: away from work (on the way to town or
/// in it) the rescue never reads a scroll and leaves the errand as it was;
/// at work, reading one is what puts the errand in town.
pub proof fn law_the_scroll_escape_happens_once<P>(
    s: &WorkerView,
    cfg: &WorkerConfig,
    errand: Errand,
)
    ensures
        errand != Errand::Work ==> rescue_spec::<P>(s, cfg, errand).1 == errand,
        errand == Errand::Work && rescue_spec::<P>(s, cfg, errand).1 != Errand::Work ==> {
            &&& rescue_spec::<P>(s, cfg, errand).1 == Errand::InTown
            &&& first_in(s.defs(), s.bag_v(), ItemCategory::ReturnScroll) is Some
            &&& rescue_spec::<P>(s, cfg, errand).0 == Some(
                seq![StepView::<P>::Use(first_in(s.defs(), s.bag_v(), ItemCategory::ReturnScroll)->0)],
            )
        },
{
}

/// Reaching a merchant ends the errand: whatever was done there, the worker
/// is back at work, the stop cursor starts over, and a pause that lasts
/// into the future keeps it from turning straight back.
pub proof fn law_a_merchant_ends_the_errand<P>(
    s: &WorkerView,
    cfg: &WorkerConfig,
    labels: &BagLabels,
    now: u64,
    errand: Errand,
    pause: Option<TownPause>,
    stop: int,
    stops: Seq<(P, bool)>,
    leave: Seq<StepView<P>>,
)
    requires
        errand != Errand::Work,
        s.merchant_in_sight,
        now <= u64::MAX - TOWN_RETRY_DELAY_MS,
    ensures
        ({
            let r = errand_spec(s, cfg, labels, now, errand, pause, stop, stops, leave);
            &&& r.0 is Some
            &&& r.1 == Errand::Work
            &&& r.3 == 0
            &&& r.2 matches Some(p) && p.until > now && live_pause(r.2, now) == r.2
        }),
{
}

/// While a pause is in force a working worker starts no trip: the errand
/// hands the tick on and leaves errand, pause and cursor as they were.
pub proof fn law_a_pause_holds_the_worker_at_work<P>(
    s: &WorkerView,
    cfg: &WorkerConfig,
    labels: &BagLabels,
    now: u64,
    pause: Option<TownPause>,
    stop: int,
    stops: Seq<(P, bool)>,
    leave: Seq<StepView<P>>,
)
    requires
        live_pause(pause, now) is Some,
    ensures
        errand_spec(s, cfg, labels, now, Errand::Work, pause, stop, stops, leave) == (
            None::<Seq<StepView<P>>>,
            Errand::Work,
            pause,
            stop,
        ),
{
}

/// The walk through town only heads for a stop not stood on yet, at or
/// after the cursor, and the cursor then names it.
pub proof fn law_town_walks_go_to_unreached_stops<P>(
    s: &WorkerView,
    cfg: &WorkerConfig,
    labels: &BagLabels,
    now: u64,
    errand: Errand,
    pause: Option<TownPause>,
    stop: int,
    stops: Seq<(P, bool)>,
    leave: Seq<StepView<P>>,
)
    requires
        0 <= stop,
    ensures
        ({
            let r = errand_spec(s, cfg, labels, now, errand, pause, stop, stops, leave);
            r.1 == Errand::ToTown ==> {
                &&& stop <= r.3 < stops.len()
                &&& !stops[r.3].1
                &&& r.0 == Some(seq![StepView::<P>::Walk(stops[r.3].0)])
            }
        }),
{
    lemma_next_unreached(stops, stop);
}

proof fn lemma_next_unreached<P>(stops: Seq<(P, bool)>, from: int)
    requires
        0 <= from,
    ensures
        from <= next_unreached(stops, from) <= stops.len() || (from > stops.len()
            && next_unreached(stops, from) == stops.len()),
        next_unreached(stops, from) < stops.len() ==> !stops[next_unreached(stops, from)].1,
    decreases stops.len() - from,
{
    if from < stops.len() && stops[from].1 {
        lemma_next_unreached(stops, from + 1);
    }
}

/// A kill site is tried a bounded number of times: each pickup counts one
/// try, no pickup is made once the tries are used up, and the site is
/// forgotten instead.
pub proof fn law_loot_tries_are_bounded<S>(loot_at: Option<(S, u32)>, first: Option<u64>)
    requires
        loot_at matches Some((_, t)) ==> t <= MAX_LOOT_TRIES,
    ensures
        ({
            let r = loot_spec(loot_at, first);
            &&& r.1 matches Some((site, t)) ==> (t <= MAX_LOOT_TRIES && (loot_at matches Some(
                (site0, t0),
            ) && site0 == site && t == t0 + 1))
            &&& r.0 is Some ==> r.1 is Some
            &&& (loot_at matches Some((_, t)) && t == MAX_LOOT_TRIES) ==> r == (
                None::<u64>,
                None::<(S, u32)>,
            )
        }),
{
}

} // verus!
