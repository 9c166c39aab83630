//! One tick of the dungeoneer: which floor to be on, which key is owed, and
//! when the chest is worth walking to. The descent itself (stairs, doors,
//! the surface leg) is the mover's; this is only the policy over it.
//!
//! The key rules do the sequencing: hold the key of the lock below and go
//! down, or do not and sweep the floors that drop it. Emptying the chest
//! spends the keys, which puts the same rule back at the start of the
//! section, so banking the next night's keys needs no phase of its own.

use vstd::prelude::*;
use vstd::string::StringExecFns;

use crate::dungeon::ChestKind;
use crate::dungeoneer::{
    clause_spec, halt_m, halted_now_m, leg_m, look_around_m, next_floor, next_floor_m,
    observe_chest_m, restart_sweep_m, say_m, Halt, Run, RunModel,
};
use crate::fighter::{
    best_index, best_index_spec, best_spec, free_kill, Field, MonsterLevels, SightingView,
    STRIKE_RANGE_SQ_KEY, UNBOUNDED_KEY,
};
use crate::labels::{views, BagLabels};
use crate::text::{decimal, push_decimal};
use crate::worker::{
    carries, junk_ids, junk_list, step_views, Step, StepView, WorkerConfig, WorkerView,
};

verus! {

broadcast use vstd::string::group_string_axioms, crate::items::lemma_units_in_le_total;

/// Ticks the chest's site gets, the wait for its drops to be broadcast
/// included. A chest pays a few items; one that will not come up must not
/// hold the worker for the night.
pub const CHEST_LOOT_TRIES: u32 = 16;

/// The dungeoneer's part of the worker table.
#[derive(Debug)]
pub struct DungeonRules {
    /// The dungeon asked for, as configured (unset: the shallowest one).
    pub dungeon_id: Option<String>,
    /// Deaths in one cycle that stop the run until nightfall.
    pub death_limit: u32,
}

/// The dungeon worked, as this tick reads it.
#[derive(Debug)]
pub struct DungeonFacts<P> {
    pub name: String,
    /// Its deepest floor.
    pub max_depth: u8,
    /// The guardian's monster type.
    pub boss_type: String,
    /// Whether its treasure chest is emptied for tonight.
    pub chest_spent: bool,
    /// The treasure chest's own cell, where its haul lands.
    pub treasure: Option<P>,
    /// Where to stand to open the chest.
    pub treasure_approach: Option<P>,
    /// The lock between the floor we stand on and deeper: its floor, its
    /// key, and the first and last floor that drop that key.
    pub lock_below: Option<(u8, String, u8, u8)>,
    /// The key of the deepest lock, if anything is locked at all.
    pub last_key: Option<String>,
}

/// What the tick reads of the world besides the bag and the monsters.
#[derive(Debug)]
pub struct Underground<P> {
    /// The dungeon worked: `None` when the configured one is not registered.
    pub dungeon: Option<DungeonFacts<P>>,
    /// How deep we stand in that dungeon; 0 on the surface or in another.
    pub depth: u8,
    /// Standing on a building's upper storey (where a death puts us).
    pub upstairs: bool,
    /// The world's spawn point, the one outdoor cell known standable.
    pub spawn: P,
    /// The nearest item to pick up around the chest's site, if any.
    pub chest_loot: Option<u64>,
    /// The chests in sight.
    pub chests: Vec<ChestKind>,
    /// The reins to climb on for the surface leg to the entrance, when that
    /// leg is worth riding.
    pub reins: Option<String>,
    /// This floor's sweep stops, whether we stand at each, and each one's
    /// distance from us as an order key.
    pub stops: Vec<P>,
    pub here: Vec<bool>,
    pub stop_keys: Vec<u32>,
    /// Where to walk to close on each monster in sight (in the order of the
    /// field's sightings): inside striking range, not on top of it.
    pub approaches: Vec<P>,
}

/// `Some(s)` as chars, `None` as the empty string.
pub open spec fn or_empty(s: Option<String>) -> Seq<char> {
    match s {
        Some(x) => x@,
        None => Seq::empty(),
    }
}

/// The halt clause for `why` under these settings.
pub open spec fn why_spec(why: Halt, rules: &DungeonRules, cfg: &WorkerConfig) -> Seq<char> {
    clause_spec(why, or_empty(rules.dungeon_id), cfg.level_margin, rules.death_limit)
}

/// The leg name of a descent to `depth` of `name`.
pub open spec fn descend_key(name: Seq<char>, depth: u8) -> Seq<char> {
    "descend "@ + name + " "@ + decimal(depth as nat)
}

/// The leg name of the climb down to the ground.
pub open spec fn ground_key() -> Seq<char> {
    "ground"@
}

/// The leg name of the walk to sweep stop `i` of floor `depth`.
pub open spec fn sweep_key(depth: u8, i: nat) -> Seq<char> {
    "sweep "@ + decimal(depth as nat) + " "@ + decimal(i)
}

/// Whether a treasure chest is among the chests in sight.
pub open spec fn treasure_in_sight(chests: Seq<ChestKind>) -> bool {
    chests.contains(ChestKind::Treasure)
}

/// Whether the guardian still stands in sight.
pub open spec fn boss_up(ms: Seq<SightingView>, boss: Seq<char>) -> bool {
    exists|i: int| 0 <= i < ms.len() && #[trigger] ms[i].monster_type == boss && ms[i].health > 0
}

/// Whether a live monster stands on our floor.
pub open spec fn any_alive_here(f: &Field) -> bool {
    exists|i: int|
        0 <= i < f.sightings().len() && (#[trigger] f.sightings()[i]).floor_level == f.my_floor
            && f.sightings()[i].health > 0
}

/// The nearest stop not stood at yet among the first `n` (the first of
/// equals).
pub open spec fn nearest_unseen(seen: Seq<bool>, keys: Seq<u32>, n: int) -> Option<int>
    decreases n,
{
    if n <= 0 {
        None
    } else {
        let prev = nearest_unseen(seen, keys, n - 1);
        if seen[n - 1] {
            prev
        } else {
            match prev {
                Some(b) => if keys[n - 1] < keys[b] {
                    Some(n - 1)
                } else {
                    Some(b)
                },
                None => Some(n - 1),
            }
        }
    }
}

/// How many stops have been stood at.
pub open spec fn swept_count(seen: Seq<bool>) -> nat {
    seen.filter(|b: bool| b).len()
}

/// Nothing left to do until nightfall: the chest is emptied and the
/// deepest lock's key is back in the bag (or nothing is locked at all).
pub open spec fn cycle_done_spec<P>(dg: &DungeonFacts<P>, s: &WorkerView) -> bool {
    dg.chest_spent && match dg.last_key {
        Some(k) => carries(s.bag_v(), k@),
        None => true,
    }
}

/// Progress lines.
pub open spec fn upstairs_note(name: Seq<char>) -> Seq<char> {
    "Indoors upstairs — taking the stairs down and heading for "@ + name + "."@
}

pub open spec fn drop_note(id: Seq<char>) -> Seq<char> {
    "Bag full underground — dropping "@ + id + "."@
}

pub open spec fn gather_note(name: Seq<char>, tries: u32) -> Seq<char> {
    name + " — gathering what the chest threw ("@ + decimal(tries as nat) + "/"@ + decimal(
        CHEST_LOOT_TRIES as nat,
    ) + ")."@
}

pub open spec fn haul_wait_note(name: Seq<char>) -> Seq<char> {
    name + " — waiting on the chest's haul."@
}

pub open spec fn heading_out_note(name: Seq<char>) -> Seq<char> {
    name + " — haul gathered, heading out."@
}

pub open spec fn done_note(name: Seq<char>, last_key: Option<Seq<char>>) -> Seq<char> {
    name + " done for tonight — chest emptied, "@ + match last_key {
        Some(k) => k,
        None => "no key needed"@,
    } + " banked. Waiting for the reset."@
}

pub open spec fn open_note(name: Seq<char>, max: u8, boss: bool) -> Seq<char> {
    name + " floor "@ + decimal(max as nat) + " — "@ + (if boss {
        "guardian up, "@
    } else {
        ""@
    }) + "opening the great chest."@
}

pub open spec fn chamber_note(name: Seq<char>, max: u8) -> Seq<char> {
    name + " floor "@ + decimal(max as nat) + " — walking to the guardian's chamber."@
}

pub open spec fn descending_note(name: Seq<char>, next: u8) -> Seq<char> {
    name + " — descending to floor "@ + decimal(next as nat) + "."@
}

pub open spec fn need_note(name: Seq<char>, key: Seq<char>, first: u8, last: u8) -> Seq<char> {
    name + " — need "@ + key + ", working floors "@ + decimal(first as nat) + "-"@ + decimal(
        last as nat,
    ) + "."@
}

pub open spec fn hunting_note(name: Seq<char>, depth: u8, key: Seq<char>) -> Seq<char> {
    name + " floor "@ + decimal(depth as nat) + " — hunting for "@ + key + "."@
}

pub open spec fn sweeping_note(name: Seq<char>, depth: u8, key: Seq<char>, n: nat, total: nat) -> Seq<
    char,
> {
    name + " floor "@ + decimal(depth as nat) + " — sweeping for "@ + key + " ("@ + decimal(n)
        + "/"@ + decimal(total) + ")."@
}

/// A descent to `depth`, with the reins climbed on first when the surface
/// leg is worth riding.
pub open spec fn descend_m<P>(
    m: RunModel<P>,
    u: &Underground<P>,
    name: Seq<char>,
    depth: u8,
    stuck: Seq<char>,
    now: u64,
) -> (Seq<StepView<P>>, RunModel<P>) {
    let (steps, m2) = leg_m(m, StepView::Descend(name, depth), descend_key(name, depth), stuck, now);
    match u.reins {
        Some(r) => if steps[0] is Descend {
            (seq![StepView::Use(r@)] + steps, m2)
        } else {
            (steps, m2)
        },
        None => (steps, m2),
    }
}

/// Out of the dungeon and waiting: the surface is where a stopped or
/// finished dungeoneer stands.
pub open spec fn surface_m<P>(
    m: RunModel<P>,
    u: &Underground<P>,
    name: Seq<char>,
    stuck: Seq<char>,
    now: u64,
) -> (Seq<StepView<P>>, RunModel<P>) {
    if u.depth == 0 {
        (seq![StepView::Idle], m)
    } else {
        descend_m(m, u, name, 0, stuck, now)
    }
}

/// On the deepest floor with the chest unclaimed: open it when in sight,
/// else walk to the cell beside it.
pub open spec fn claim_m<P>(
    m: RunModel<P>,
    u: &Underground<P>,
    dg: &DungeonFacts<P>,
    f: &Field,
) -> (Seq<StepView<P>>, RunModel<P>) {
    if treasure_in_sight(u.chests@) {
        (
            seq![StepView::OpenChest],
            say_m(m, open_note(dg.name@, dg.max_depth, boss_up(f.sightings(), dg.boss_type@))),
        )
    } else {
        match dg.treasure_approach {
            Some(p) => (seq![StepView::Walk(p)], say_m(m, chamber_note(dg.name@, dg.max_depth))),
            None => (seq![StepView::Idle], m),
        }
    }
}

/// Missing a lock's key: work the floors `first..=last` that drop it.
/// Returns the steps, the run after, and how the walk interrupt is armed.
pub open spec fn farm_m<P>(
    m: RunModel<P>,
    cfg: &WorkerConfig,
    rules: &DungeonRules,
    u: &Underground<P>,
    f: &Field,
    levels: Seq<(Seq<char>, u8)>,
    name: Seq<char>,
    key: Seq<char>,
    first: u8,
    last: u8,
    now: u64,
) -> (Seq<StepView<P>>, RunModel<P>, Option<u32>) {
    let depth = u.depth;
    let stuck = why_spec(Halt::Stuck, rules, cfg);
    if !(first <= depth <= last) {
        let goal = if depth < first {
            (depth + 1) as u8
        } else {
            (depth - 1) as u8
        };
        let r = descend_m(
            say_m(restart_sweep_m(m), need_note(name, key, first, last)),
            u,
            name,
            goal,
            stuck,
            now,
        );
        (r.0, r.1, None)
    } else if f.my_level is None {
        (seq![StepView::Idle], m, None)
    } else {
        hunt_m(m, cfg, rules, u, f, levels, name, key, first, last, now)
    }
}

/// On a floor of the section: fight what is in reach, walk to what is worth
/// it, else sweep on.
pub open spec fn hunt_m<P>(
    m: RunModel<P>,
    cfg: &WorkerConfig,
    rules: &DungeonRules,
    u: &Underground<P>,
    f: &Field,
    levels: Seq<(Seq<char>, u8)>,
    name: Seq<char>,
    key: Seq<char>,
    first: u8,
    last: u8,
    now: u64,
) -> (Seq<StepView<P>>, RunModel<P>, Option<u32>) {
    let depth = u.depth;
    let arm = Some(cfg.level_margin);
    let m1 = look_around_m(m, u.here@, depth);
    match best_spec(f, levels, cfg.level_margin, STRIKE_RANGE_SQ_KEY, false) {
        Some(id) => (
            seq![StepView::Attack(id)],
            RunModel { saw_eligible: true, saw_any: true, ..m1 },
            arm,
        ),
        None => {
            let m2 = RunModel { saw_any: m1.saw_any || any_alive_here(f), ..m1 };
            match best_index_spec(f, levels, cfg.level_margin, UNBOUNDED_KEY, false) {
                Some(i) => (
                    seq![StepView::Walk(u.approaches@[i])],
                    say_m(RunModel { saw_eligible: true, ..m2 }, hunting_note(name, depth, key)),
                    arm,
                ),
                None => {
                    let r = sweep_m(m2, cfg, rules, u, name, key, first, last, now);
                    (r.0, r.1, arm)
                },
            }
        },
    }
}

/// Nothing worth a fight in sight: walk to the nearest stop still owed; at
/// the end of the tour judge the floor, and move one floor on.
pub open spec fn sweep_m<P>(
    m: RunModel<P>,
    cfg: &WorkerConfig,
    rules: &DungeonRules,
    u: &Underground<P>,
    name: Seq<char>,
    key: Seq<char>,
    first: u8,
    last: u8,
    now: u64,
) -> (Seq<StepView<P>>, RunModel<P>) {
    let depth = u.depth;
    let stuck = why_spec(Halt::Stuck, rules, cfg);
    match nearest_unseen(m.seen, u.stop_keys@, m.seen.len() as int) {
        Some(i) => {
            let m3 = say_m(
                m,
                sweeping_note(name, depth, key, swept_count(m.seen) + 1, u.stops@.len()),
            );
            leg_m(m3, StepView::Walk(u.stops@[i]), sweep_key(depth, i as nat), stuck, now)
        },
        None => {
            let barren = if m.saw_any && !m.saw_eligible {
                (m.barren_floors + 1) as u32
            } else if m.saw_eligible {
                0
            } else {
                m.barren_floors
            };
            let m3 = RunModel { barren_floors: barren, ..m };
            if barren >= last - first + 1 {
                (
                    seq![StepView::Idle],
                    halt_m(m3, Halt::OutOfDepth, why_spec(Halt::OutOfDepth, rules, cfg), now),
                )
            } else {
                let (goal, m4) = next_floor_m(restart_sweep_m(m3), depth, first, last);
                descend_m(m4, u, name, goal, stuck, now)
            }
        },
    }
}

/// The run once the halts are settled and nothing forces the tick's hand:
/// out after the haul, wait out a finished night, claim the chest on the
/// deepest floor, descend past a lock whose key we hold, or farm for it.
pub open spec fn errand_m<P>(
    m: RunModel<P>,
    s: &WorkerView,
    cfg: &WorkerConfig,
    rules: &DungeonRules,
    u: &Underground<P>,
    dg: &DungeonFacts<P>,
    f: &Field,
    levels: Seq<(Seq<char>, u8)>,
    now: u64,
) -> (Seq<StepView<P>>, RunModel<P>, Option<u32>) {
    let name = dg.name@;
    let depth = u.depth;
    let stuck = why_spec(Halt::Stuck, rules, cfg);
    if m.leaving {
        if depth > 0 {
            let r = surface_m(say_m(m, heading_out_note(name)), u, name, stuck, now);
            (r.0, r.1, None)
        } else {
            (seq![StepView::Idle], RunModel { leaving: false, ..m }, None)
        }
    } else if cycle_done_spec(dg, s) {
        let last = match dg.last_key {
            Some(k) => Some(k@),
            None => None,
        };
        let r = surface_m(say_m(m, done_note(name, last)), u, name, stuck, now);
        (r.0, r.1, None)
    } else if depth == dg.max_depth && !dg.chest_spent {
        let r = claim_m(m, u, dg, f);
        (r.0, r.1, None)
    } else {
        match dg.lock_below {
            Some((_, key, first, last)) if !carries(s.bag_v(), key@) => farm_m(
                m,
                cfg,
                rules,
                u,
                f,
                levels,
                name,
                key@,
                first,
                last,
                now,
            ),
            _ => {
                let next = if depth < dg.max_depth {
                    (depth + 1) as u8
                } else {
                    dg.max_depth
                };
                let r = descend_m(
                    say_m(restart_sweep_m(m), descending_note(name, next)),
                    u,
                    name,
                    next,
                    stuck,
                    now,
                );
                (r.0, r.1, None)
            },
        }
    }
}

/// One tick of the dungeoneer: the steps, the run after, and how the walk
/// interrupt is armed (the level margin while hunting a key's floors,
/// disarmed on every leg walked to get somewhere).
pub open spec fn tick_spec<P>(
    m: RunModel<P>,
    s: &WorkerView,
    labels: &BagLabels,
    cfg: &WorkerConfig,
    rules: &DungeonRules,
    u: &Underground<P>,
    f: &Field,
    levels: Seq<(Seq<char>, u8)>,
    now: u64,
) -> (Seq<StepView<P>>, RunModel<P>, Option<u32>) {
    let stuck = why_spec(Halt::Stuck, rules, cfg);
    match u.dungeon {
        None => (
            seq![StepView::Idle],
            halt_m(m, Halt::NoDungeon, why_spec(Halt::NoDungeon, rules, cfg), now),
            None,
        ),
        Some(dg) => {
            let name = dg.name@;
            let m1 = observe_chest_m(m, dg.chest_spent, dg.treasure);
            let m2 = if m1.deaths >= rules.death_limit {
                halt_m(m1, Halt::DiedTooOften, why_spec(Halt::DiedTooOften, rules, cfg), now)
            } else {
                m1
            };
            let (halted, m3) = halted_now_m(m2, now);
            if halted {
                let r = surface_m(m3, u, name, stuck, now);
                (r.0, r.1, None)
            } else {
                settled_m(m3, s, labels, cfg, rules, u, &dg, f, levels, now)
            }
        },
    }
}

/// The tick with no halt in force: down the stairs first when upstairs,
/// drop marked junk when the bag is full underground, gather the chest's
/// haul, then the errand.
pub open spec fn settled_m<P>(
    m: RunModel<P>,
    s: &WorkerView,
    labels: &BagLabels,
    cfg: &WorkerConfig,
    rules: &DungeonRules,
    u: &Underground<P>,
    dg: &DungeonFacts<P>,
    f: &Field,
    levels: Seq<(Seq<char>, u8)>,
    now: u64,
) -> (Seq<StepView<P>>, RunModel<P>, Option<u32>) {
    let name = dg.name@;
    let stuck = why_spec(Halt::Stuck, rules, cfg);
    let junk = junk_ids(s.defs(), s.bag_v(), views(labels.dropable@), Seq::empty());
    if u.upstairs {
        let r = leg_m(
            say_m(m, upstairs_note(name)),
            StepView::ToGround(u.spawn),
            ground_key(),
            stuck,
            now,
        );
        (r.0, r.1, None)
    } else if u.depth > 0 && s.load_pct >= cfg.bag_full_pct && junk.len() > 0 {
        (seq![StepView::Drop(junk[0])], say_m(m, drop_note(junk[0])), None)
    } else if m.loot_site is Some && m.loot_tries < CHEST_LOOT_TRIES {
        let m4 = RunModel { loot_tries: (m.loot_tries + 1) as u32, ..m };
        match u.chest_loot {
            Some(id) => (
                seq![StepView::Pickup(id)],
                say_m(m4, gather_note(name, m4.loot_tries)),
                None,
            ),
            None => (seq![StepView::Idle], say_m(m4, haul_wait_note(name)), None),
        }
    } else {
        let m4 = if m.loot_site is Some {
            RunModel { loot_site: None, ..m }
        } else {
            m
        };
        errand_m(m4, s, cfg, rules, u, dg, f, levels, now)
    }
}

fn upstairs_line(name: &str) -> (r: String)
    ensures
        r@ == upstairs_note(name@),
{
    let mut r = String::from_str("Indoors upstairs — taking the stairs down and heading for ");
    r.append(name);
    r.append(".");
    r
}

fn drop_line(id: &str) -> (r: String)
    ensures
        r@ == drop_note(id@),
{
    let mut r = String::from_str("Bag full underground — dropping ");
    r.append(id);
    r.append(".");
    r
}

fn gather_line(name: &str, tries: u32) -> (r: String)
    ensures
        r@ == gather_note(name@, tries),
{
    let mut r = String::from_str(name);
    r.append(" — gathering what the chest threw (");
    push_decimal(&mut r, tries);
    r.append("/");
    push_decimal(&mut r, CHEST_LOOT_TRIES);
    r.append(").");
    r
}

fn haul_wait_line(name: &str) -> (r: String)
    ensures
        r@ == haul_wait_note(name@),
{
    let mut r = String::from_str(name);
    r.append(" — waiting on the chest's haul.");
    r
}

fn heading_out_line(name: &str) -> (r: String)
    ensures
        r@ == heading_out_note(name@),
{
    let mut r = String::from_str(name);
    r.append(" — haul gathered, heading out.");
    r
}

fn done_line(name: &str, last_key: &Option<String>) -> (r: String)
    ensures
        r@ == done_note(
            name@,
            match last_key {
                Some(k) => Some(k@),
                None => None,
            },
        ),
{
    let mut r = String::from_str(name);
    r.append(" done for tonight — chest emptied, ");
    match last_key {
        Some(k) => r.append(k.as_str()),
        None => r.append("no key needed"),
    }
    r.append(" banked. Waiting for the reset.");
    r
}

fn open_line(name: &str, max: u8, boss: bool) -> (r: String)
    ensures
        r@ == open_note(name@, max, boss),
{
    let mut r = String::from_str(name);
    r.append(" floor ");
    push_decimal(&mut r, max as u32);
    r.append(" — ");
    if boss {
        r.append("guardian up, ");
    } else {
        r.append("");
    }
    r.append("opening the great chest.");
    r
}

fn chamber_line(name: &str, max: u8) -> (r: String)
    ensures
        r@ == chamber_note(name@, max),
{
    let mut r = String::from_str(name);
    r.append(" floor ");
    push_decimal(&mut r, max as u32);
    r.append(" — walking to the guardian's chamber.");
    r
}

fn descending_line(name: &str, next: u8) -> (r: String)
    ensures
        r@ == descending_note(name@, next),
{
    let mut r = String::from_str(name);
    r.append(" — descending to floor ");
    push_decimal(&mut r, next as u32);
    r.append(".");
    r
}

fn need_line(name: &str, key: &str, first: u8, last: u8) -> (r: String)
    ensures
        r@ == need_note(name@, key@, first, last),
{
    let mut r = String::from_str(name);
    r.append(" — need ");
    r.append(key);
    r.append(", working floors ");
    push_decimal(&mut r, first as u32);
    r.append("-");
    push_decimal(&mut r, last as u32);
    r.append(".");
    r
}

fn hunting_line(name: &str, depth: u8, key: &str) -> (r: String)
    ensures
        r@ == hunting_note(name@, depth, key@),
{
    let mut r = String::from_str(name);
    r.append(" floor ");
    push_decimal(&mut r, depth as u32);
    r.append(" — hunting for ");
    r.append(key);
    r.append(".");
    r
}

fn sweeping_line(name: &str, depth: u8, key: &str, n: u32, total: u32) -> (r: String)
    ensures
        r@ == sweeping_note(name@, depth, key@, n as nat, total as nat),
{
    let mut r = String::from_str(name);
    r.append(" floor ");
    push_decimal(&mut r, depth as u32);
    r.append(" — sweeping for ");
    r.append(key);
    r.append(" (");
    push_decimal(&mut r, n);
    r.append("/");
    push_decimal(&mut r, total);
    r.append(").");
    r
}

fn descend_name(name: &str, depth: u8) -> (r: String)
    ensures
        r@ == descend_key(name@, depth),
{
    let mut r = String::from_str("descend ");
    r.append(name);
    r.append(" ");
    push_decimal(&mut r, depth as u32);
    r
}

fn sweep_name(depth: u8, i: u32) -> (r: String)
    ensures
        r@ == sweep_key(depth, i as nat),
{
    let mut r = String::from_str("sweep ");
    push_decimal(&mut r, depth as u32);
    r.append(" ");
    push_decimal(&mut r, i);
    r
}

/// Whether a treasure chest is in sight.
fn sees_treasure(chests: &Vec<ChestKind>) -> (r: bool)
    ensures
        r == treasure_in_sight(chests@),
{
    let mut k: usize = 0;
    while k < chests.len()
        invariant
            k <= chests@.len(),
            forall|j: int| 0 <= j < k ==> chests@[j] != ChestKind::Treasure,
        decreases chests@.len() - k,
    {
        if chests[k] == ChestKind::Treasure {
            assert(chests@[k as int] == ChestKind::Treasure);
            return true;
        }
        k += 1;
    }
    false
}

/// Whether the guardian still stands in sight.
fn sees_boss(f: &Field, boss: &String) -> (r: bool)
    ensures
        r == boss_up(f.sightings(), boss@),
{
    let ghost ms = f.sightings();
    let mut k: usize = 0;
    while k < f.monsters.len()
        invariant
            k <= ms.len(),
            ms == f.sightings(),
            forall|j: int| 0 <= j < k ==> !(#[trigger] ms[j].monster_type == boss@ && ms[j].health > 0),
        decreases ms.len() - k,
    {
        assert(ms[k as int] == f.monsters@[k as int]@);
        if f.monsters[k].monster_type == *boss && f.monsters[k].health > 0 {
            assert(ms[k as int].monster_type == boss@ && ms[k as int].health > 0);
            return true;
        }
        k += 1;
    }
    false
}

/// Whether a live monster stands on our floor.
fn sees_live_monster_here(f: &Field) -> (r: bool)
    ensures
        r == any_alive_here(f),
{
    let ghost ms = f.sightings();
    let mut k: usize = 0;
    while k < f.monsters.len()
        invariant
            k <= ms.len(),
            ms == f.sightings(),
            forall|j: int| 0 <= j < k ==> !((#[trigger] ms[j]).floor_level == f.my_floor && ms[j].health > 0),
        decreases ms.len() - k,
    {
        assert(ms[k as int] == f.monsters@[k as int]@);
        if f.monsters[k].floor_level == f.my_floor && f.monsters[k].health > 0 {
            return true;
        }
        k += 1;
    }
    false
}

/// The nearest stop not stood at yet, the first of equals.
fn nearest_unswept(seen: &Vec<bool>, keys: &Vec<u32>) -> (r: Option<usize>)
    requires
        seen@.len() == keys@.len(),
    ensures
        match r {
            Some(i) => i < seen@.len() && nearest_unseen(seen@, keys@, seen@.len() as int) == Some(
                i as int,
            ),
            None => nearest_unseen(seen@, keys@, seen@.len() as int) is None,
        },
{
    let mut best: Option<usize> = None;
    let mut k: usize = 0;
    while k < seen.len()
        invariant
            k <= seen@.len() == keys@.len(),
            match best {
                Some(b) => b < k && nearest_unseen(seen@, keys@, k as int) == Some(b as int),
                None => nearest_unseen(seen@, keys@, k as int) is None,
            },
        decreases seen@.len() - k,
    {
        if !seen[k] {
            match best {
                Some(b) => {
                    if keys[k] < keys[b] {
                        best = Some(k);
                    }
                },
                None => {
                    best = Some(k);
                },
            }
        }
        k += 1;
    }
    best
}

/// A descent to `depth`, the reins climbed on first when they are worth it.
#[verifier::rlimit(30)]
fn descend<P: Copy>(
    run: &mut Run<P>,
    u: &Underground<P>,
    name: &String,
    depth: u8,
    stuck: &str,
    now: u64,
) -> (r: Vec<Step<P>>)
    requires
        old(run).legs < u32::MAX,
    ensures
        (step_views(r@), final(run)@) == descend_m(old(run)@, u, name@, depth, stuck@, now),
{
    let key = descend_name(name.as_str(), depth);
    let steps = run.leg(Step::Descend(name.clone(), depth), key, stuck, now);
    match &u.reins {
        Some(reins) => {
            assert(step_views(steps@).len() == 1);
            assert(steps@.len() == 1);
            assert(step_views(steps@)[0] == steps@[0]@);
            let landed = match &steps[0] {
                Step::Descend(_, _) => true,
                _ => false,
            };
            if landed {
                let out = vec![Step::Use(reins.clone()), Step::Descend(name.clone(), depth)];
                assert(step_views(out@) =~= seq![StepView::<P>::Use(reins@)] + step_views(steps@));
                out
            } else {
                steps
            }
        },
        None => steps,
    }
}

/// Out to the surface, or idle when already there.
fn surface<P: Copy>(run: &mut Run<P>, u: &Underground<P>, name: &String, stuck: &str, now: u64) -> (r: Vec<
    Step<P>,
>)
    requires
        old(run).legs < u32::MAX,
    ensures
        (step_views(r@), final(run)@) == surface_m(old(run)@, u, name@, stuck@, now),
{
    if u.depth == 0 {
        let r = vec![Step::Idle];
        assert(step_views(r@) =~= seq![StepView::<P>::Idle]);
        return r;
    }
    descend(run, u, name, 0, stuck, now)
}

/// On the deepest floor with the chest unclaimed: open it, or walk to it.
#[verifier::rlimit(30)]
fn claim<P: Copy>(run: &mut Run<P>, u: &Underground<P>, dg: &DungeonFacts<P>, f: &Field) -> (r: Vec<
    Step<P>,
>)
    ensures
        (step_views(r@), final(run)@) == claim_m(old(run)@, u, dg, f),
{
    if sees_treasure(&u.chests) {
        let boss = sees_boss(f, &dg.boss_type);
        run.say(open_line(dg.name.as_str(), dg.max_depth, boss));
        let r = vec![Step::OpenChest];
        assert(step_views(r@) =~= seq![StepView::<P>::OpenChest]);
        return r;
    }
    match dg.treasure_approach {
        Some(spot) => {
            run.say(chamber_line(dg.name.as_str(), dg.max_depth));
            let r = vec![Step::Walk(spot)];
            assert(step_views(r@) =~= seq![StepView::<P>::Walk(spot)]);
            r
        },
        None => {
            let r = vec![Step::Idle];
            assert(step_views(r@) =~= seq![StepView::<P>::Idle]);
            r
        },
    }
}

/// Whether some stack of the bag is `id`.
fn bag_carries(s: &WorkerView, id: &String) -> (r: bool)
    ensures
        r == carries(s.bag_v(), id@),
{
    let ghost bag = s.bag_v();
    let mut k: usize = 0;
    while k < s.bag.len()
        invariant
            k <= bag.len(),
            bag == s.bag_v(),
            forall|j: int| 0 <= j < k ==> bag[j].item_def_id != id@,
        decreases bag.len() - k,
    {
        assert(bag[k as int].item_def_id == s.bag@[k as int].item_def_id@);
        if s.bag[k].item_def_id == *id {
            assert(bag[k as int].item_def_id == id@);
            return true;
        }
        k += 1;
    }
    false
}

/// The halt clause for `why` under these settings.
fn why_line(why: Halt, rules: &DungeonRules, cfg: &WorkerConfig) -> (r: String)
    ensures
        r@ == why_spec(why, rules, cfg),
{
    let id = match &rules.dungeon_id {
        Some(d) => d.as_str(),
        None => "",
    };
    proof {
        reveal_strlit("");
    }
    assert(id@ == or_empty(rules.dungeon_id));
    why.clause(id, cfg.level_margin, rules.death_limit)
}

/// Missing a lock's key: work the floors that drop it.
#[verifier::rlimit(30)]
fn farm<P: Copy>(
    run: &mut Run<P>,
    cfg: &WorkerConfig,
    rules: &DungeonRules,
    u: &Underground<P>,
    f: &Field,
    levels: &MonsterLevels,
    name: &String,
    key: &String,
    first: u8,
    last: u8,
    stuck: &str,
    now: u64,
) -> (r: (Vec<Step<P>>, Option<u32>))
    requires
        old(run).legs < u32::MAX,
        old(run).barren_floors < u32::MAX,
        f.level() + cfg.level_margin <= u32::MAX,
        u.approaches@.len() == f.monsters@.len(),
        u.here@.len() == u.stops@.len(),
        u.stop_keys@.len() == u.stops@.len(),
        u.stops@.len() < u32::MAX,
        stuck@ == why_spec(Halt::Stuck, rules, cfg),
    ensures
        (step_views(r.0@), final(run)@, r.1) == farm_m(
            old(run)@,
            cfg,
            rules,
            u,
            f,
            levels@,
            name@,
            key@,
            first,
            last,
            now,
        ),
{
    let depth: u8 = u.depth;
    if !(first <= depth && depth <= last) {
        let goal: u8 = if depth < first {
            depth + 1
        } else {
            depth - 1
        };
        run.restart_sweep();
        run.say(need_line(name.as_str(), key.as_str(), first, last));
        let steps = descend(run, u, name, goal, stuck, now);
        return (steps, None);
    }
    if f.my_level.is_none() {
        let r = vec![Step::Idle];
        assert(step_views(r@) =~= seq![StepView::<P>::Idle]);
        return (r, None);
    }
    hunt(run, cfg, rules, u, f, levels, name, key, first, last, stuck, now)
}

/// On a floor of the section: fight, walk to prey, or sweep on.
#[verifier::rlimit(30)]
fn hunt<P: Copy>(
    run: &mut Run<P>,
    cfg: &WorkerConfig,
    rules: &DungeonRules,
    u: &Underground<P>,
    f: &Field,
    levels: &MonsterLevels,
    name: &String,
    key: &String,
    first: u8,
    last: u8,
    stuck: &str,
    now: u64,
) -> (r: (Vec<Step<P>>, Option<u32>))
    requires
        first <= u.depth <= last,
        f.my_level is Some,
        old(run).legs < u32::MAX,
        old(run).barren_floors < u32::MAX,
        f.level() + cfg.level_margin <= u32::MAX,
        u.approaches@.len() == f.monsters@.len(),
        u.here@.len() == u.stops@.len(),
        u.stop_keys@.len() == u.stops@.len(),
        u.stops@.len() < u32::MAX,
        stuck@ == why_spec(Halt::Stuck, rules, cfg),
    ensures
        (step_views(r.0@), final(run)@, r.1) == hunt_m(
            old(run)@,
            cfg,
            rules,
            u,
            f,
            levels@,
            name@,
            key@,
            first,
            last,
            now,
        ),
{
    let depth: u8 = u.depth;
    let arm = Some(cfg.level_margin);
    run.look_around(&u.here, depth);
    match free_kill(f, levels, cfg.level_margin) {
        Some(id) => {
            run.saw_eligible = true;
            run.saw_any = true;
            let ghost v = id@;
            let r = vec![Step::Attack(id)];
            assert(step_views(r@) =~= seq![StepView::<P>::Attack(v)]);
            return (r, arm);
        },
        None => {},
    }
    if sees_live_monster_here(f) {
        run.saw_any = true;
    }
    match best_index(f, levels, cfg.level_margin, UNBOUNDED_KEY, false) {
        Some(i) => {
            run.saw_eligible = true;
            run.say(hunting_line(name.as_str(), depth, key.as_str()));
            let r = vec![Step::Walk(u.approaches[i])];
            assert(step_views(r@) =~= seq![StepView::<P>::Walk(u.approaches@[i as int])]);
            return (r, arm);
        },
        None => {},
    }
    let steps = sweep_on(run, cfg, rules, u, name, key, first, last, stuck, now);
    (steps, arm)
}

/// Walk the tour on, or judge the floor and move one floor on.
#[verifier::rlimit(30)]
fn sweep_on<P: Copy>(
    run: &mut Run<P>,
    cfg: &WorkerConfig,
    rules: &DungeonRules,
    u: &Underground<P>,
    name: &String,
    key: &String,
    first: u8,
    last: u8,
    stuck: &str,
    now: u64,
) -> (r: Vec<Step<P>>)
    requires
        first <= u.depth <= last,
        old(run).seen@.len() == u.stops@.len(),
        old(run).legs < u32::MAX,
        old(run).barren_floors < u32::MAX,
        u.stop_keys@.len() == u.stops@.len(),
        u.stops@.len() < u32::MAX,
        stuck@ == why_spec(Halt::Stuck, rules, cfg),
    ensures
        (step_views(r@), final(run)@) == sweep_m(old(run)@, cfg, rules, u, name@, key@, first, last, now),
{
    let depth: u8 = u.depth;
    match nearest_unswept(&run.seen, &u.stop_keys) {
        Some(i) => {
            let n: usize = run.swept();
            proof {
                run.seen@.lemma_filter_len(|b: bool| b);
            }
            let note = sweeping_line(name.as_str(), depth, key.as_str(), (n + 1) as u32, u.stops.len() as u32);
            run.say(note);
            return run.leg(Step::Walk(u.stops[i]), sweep_name(depth, i as u32), stuck, now);
        },
        None => {},
    }
    if run.saw_any && !run.saw_eligible {
        run.barren_floors = run.barren_floors + 1;
    } else if run.saw_eligible {
        run.barren_floors = 0;
    }
    let span: u32 = (last - first) as u32 + 1;
    if run.barren_floors >= span {
        let clause = why_line(Halt::OutOfDepth, rules, cfg);
        run.halt(Halt::OutOfDepth, clause.as_str(), now);
        let r = vec![Step::Idle];
        assert(step_views(r@) =~= seq![StepView::<P>::Idle]);
        return r;
    }
    run.restart_sweep();
    let goal: u8 = next_floor(depth, first, last, run);
    descend(run, u, name, goal, stuck, now)
}

/// The tick once the halts are settled and nothing forces its hand.
#[verifier::rlimit(30)]
fn errand<P: Copy>(
    run: &mut Run<P>,
    s: &WorkerView,
    cfg: &WorkerConfig,
    rules: &DungeonRules,
    u: &Underground<P>,
    dg: &DungeonFacts<P>,
    f: &Field,
    levels: &MonsterLevels,
    stuck: &str,
    now: u64,
) -> (r: (Vec<Step<P>>, Option<u32>))
    requires
        old(run).legs < u32::MAX,
        old(run).barren_floors < u32::MAX,
        f.level() + cfg.level_margin <= u32::MAX,
        u.approaches@.len() == f.monsters@.len(),
        u.here@.len() == u.stops@.len(),
        u.stop_keys@.len() == u.stops@.len(),
        u.stops@.len() < u32::MAX,
        stuck@ == why_spec(Halt::Stuck, rules, cfg),
    ensures
        (step_views(r.0@), final(run)@, r.1) == errand_m(old(run)@, s, cfg, rules, u, dg, f, levels@, now),
{
    if run.leaving {
        if u.depth > 0 {
            run.say(heading_out_line(dg.name.as_str()));
            return (surface(run, u, &dg.name, stuck, now), None);
        }
        run.leaving = false;
        let r = vec![Step::Idle];
        assert(step_views(r@) =~= seq![StepView::<P>::Idle]);
        return (r, None);
    }
    let done = dg.chest_spent && match &dg.last_key {
        Some(k) => bag_carries(s, k),
        None => true,
    };
    if done {
        run.say(done_line(dg.name.as_str(), &dg.last_key));
        return (surface(run, u, &dg.name, stuck, now), None);
    }
    if u.depth == dg.max_depth && !dg.chest_spent {
        return (claim(run, u, dg, f), None);
    }
    match &dg.lock_below {
        Some((_, key, first, last)) => {
            if !bag_carries(s, key) {
                return farm(run, cfg, rules, u, f, levels, &dg.name, key, *first, *last, stuck, now);
            }
        },
        None => {},
    }
    let next: u8 = if u.depth < dg.max_depth {
        u.depth + 1
    } else {
        dg.max_depth
    };
    run.restart_sweep();
    run.say(descending_line(dg.name.as_str(), next));
    (descend(run, u, &dg.name, next, stuck, now), None)
}

/// One tick of the dungeoneer: the steps to take, and how the walk
/// interrupt is armed (the level margin while hunting a key's floors, so a
/// leg is dropped the moment something worth hitting is in reach; disarmed
/// on every leg walked to get somewhere). `now` is the millisecond clock.
#[verifier::rlimit(30)]
pub fn tick<P: Copy>(
    run: &mut Run<P>,
    s: &WorkerView,
    labels: &BagLabels,
    cfg: &WorkerConfig,
    rules: &DungeonRules,
    u: &Underground<P>,
    f: &Field,
    levels: &MonsterLevels,
    now: u64,
) -> (r: (Vec<Step<P>>, Option<u32>))
    requires
        old(run).legs < u32::MAX,
        old(run).barren_floors < u32::MAX,
        f.level() + cfg.level_margin <= u32::MAX,
        u.approaches@.len() == f.monsters@.len(),
        u.here@.len() == u.stops@.len(),
        u.stop_keys@.len() == u.stops@.len(),
        u.stops@.len() < u32::MAX,
    ensures
        (step_views(r.0@), final(run)@, r.1) == tick_spec(
            old(run)@,
            s,
            labels,
            cfg,
            rules,
            u,
            f,
            levels@,
            now,
        ),
{
    let stuck = why_line(Halt::Stuck, rules, cfg);
    let dg = match &u.dungeon {
        Some(dg) => dg,
        None => {
            let clause = why_line(Halt::NoDungeon, rules, cfg);
            run.halt(Halt::NoDungeon, clause.as_str(), now);
            let r = vec![Step::Idle];
            assert(step_views(r@) =~= seq![StepView::<P>::Idle]);
            return (r, None);
        },
    };
    run.observe_chest(dg.chest_spent, dg.treasure);
    if run.deaths >= rules.death_limit {
        let clause = why_line(Halt::DiedTooOften, rules, cfg);
        run.halt(Halt::DiedTooOften, clause.as_str(), now);
    }
    if run.halted_now(now) {
        return (surface(run, u, &dg.name, stuck.as_str(), now), None);
    }
    settled(run, s, labels, cfg, rules, u, dg, f, levels, stuck.as_str(), now)
}

/// The tick with no halt in force.
#[verifier::rlimit(30)]
fn settled<P: Copy>(
    run: &mut Run<P>,
    s: &WorkerView,
    labels: &BagLabels,
    cfg: &WorkerConfig,
    rules: &DungeonRules,
    u: &Underground<P>,
    dg: &DungeonFacts<P>,
    f: &Field,
    levels: &MonsterLevels,
    stuck: &str,
    now: u64,
) -> (r: (Vec<Step<P>>, Option<u32>))
    requires
        old(run).legs < u32::MAX,
        old(run).barren_floors < u32::MAX,
        f.level() + cfg.level_margin <= u32::MAX,
        u.approaches@.len() == f.monsters@.len(),
        u.here@.len() == u.stops@.len(),
        u.stop_keys@.len() == u.stops@.len(),
        u.stops@.len() < u32::MAX,
        stuck@ == why_spec(Halt::Stuck, rules, cfg),
    ensures
        (step_views(r.0@), final(run)@, r.1) == settled_m(
            old(run)@,
            s,
            labels,
            cfg,
            rules,
            u,
            dg,
            f,
            levels@,
            now,
        ),
{
    if u.upstairs {
        run.say(upstairs_line(dg.name.as_str()));
        let steps = run.leg(Step::ToGround(u.spawn), String::from_str("ground"), stuck, now);
        return (steps, None);
    }
    if u.depth > 0 && s.load_pct >= cfg.bag_full_pct {
        let junk = junk_list(s, labels);
        if junk.len() > 0 {
            let id = junk[0].clone();
            run.say(drop_line(id.as_str()));
            let ghost v = id@;
            let r = vec![Step::Drop(id)];
            assert(step_views(r@) =~= seq![StepView::<P>::Drop(v)]);
            return (r, None);
        }
    }
    if run.loot_site.is_some() {
        if run.loot_tries < CHEST_LOOT_TRIES {
            run.loot_tries = run.loot_tries + 1;
            let tries: u32 = run.loot_tries;
            match u.chest_loot {
                Some(id) => {
                    run.say(gather_line(dg.name.as_str(), tries));
                    let r = vec![Step::Pickup(id)];
                    assert(step_views(r@) =~= seq![StepView::<P>::Pickup(id)]);
                    return (r, None);
                },
                None => {
                    run.say(haul_wait_line(dg.name.as_str()));
                    let r = vec![Step::Idle];
                    assert(step_views(r@) =~= seq![StepView::<P>::Idle]);
                    return (r, None);
                },
            }
        }
        run.loot_site = None;
    }
    errand(run, s, cfg, rules, u, dg, f, levels, stuck, now)
}

/// The steps of a way out: idle on the surface already, else the climb to
/// floor 0 (the reins climbed on first when worth it), or idle when that
/// leg stopped landing.
pub open spec fn heads_out<P>(steps: Seq<StepView<P>>, name: Seq<char>) -> bool {
    ||| steps == seq![StepView::<P>::Idle]
    ||| steps == seq![StepView::<P>::Descend(name, 0)]
    ||| (steps.len() == 2 && steps[0] is Use && steps[1] == StepView::<P>::Descend(name, 0))
}

/// Whether a floor the tick heads for is at most one floor from `depth`,
/// or the surface.
pub open spec fn near_floor(d: u8, depth: u8) -> bool {
    d == 0 || d == depth || d == depth + 1 || d + 1 == depth
}

/// Every descent among the steps heads at most one floor on, or out.
pub open spec fn no_jump<P>(steps: Seq<StepView<P>>, depth: u8) -> bool {
    forall|i: int|
        0 <= i < steps.len() ==> (#[trigger] steps[i] matches StepView::Descend(_, d) ==> near_floor(
            d,
            depth,
        ))
}

proof fn lemma_descend_shape<P>(
    m: RunModel<P>,
    u: &Underground<P>,
    name: Seq<char>,
    depth: u8,
    stuck: Seq<char>,
    now: u64,
)
    ensures
        ({
            let steps = descend_m(m, u, name, depth, stuck, now).0;
            ||| steps == seq![StepView::<P>::Idle]
            ||| steps == seq![StepView::<P>::Descend(name, depth)]
            ||| (steps.len() == 2 && steps[0] is Use && steps[1] == StepView::<P>::Descend(
                name,
                depth,
            ))
        }),
{
}

proof fn lemma_descend_near<P>(
    m: RunModel<P>,
    u: &Underground<P>,
    name: Seq<char>,
    goal: u8,
    depth: u8,
    stuck: Seq<char>,
    now: u64,
)
    requires
        near_floor(goal, depth),
    ensures
        no_jump(descend_m(m, u, name, goal, stuck, now).0, depth),
{
    lemma_descend_shape(m, u, name, goal, stuck, now);
    let steps = descend_m(m, u, name, goal, stuck, now).0;
    assert forall|i: int| 0 <= i < steps.len() implies (#[trigger] steps[i] matches StepView::Descend(
        _,
        d,
    ) ==> near_floor(d, depth)) by {
        if steps.len() == 2 && i == 0 {
            assert(steps[0] is Use);
        }
    }
}

/// A halt in force holds the run out of the dungeon: whatever the reason,
/// a halted tick only ever heads for the surface, and never arms the walk
/// interrupt.
#[verifier::rlimit(30)]
pub proof fn law_a_halted_run_heads_for_the_surface<P>(
    m: RunModel<P>,
    s: &WorkerView,
    labels: &BagLabels,
    cfg: &WorkerConfig,
    rules: &DungeonRules,
    u: &Underground<P>,
    f: &Field,
    levels: Seq<(Seq<char>, u8)>,
    now: u64,
)
    requires
        u.dungeon is Some,
        halted_now_m(
            {
                let m1 = observe_chest_m(m, u.dungeon->0.chest_spent, u.dungeon->0.treasure);
                if m1.deaths >= rules.death_limit {
                    halt_m(m1, Halt::DiedTooOften, why_spec(Halt::DiedTooOften, rules, cfg), now)
                } else {
                    m1
                }
            },
            now,
        ).0,
    ensures
        heads_out(tick_spec(m, s, labels, cfg, rules, u, f, levels, now).0, u.dungeon->0.name@),
        tick_spec(m, s, labels, cfg, rules, u, f, levels, now).2 is None,
{
    let dg = u.dungeon->0;
    let m1 = observe_chest_m(m, dg.chest_spent, dg.treasure);
    let m2 = if m1.deaths >= rules.death_limit {
        halt_m(m1, Halt::DiedTooOften, why_spec(Halt::DiedTooOften, rules, cfg), now)
    } else {
        m1
    };
    let m3 = halted_now_m(m2, now).1;
    lemma_descend_shape(m3, u, dg.name@, 0, why_spec(Halt::Stuck, rules, cfg), now);
}

/// Dying too often stops the run: with the death count at the limit and no
/// halt yet in force, the tick halts the run and heads for the surface.
#[verifier::rlimit(30)]
pub proof fn law_dying_past_the_limit_stops_the_run<P>(
    m: RunModel<P>,
    s: &WorkerView,
    labels: &BagLabels,
    cfg: &WorkerConfig,
    rules: &DungeonRules,
    u: &Underground<P>,
    f: &Field,
    levels: Seq<(Seq<char>, u8)>,
    now: u64,
)
    requires
        u.dungeon is Some,
        m.deaths >= rules.death_limit,
        m.halted is None,
    ensures
        heads_out(tick_spec(m, s, labels, cfg, rules, u, f, levels, now).0, u.dungeon->0.name@),
        (tick_spec(m, s, labels, cfg, rules, u, f, levels, now).1.halted matches Some((why, _))
            && why == Halt::DiedTooOften),
{
    law_a_halted_run_heads_for_the_surface(m, s, labels, cfg, rules, u, f, levels, now);
    let dg = u.dungeon->0;
    let m1 = observe_chest_m(m, dg.chest_spent, dg.treasure);
    let m2 = halt_m(m1, Halt::DiedTooOften, why_spec(Halt::DiedTooOften, rules, cfg), now);
    let stuck = why_spec(Halt::Stuck, rules, cfg);
    let w = if m2.leg == Some(descend_key(dg.name@, 0)) {
        RunModel { legs: (m2.legs + 1) as u32, ..m2 }
    } else {
        RunModel { leg: Some(descend_key(dg.name@, 0)), legs: 1, ..m2 }
    };
    assert(w.halted == m2.halted);
}

/// The walk interrupt is armed only where kills are the errand: on a floor
/// of the section that drops the key of the lock below, with that key not
/// in the bag, and then with the configured level margin.
#[verifier::rlimit(30)]
pub proof fn law_the_interrupt_is_armed_only_on_the_key_floors<P>(
    m: RunModel<P>,
    s: &WorkerView,
    labels: &BagLabels,
    cfg: &WorkerConfig,
    rules: &DungeonRules,
    u: &Underground<P>,
    f: &Field,
    levels: Seq<(Seq<char>, u8)>,
    now: u64,
)
    ensures
        tick_spec(m, s, labels, cfg, rules, u, f, levels, now).2 is Some ==> {
            &&& tick_spec(m, s, labels, cfg, rules, u, f, levels, now).2 == Some(cfg.level_margin)
            &&& (u.dungeon matches Some(dg) && (dg.lock_below matches Some((_, key, first, last))
                && !carries(s.bag_v(), key@) && first <= u.depth <= last))
        },
{
}

/// Whether the steps ask for the chest to be opened.
pub open spec fn opens_chest<P>(steps: Seq<StepView<P>>) -> bool {
    exists|i: int| 0 <= i < steps.len() && #[trigger] steps[i] is OpenChest
}

proof fn lemma_sweep_never_opens<P>(
    m: RunModel<P>,
    cfg: &WorkerConfig,
    rules: &DungeonRules,
    u: &Underground<P>,
    name: Seq<char>,
    key: Seq<char>,
    first: u8,
    last: u8,
    now: u64,
)
    ensures
        !opens_chest(sweep_m(m, cfg, rules, u, name, key, first, last, now).0),
{
    let stuck = why_spec(Halt::Stuck, rules, cfg);
    lemma_descend_never_opens(u, name, stuck, now);
    lemma_leg_never_opens::<P, P>(stuck, now);
    let steps = sweep_m(m, cfg, rules, u, name, key, first, last, now).0;
    if opens_chest(steps) {
        let i = choose|i: int| 0 <= i < steps.len() && #[trigger] steps[i] is OpenChest;
        assert(steps[i] is OpenChest);
    }
}

#[verifier::rlimit(30)]
proof fn lemma_farm_never_opens<P>(
    m: RunModel<P>,
    cfg: &WorkerConfig,
    rules: &DungeonRules,
    u: &Underground<P>,
    f: &Field,
    levels: Seq<(Seq<char>, u8)>,
    name: Seq<char>,
    key: Seq<char>,
    first: u8,
    last: u8,
    now: u64,
)
    ensures
        !opens_chest(farm_m(m, cfg, rules, u, f, levels, name, key, first, last, now).0),
{
    let stuck = why_spec(Halt::Stuck, rules, cfg);
    lemma_descend_never_opens(u, name, stuck, now);
    let m1 = look_around_m(m, u.here@, u.depth);
    let m2 = RunModel { saw_any: m1.saw_any || any_alive_here(f), ..m1 };
    lemma_sweep_never_opens(m2, cfg, rules, u, name, key, first, last, now);
    let steps = farm_m(m, cfg, rules, u, f, levels, name, key, first, last, now).0;
    if opens_chest(steps) {
        let i = choose|i: int| 0 <= i < steps.len() && #[trigger] steps[i] is OpenChest;
        assert(steps[i] is OpenChest);
    }
}

#[verifier::rlimit(30)]
proof fn lemma_errand_opens<P>(
    m: RunModel<P>,
    s: &WorkerView,
    cfg: &WorkerConfig,
    rules: &DungeonRules,
    u: &Underground<P>,
    dg: &DungeonFacts<P>,
    f: &Field,
    levels: Seq<(Seq<char>, u8)>,
    now: u64,
)
    ensures
        opens_chest(errand_m(m, s, cfg, rules, u, dg, f, levels, now).0) ==> (u.depth
            == dg.max_depth && !dg.chest_spent && treasure_in_sight(u.chests@)),
{
    let stuck = why_spec(Halt::Stuck, rules, cfg);
    lemma_descend_never_opens(u, dg.name@, stuck, now);
    match dg.lock_below {
        Some((_, key, first, last)) => {
            lemma_farm_never_opens(m, cfg, rules, u, f, levels, dg.name@, key@, first, last, now);
        },
        None => {},
    }
    let steps = errand_m(m, s, cfg, rules, u, dg, f, levels, now).0;
    if opens_chest(steps) {
        let i = choose|i: int| 0 <= i < steps.len() && #[trigger] steps[i] is OpenChest;
        assert(steps[i] is OpenChest);
    }
}

/// The chest is opened only where it stands: an open is asked for only on
/// the deepest floor, with the chest not yet emptied tonight and in sight.
#[verifier::rlimit(30)]
pub proof fn law_the_chest_is_opened_only_in_its_chamber<P>(
    m: RunModel<P>,
    s: &WorkerView,
    labels: &BagLabels,
    cfg: &WorkerConfig,
    rules: &DungeonRules,
    u: &Underground<P>,
    f: &Field,
    levels: Seq<(Seq<char>, u8)>,
    now: u64,
)
    ensures
        opens_chest(tick_spec(m, s, labels, cfg, rules, u, f, levels, now).0) ==> (
        u.dungeon matches Some(dg) && u.depth == dg.max_depth && !dg.chest_spent
            && treasure_in_sight(u.chests@)),
{
    let steps = tick_spec(m, s, labels, cfg, rules, u, f, levels, now).0;
    if let Some(dg) = u.dungeon {
        let stuck = why_spec(Halt::Stuck, rules, cfg);
        lemma_descend_never_opens(u, dg.name@, stuck, now);
        lemma_leg_never_opens::<P, P>(stuck, now);
        let m1 = observe_chest_m(m, dg.chest_spent, dg.treasure);
        let m2 = if m1.deaths >= rules.death_limit {
            halt_m(m1, Halt::DiedTooOften, why_spec(Halt::DiedTooOften, rules, cfg), now)
        } else {
            m1
        };
        let m3 = halted_now_m(m2, now).1;
        let m4 = if m3.loot_site is Some {
            RunModel { loot_site: None, ..m3 }
        } else {
            m3
        };
        lemma_errand_opens(m4, s, cfg, rules, u, &dg, f, levels, now);
        if opens_chest(steps) {
            let i = choose|i: int| 0 <= i < steps.len() && #[trigger] steps[i] is OpenChest;
            assert(steps[i] is OpenChest);
        }
    } else {
        if opens_chest(steps) {
            let i = choose|i: int| 0 <= i < steps.len() && #[trigger] steps[i] is OpenChest;
            assert(steps[i] is OpenChest);
        }
    }
}

proof fn lemma_leg_never_opens<S, P>(stuck: Seq<char>, now: u64)
    ensures
        forall|m: RunModel<S>, step: StepView<P>, key: Seq<char>|
            !(step is OpenChest) ==> !opens_chest(#[trigger] leg_m(m, step, key, stuck, now).0),
{
    assert forall|m: RunModel<S>, step: StepView<P>, key: Seq<char>|
        !(step is OpenChest) implies !opens_chest(#[trigger] leg_m(m, step, key, stuck, now).0) by {
        let steps = leg_m(m, step, key, stuck, now).0;
        assert(steps.len() == 1);
        assert(!(steps[0] is OpenChest));
    }
}

proof fn lemma_descend_never_opens<P>(u: &Underground<P>, name: Seq<char>, stuck: Seq<char>, now: u64)
    ensures
        forall|m: RunModel<P>, d: u8| !opens_chest(#[trigger] descend_m(m, u, name, d, stuck, now).0),
{
    assert forall|m: RunModel<P>, d: u8|
        !opens_chest(#[trigger] descend_m(m, u, name, d, stuck, now).0) by {
        lemma_descend_shape(m, u, name, d, stuck, now);
        let steps = descend_m(m, u, name, d, stuck, now).0;
        assert forall|i: int| 0 <= i < steps.len() implies !(#[trigger] steps[i] is OpenChest) by {
            if steps.len() == 2 && i == 0 {
                assert(steps[0] is Use);
            }
        }
    }
}

proof fn lemma_descend_near_all<P>(u: &Underground<P>, name: Seq<char>, stuck: Seq<char>, now: u64, depth: u8)
    ensures
        forall|m: RunModel<P>, goal: u8|
            near_floor(goal, depth) ==> no_jump(#[trigger] descend_m(m, u, name, goal, stuck, now).0, depth),
{
    assert forall|m: RunModel<P>, goal: u8|
        near_floor(goal, depth) implies no_jump(#[trigger] descend_m(m, u, name, goal, stuck, now).0, depth) by {
        lemma_descend_near(m, u, name, goal, depth, stuck, now);
    }
}

proof fn lemma_leg_no_jump<S, P>(stuck: Seq<char>, now: u64, depth: u8)
    ensures
        forall|m: RunModel<S>, step: StepView<P>, key: Seq<char>|
            !(step is Descend) ==> no_jump(#[trigger] leg_m(m, step, key, stuck, now).0, depth),
{
    assert forall|m: RunModel<S>, step: StepView<P>, key: Seq<char>|
        !(step is Descend) implies no_jump(#[trigger] leg_m(m, step, key, stuck, now).0, depth) by {
        let steps = leg_m(m, step, key, stuck, now).0;
        assert(steps.len() == 1);
        assert(!(steps[0] is Descend));
    }
}

proof fn lemma_sweep_no_jump<P>(
    m: RunModel<P>,
    cfg: &WorkerConfig,
    rules: &DungeonRules,
    u: &Underground<P>,
    name: Seq<char>,
    key: Seq<char>,
    first: u8,
    last: u8,
    now: u64,
)
    requires
        first <= u.depth <= last,
    ensures
        no_jump(sweep_m(m, cfg, rules, u, name, key, first, last, now).0, u.depth),
{
    let stuck = why_spec(Halt::Stuck, rules, cfg);
    lemma_descend_near_all(u, name, stuck, now, u.depth);
    lemma_leg_no_jump::<P, P>(stuck, now, u.depth);
}

#[verifier::rlimit(30)]
proof fn lemma_farm_no_jump<P>(
    m: RunModel<P>,
    cfg: &WorkerConfig,
    rules: &DungeonRules,
    u: &Underground<P>,
    f: &Field,
    levels: Seq<(Seq<char>, u8)>,
    name: Seq<char>,
    key: Seq<char>,
    first: u8,
    last: u8,
    now: u64,
)
    ensures
        no_jump(farm_m(m, cfg, rules, u, f, levels, name, key, first, last, now).0, u.depth),
{
    let stuck = why_spec(Halt::Stuck, rules, cfg);
    lemma_descend_near_all(u, name, stuck, now, u.depth);
    if first <= u.depth <= last && f.my_level is Some {
        let m1 = look_around_m(m, u.here@, u.depth);
        let m2 = RunModel { saw_any: m1.saw_any || any_alive_here(f), ..m1 };
        lemma_sweep_no_jump(m2, cfg, rules, u, name, key, first, last, now);
    }
}

#[verifier::rlimit(30)]
proof fn lemma_errand_no_jump<P>(
    m: RunModel<P>,
    s: &WorkerView,
    cfg: &WorkerConfig,
    rules: &DungeonRules,
    u: &Underground<P>,
    dg: &DungeonFacts<P>,
    f: &Field,
    levels: Seq<(Seq<char>, u8)>,
    now: u64,
)
    requires
        u.depth <= dg.max_depth,
    ensures
        no_jump(errand_m(m, s, cfg, rules, u, dg, f, levels, now).0, u.depth),
{
    let stuck = why_spec(Halt::Stuck, rules, cfg);
    lemma_descend_near_all(u, dg.name@, stuck, now, u.depth);
    assert(near_floor(0, u.depth));
    match dg.lock_below {
        Some((_, key, first, last)) => {
            lemma_farm_no_jump(m, cfg, rules, u, f, levels, dg.name@, key@, first, last, now);
        },
        None => {},
    }
}

/// The descent never jumps: every floor a tick heads for is the one below,
/// the one above, the one we stand on, or the surface — a leg that crosses
/// whole floors of monsters is exactly what gets abandoned halfway.
#[verifier::rlimit(30)]
pub proof fn law_the_descent_never_jumps<P>(
    m: RunModel<P>,
    s: &WorkerView,
    labels: &BagLabels,
    cfg: &WorkerConfig,
    rules: &DungeonRules,
    u: &Underground<P>,
    f: &Field,
    levels: Seq<(Seq<char>, u8)>,
    now: u64,
)
    requires
        u.dungeon matches Some(dg) ==> u.depth <= dg.max_depth,
    ensures
        no_jump(tick_spec(m, s, labels, cfg, rules, u, f, levels, now).0, u.depth),
{
    if let Some(dg) = u.dungeon {
        let stuck = why_spec(Halt::Stuck, rules, cfg);
        lemma_descend_near_all(u, dg.name@, stuck, now, u.depth);
        lemma_leg_no_jump::<P, P>(stuck, now, u.depth);
        assert(near_floor(0, u.depth));
        let m1 = observe_chest_m(m, dg.chest_spent, dg.treasure);
        let m2 = if m1.deaths >= rules.death_limit {
            halt_m(m1, Halt::DiedTooOften, why_spec(Halt::DiedTooOften, rules, cfg), now)
        } else {
            m1
        };
        let m3 = halted_now_m(m2, now).1;
        let m4 = if m3.loot_site is Some {
            RunModel { loot_site: None, ..m3 }
        } else {
            m3
        };
        lemma_errand_no_jump(m4, s, cfg, rules, u, &dg, f, levels, now);
    } else {
        assert(tick_spec(m, s, labels, cfg, rules, u, f, levels, now).0 == seq![StepView::<P>::Idle]);
        assert(tick_spec(m, s, labels, cfg, rules, u, f, levels, now).0[0] == StepView::<P>::Idle);
    }
}

/// A swept floor is judged on what its tour saw: a fair fight seen starts
/// the count of barren floors over, monsters seen but none fair add one,
/// and no monsters at all leave it. The run halts as out of its depth
/// exactly when that count of consecutive barren floors reaches the
/// section's span, so a fair fight seen on the floor just swept never halts
/// it so.
pub proof fn law_only_consecutive_barren_floors_halt_the_run<P>(
    m: RunModel<P>,
    cfg: &WorkerConfig,
    rules: &DungeonRules,
    u: &Underground<P>,
    name: Seq<char>,
    key: Seq<char>,
    first: u8,
    last: u8,
    now: u64,
)
    requires
        nearest_unseen(m.seen, u.stop_keys@, m.seen.len() as int) is None,
        first <= last,
        m.barren_floors < u32::MAX,
    ensures
        ({
            let r = sweep_m(m, cfg, rules, u, name, key, first, last, now).1;
            let span = last - first + 1;
            &&& m.saw_eligible ==> r.barren_floors == 0
            &&& (m.saw_any && !m.saw_eligible) ==> r.barren_floors == m.barren_floors + 1
            &&& (!m.saw_any && !m.saw_eligible) ==> r.barren_floors == m.barren_floors
            &&& r.barren_floors >= span ==> (r.halted matches Some((Halt::OutOfDepth, _)))
            &&& (r.halted matches Some((Halt::OutOfDepth, _))) ==> (r.barren_floors >= span
                || (m.halted matches Some((Halt::OutOfDepth, _))))
        }),
{
}

} // verus!
