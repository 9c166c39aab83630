use agent_client::descent::{tick, DungeonFacts, DungeonRules, Underground, CHEST_LOOT_TRIES};
use agent_client::dungeon::ChestKind;
use agent_client::dungeoneer::Run;
use agent_client::fighter::{Field, MonsterLevels, Sighting};
use agent_client::items::{BagItem, ItemCatalog, ItemCategory, ItemDef};
use agent_client::labels::BagLabels;
use agent_client::worker::{
    reins_for_leg, should_town_trip, Saddle, Step, Vitals, WorkerConfig, WorkerKind, WorkerView,
};

/// A spot on a floor's grid.
type P = (i32, i32);

const CRYPT: &str = "Old Crypt";
const KEY: &str = "crypt_key_5";
const MAX_DEPTH: u8 = 5;
const SPAWN: P = (-1450, 4720);
const CHEST: P = (40, 40);
const BESIDE_CHEST: P = (40, 41);
/// How close to a sweep stop counts as having looked at it.
const ARRIVE: i32 = 4;
/// Where a closing walk stops short of its target.
const CLOSE_TO: f32 = 8.0;

/// A shallow dungeon whose one lock is its boss floor: the key drops on
/// floors 1 to 4 and opens floor 5, where the chest is.
struct Crypt {
    depth: u8,
    upstairs: bool,
    chest_spent: bool,
    chests: Vec<ChestKind>,
    chest_loot: Option<u64>,
    mounted: bool,
    me: P,
    monsters: Vec<(String, P)>,
    worker: WorkerView,
}

fn crypt() -> Crypt {
    Crypt {
        depth: 0,
        upstairs: false,
        chest_spent: false,
        chests: Vec::new(),
        chest_loot: None,
        mounted: false,
        me: (0, 0),
        monsters: Vec::new(),
        worker: WorkerView {
            catalog: ItemCatalog {
                defs: vec![
                    ItemDef {
                        id: "old_boot".to_string(),
                        category: Some(ItemCategory::Junk),
                        base_price: None,
                    },
                    ItemDef {
                        id: KEY.to_string(),
                        category: Some(ItemCategory::Other),
                        base_price: None,
                    },
                    ItemDef {
                        id: "horse_reins".to_string(),
                        category: Some(ItemCategory::Mount),
                        base_price: Some(400),
                    },
                ],
            },
            me: Some(Vitals {
                health: 100,
                max_health: 100,
                level: 1,
            }),
            bag: Vec::new(),
            main_hand: None,
            satiation: None,
            sprint_threshold: 300,
            gold: None,
            load_pct: 0,
            merchant_in_sight: false,
            merchant_shop: None,
            underground: false,
        },
    }
}

/// This floor's sweep stops.
fn stops(depth: u8) -> Vec<P> {
    if depth == 0 {
        return Vec::new();
    }
    vec![(10, 0), (30, 0), (30, 30), (0, 30)]
}

fn dist_sq(a: P, b: P) -> i64 {
    let (dx, dz) = ((a.0 - b.0) as i64, (a.1 - b.1) as i64);
    dx * dx + dz * dz
}

fn key_of(d: i64) -> u32 {
    (d as f32).to_bits()
}

fn approach(me: P, target: P) -> P {
    let (dx, dz) = ((target.0 - me.0) as f32, (target.1 - me.1) as f32);
    let dist = dx.hypot(dz);
    if dist <= CLOSE_TO {
        return target;
    }
    let ratio = (dist - CLOSE_TO) / dist;
    (
        (me.0 as f32 + dx * ratio).round() as i32,
        (me.1 as f32 + dz * ratio).round() as i32,
    )
}

impl Crypt {
    fn on_floor(&mut self, depth: u8) {
        self.depth = depth;
        self.worker.underground = depth > 0;
        self.upstairs = false;
        self.me = (0, 0);
        self.monsters.clear();
    }

    fn on_the_surface(&mut self) {
        self.on_floor(0);
    }

    fn bag(&mut self, id: &str, quantity: u32) {
        let instance_id = self.worker.bag.len() as u64 + 1;
        self.worker.bag.push(BagItem {
            instance_id,
            item_def_id: id.to_string(),
            quantity,
        });
    }

    fn saw(&mut self, id: &str, at: P) {
        self.monsters.push((id.to_string(), at));
    }

    fn underground(&self) -> Underground<P> {
        let stops = stops(self.depth);
        Underground {
            dungeon: Some(DungeonFacts {
                name: CRYPT.to_string(),
                max_depth: MAX_DEPTH,
                boss_type: "crypt_lord".to_string(),
                chest_spent: self.chest_spent,
                treasure: Some(CHEST),
                treasure_approach: Some(BESIDE_CHEST),
                lock_below: Some((MAX_DEPTH, KEY.to_string(), 1, MAX_DEPTH - 1)),
                last_key: Some(KEY.to_string()),
            }),
            depth: self.depth,
            upstairs: self.upstairs,
            spawn: SPAWN,
            chest_loot: self.chest_loot,
            chests: self.chests.clone(),
            reins: reins_for_leg(
                &self.worker,
                Saddle {
                    mounted: self.mounted,
                    alive: true,
                    underground: self.depth > 0,
                    posed: false,
                    in_combat: false,
                    wading: false,
                },
                true,
            ),
            here: stops
                .iter()
                .map(|s| dist_sq(*s, self.me) <= (ARRIVE * ARRIVE) as i64)
                .collect(),
            stop_keys: stops.iter().map(|s| key_of(dist_sq(*s, self.me))).collect(),
            stops,
            approaches: self.monsters.iter().map(|(_, at)| approach(self.me, *at)).collect(),
        }
    }

    fn field(&self) -> Field {
        let floor = -(self.depth as i8);
        Field {
            my_level: Some(1),
            my_id: Some(1),
            my_floor: floor,
            monsters: self
                .monsters
                .iter()
                .map(|(id, at)| Sighting {
                    id: id.clone(),
                    monster_type: "goblin".to_string(),
                    level_override: None,
                    owner: None,
                    dead: false,
                    health: 10,
                    floor_level: floor,
                    dist_key: key_of(dist_sq(*at, self.me)),
                    in_circle: true,
                })
                .collect(),
        }
    }
}

fn levels() -> MonsterLevels {
    MonsterLevels {
        rows: vec![("goblin".to_string(), 1)],
    }
}

/// A margin wide enough that nothing underground is ruled out on level.
fn cfg() -> WorkerConfig {
    WorkerConfig {
        kind: WorkerKind::Dungeoneer,
        level_margin: 50,
        ..WorkerConfig::default()
    }
}

fn rules(death_limit: u32) -> DungeonRules {
    DungeonRules {
        dungeon_id: Some("old_crypt".to_string()),
        death_limit,
    }
}

/// Nothing marked sellable or dropable.
fn marks() -> BagLabels {
    BagLabels::default()
}

fn step_with(c: &Crypt, cfg: &WorkerConfig, r: &DungeonRules, run: &mut Run<P>, labels: &BagLabels, now: u64) -> (Vec<Step<P>>, Option<u32>) {
    tick(run, &c.worker, labels, cfg, r, &c.underground(), &c.field(), &levels(), now)
}

fn step(c: &Crypt, run: &mut Run<P>) -> Vec<Step<P>> {
    step_with(c, &cfg(), &rules(5), run, &marks(), 0).0
}

fn descend(depth: u8) -> Vec<Step<P>> {
    vec![Step::Descend(CRYPT.to_string(), depth)]
}

/// Burn the chest's loot grace: with nothing on the floor the sweep waits
/// out its budget before the errand behind it starts.
fn past_the_sweep(c: &Crypt, run: &mut Run<P>) {
    for _ in 0..CHEST_LOOT_TRIES {
        if step(c, run) != vec![Step::Idle] {
            break;
        }
    }
}

#[test]
fn without_the_key_it_works_the_floors_that_drop_it() {
    let mut c = crypt();
    c.on_the_surface();
    assert_eq!(step(&c, &mut Run::new()), descend(1), "the section's shallowest floor first");

    c.on_floor(1);
    c.saw("m1", (2, 0));
    assert_eq!(step(&c, &mut Run::new()), vec![Step::Attack("m1".to_string())]);
}

#[test]
fn the_ride_to_the_entrance_is_taken_when_the_bag_holds_reins() {
    let mut c = crypt();
    c.on_the_surface();
    c.bag("horse_reins", 1);
    assert_eq!(
        step(&c, &mut Run::new()),
        vec![Step::Use("horse_reins".to_string()), Step::Descend(CRYPT.to_string(), 1)],
        "mount, then ride to the doorstep"
    );
}

/// Underground the reins buy nothing: the server dismounts anyone below
/// ground, so asking for them there spends the turn on a refusal, and
/// asking while already up would climb straight back off.
#[test]
fn the_stair_legs_are_never_ridden() {
    let mut c = crypt();
    c.on_floor(1);
    c.bag(KEY, 1);
    c.bag("horse_reins", 1);
    assert_eq!(step(&c, &mut Run::new()), descend(2), "a floor-to-floor leg starts below ground");

    c.on_the_surface();
    c.mounted = true;
    let steps = step(&c, &mut Run::new());
    assert!(!steps.contains(&Step::Use("horse_reins".to_string())), "already riding: {steps:?}");
}

#[test]
fn the_key_in_the_bag_is_what_opens_the_way_down() {
    let mut c = crypt();
    c.on_floor(1);
    c.bag(KEY, 1);
    assert_eq!(step(&c, &mut Run::new()), descend(2));
}

#[test]
fn a_descent_is_not_dropped_for_a_monster_that_wanders_past() {
    let mut c = crypt();
    c.on_floor(1);
    c.bag(KEY, 1);
    c.saw("m1", (2, 0));
    let (steps, arm) = step_with(&c, &cfg(), &rules(5), &mut Run::new(), &marks(), 0);
    assert_eq!(steps, descend(2), "prey in reach does not outrank the way down");
    assert_eq!(arm, None, "and the walk just issued must not be abandoned for that prey");
}

#[test]
fn a_hunting_leg_is_dropped_for_prey() {
    let mut c = crypt();
    c.on_floor(1);
    c.saw("m1", (2, 0));
    let (steps, arm) = step_with(&c, &cfg(), &rules(5), &mut Run::new(), &marks(), 0);
    assert_eq!(steps, vec![Step::Attack("m1".to_string())]);
    assert_eq!(arm, Some(cfg().level_margin));
}

#[test]
fn prey_out_of_reach_is_walked_up_to_short_of_the_swing() {
    let mut c = crypt();
    c.on_floor(2);
    c.saw("m1", (0, 40));
    let mut run = Run::new();
    assert_eq!(step(&c, &mut run), vec![Step::Walk((0, 32))]);
    assert_eq!(run.take_note(), Some("Old Crypt floor 2 — hunting for crypt_key_5.".to_string()));
}

#[test]
fn every_sweep_leg_goes_to_the_nearest_stop_still_owed() {
    let mut c = crypt();
    c.on_floor(1);
    let all = stops(1);
    let mut run = Run::new();
    let mut swept: Vec<P> = Vec::new();
    for _ in 0..all.len() {
        let next = match step(&c, &mut run).as_slice() {
            [Step::Walk(at)] => *at,
            other => panic!("expected a sweep leg, got {other:?}"),
        };
        let nearest = *all
            .iter()
            .filter(|s| !swept.contains(s))
            .min_by_key(|s| dist_sq(**s, c.me))
            .unwrap();
        assert_eq!(next, nearest, "from {:?}", c.me);
        swept.push(next);
        c.me = next;
    }
    assert_eq!(swept.len(), all.len(), "every stop, each of them once");
}

#[test]
fn the_tour_resumes_from_where_the_fight_left_us() {
    let mut c = crypt();
    c.on_floor(1);
    let mut run = Run::new();
    assert_eq!(step(&c, &mut run), vec![Step::Walk((10, 0))]);
    // The chase ends on the far corner of the tour.
    c.me = (30, 30);
    let next = step(&c, &mut run);
    assert_ne!(next, vec![Step::Walk((30, 30))], "the stop under our feet is already swept");
    assert_eq!(next, vec![Step::Walk((30, 0))], "the nearest stop still owed");
    assert_eq!(
        run.take_note(),
        Some("Old Crypt floor 1 — sweeping for crypt_key_5 (2/4).".to_string())
    );
}

#[test]
fn a_floor_of_monsters_out_of_our_league_moves_the_tour_on_and_a_section_of_them_stops_it() {
    let mut c = crypt();
    let mut run = Run::new();
    let mut floor = 1;
    let mut halted = false;
    for _ in 0..40 {
        c.on_floor(floor);
        // A goblin far above the margin on every floor, never worth a fight.
        c.saw("m9", (100, 100));
        let mut field = c.field();
        field.monsters[0].level_override = Some(200);
        let mut pass = 0;
        loop {
            pass += 1;
            let steps =
                tick(&mut run, &c.worker, &marks(), &cfg(), &rules(5), &c.underground(), &field, &levels(), 0).0;
            match steps.as_slice() {
                [Step::Walk(at)] => c.me = *at,
                [Step::Descend(_, next)] => {
                    floor = *next;
                    break;
                }
                [Step::Idle] => {
                    halted = true;
                    break;
                }
                other => panic!("unexpected {other:?}"),
            }
            assert!(pass < 10);
        }
        if halted {
            break;
        }
    }
    assert!(halted, "a whole section without a fair fight stops the run");
    let note = run.take_note().unwrap();
    assert!(note.contains("above your level + 50"), "{note}");
}

#[test]
fn the_boss_floor_walks_to_the_chest_and_opens_it() {
    let mut c = crypt();
    c.on_floor(MAX_DEPTH);
    assert_eq!(
        step(&c, &mut Run::new()),
        vec![Step::Walk(BESIDE_CHEST)],
        "the landing is not the chest room — walk to the cell beside the chest"
    );
    c.chests = vec![ChestKind::Treasure];
    assert_eq!(step(&c, &mut Run::new()), vec![Step::OpenChest]);
}

#[test]
fn an_emptied_chest_is_swept_up_before_the_climb_out() {
    let mut c = crypt();
    c.on_floor(MAX_DEPTH);
    c.chest_spent = true;
    let mut run = Run::new();

    assert_eq!(
        step(&c, &mut run),
        vec![Step::Idle],
        "an empty first look is the message in flight, not a bare floor"
    );
    c.chest_loot = Some(77);
    assert_eq!(step(&c, &mut run), vec![Step::Pickup(77)], "the haul comes up once it lands");
    assert!(!run.resupply_is_due(), "no shopping from underground");

    c.chest_loot = None;
    for _ in 0..CHEST_LOOT_TRIES {
        step(&c, &mut run);
    }
    assert_eq!(step(&c, &mut run), descend(0), "out of the dungeon before the shop");
    c.on_the_surface();
    assert_eq!(step(&c, &mut run), vec![Step::Idle]);
    assert!(run.resupply_is_due(), "above ground the haul is worth selling");
}

#[test]
fn a_spent_chest_sends_it_back_to_bank_the_next_keys() {
    let mut c = crypt();
    c.on_floor(MAX_DEPTH);
    c.chest_spent = true;
    let mut run = Run::new();
    past_the_sweep(&c, &mut run);
    assert_eq!(step(&c, &mut run), descend(0));
    c.on_the_surface();
    step(&c, &mut run);
    run.town_trip_started();
    assert_eq!(step(&c, &mut run), descend(1), "back into the section the key drops in");
}

#[test]
fn a_full_bag_underground_drops_its_marked_junk_where_it_stands() {
    let mut c = crypt();
    c.on_floor(1);
    let cfg = WorkerConfig {
        bag_full_pct: 1,
        ..cfg()
    };
    c.bag("old_boot", 30);
    c.worker.load_pct = 40;
    let marked = BagLabels {
        sellable: Vec::new(),
        dropable: vec!["old_boot".to_string()],
    };
    assert_eq!(
        step_with(&c, &cfg, &rules(5), &mut Run::new(), &marked, 0).0,
        vec![Step::Drop("old_boot".to_string())]
    );
    // Unmarked, it stays: what the app has not released is not ours to bin.
    assert!(!matches!(
        step_with(&c, &cfg, &rules(5), &mut Run::new(), &marks(), 0).0.as_slice(),
        [Step::Drop(_)]
    ));
}

/// A full bag underground is not a town trip: there is no merchant down
/// there and no way to reach one that does not throw the descent away.
#[test]
fn a_full_bag_underground_is_not_a_town_trip() {
    let mut c = crypt();
    let cfg = WorkerConfig {
        bag_full_pct: 1,
        ..cfg()
    };
    c.on_the_surface();
    c.bag("iron_sword", 40);
    c.worker.load_pct = 40;
    assert!(should_town_trip(&c.worker, &cfg), "on the surface it is a trip");

    c.on_floor(1);
    assert!(!should_town_trip(&c.worker, &cfg));
}

#[test]
fn a_finished_cycle_climbs_out_and_waits() {
    let mut c = crypt();
    c.on_floor(MAX_DEPTH);
    c.chest_spent = true;
    c.bag(KEY, 1);
    let mut run = Run::new();
    past_the_sweep(&c, &mut run);
    assert_eq!(step(&c, &mut run), descend(0), "depth 0 is the way back to the surface");
    c.on_the_surface();
    assert_eq!(step(&c, &mut run), vec![Step::Idle]);
    assert_eq!(step(&c, &mut run), vec![Step::Idle]);
    assert_eq!(
        run.take_note(),
        Some("Old Crypt done for tonight — chest emptied, crypt_key_5 banked. Waiting for the reset.".to_string())
    );
}

#[test]
fn dying_past_the_limit_stops_the_run_and_says_so() {
    let mut c = crypt();
    c.on_floor(1);
    let mut run = Run::new();
    run.died();
    let r = rules(2);
    assert!(
        !matches!(step_with(&c, &cfg(), &r, &mut run, &marks(), 0).0.as_slice(), [Step::Idle]),
        "one death is not the limit"
    );
    run.died();
    assert_eq!(step_with(&c, &cfg(), &r, &mut run, &marks(), 0).0, descend(0), "at the limit it climbs out");
    c.on_the_surface();
    assert_eq!(step_with(&c, &cfg(), &r, &mut run, &marks(), 0).0, vec![Step::Idle]);
    assert!(
        run.take_note().is_some_and(|n| n.contains("died")),
        "the panel is told why it stopped"
    );
}

#[test]
fn a_respawn_upstairs_takes_the_stairs_down_first() {
    let mut c = crypt();
    c.on_the_surface();
    c.upstairs = true;
    assert_eq!(
        step(&c, &mut Run::new()),
        vec![Step::ToGround(SPAWN)],
        "ground level first; from a storey a descent has no route at all"
    );
}

#[test]
fn a_descent_that_never_lands_stops_the_run() {
    let mut c = crypt();
    c.on_the_surface();
    let mut run = Run::new();
    let mut asked = 0;
    for _ in 0..40 {
        match step(&c, &mut run).as_slice() {
            [Step::Descend(..)] => asked += 1,
            [Step::Idle] => break,
            other => panic!("unexpected step {other:?}"),
        }
    }
    assert!(asked > 1, "it must try more than once before giving up");
    assert_eq!(step(&c, &mut run), vec![Step::Idle], "a wedged descent stops being reissued");
    assert!(
        run.take_note().is_some_and(|n| n.contains("cannot get where it is going")),
        "the panel is told the leg is not landing"
    );

    c.on_floor(1);
    run.observe_epoch(Some(1));
    run.observe_epoch(Some(2));
    c.saw("m1", (2, 0));
    assert_eq!(step(&c, &mut run), vec![Step::Attack("m1".to_string())]);
}

#[test]
fn a_halt_lapses_and_the_run_decides_afresh() {
    let mut c = crypt();
    c.on_the_surface();
    let mut run = Run::new();
    let r = rules(1);
    run.died();
    assert_eq!(step_with(&c, &cfg(), &r, &mut run, &marks(), 1_000).0, vec![Step::Idle]);
    assert_eq!(step_with(&c, &cfg(), &r, &mut run, &marks(), 200_000).0, vec![Step::Idle]);
    // The window past, the death count still stands: one tick decides
    // afresh, and the next halts again.
    assert_eq!(step_with(&c, &cfg(), &r, &mut run, &marks(), 301_000).0, descend(1));
    assert_eq!(step_with(&c, &cfg(), &r, &mut run, &marks(), 301_001).0, vec![Step::Idle]);
}

#[test]
fn nightfall_starts_a_fresh_cycle() {
    let mut c = crypt();
    c.on_floor(1);
    let r = rules(1);
    let mut run = Run::new();
    run.observe_epoch(Some(10));
    run.died();
    assert_eq!(step_with(&c, &cfg(), &r, &mut run, &marks(), 0).0, descend(0), "stopped on the death limit");
    run.observe_epoch(Some(11));
    assert!(
        !matches!(step_with(&c, &cfg(), &r, &mut run, &marks(), 0).0.as_slice(), [Step::Idle]),
        "a new night is a new run"
    );
}

#[test]
fn an_emptied_chest_asks_for_one_town_trip() {
    let mut c = crypt();
    c.on_floor(MAX_DEPTH);
    let mut run = Run::new();
    step(&c, &mut run);
    assert!(!run.resupply_is_due(), "nothing sold before the chest is opened");

    c.chest_spent = true;
    past_the_sweep(&c, &mut run);
    step(&c, &mut run);
    c.on_the_surface();
    step(&c, &mut run);
    assert!(run.resupply_is_due());

    run.town_trip_started();
    step(&c, &mut run);
    assert!(!run.resupply_is_due(), "the trip is not asked for twice");
}

#[test]
fn an_unregistered_dungeon_stops_the_run_and_names_it() {
    let c = crypt();
    let mut u = c.underground();
    u.dungeon = None;
    let mut run = Run::new();
    let (steps, arm) = tick(&mut run, &c.worker, &marks(), &cfg(), &rules(5), &u, &c.field(), &levels(), 0);
    assert_eq!(steps, vec![Step::Idle]);
    assert_eq!(arm, None);
    assert_eq!(
        run.take_note(),
        Some("Stopped: no dungeon is registered as \"old_crypt\" — pick one in the panel".to_string())
    );
}
