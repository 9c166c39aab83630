use agent_client::errand::{attacker_in, fighter_step};
use agent_client::fighter::{
    eligible_target, free_kill, is_eligible, monster_level, prey_in_reach, Field, MonsterLevels,
    Sighting,
};
use agent_client::worker::{Step, WorkerConfig};

type P = (f32, f32);

/// Where the patrol circle is anchored.
const ANCHOR: P = (0.0, 0.0);
/// Where a closing walk stops short of its target.
const CLOSE_TO: f32 = 8.0;

/// Combat levels, standing in for the game's monster data.
fn levels() -> MonsterLevels {
    MonsterLevels {
        rows: vec![
            ("kobold".to_string(), 1),
            ("orc".to_string(), 5),
            ("hobgoblin".to_string(), 5),
            ("ogre".to_string(), 12),
        ],
    }
}

/// A field seen from `(mx, mz)`, with the patrol circle of `radius` around
/// the origin.
struct Scene {
    me: (f32, f32),
    radius: f32,
    field: Field,
    /// Where each sighting stands, in the order of the field's sightings.
    spots: Vec<(f32, f32)>,
}

fn scene_at(x: f32, z: f32) -> Scene {
    Scene {
        me: (x, z),
        radius: 100.0,
        field: Field {
            my_level: Some(1),
            my_id: Some(1),
            my_floor: 0,
            monsters: Vec::new(),
        },
        spots: Vec::new(),
    }
}

fn monster(s: &Scene, id: &str, kind: &str, x: f32, z: f32) -> Sighting {
    let (dx, dz) = (x - s.me.0, z - s.me.1);
    let dist_sq: f32 = dx * dx + dz * dz;
    Sighting {
        id: id.to_string(),
        monster_type: kind.to_string(),
        level_override: None,
        owner: None,
        dead: false,
        health: 10,
        floor_level: 0,
        dist_key: dist_sq.to_bits(),
        in_circle: x.hypot(z) <= s.radius.max(1.0),
    }
}

fn see(s: &mut Scene, m: Sighting) {
    s.spots.push(s.me);
    s.field.monsters.push(m);
}

#[test]
fn a_walk_gives_way_only_to_something_actually_worth_swinging_at() {
    let mut s = scene_at(0.0, 0.0);
    assert!(!prey_in_reach(&s.field, &levels(), 0), "empty ground stops nothing");

    // Beyond the strike range the chase would be refused anyway, so it is not
    // worth throwing a leg away for.
    let far = monster(&s, "far", "kobold", 0.0, 15.0 + 5.0);
    see(&mut s, far);
    assert!(!prey_in_reach(&s.field, &levels(), 0));

    let near = monster(&s, "near", "kobold", 0.0, 5.0);
    see(&mut s, near);
    assert!(prey_in_reach(&s.field, &levels(), 0));
}

#[test]
fn a_walk_does_not_give_way_to_a_monster_out_of_our_league() {
    let mut s = scene_at(0.0, 0.0);
    s.field.my_level = Some(1);
    let mut ogre = monster(&s, "ogre", "ogre", 0.0, 5.0);
    ogre.level_override = Some(9);
    see(&mut s, ogre);

    assert!(!prey_in_reach(&s.field, &levels(), 0), "out of our league at margin 0");
    assert!(prey_in_reach(&s.field, &levels(), 8), "in range once the margin allows it");
}

#[test]
fn the_fighter_picks_the_nearest_monster_it_can_beat() {
    let mut s = scene_at(0.0, 0.0);
    s.field.my_level = Some(1);
    // kobold is level 1, orc level 5 — the orc is over the margin.
    for (id, kind, x) in [("orc-1", "orc", 1.0), ("kobold-far", "kobold", 20.0), ("kobold-near", "kobold", 5.0)] {
        let m = monster(&s, id, kind, x, 0.0);
        see(&mut s, m);
    }
    assert_eq!(
        eligible_target(&s.field, &levels(), 0).as_deref(),
        Some("kobold-near"),
        "same level either way, so the shorter walk wins"
    );
}

/// Surrounded, the fighter takes the pack apart one at a time: everything
/// crowding us is equally close, so the one already bleeding is finished
/// before a fresh one is touched.
#[test]
fn a_surrounded_fighter_finishes_the_wounded_one_first() {
    let mut s = scene_at(0.0, 0.0);
    s.field.my_level = Some(5);
    // hobgoblin and orc are level 5, kobold 1: all inside our own level.
    let kobold = monster(&s, "kobold-underfoot", "kobold", 1.0, 0.0);
    see(&mut s, kobold);
    let hob = monster(&s, "hobgoblin-close", "hobgoblin", 2.0, 0.0);
    see(&mut s, hob);
    let mut wounded = monster(&s, "orc-wounded", "orc", 4.0, 0.0);
    wounded.health = 2;
    see(&mut s, wounded);

    assert_eq!(eligible_target(&s.field, &levels(), 0).as_deref(), Some("orc-wounded"));
    assert_eq!(
        free_kill(&s.field, &levels(), 0).as_deref(),
        Some("orc-wounded"),
        "the walk and the swing agree on which one is being killed"
    );

    // Down. The rest of the pack is untouched, so the nearest is next.
    s.field.monsters.pop();
    s.spots.pop();
    assert_eq!(eligible_target(&s.field, &levels(), 0).as_deref(), Some("kobold-underfoot"));
}

/// Lowest health only decides between monsters standing the same distance
/// away: a wounded one across the clearing is not worth walking past what
/// is already swinging at us.
#[test]
fn a_wounded_monster_further_out_does_not_outrank_what_is_underfoot() {
    let mut s = scene_at(0.0, 0.0);
    let underfoot = monster(&s, "kobold-underfoot", "kobold", 1.0, 0.0);
    see(&mut s, underfoot);
    let mut far = monster(&s, "kobold-far", "kobold", 14.0, 0.0);
    far.health = 1;
    see(&mut s, far);

    assert_eq!(eligible_target(&s.field, &levels(), 0).as_deref(), Some("kobold-underfoot"));
}

#[test]
fn a_bigger_margin_widens_the_hunt() {
    let mut s = scene_at(0.0, 0.0);
    s.field.my_level = Some(1);
    let orc = monster(&s, "orc-1", "orc", 1.0, 0.0);
    see(&mut s, orc);
    assert_eq!(eligible_target(&s.field, &levels(), 0), None);
    assert_eq!(
        eligible_target(&s.field, &levels(), 10).as_deref(),
        Some("orc-1")
    );
}

#[test]
fn the_monsters_assigned_to_us_are_the_ones_to_fight() {
    let mut s = scene_at(0.0, 0.0);
    let mut assigned = monster(&s, "mine", "kobold", 1.0, 0.0);
    assigned.owner = s.field.my_id;
    see(&mut s, assigned);

    assert_eq!(
        eligible_target(&s.field, &levels(), 0).as_deref(),
        Some("mine")
    );
}

#[test]
fn the_fighter_leaves_someone_elses_dead_and_off_floor_monsters_alone() {
    let mut s = scene_at(0.0, 0.0);
    let mut owned = monster(&s, "owned", "kobold", 1.0, 0.0);
    owned.owner = Some(99);
    see(&mut s, owned);
    let mut dead = monster(&s, "dead", "kobold", 1.0, 0.0);
    dead.dead = true;
    dead.health = 0;
    see(&mut s, dead);
    let mut upstairs = monster(&s, "upstairs", "kobold", 1.0, 0.0);
    upstairs.floor_level = 1;
    see(&mut s, upstairs);

    assert_eq!(eligible_target(&s.field, &levels(), 0), None);
    assert_eq!(free_kill(&s.field, &levels(), 0), None);
}

#[test]
fn a_monster_outside_the_circle_is_not_walked_to_but_one_in_reach_is_fought() {
    let mut s = scene_at(150.0, 0.0);
    let away = monster(&s, "kobold-away", "kobold", 150.0 + 15.0 + 5.0, 0.0);
    see(&mut s, away);
    assert_eq!(eligible_target(&s.field, &levels(), 0), None);

    let underfoot = monster(&s, "underfoot", "kobold", 151.0, 0.0);
    see(&mut s, underfoot);
    assert_eq!(eligible_target(&s.field, &levels(), 0), None, "still outside the circle");
    assert_eq!(
        free_kill(&s.field, &levels(), 0).as_deref(),
        Some("underfoot"),
        "what is in reach is not leashed"
    );
}

#[test]
fn what_is_walked_to_and_what_stops_the_walk_are_told_apart() {
    let mut s = scene_at(9.0, 0.0);
    s.radius = 10.0;
    s.field.my_level = Some(18);
    let kobold = monster(&s, "kobold-in-circle", "kobold", 2.0, 0.0);
    see(&mut s, kobold);
    let ogre = monster(&s, "ogre-outside", "ogre", 13.0, 0.0);
    see(&mut s, ogre);

    assert_eq!(
        eligible_target(&s.field, &levels(), 0).as_deref(),
        Some("kobold-in-circle"),
        "only what stands in the circle is walked to"
    );
    assert!(
        prey_in_reach(&s.field, &levels(), 0),
        "and the ogre at our feet is what would stop that walk"
    );
    assert_eq!(
        free_kill(&s.field, &levels(), 0).as_deref(),
        Some("ogre-outside"),
        "the swing goes to the closer level in reach"
    );
}

#[test]
fn a_level_comes_from_the_override_then_the_data_then_one() {
    let s = scene_at(0.0, 0.0);
    let mut m = monster(&s, "x", "orc", 0.0, 0.0);
    assert_eq!(monster_level(&levels(), &m), 5);
    m.level_override = Some(3);
    assert_eq!(monster_level(&levels(), &m), 3);
    let unknown = monster(&s, "y", "wisp", 0.0, 0.0);
    assert_eq!(monster_level(&levels(), &unknown), 1);
    assert!(is_eligible(&s.field, &levels(), 0, &unknown));
}

#[test]
fn the_first_of_equals_is_kept() {
    let mut s = scene_at(0.0, 0.0);
    for id in ["a", "b"] {
        let m = monster(&s, id, "kobold", 3.0, 0.0);
        see(&mut s, m);
    }
    assert_eq!(free_kill(&s.field, &levels(), 0).as_deref(), Some("a"));
    s.field.my_level = None;
    assert_eq!(free_kill(&s.field, &levels(), 0), None, "out of the world nothing is fought");
}

fn cfg(margin: u32) -> WorkerConfig {
    WorkerConfig {
        level_margin: margin,
        ..WorkerConfig::default()
    }
}

/// Where to walk to close on each sighting, as the driver measures it.
fn approaches(s: &Scene) -> Vec<P> {
    s.spots
        .iter()
        .map(|at| {
            let (dx, dz) = (at.0 - s.me.0, at.1 - s.me.1);
            let dist = dx.hypot(dz);
            let ratio = (dist - CLOSE_TO) / dist;
            (s.me.0 + dx * ratio, s.me.1 + dz * ratio)
        })
        .collect()
}

fn place(s: &mut Scene, id: &str, kind: &str, x: f32, z: f32) {
    let m = monster(s, id, kind, x, z);
    s.spots.push((x, z));
    s.field.monsters.push(m);
}

fn beyond_circle(s: &Scene) -> bool {
    (s.me.0 - ANCHOR.0).hypot(s.me.1 - ANCHOR.1) > s.radius
}

fn decide(s: &Scene, margin: u32, town_bound: bool) -> Option<Vec<Step<P>>> {
    fighter_step(&s.field, &levels(), &cfg(margin), town_bound, beyond_circle(s), ANCHOR, &approaches(s), None)
}

/// The commute back to the anchor is the longest leg a fighter walks, and the
/// reins turn it into a third of one.
#[test]
fn a_long_leg_is_ridden_when_the_bag_holds_reins() {
    let s = scene_at(150.0, 0.0);
    assert_eq!(
        fighter_step(
            &s.field,
            &levels(),
            &cfg(0),
            false,
            beyond_circle(&s),
            ANCHOR,
            &approaches(&s),
            Some("horse_reins".to_string())
        ),
        Some(vec![Step::Use("horse_reins".to_string()), Step::Walk(ANCHOR)]),
        "mount, then ride home"
    );
}

#[test]
fn a_monster_outside_the_circle_is_not_walked_to() {
    let mut s = scene_at(150.0, 0.0);
    place(&mut s, "kobold-away", "kobold", 150.0 + 15.0 + 5.0, 0.0);
    assert_eq!(eligible_target(&s.field, &levels(), 0), None);
    assert_eq!(
        decide(&s, 0, false),
        Some(vec![Step::Walk(ANCHOR)]),
        "out of the circle with nothing to fight: walk back to the anchor"
    );
}

#[test]
fn nothing_is_fought_on_the_way_back_to_the_anchor() {
    let mut s = scene_at(150.0, 0.0);
    place(&mut s, "underfoot", "kobold", 151.0, 0.0);
    assert_eq!(decide(&s, 0, false), Some(vec![Step::Walk(ANCHOR)]), "walk past it, not into it");
}

#[test]
fn what_stops_a_leg_is_what_the_next_decision_swings_at() {
    let mut s = scene_at(9.0, 0.0);
    s.radius = 10.0;
    s.field.my_level = Some(18);
    place(&mut s, "kobold-in-circle", "kobold", 2.0, 0.0);
    place(&mut s, "ogre-outside", "ogre", 13.0, 0.0);
    assert_eq!(
        eligible_target(&s.field, &levels(), 0).as_deref(),
        Some("kobold-in-circle"),
        "only what stands in the circle is walked to"
    );
    assert!(prey_in_reach(&s.field, &levels(), 0), "and the ogre at our feet is what would stop that walk");
    assert_eq!(
        decide(&s, 0, false),
        Some(vec![Step::Attack("ogre-outside".to_string())]),
        "a leg the interrupt would abandon must not be issued at all"
    );
}

#[test]
fn a_town_bound_fighter_still_swings_at_what_is_on_top_of_it() {
    let mut s = scene_at(150.0, 0.0);
    place(&mut s, "underfoot", "kobold", 151.0, 0.0);
    assert_eq!(
        decide(&s, 0, true),
        Some(vec![Step::Attack("underfoot".to_string())]),
        "the errand stops the walk back, not the fight in front of it"
    );
}

#[test]
fn a_town_trip_outranks_the_walk_back() {
    let s = scene_at(150.0, 0.0);
    assert_eq!(decide(&s, 0, true), Some(vec![Step::Idle]));
}

#[test]
fn a_distant_target_is_walked_up_to_before_it_is_attacked() {
    let mut s = scene_at(0.0, 0.0);
    place(&mut s, "kobold-far", "kobold", 0.0, 25.0);
    let steps = decide(&s, 0, false).expect("a target to walk to");
    let Step::Walk((x, z)) = steps[0] else {
        panic!("expected a walk toward the distant target");
    };
    assert_eq!(x, 0.0);
    assert!((17.0..=20.0).contains(&z), "should stop short of the target, not on it: {z}");

    place(&mut s, "kobold-near", "kobold", 0.0, 10.0);
    assert_eq!(decide(&s, 0, false), Some(vec![Step::Attack("kobold-near".into())]));
}

#[test]
fn with_nothing_to_hunt_the_next_leg_is_the_callers() {
    let s = scene_at(5.0, 0.0);
    assert_eq!(decide(&s, 0, false), None, "walk out of a town, else patrol");
    let mut away = scene_at(5.0, 0.0);
    away.field.my_level = None;
    assert_eq!(decide(&away, 0, false), Some(vec![Step::Idle]), "out of the world");
}

#[test]
fn a_monster_outranks_the_patrol() {
    let mut s = scene_at(0.0, 0.0);
    place(&mut s, "kobold", "kobold", 0.0, 5.0);
    assert_eq!(decide(&s, 0, false), Some(vec![Step::Attack("kobold".into())]));
}

#[test]
fn whatever_hits_us_becomes_the_target_however_big_it_is() {
    let me = 1u64;
    let hit = |player_id: u64| ("orc-1".to_string(), player_id);
    assert_eq!(attacker_in(&vec![hit(me)], Some(me)).as_deref(), Some("orc-1"));
    assert_eq!(attacker_in(&vec![hit(2)], Some(me)), None);
    assert_eq!(attacker_in(&Vec::new(), Some(me)), None);
    assert_eq!(
        attacker_in(&vec![("kobold".to_string(), me), hit(2), ("ogre".to_string(), me)], Some(me)).as_deref(),
        Some("ogre"),
        "the latest blow decides"
    );
}

#[test]
fn prey_in_reach_stays_in_reach_as_the_margin_widens() {
    let mut s = scene_at(0.0, 0.0);
    s.field.my_level = Some(1);
    let mut ogre = monster(&s, "ogre", "ogre", 0.0, 5.0);
    ogre.level_override = Some(9);
    see(&mut s, ogre);
    let reach: Vec<bool> = (0..12).map(|m| prey_in_reach(&s.field, &levels(), m)).collect();
    assert_eq!(reach.iter().position(|r| *r), Some(8), "level 9 against 1 needs a margin of 8");
    assert!(reach[8..].iter().all(|r| *r), "and every wider margin keeps it");
}
