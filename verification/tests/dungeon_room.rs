use agent_client::dungeon::{
    breakables_in_room, chests_in_room, closed_doors, locked_door_without_key, nearest_first,
    nearest_order, sweep_cells, ChestKind, FloorProp, PropKind,
};
use agent_client::worker::{has_rod, Vitals, WorkerView};
use agent_client::items::{BagItem, ItemCatalog};

fn prop(kind: PropKind, cell: (i32, i32), in_room: bool) -> FloorProp {
    FloorProp { kind, cell, in_room }
}

fn floor() -> Vec<FloorProp> {
    vec![
        prop(PropKind::Chest, (3, 4), true),
        prop(PropKind::Barrel, (5, 4), true),
        prop(PropKind::Chest, (20, 20), false),
        prop(PropKind::Crate, (6, 6), true),
        prop(PropKind::Scenery, (4, 4), true),
        prop(PropKind::Crate, (21, 20), false),
    ]
}

#[test]
fn chests_are_only_visible_from_inside_their_room() {
    let props = floor();
    assert_eq!(
        chests_in_room(Some(((7, 7), true)), &props, &Vec::new()),
        vec![(ChestKind::Treasure, (7, 7)), (ChestKind::Prop(0), (3, 4))]
    );
    assert_eq!(
        chests_in_room(Some(((7, 7), false)), &props, &Vec::new()),
        vec![(ChestKind::Prop(0), (3, 4))],
        "the treasure of the next room over is hidden by its walls"
    );
}

#[test]
fn clutter_chests_are_sighted_like_the_treasure_and_hidden_once_opened() {
    let props = floor();
    let sighted = chests_in_room(Some(((7, 7), true)), &props, &Vec::new());
    assert!(sighted.iter().any(|c| c.0 == ChestKind::Prop(0)));
    assert!(sighted.iter().any(|c| c.0 == ChestKind::Treasure));
    let opened = chests_in_room(Some(((7, 7), true)), &props, &vec![0]);
    assert!(!opened.iter().any(|c| c.0 == ChestKind::Prop(0)));
    assert_eq!(chests_in_room(None, &props, &vec![0]), Vec::new());
}

#[test]
fn breakables_are_only_visible_from_inside_their_room() {
    let props = floor();
    assert_eq!(
        breakables_in_room(&props, &Vec::new()),
        vec![(1, PropKind::Barrel, (5, 4)), (3, PropKind::Crate, (6, 6))]
    );
    assert_eq!(
        breakables_in_room(&props, &vec![1]),
        vec![(3, PropKind::Crate, (6, 6))]
    );
}

#[test]
fn open_doors_are_not_in_the_way() {
    let doors = vec![(4, false), (9, true), (12, false)];
    assert_eq!(closed_doors(&doors, &vec![4]), vec![(9, true), (12, false)]);
}

#[test]
fn a_sweep_stops_at_the_spawns_less_the_guardian_else_at_the_rooms() {
    let spawns = vec![((1, 1), false), ((9, 9), true), ((4, 2), false)];
    let rooms = vec![(10, 10), (30, 30)];
    assert_eq!(sweep_cells(&spawns, &rooms), vec![(1, 1), (4, 2)]);
    assert_eq!(
        sweep_cells(&vec![((9, 9), true)], &rooms),
        rooms,
        "a floor that spawned nothing is toured by its rooms"
    );
}

#[test]
fn only_a_locked_door_without_its_key_is_a_wall() {
    assert!(!locked_door_without_key(&None));
    assert!(!locked_door_without_key(&Some((vec![false, false], false))));
    assert!(locked_door_without_key(&Some((vec![false, true], false))));
    assert!(!locked_door_without_key(&Some((vec![false, true], true))));
}

#[test]
fn a_rod_counts_in_hand_or_in_the_bag() {
    let mut s = WorkerView {
        catalog: ItemCatalog { defs: Vec::new() },
        me: Some(Vitals {
            health: 10,
            max_health: 10,
            level: 1,
        }),
        bag: Vec::new(),
        main_hand: None,
        satiation: None,
        sprint_threshold: 0,
        gold: None,
        load_pct: 0,
        merchant_in_sight: false,
        merchant_shop: None,
        underground: false,
    };
    assert!(!has_rod(&s));
    s.bag.push(BagItem {
        instance_id: 1,
        item_def_id: "fishing_rod".to_string(),
        quantity: 1,
    });
    assert!(has_rod(&s));
    s.bag.clear();
    s.main_hand = Some("fishing_rod".to_string());
    assert!(has_rod(&s));
    s.main_hand = Some("iron_sword".to_string());
    assert!(!has_rod(&s));
}

#[test]
fn sightings_are_listed_nearest_first_and_equals_as_listed() {
    let props = floor();
    let chests = chests_in_room(Some(((7, 7), true)), &props, &Vec::new());
    assert_eq!(chests, vec![(ChestKind::Treasure, (7, 7)), (ChestKind::Prop(0), (3, 4))]);
    // The caller measured the treasure 9 m off and the clutter chest 2 m.
    let keys: Vec<u32> = vec![9.0f32.to_bits(), 2.0f32.to_bits()];
    assert_eq!(
        nearest_first(&chests, &keys),
        vec![(ChestKind::Prop(0), (3, 4)), (ChestKind::Treasure, (7, 7))]
    );

    let breakables = breakables_in_room(&props, &Vec::new());
    let keys: Vec<u32> = vec![5.0f32.to_bits(), 5.0f32.to_bits()];
    assert_eq!(nearest_first(&breakables, &keys), breakables, "equally near: as listed");

    assert_eq!(nearest_order(&vec![30, 10, 20, 10]), vec![1, 3, 2, 0]);
    assert_eq!(nearest_order(&vec![]), Vec::<usize>::new());
}
