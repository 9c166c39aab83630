use agent_client::walk::{unreachable_note, LostReason};
use agent_client::execute::{
    describe_target, eq_ignore_case, move_target_failure, pick_pending, resolve_ground_item,
    resolve_qty_lines, BagLineItem, MoveTargetError, MoveTargetKind, Qty,
};

#[test]
fn resolve_qty_lines_defaults_to_one_unit_from_the_first_copy() {
    let lines = resolve_qty_lines(&vec![(1, 3), (2, 2)], None).unwrap();
    assert_eq!(
        lines,
        vec![BagLineItem {
            instance_id: 1,
            qty: 1
        }]
    );
}

#[test]
fn resolve_qty_lines_spans_several_copies_when_one_is_not_enough() {
    let lines = resolve_qty_lines(&vec![(1, 1), (2, 1), (3, 5)], Some(&Qty::Count(3))).unwrap();
    assert_eq!(
        lines,
        vec![
            BagLineItem {
                instance_id: 1,
                qty: 1
            },
            BagLineItem {
                instance_id: 2,
                qty: 1
            },
            BagLineItem {
                instance_id: 3,
                qty: 1
            },
        ]
    );
}

#[test]
fn resolve_qty_lines_all_takes_every_copy_in_full() {
    let lines =
        resolve_qty_lines(&vec![(1, 3), (2, 2)], Some(&Qty::Named("all".to_string()))).unwrap();
    assert_eq!(
        lines,
        vec![
            BagLineItem {
                instance_id: 1,
                qty: 3
            },
            BagLineItem {
                instance_id: 2,
                qty: 2
            },
        ]
    );
}

#[test]
fn resolve_qty_lines_rejects_more_than_is_available() {
    let err = resolve_qty_lines(&vec![(1, 3), (2, 2)], Some(&Qty::Count(10))).unwrap_err();
    assert_eq!(err, "only 5 left, not 10");
}

#[test]
fn resolve_qty_lines_rejects_a_bad_qty_value() {
    let err = resolve_qty_lines(&vec![(1, 3)], Some(&Qty::Count(0))).unwrap_err();
    assert!(err.contains("positive number"), "{err}");

    let err = resolve_qty_lines(&vec![(1, 3)], Some(&Qty::Named("half".to_string()))).unwrap_err();
    assert!(err.contains("positive number"), "{err}");
}

#[test]
fn a_partial_request_stops_inside_a_copy() {
    let lines = resolve_qty_lines(&vec![(7, 4), (8, 4)], Some(&Qty::Count(6))).unwrap();
    assert_eq!(
        lines,
        vec![
            BagLineItem { instance_id: 7, qty: 4 },
            BagLineItem { instance_id: 8, qty: 2 },
        ]
    );
    assert_eq!(
        resolve_qty_lines(&Vec::new(), None).unwrap_err(),
        "only 0 left, not 1"
    );
}

#[test]
fn a_pending_entry_is_picked_by_name_or_by_age() {
    let names = vec!["Karl".to_string(), "miriel".to_string(), "MIRIEL".to_string()];
    assert_eq!(pick_pending(&names, Some("Miriel")), Some(1));
    assert_eq!(pick_pending(&names, Some("karl")), Some(0));
    assert_eq!(pick_pending(&names, Some("bob")), None);
    assert_eq!(pick_pending(&names, None), Some(0));
    assert_eq!(pick_pending(&Vec::new(), None), None);
    assert!(eq_ignore_case("Iron Sword", "iron sWORD"));
    assert!(!eq_ignore_case("Iron", "Irons"));
}

#[test]
fn a_resolved_target_is_named_by_what_it_is() {
    assert_eq!(describe_target(MoveTargetKind::Character), "a character");
    assert_eq!(describe_target(MoveTargetKind::Monster), "a monster");
    assert_eq!(describe_target(MoveTargetKind::GroundItem), "an item on the ground");
    assert_eq!(describe_target(MoveTargetKind::Prop), "a prop");
    assert_eq!(describe_target(MoveTargetKind::Chest), "a chest");
    assert_eq!(describe_target(MoveTargetKind::Dungeon), "a dungeon");
}

#[test]
fn a_kind_of_monster_is_answered_with_the_nearest_five_of_it() {
    let candidates: Vec<(String, String)> = (1..=7)
        .map(|i| (format!("m{i}"), format!("{}", i * 3)))
        .collect();
    let e = MoveTargetError::SpeciesNotId {
        species: "goblin".to_string(),
        candidates,
    };
    assert_eq!(
        move_target_failure(&e),
        "[MoveFailed] 'goblin' names a kind of monster, not one monster. Nearby goblins: \
         m1 (3m), m2 (6m), m3 (9m), m4 (12m), m5 (15m). Use the id."
    );
}

#[test]
fn a_vanished_monster_and_an_unknown_name_say_what_would_work() {
    assert_eq!(
        move_target_failure(&MoveTargetError::MonsterGone { id: "m2_1".to_string() }),
        "[MoveFailed] Monster m2_1 is not in sight — it died, or it wandered off. \
         Pick an id from the current world state."
    );
    assert_eq!(
        move_target_failure(&MoveTargetError::Unknown {
            asked: "castle".to_string(),
            addressable: Vec::new(),
        }),
        "[MoveFailed] Nothing here is called 'castle'."
    );
    assert_eq!(
        move_target_failure(&MoveTargetError::Unknown {
            asked: "castle".to_string(),
            addressable: vec!["Karl".to_string(), "Old Crypt".to_string()],
        }),
        "[MoveFailed] Nothing here is called 'castle'. You can move to: Karl, Old Crypt."
    );
}

#[test]
fn a_pickup_resolves_only_to_what_is_in_sight() {
    let in_sight = vec![
        (7, "apple".to_string()),
        (9, "old_boot".to_string()),
        (11, "apple".to_string()),
    ];
    assert_eq!(resolve_ground_item(&in_sight, Some(11), None), Some((11, "apple".to_string())));
    assert_eq!(resolve_ground_item(&in_sight, Some(3), None), None, "fallen out of sight");
    assert_eq!(
        resolve_ground_item(&in_sight, None, Some("apple")),
        Some((7, "apple".to_string())),
        "by name, the nearest of the kind"
    );
    assert_eq!(resolve_ground_item(&in_sight, None, Some("bread")), None);
    assert_eq!(resolve_ground_item(&in_sight, None, None), None);
}

#[test]
fn resolves_by_instance_id_however_the_llm_spells_it() {
    let in_sight = vec![(9215, "goblin_sword".to_string())];
    for spelled in ["9215", " 9215"] {
        let id: u64 = spelled.trim().parse().unwrap();
        assert_eq!(
            resolve_ground_item(&in_sight, Some(id), None),
            Some((9215, "goblin_sword".to_string())),
            "for {spelled}"
        );
    }
}

#[test]
fn resolves_a_name_the_same_way_the_use_action_does() {
    // Nearest first, as the agent perceives them.
    let in_sight = vec![
        (3, "wooden_shield".to_string()),
        (2, "small_sword".to_string()),
        (1, "iron_sword".to_string()),
    ];
    assert_eq!(
        resolve_ground_item(&in_sight, None, Some("small_sword")),
        Some((2, "small_sword".to_string()))
    );
    assert_eq!(
        resolve_ground_item(&in_sight, None, Some("iron_sword")),
        Some((1, "iron_sword".to_string()))
    );
}

#[test]
fn refuses_items_outside_perception() {
    // Beyond the sight radius, or on another floor: not in sight at all.
    let in_sight: Vec<(u64, String)> = Vec::new();
    for id in [1, 2, 42] {
        assert!(resolve_ground_item(&in_sight, Some(id), None).is_none(), "for {id}");
    }
    for def in ["iron_sword", "healing_potion"] {
        assert!(resolve_ground_item(&in_sight, None, Some(def)).is_none(), "for {def}");
    }
}

#[test]
fn an_unreachable_attack_tells_the_agent_why() {
    let far = unreachable_note("m19_21", &LostReason::TooFar(format!("{:.0}", 22.8f32)));
    assert!(far.contains("m19_21"));
    assert!(far.contains("23m"));
    assert!(far.to_lowercase().contains("closer"));

    let walled = unreachable_note("m7_3", &LostReason::NoPath);
    assert!(walled.contains("m7_3"));
    assert!(walled.to_lowercase().contains("no route"));
    assert!(!walled.to_lowercase().contains("closer"));

    let gone = unreachable_note("m5_2", &LostReason::TargetGone);
    assert!(gone.contains("m5_2"));
    assert!(gone.to_lowercase().contains("gone"));
}

#[test]
fn a_lost_walk_names_its_reason_in_the_player_s_words() {
    assert_eq!(
        LostReason::TooFar("31".to_string()).clause(),
        "your target is 31m away, beyond your reach"
    );
    assert_eq!(
        unreachable_note("m1", &LostReason::LockedDoor),
        "[Unreachable] You could not reach monster m1 — the way on is a locked door and you hold no key for it."
    );
    assert_eq!(
        unreachable_note("m1", &LostReason::PlayerDied),
        "[Unreachable] You died before reaching monster m1."
    );
}

#[test]
fn every_move_failure_reads_as_a_failure() {
    let errors = vec![
        MoveTargetError::SpeciesNotId {
            species: "kobold".to_string(),
            candidates: vec![("m1".to_string(), "4".to_string())],
        },
        MoveTargetError::MonsterGone { id: "m2_1".to_string() },
        MoveTargetError::Unknown { asked: "Nowhere".to_string(), addressable: vec![] },
        MoveTargetError::Unknown {
            asked: "Nowhere".to_string(),
            addressable: vec!["Ada".to_string()],
        },
    ];
    for e in &errors {
        let text = move_target_failure(e);
        assert!(text.starts_with("[MoveFailed] "), "{text}");
        assert!(agent_client::outcome::reports_failure(&text), "{text}");
    }
}
