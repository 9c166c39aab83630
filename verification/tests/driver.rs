use agent_client::dungeon::{chest_label, pick_chest, ChestKind};
use agent_client::outcome::{no_result_note, reports_failure, settle_verdict, ActionOutcome};
use agent_client::timers::{respawn_due, CombatClock, RESPAWN_DELAY_MS};
use agent_client::walk::{
    interruptible, pace_after_step, pace_step, settle_handover, WalkKind, HANDOVER_LEAD_MS,
};

#[test]
fn failure_is_read_off_the_event_tag() {
    for failure in [
        "[MoveFailed] No route to (1.0, 2.0).",
        "[ChestFailed] You see no chest.",
        "[PropFailed] Prop 3 is already smashed.",
        "[ActionFailed] 'dance' is not an action type.",
        "[NoResult] Your use did nothing.",
        "[Unreachable] Monster m2_1 is gone.",
    ] {
        assert!(reports_failure(failure), "{failure}");
    }
    for fine in [
        "[Arrived] You reached (1.0, 2.0).",
        "[Chat] Karl: hello",
        "[Following] You are now following Karl.",
        "no tag at all",
    ] {
        assert!(!reports_failure(fine), "{fine}");
    }
}

#[test]
fn a_tag_without_its_closing_bracket_is_the_whole_event() {
    assert!(reports_failure("[SellFailed"));
    assert!(!reports_failure("[Sell Failed here"));
    assert!(!reports_failure(""));
    assert!(!reports_failure(" [MoveFailed] leading space"));
}

#[test]
fn the_no_result_note_reads_as_a_failure() {
    let note = no_result_note("use");
    assert!(note.starts_with("[NoResult] Your use did nothing"));
    assert!(reports_failure(&note));
}

#[test]
fn an_action_is_judged_by_the_trace_it_left() {
    let failed = vec!["[MoveFailed] No route.".to_string()];
    let fine = vec!["[Arrived] Here.".to_string()];
    assert_eq!(settle_verdict(&failed, true, 0, 1, 0, 1), ActionOutcome::Failed);
    assert_eq!(settle_verdict(&fine, false, 0, 1, 0, 0), ActionOutcome::Ran);
    assert_eq!(settle_verdict(&Vec::new(), false, 3, 3, 7, 8), ActionOutcome::Ran);
    assert_eq!(settle_verdict(&Vec::new(), true, 3, 3, 7, 7), ActionOutcome::Ran);
    assert_eq!(settle_verdict(&Vec::new(), false, 3, 3, 7, 7), ActionOutcome::Failed);
}

#[test]
fn respawn_fires_only_after_the_delay_and_rearms_while_still_dead() {
    let mut since = None;
    let t0: u64 = 1_000_000;
    assert!(!respawn_due(true, &mut since, t0));
    assert!(!respawn_due(true, &mut since, t0 + RESPAWN_DELAY_MS / 2));
    assert!(respawn_due(true, &mut since, t0 + RESPAWN_DELAY_MS));
    assert!(!respawn_due(true, &mut since, t0 + RESPAWN_DELAY_MS));
    assert!(respawn_due(true, &mut since, t0 + RESPAWN_DELAY_MS * 2));
    assert!(!respawn_due(false, &mut since, t0 + RESPAWN_DELAY_MS * 2));
    assert!(since.is_none());
}

#[test]
fn a_blow_either_way_starts_the_out_of_combat_clock() {
    let out_of_combat: u64 = 8_000;
    let now: u64 = 50_000;
    let mut clock = CombatClock::new(out_of_combat);
    assert!(!clock.in_combat(now), "a fresh session has never fought");

    clock.last_blow = Some(now - out_of_combat);
    assert!(!clock.in_combat(now), "the window has run out");

    clock.note_combat(now);
    assert!(clock.in_combat(now));
}

#[test]
fn the_handover_lead_is_paid_once() {
    assert_eq!(pace_after_step(900, false), 900 - HANDOVER_LEAD_MS);
    assert_eq!(pace_after_step(900, true), 900);
    assert_eq!(
        pace_after_step(60, false),
        50,
        "never sleeps away to nothing"
    );
}

#[test]
fn a_walk_owes_back_only_the_lead_it_borrowed() {
    let mut owed = 0u64;
    assert_eq!(pace_step(&mut owed, 900, false), 650);
    assert_eq!(owed, 250);
    assert_eq!(pace_step(&mut owed, 900, true), 900);
    assert_eq!(owed, 250);
    assert_eq!(pace_step(&mut owed, 30, true), 50);
    assert_eq!(owed, 250);
    assert_eq!(settle_handover(&mut owed), 250);
    assert_eq!(owed, 0);
}

#[test]
fn only_a_walk_to_a_place_may_be_given_up_for_prey() {
    assert!(interruptible(WalkKind::Place));
    for aimed in [WalkKind::Monster, WalkKind::Character, WalkKind::GroundItem] {
        assert!(
            !interruptible(aimed),
            "a walk already aimed at something must run to it"
        );
    }
}

#[test]
fn the_great_chest_is_picked_when_asked_for() {
    let sighted = vec![ChestKind::Prop(3), ChestKind::Treasure];
    assert_eq!(pick_chest(&sighted, true), Some(1));
    assert_eq!(pick_chest(&sighted, false), Some(0));
    assert_eq!(pick_chest(&vec![ChestKind::Prop(1)], true), Some(0));
    assert_eq!(pick_chest(&Vec::new(), true), None);
    assert_eq!(chest_label(ChestKind::Treasure), "the great chest");
    assert_eq!(chest_label(ChestKind::Prop(2)), "a small chest");
}
