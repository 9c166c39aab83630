use agent_client::walk::{
    checkpoint, kept_len, policy, stuck_loss, when_stuck, AfterRoute, Checkpoint, LostReason,
    WalkKind, WalkProgress, Walked, WhenStuck, MAX_CHASE_DOORS, MAX_DOORS_PER_WALK,
};

fn clear() -> Checkpoint {
    Checkpoint {
        timed_out: false,
        target_present: true,
        alive: true,
        prey_in_reach: false,
        in_range: false,
        line_blocked: false,
        on_target_floor: true,
        too_far: None,
    }
}

#[test]
fn a_walk_under_way_goes_on() {
    assert_eq!(checkpoint(WalkKind::Monster, clear()), None);
}

#[test]
fn the_deadline_is_checked_before_anything_else() {
    let c = Checkpoint { timed_out: true, target_present: false, alive: false, in_range: true, ..clear() };
    assert_eq!(checkpoint(WalkKind::Character, c), Some(Walked::Lost(LostReason::Timeout)));
    let c = Checkpoint { target_present: false, alive: false, ..clear() };
    assert_eq!(checkpoint(WalkKind::Character, c), Some(Walked::Lost(LostReason::TargetGone)));
    let c = Checkpoint { alive: false, in_range: true, ..clear() };
    assert_eq!(checkpoint(WalkKind::Character, c), Some(Walked::Lost(LostReason::PlayerDied)));
}

#[test]
fn a_chase_does_not_arrive_through_a_shut_door() {
    let c = Checkpoint { in_range: true, line_blocked: true, ..clear() };
    assert_eq!(checkpoint(WalkKind::Monster, c.clone()), None);
    assert_eq!(checkpoint(WalkKind::Character, c), Some(Walked::Arrived));
}

#[test]
fn a_place_is_only_reached_on_its_own_floor() {
    let c = Checkpoint { in_range: true, on_target_floor: false, ..clear() };
    assert_eq!(checkpoint(WalkKind::Place, c.clone()), None);
    assert_eq!(checkpoint(WalkKind::Point, c), Some(Walked::Arrived));
}

#[test]
fn prey_cuts_short_only_a_walk_to_a_place() {
    let c = Checkpoint { prey_in_reach: true, ..clear() };
    assert_eq!(checkpoint(WalkKind::Place, c.clone()), Some(Walked::Lost(LostReason::PreyInReach)));
    assert_eq!(checkpoint(WalkKind::Monster, c), None);
}

#[test]
fn a_target_past_the_leash_is_given_up() {
    let c = Checkpoint { too_far: Some("23".to_string()), ..clear() };
    assert_eq!(
        checkpoint(WalkKind::Monster, c),
        Some(Walked::Lost(LostReason::TooFar("23".to_string())))
    );
}

#[test]
fn a_route_that_misses_the_goal_is_kept_only_on_the_start_floor() {
    let floors = vec![3u8, 3, 3, 0, 0];
    assert_eq!(kept_len(&floors, 3, false), 3);
    assert_eq!(kept_len(&floors, 3, true), 5);
    assert_eq!(kept_len(&floors, 0, false), 0);
    assert_eq!(kept_len(&vec![2u8, 2], 2, false), 2);
}

#[test]
fn a_fourth_correction_desyncs_the_walk() {
    let mut p = WalkProgress::new();
    p.stepped(1_000);
    assert!(p.queued);
    assert!(!p.corrected());
    assert!(!p.queued, "a correction overrules what the server was walking");
    assert_eq!(p.lead_owed, 0);
    assert!(!p.corrected());
    assert!(!p.corrected());
    assert!(p.corrected());
    assert_eq!(p.repaths, 4);
}

#[test]
fn the_first_leg_borrows_the_lead_and_the_end_pays_it_back() {
    let mut p = WalkProgress::new();
    assert_eq!(p.stepped(1_000), 750);
    assert_eq!(p.lead_owed, 250);
    assert_eq!(p.stepped(1_000), 1_000);
    assert_eq!(p.lead_owed, 250);
    assert_eq!(p.settle(), 250);
    assert_eq!(p.lead_owed, 0);
    assert!(!p.queued);
}

#[test]
fn a_walked_out_route_arrives_looks_again_or_tries_a_door() {
    let mut p = WalkProgress::new();
    assert_eq!(p.route_walked_out(policy(WalkKind::Place), false), AfterRoute::Arrived);
    p.repaths = 2;
    assert_eq!(p.route_walked_out(policy(WalkKind::Character), false), AfterRoute::LookAgain);
    assert_eq!(p.repaths, 0);
    let chase = policy(WalkKind::Monster);
    assert_eq!(chase.max_doors, MAX_CHASE_DOORS);
    assert_eq!(p.route_walked_out(chase, true), AfterRoute::TryDoor);
    p.door_opened(chase);
    p.door_opened(chase);
    assert_eq!(p.route_walked_out(chase, true), AfterRoute::Stuck);
    assert_eq!(policy(WalkKind::Place).max_doors, MAX_DOORS_PER_WALK);
}

#[test]
fn a_stuck_walk_underground_ends_and_on_the_surface_nudges() {
    let place = policy(WalkKind::Place);
    assert_eq!(when_stuck(place, true, true), WhenStuck::GiveUp { locked: true });
    assert_eq!(stuck_loss(true), LostReason::LockedDoor);
    assert_eq!(stuck_loss(false), LostReason::NoPath);
    assert_eq!(when_stuck(place, false, true), WhenStuck::Nudge { then_give_up: true });
    assert_eq!(
        when_stuck(policy(WalkKind::Character), false, false),
        WhenStuck::Nudge { then_give_up: false }
    );
}
