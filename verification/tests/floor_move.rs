use agent_client::execute::MoveTargetKind;
use agent_client::floor_move::{
    after_entrance, depth_misplaced, descent_note, plan_floor_move, requested_floor, FloorMove,
    LegResult,
};

fn said(m: FloorMove) -> String {
    match m {
        FloorMove::Say(n) => n,
        FloorMove::Walk { via_entrance, floor } => panic!("walked: {via_entrance} {floor:?}"),
    }
}

fn walked(m: FloorMove) -> (bool, Option<u8>) {
    match m {
        FloorMove::Walk { via_entrance, floor } => (via_entrance, floor),
        FloorMove::Say(n) => panic!("said: {n}"),
    }
}

const CRYPT: Option<(&str, u8)> = Some(("Old Crypt", 3));

#[test]
fn the_sign_of_a_depth_is_ignored_and_it_is_capped() {
    assert_eq!(requested_floor(Some(-2)), Some(2));
    assert_eq!(requested_floor(Some(2)), Some(2));
    assert_eq!(requested_floor(Some(-900)), Some(255));
    assert_eq!(requested_floor(Some(i32::MIN)), Some(255));
    assert_eq!(requested_floor(None), None);
}

#[test]
fn leaving_from_above_ground_goes_nowhere() {
    assert_eq!(
        said(plan_floor_move(Some(0), 0, CRYPT, true)),
        "[Arrived] You are already above ground — there is no dungeon to leave."
    );
}

#[test]
fn a_move_with_no_dungeon_is_refused() {
    assert_eq!(
        said(plan_floor_move(Some(1), 0, None, true)),
        "[MoveFailed] There is no dungeon here to go into."
    );
}

#[test]
fn a_floor_below_the_deepest_is_refused() {
    assert_eq!(
        said(plan_floor_move(Some(4), 0, CRYPT, true)),
        "[MoveFailed] Old Crypt only goes down to floor 3."
    );
}

#[test]
fn a_bare_move_from_underground_is_answered_where_we_stand() {
    assert_eq!(
        said(plan_floor_move(None, -2, CRYPT, false)),
        "[Arrived] You are already inside Old Crypt, on floor 2. Name a \"depth\" to change \
         floor, or 0 to leave."
    );
    assert_eq!(
        said(plan_floor_move(None, -2, CRYPT, true)),
        "[MoveFailed] You are on floor 2 of another dungeon. Come back up with \
         {\"type\": \"move\", \"depth\": 0} before heading for Old Crypt."
    );
}

#[test]
fn the_entrance_leg_runs_from_outside_or_to_leave() {
    assert_eq!(walked(plan_floor_move(Some(2), 0, CRYPT, true)), (true, Some(2)));
    assert_eq!(walked(plan_floor_move(Some(2), -1, CRYPT, false)), (false, Some(2)));
    assert_eq!(walked(plan_floor_move(Some(0), -1, CRYPT, false)), (true, Some(0)));
    assert_eq!(walked(plan_floor_move(None, 0, CRYPT, false)), (true, None));
}

#[test]
fn the_entrance_leg_ends_with_its_note() {
    assert_eq!(
        after_entrance(Some(2), "Old Crypt", 3, true).as_deref(),
        Some("[MoveFailed] You could not reach the entrance of Old Crypt.")
    );
    assert_eq!(
        after_entrance(Some(0), "Old Crypt", 3, false).as_deref(),
        Some("[Arrived] You are back outside Old Crypt.")
    );
    assert_eq!(
        after_entrance(None, "Old Crypt", 3, false).as_deref(),
        Some(
            "[Arrived] You stand at the entrance of Old Crypt (3 floors deep). Go in with \
             {\"type\": \"move\", \"target\": \"Old Crypt\", \"depth\": 1}."
        )
    );
    assert_eq!(after_entrance(Some(2), "Old Crypt", 3, false), None);
}

#[test]
fn the_descent_says_how_it_went() {
    assert_eq!(
        descent_note("Old Crypt", 2, LegResult::Arrived),
        "[Arrived] You are on floor 2 of Old Crypt."
    );
    assert_eq!(
        descent_note("Old Crypt", 3, LegResult::Blocked),
        "[MoveFailed] You could not get to floor 3 of Old Crypt — the way is sealed. Try a \
         floor closer to where you are."
    );
    assert_eq!(
        descent_note("Old Crypt", 12, LegResult::Error),
        "[MoveFailed] Something went wrong on the way to floor 12 of Old Crypt."
    );
}

#[test]
fn a_depth_belongs_with_a_dungeon_name() {
    assert_eq!(
        depth_misplaced(-2, "Bob", MoveTargetKind::Character),
        "[MoveFailed] \"depth\": -2 only goes with a dungeon name, but 'Bob' is a character. \
         Move to it without a depth, or name a dungeon."
    );
    assert_eq!(
        depth_misplaced(3, "m4_1", MoveTargetKind::Monster),
        "[MoveFailed] \"depth\": 3 only goes with a dungeon name, but 'm4_1' is a monster. \
         Move to it without a depth, or name a dungeon."
    );
}
