use agent_client::schedule::{interaction, Interaction};
use agent_client::schedule::{
    due_entry, takes_the_spot, transition, waypoint_goes_on, EntryFacts, MoveResult, Transition,
};

#[test]
fn rain_sends_a_sheltering_entry_to_the_rain_entry() {
    let shelters = vec![false, true, false, false];
    let rain = vec![false, false, true, true];
    assert_eq!(due_entry((Some(1), Some(480)), &shelters, &rain, true), (Some(2), None));
    assert_eq!(due_entry((Some(1), Some(480)), &shelters, &rain, false), (Some(1), Some(480)));
    assert_eq!(due_entry((Some(0), Some(60)), &shelters, &rain, true), (Some(0), Some(60)));
    assert_eq!(due_entry((None, None), &shelters, &rain, true), (None, None));
    assert_eq!(
        due_entry((Some(1), Some(480)), &shelters, &vec![false; 4], true),
        (Some(1), Some(480)),
        "no rain entry: the routine stands"
    );
}

const FISHING: EntryFacts = EntryFacts { fishing: true, has_action: false, meeting: false };
const POSED: EntryFacts = EntryFacts { fishing: false, has_action: true, meeting: false };
const MEETING: EntryFacts = EntryFacts { fishing: false, has_action: false, meeting: true };

#[test]
fn an_unchanged_entry_does_nothing() {
    assert_eq!(transition((Some(1), Some(60)), (Some(1), Some(60)), Some(FISHING), Some(FISHING), true), None);
}

#[test]
fn leaving_an_entry_stops_what_it_was_doing() {
    assert_eq!(
        transition((Some(0), Some(60)), (Some(1), Some(120)), Some(FISHING), Some(POSED), false),
        Some(Transition {
            stop_fishing: true,
            stop_interaction: false,
            enter_meeting: false,
            walk: true,
            announce_meeting: false
        })
    );
    assert_eq!(
        transition((Some(1), Some(120)), (None, None), Some(POSED), None, false),
        Some(Transition {
            stop_fishing: false,
            stop_interaction: true,
            enter_meeting: false,
            walk: false,
            announce_meeting: false
        })
    );
}

#[test]
fn music_is_stopped_and_a_meeting_is_joined_and_announced() {
    assert_eq!(
        transition((None, None), (Some(3), Some(600)), None, Some(MEETING), true),
        Some(Transition {
            stop_fishing: false,
            stop_interaction: true,
            enter_meeting: true,
            walk: true,
            announce_meeting: true
        })
    );
}

#[test]
fn a_schedule_walk_only_stops_for_death() {
    assert!(waypoint_goes_on(MoveResult::Blocked));
    assert!(waypoint_goes_on(MoveResult::Interrupted));
    assert!(waypoint_goes_on(MoveResult::Error));
    assert!(!waypoint_goes_on(MoveResult::Died));
    assert!(takes_the_spot(None), "already there");
    assert!(takes_the_spot(Some(MoveResult::Arrived)));
    assert!(takes_the_spot(Some(MoveResult::Blocked)), "an NPC keeps its schedule");
    assert!(!takes_the_spot(Some(MoveResult::Died)));
    assert!(!takes_the_spot(Some(MoveResult::Interrupted)));
    assert!(!takes_the_spot(Some(MoveResult::Error)));
}

#[test]
fn on_its_spot_an_npc_fishes_when_it_can_or_works_its_object() {
    assert_eq!(interaction(true, true, true, true), Interaction::Cast);
    assert_eq!(interaction(true, false, true, true), Interaction::Nothing);
    assert_eq!(interaction(false, false, true, true), Interaction::Interact);
    assert_eq!(interaction(false, false, true, false), Interaction::Nothing);
    assert_eq!(interaction(false, true, false, true), Interaction::Nothing);
}
