use agent_client::dungeoneer::{next_floor, Halt, Run, HALT_RETRY_MS, LEG_TRIES};
use agent_client::worker::Step;

type P = (f32, f32);

#[test]
fn the_section_tour_turns_around_instead_of_jumping_back() {
    let (first, last) = (11u8, 14u8);
    let mut run: Run<P> = Run::new();
    let mut at = first;
    let mut walked = vec![at];
    for _ in 0..8 {
        let next = next_floor(at, first, last, &mut run);
        assert_eq!(
            next.abs_diff(at),
            1,
            "every hop is a single floor, {at} -> {next}"
        );
        assert!(
            (first..=last).contains(&next),
            "{next} is outside the section"
        );
        at = next;
        walked.push(at);
    }
    assert_eq!(walked, vec![11, 12, 13, 14, 13, 12, 11, 12, 13]);
}

#[test]
fn a_one_floor_section_stays_put() {
    let mut run: Run<P> = Run::new();
    assert_eq!(next_floor(4, 4, 4, &mut run), 4);
}

#[test]
fn the_chest_flipping_to_spent_is_caught_once() {
    let mut run: Run<P> = Run::new();
    run.observe_chest(false, None);
    assert!(!run.resupply_is_due());
    run.observe_chest(true, Some((3.0, 4.0)));
    assert!(run.leaving && run.resupply_due);
    assert!(!run.resupply_is_due(), "not from underground");
    run.leaving = false;
    assert!(run.resupply_is_due());
    run.town_trip_started();
    run.observe_chest(true, Some((3.0, 4.0)));
    assert!(!run.resupply_is_due(), "the trip is not asked for twice");
}

#[test]
fn nightfall_voids_the_cycle_but_the_first_one_only_starts_it() {
    let mut run: Run<P> = Run::new();
    run.observe_epoch(Some(10));
    run.died();
    run.died();
    run.halt(Halt::DiedTooOften, &Halt::DiedTooOften.clause("", 0, 2), 1_000);
    assert_eq!(run.deaths, 2);
    run.observe_epoch(Some(10));
    assert_eq!(run.deaths, 2, "the same night");
    run.observe_epoch(Some(11));
    assert_eq!(run.deaths, 0);
    assert!(run.halted.is_none());
}

#[test]
fn a_leg_that_never_lands_stops_the_run_and_says_so() {
    let mut run: Run<P> = Run::new();
    let stuck = Halt::Stuck.clause("", 0, 0);
    for _ in 0..LEG_TRIES {
        assert_eq!(
            run.leg(Step::<P>::Walk((1.0, 1.0)), "walk-1".to_string(), &stuck, 0),
            vec![Step::Walk((1.0, 1.0))]
        );
    }
    assert_eq!(
        run.leg(Step::<P>::Walk((1.0, 1.0)), "walk-1".to_string(), &stuck, 7),
        vec![Step::Idle]
    );
    assert_eq!(run.halted, Some((Halt::Stuck, 7)));
    assert!(run
        .take_note()
        .is_some_and(|n| n.contains("cannot get where it is going")));
    assert_eq!(run.take_note(), None, "told once");
    assert_eq!(
        run.leg(Step::<P>::Walk((2.0, 1.0)), "walk-2".to_string(), &stuck, 8),
        vec![Step::Walk((2.0, 1.0))],
        "another leg starts its own count"
    );
}

#[test]
fn a_halt_lapses_after_its_window() {
    let mut run: Run<P> = Run::new();
    run.halt(Halt::OutOfDepth, &Halt::OutOfDepth.clause("", 3, 0), 100);
    assert!(run.note.contains("above your level + 3"));
    assert!(run.halted_now(100 + HALT_RETRY_MS - 1));
    assert!(!run.halted_now(100 + HALT_RETRY_MS));
    assert!(run.halted.is_none());
}

#[test]
fn the_clauses_name_what_the_player_can_change() {
    assert_eq!(
        Halt::NoDungeon.clause("old_crypt", 0, 0),
        "no dungeon is registered as \"old_crypt\" — pick one in the panel"
    );
    assert_eq!(
        Halt::DiedTooOften.clause("", 0, 12),
        "died 12 times this cycle — waiting for the dungeons to reset"
    );
}

#[test]
fn the_tour_ticks_off_the_stops_stood_at() {
    let mut run: Run<P> = Run::new();
    run.look_around(&vec![false, true, false], 2);
    assert_eq!(run.swept(), 1);
    run.look_around(&vec![true, false, false], 2);
    assert_eq!(run.seen, vec![true, true, false]);
    assert_eq!(run.swept(), 2);
    run.look_around(&vec![false, false, false], 3);
    assert_eq!(run.swept(), 0, "a new floor starts afresh");
}
