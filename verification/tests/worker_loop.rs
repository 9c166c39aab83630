use agent_client::timers::RESPAWN_DELAY_MS;
use agent_client::worker_loop::{Phase, WorkerLoop, IDLE_TICK_MS, MIN_TICK_MS};

const COOLDOWN: u64 = 1_200;

#[test]
fn an_idle_worker_ticks_at_the_idle_pace() {
    let l: WorkerLoop<(i32, i32)> = WorkerLoop::new();
    assert_eq!(l.wait_ms(10_000, COOLDOWN), IDLE_TICK_MS);
}

#[test]
fn a_fighter_sleeps_out_the_rest_of_its_cooldown() {
    let mut l: WorkerLoop<(i32, i32)> = WorkerLoop::new();
    l.engage("m1".to_string());
    assert_eq!(l.wait_ms(10_000, COOLDOWN), MIN_TICK_MS, "first swing at once");
    assert_eq!(l.tick(false, None, false, 10_000, COOLDOWN), Phase::Swing);
    assert_eq!(l.swung(true, 10_000), None);
    assert_eq!(l.wait_ms(10_500, COOLDOWN), 700);
    assert_eq!(l.tick(false, None, false, 10_500, COOLDOWN), Phase::Cooling);
    assert_eq!(l.tick(false, None, false, 11_200, COOLDOWN), Phase::Swing);
}

#[test]
fn whatever_hits_the_worker_becomes_its_target() {
    let mut l: WorkerLoop<(i32, i32)> = WorkerLoop::new();
    l.engage("m1".to_string());
    assert_eq!(l.tick(false, Some("m9".to_string()), false, 0, COOLDOWN), Phase::Swing);
    assert_eq!(l.attack_target.as_deref(), Some("m9"));
}

#[test]
fn a_rescue_comes_before_the_swing_and_a_trip_to_town_drops_the_fight() {
    let mut l: WorkerLoop<(i32, i32)> = WorkerLoop::new();
    l.engage("m1".to_string());
    assert_eq!(l.tick(false, None, true, 0, COOLDOWN), Phase::Rescue);
    l.rescued(true);
    assert_eq!(l.attack_target.as_deref(), Some("m1"));
    l.rescued(false);
    assert_eq!(l.attack_target, None);
    assert_eq!(l.tick(false, None, false, 0, COOLDOWN), Phase::Decide);
}

#[test]
fn a_dead_worker_drops_its_target_and_asks_to_respawn_after_the_delay() {
    let mut l: WorkerLoop<(i32, i32)> = WorkerLoop::new();
    l.engage("m1".to_string());
    assert_eq!(l.tick(true, None, false, 1_000, COOLDOWN), Phase::Dead { respawn: false });
    assert_eq!(l.attack_target, None);
    assert_eq!(
        l.tick(true, Some("m2".to_string()), false, 1_000 + RESPAWN_DELAY_MS, COOLDOWN),
        Phase::Dead { respawn: true }
    );
    assert_eq!(l.attack_target, None);
}

#[test]
fn the_kill_site_is_where_the_target_was_last_seen() {
    let mut l: WorkerLoop<(i32, i32)> = WorkerLoop::new();
    l.engage("m1".to_string());
    l.sighted(None, Some((1, 1)));
    assert_eq!(l.last_seen, Some((1, 1)), "never seen: where we stand");
    l.sighted(Some((4, 5)), Some((1, 1)));
    l.sighted(None, Some((2, 2)));
    assert_eq!(l.last_seen, Some((4, 5)), "the corpse is gone, the sighting stays");
    assert_eq!(l.swung(false, 100), Some(((4, 5), 0)));
    assert_eq!(l.attack_target, None);
    assert_eq!(l.last_seen, None);
}
