use agent_client::turn::{discard_turn, holding_note, unknown_action_note, TurnGate, Verdict};

#[test]
fn a_failed_move_skips_the_rest_of_the_turn_that_needed_the_position() {
    let mut g = TurnGate::new();
    assert_eq!(g.offer(true, true, false, "move"), Verdict::Run);
    g.settled(true, true, "move");
    assert_eq!(g.offer(false, false, false, "say"), Verdict::Run, "talking needs no position");
    assert_eq!(g.offer(true, true, false, "pickup"), Verdict::PositionLost);
    g.settled(true, true, "attack");
    assert_eq!(g.offer(true, true, false, "open_chest"), Verdict::PositionLost);
    assert_eq!(
        g.aborted_note().as_deref(),
        Some(
            "[Aborted] Your move failed, so the rest of the turn that needed you to be somewhere \
             did not run: pickup, open_chest. Reissue what still applies."
        )
    );
}

#[test]
fn a_turn_that_kept_its_position_says_nothing_at_the_end() {
    let mut g = TurnGate::new();
    g.settled(true, false, "say");
    assert_eq!(g.offer(true, true, false, "move"), Verdict::Run);
    g.settled(false, true, "move");
    assert_eq!(g.aborted_note(), None);
    g.settled(true, true, "attack");
    assert_eq!(g.aborted_note(), None, "lost, but nothing was skipped for it");
}

#[test]
fn holding_position_blocks_what_would_move_the_body() {
    let mut g = TurnGate::new();
    assert_eq!(g.offer(true, true, true, "move"), Verdict::Holding);
    assert_eq!(g.offer(false, false, true, "say"), Verdict::Run);
    assert_eq!(
        holding_note("move"),
        "[ActionFailed] You are holding position right now, so your move did not run. \
         Finish what you are doing first."
    );
    assert_eq!(
        unknown_action_note("dance"),
        "[ActionFailed] 'dance' is not an action type — it did nothing. \
         Use one of the types listed in your instructions."
    );
}

#[test]
fn a_discarded_turn_empties_both_queues_and_keeps_what_was_heard() {
    let mut events = vec!["Ann: hello".to_string(), "Bob: hi".to_string()];
    let mut agent_events = vec![1u32, 2, 3];
    let heard = discard_turn(&mut events, &mut agent_events);
    assert_eq!(heard, vec!["Ann: hello".to_string(), "Bob: hi".to_string()]);
    assert!(events.is_empty());
    assert!(agent_events.is_empty());
}
