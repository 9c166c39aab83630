//! One turn of the agent's actions: which of them run. A failed action
//! that had taken the body somewhere loses the position, and every later
//! action that needs the body somewhere is skipped and reported once at the
//! end of the turn; an agent holding position runs none of them.

use vstd::prelude::*;
use vstd::string::StringExecFns;

use crate::text::{joined, push_joined};

verus! {

broadcast use vstd::string::group_string_axioms;

/// What becomes of an action offered to the turn.
#[derive(Debug, Clone, Copy, PartialEq, Eq, Structural)]
pub enum Verdict {
    /// It runs.
    Run,
    /// An earlier failure lost the position it needs: skipped, and named in
    /// the note at the end of the turn.
    PositionLost,
    /// The agent is holding position (resting, or serving a customer): it
    /// does not run, and says so at once.
    Holding,
}

/// The turn so far: the label of the failed action that lost the position,
/// and the labels of the actions skipped for it, in order.
pub struct TurnGate {
    pub lost: Option<String>,
    pub skipped: Vec<String>,
}

/// The turn so far, as values.
pub struct GateView {
    pub lost: Option<Seq<char>>,
    pub skipped: Seq<Seq<char>>,
}

impl View for TurnGate {
    type V = GateView;

    open spec fn view(&self) -> GateView {
        GateView {
            lost: match self.lost {
                Some(l) => Some(l@),
                None => None,
            },
            skipped: self.skipped@.map_values(|s: String| s@),
        }
    }
}

/// An action settled: a failed one that had taken the body over loses the
/// position, and the first such failure is the one named.
pub open spec fn settled_spec(g: GateView, failed: bool, moves: bool, label: Seq<char>) -> GateView {
    if failed && moves && g.lost is None {
        GateView { lost: Some(label), ..g }
    } else {
        g
    }
}

/// What becomes of the next action: an action that needs the body
/// somewhere is skipped once the position is lost; one blocked while
/// holding position does not run while the agent holds it.
pub open spec fn offer_spec(
    g: GateView,
    moves: bool,
    blocked_when_holding: bool,
    holding: bool,
    label: Seq<char>,
) -> (Verdict, GateView) {
    if g.lost is Some && moves {
        (Verdict::PositionLost, GateView { skipped: g.skipped.push(label), ..g })
    } else if holding && blocked_when_holding {
        (Verdict::Holding, g)
    } else {
        (Verdict::Run, g)
    }
}

/// The note closing a turn that skipped actions for a lost position.
pub open spec fn aborted_spec(g: GateView) -> Option<Seq<char>> {
    match g.lost {
        Some(failed) => if g.skipped.len() > 0 {
            Some(
                "[Aborted] Your "@ + failed
                    + " failed, so the rest of the turn that needed you to be somewhere did not run: "@
                    + joined(g.skipped, ", "@) + ". Reissue what still applies."@,
            )
        } else {
            None
        },
        None => None,
    }
}

/// The note for an action blocked while holding position.
pub open spec fn holding_note_spec(label: Seq<char>) -> Seq<char> {
    "[ActionFailed] You are holding position right now, so your "@ + label
        + " did not run. Finish what you are doing first."@
}

/// The note for an action type the agent made up.
pub open spec fn unknown_note_spec(kind: Seq<char>) -> Seq<char> {
    "[ActionFailed] '"@ + kind + "' is not an action type — it did nothing. Use one of the types listed in your instructions."@
}

impl TurnGate {
    /// A fresh turn: nothing lost, nothing skipped.
    pub fn new() -> (r: Self)
        ensures
            r@.lost is None,
            r@.skipped.len() == 0,
    {
        TurnGate { lost: None, skipped: Vec::new() }
    }

    /// The previous action settled; `failed` says it failed, `moves` that
    /// it had taken the body over.
    pub fn settled(&mut self, failed: bool, moves: bool, label: &str)
        ensures
            final(self)@ == settled_spec(old(self)@, failed, moves, label@),
    {
        if failed && moves && self.lost.is_none() {
            self.lost = Some(label.to_owned());
        }
    }

    /// What becomes of the next action. `moves`: it takes the body over;
    /// `blocked_when_holding`: it cannot run while holding position;
    /// `holding`: the agent holds position this turn.
    pub fn offer(&mut self, moves: bool, blocked_when_holding: bool, holding: bool, label: &str) -> (r: Verdict)
        ensures
            (r, final(self)@) == offer_spec(old(self)@, moves, blocked_when_holding, holding, label@),
    {
        if self.lost.is_some() && moves {
            let ghost before = self@.skipped;
            self.skipped.push(label.to_owned());
            assert(self@.skipped =~= before.push(label@));
            return Verdict::PositionLost;
        }
        if holding && blocked_when_holding {
            return Verdict::Holding;
        }
        Verdict::Run
    }

    /// The note closing the turn, when actions were skipped for a lost
    /// position.
    pub fn aborted_note(&self) -> (r: Option<String>)
        ensures
            match r {
                Some(n) => aborted_spec(self@) == Some(n@),
                None => aborted_spec(self@) is None,
            },
    {
        match &self.lost {
            Some(failed) => {
                if self.skipped.len() == 0 {
                    return None;
                }
                let mut n = String::from_str("[Aborted] Your ");
                n.append(failed.as_str());
                n.append(" failed, so the rest of the turn that needed you to be somewhere did not run: ");
                push_joined(&mut n, &self.skipped, ", ");
                n.append(". Reissue what still applies.");
                Some(n)
            },
            None => None,
        }
    }
}

/// The note for an action blocked while holding position.
pub fn holding_note(label: &str) -> (r: String)
    ensures
        r@ == holding_note_spec(label@),
{
    let mut n = String::from_str("[ActionFailed] You are holding position right now, so your ");
    n.append(label);
    n.append(" did not run. Finish what you are doing first.");
    n
}

/// The note for an action type the agent made up.
pub fn unknown_action_note(kind: &str) -> (r: String)
    ensures
        r@ == unknown_note_spec(kind@),
{
    let mut n = String::from_str("[ActionFailed] '");
    n.append(kind);
    n.append(
        "' is not an action type — it did nothing. Use one of the types listed in your instructions.",
    );
    n
}

/// A turn skipped (asleep, or nobody around to see it): both event queues
/// are emptied so they cannot pile up, and the events heard are handed back,
/// in order, for the conversation record; the agent's own events are
/// dropped.
pub fn discard_turn<E, A>(events: &mut Vec<E>, agent_events: &mut Vec<A>) -> (heard: Vec<E>)
    ensures
        heard@ == old(events)@,
        final(events)@.len() == 0,
        final(agent_events)@.len() == 0,
{
    let mut heard: Vec<E> = Vec::new();
    std::mem::swap(&mut heard, events);
    agent_events.clear();
    heard
}

/// Once the position is lost no later action that needs the body somewhere
/// runs in that turn, whatever settles after: the first failure stays the
/// one named, and every such action is added to the skipped list.
pub proof fn law_a_lost_position_stays_lost(
    g: GateView,
    failed: bool,
    moves: bool,
    label: Seq<char>,
    next_blocked: bool,
    holding: bool,
    next: Seq<char>,
)
    requires
        g.lost is Some,
    ensures
        settled_spec(g, failed, moves, label).lost == g.lost,
        offer_spec(settled_spec(g, failed, moves, label), true, next_blocked, holding, next) == (
            Verdict::PositionLost,
            GateView { skipped: g.skipped.push(next), ..g },
        ),
{
}

/// A turn that skipped nothing closes without a note, and one whose
/// position held never skips anything.
pub proof fn law_nothing_skipped_nothing_said(
    g: GateView,
    moves: bool,
    blocked: bool,
    holding: bool,
    label: Seq<char>,
)
    requires
        g.lost is None,
    ensures
        aborted_spec(g) is None,
        offer_spec(g, moves, blocked, holding, label).0 != Verdict::PositionLost,
        offer_spec(g, moves, blocked, holding, label).1 == g,
{
}

} // verus!
