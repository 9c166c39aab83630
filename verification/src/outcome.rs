//! Whether an action did anything: read off the event tags it left behind,
//! and the note an action that left no trace is answered with.

use vstd::prelude::*;
use vstd::string::StringExecFns;

use crate::text::{
    chars_of, find_char, first_index_of, has_suffix, is_first_index, lemma_first_index_found,
    occurs_at_exec,
};

verus! {

broadcast use vstd::string::group_string_axioms;

/// How one action of a turn ended.
#[derive(Debug, PartialEq, Eq, Clone, Copy)]
pub enum ActionOutcome {
    Ran,
    Failed,
}

/// The tag of an event: the text between a leading `[` and the first `]`
/// (the rest of the event when it has no `]`), or none without a leading `[`.
pub open spec fn event_tag(event: Seq<char>) -> Option<Seq<char>> {
    if event.len() > 0 && event[0] == '[' {
        let rest = event.drop_first();
        Some(rest.take(first_index_of(rest, ']')))
    } else {
        None
    }
}

/// A tag that reports a failure: any `...Failed`, `Unreachable`, `NoResult`.
pub open spec fn is_failure_tag(tag: Seq<char>) -> bool {
    has_suffix(tag, "Failed"@) || tag == "Unreachable"@ || tag == "NoResult"@
}

/// Whether an event reports that the action behind it failed.
pub open spec fn reports_failure_spec(event: Seq<char>) -> bool {
    match event_tag(event) {
        Some(tag) => is_failure_tag(tag),
        None => false,
    }
}

/// Whether `v[lo..hi]` is exactly `p`.
fn equals_in(v: &Vec<char>, lo: usize, hi: usize, p: &Vec<char>) -> (r: bool)
    requires
        lo <= hi <= v.len(),
    ensures
        r == (v@.subrange(lo as int, hi as int) == p@),
{
    if p.len() != hi - lo {
        return false;
    }
    occurs_at_exec(v, lo, p)
}

/// Whether an event reports that the action behind it failed: its tag ends
/// in `Failed`, or is `Unreachable` or `NoResult`.
pub fn reports_failure(event: &str) -> (r: bool)
    ensures
        r == reports_failure_spec(event@),
{
    let v = chars_of(event);
    if v.len() == 0 || v[0] != '[' {
        return false;
    }
    let n: usize = v.len();
    let at = find_char(&v, 1, n, ']');
    let ghost rest = v@.drop_first();
    let ghost tag = v@.subrange(1, at as int);
    proof {
        assert(v@.subrange(1, n as int) == rest);
        assert(rest.take(first_index_of(rest, ']')) == tag);
    }
    let failed = chars_of("Failed");
    let mut suffix = false;
    if failed.len() <= at - 1 {
        suffix = occurs_at_exec(&v, at - failed.len(), &failed);
        proof {
            assert(tag.subrange(tag.len() - failed@.len(), tag.len() as int) == v@.subrange(
                at - failed@.len(),
                at as int,
            ));
        }
    }
    if suffix {
        return true;
    }
    let unreachable = chars_of("Unreachable");
    if equals_in(&v, 1, at, &unreachable) {
        return true;
    }
    let no_result = chars_of("NoResult");
    equals_in(&v, 1, at, &no_result)
}

/// Whether any of `events` reports a failure.
pub fn any_failure(events: &Vec<String>) -> (r: bool)
    ensures
        r == exists|i: int| 0 <= i < events@.len() && reports_failure_spec(#[trigger] events@[i]@),
{
    let mut k: usize = 0;
    while k < events.len()
        invariant
            k <= events@.len(),
            forall|i: int| 0 <= i < k ==> !reports_failure_spec(#[trigger] events@[i]@),
        decreases events@.len() - k,
    {
        if reports_failure(events[k].as_str()) {
            return true;
        }
        k += 1;
    }
    false
}

/// How an action is judged once its turn settles: failed when an event it
/// left reports a failure; ran when it speaks for itself or left any trace
/// (a new event, a dispatched command); failed otherwise.
pub open spec fn settle_spec(
    failed_event: bool,
    speaks_for_itself: bool,
    events_before: usize,
    events_now: usize,
    commands_before: u64,
    commands_now: u64,
) -> ActionOutcome {
    if failed_event {
        ActionOutcome::Failed
    } else if speaks_for_itself || events_now > events_before || commands_now > commands_before {
        ActionOutcome::Ran
    } else {
        ActionOutcome::Failed
    }
}

/// The verdict on one action, from the events it left (`events_since`, the
/// agent events pushed after the action started), whether its outcome speaks
/// for itself, and the action-progress counters before and now.
pub fn settle_verdict(
    events_since: &Vec<String>,
    speaks_for_itself: bool,
    events_before: usize,
    events_now: usize,
    commands_before: u64,
    commands_now: u64,
) -> (o: ActionOutcome)
    ensures
        o == settle_spec(
            exists|i: int|
                0 <= i < events_since@.len() && reports_failure_spec(#[trigger] events_since@[i]@),
            speaks_for_itself,
            events_before,
            events_now,
            commands_before,
            commands_now,
        ),
{
    if any_failure(events_since) {
        return ActionOutcome::Failed;
    }
    if speaks_for_itself || events_now > events_before || commands_now > commands_before {
        ActionOutcome::Ran
    } else {
        ActionOutcome::Failed
    }
}

/// The note an action that left no trace at all is answered with.
pub open spec fn no_result_note_spec(label: Seq<char>) -> Seq<char> {
    "[NoResult] Your "@ + label + " did nothing and reached no one — it was not possible here. Try something else rather than repeating it."@
}

/// The `[NoResult]` note for an action that did nothing, by its label.
pub fn no_result_note(label: &str) -> (note: String)
    ensures
        note@ == no_result_note_spec(label@),
{
    let mut note = String::from_str("[NoResult] Your ");
    note.append(label);
    note.append(
        " did nothing and reached no one — it was not possible here. Try something else rather than repeating it.",
    );
    note
}

/// The note an action that left no trace is answered with is itself read
/// as that action's failure, whatever the action's label.
pub proof fn law_no_result_note_reports_failure(label: Seq<char>)
    ensures
        reports_failure_spec(no_result_note_spec(label)),
{
    let note = no_result_note_spec(label);
    let head = "[NoResult] Your "@;
    reveal_strlit("[NoResult] Your ");
    reveal_strlit("NoResult");
    assert(head.len() == 16);
    assert(note[0] == '[');
    let rest = note.drop_first();
    assert forall|j: int| 0 <= j < 8 implies rest[j] != ']' by {
        assert(rest[j] == head[j + 1]);
    }
    assert(rest[8] == head[9]);
    assert(is_first_index(rest, ']', 8));
    lemma_first_index_found(rest, ']', 8);
    assert(rest.take(8) == "NoResult"@);
}

/// An event that opens with the `[MoveFailed] ` tag reports a failure.
pub proof fn lemma_move_failed_reports_failure(event: Seq<char>)
    requires
        event.len() >= 13,
        event.subrange(0, 13) == "[MoveFailed] "@,
    ensures
        reports_failure_spec(event),
{
    reveal_strlit("[MoveFailed] ");
    reveal_strlit("Failed");
    let head = event.subrange(0, 13);
    assert(event[0] == head[0]);
    let rest = event.drop_first();
    assert forall|j: int| 0 <= j < 10 implies rest[j] != ']' by {
        assert(rest[j] == head[j + 1]);
    }
    assert(rest[10] == head[11]);
    assert(is_first_index(rest, ']', 10));
    lemma_first_index_found(rest, ']', 10);
    let tag = rest.take(10);
    assert(tag.subrange(4, 10) =~= "Failed"@) by {
        assert forall|j: int| 0 <= j < 6 implies tag.subrange(4, 10)[j] == "Failed"@[j] by {
            assert(tag.subrange(4, 10)[j] == head[j + 5]);
        }
    }
    assert(has_suffix(tag, "Failed"@));
}

} // verus!
