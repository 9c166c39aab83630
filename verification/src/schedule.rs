//! An NPC's day: which schedule entry is due once the weather is taken
//! into account, what a change of entry stops and starts, and whether the
//! walk to an entry's spot counts as arriving there. The caller reads the
//! game clock and the weather, walks, and sends the commands; an entry is
//! known here by its index and the few facts these decisions read.

use vstd::prelude::*;

verus! {

/// The schedule's choice: the entry due, and the minute it started at.
pub type Due = (Option<usize>, Option<u32>);

/// The first entry for rainy weather.
pub open spec fn first_rain_entry(rain: Seq<bool>) -> Option<int> {
    if exists|i: int| 0 <= i < rain.len() && rain[i] && forall|j: int| 0 <= j < i ==> !rain[j] {
        Some(choose|i: int| 0 <= i < rain.len() && rain[i] && forall|j: int| 0 <= j < i ==> !rain[j])
    } else {
        None
    }
}

/// The entry due once the weather is counted: when the clock's entry
/// shelters from rain and it rains where it stands, the first rain entry
/// takes its place (with no start minute); otherwise the clock's choice
/// stands. `shelters[i]` and `rain[i]` say whether entry `i` shelters from
/// rain and whether it is the entry for rainy weather.
pub open spec fn due_spec(due: Due, shelters: Seq<bool>, rain: Seq<bool>, raining_there: bool) -> Due {
    match due.0 {
        Some(i) => if 0 <= i < shelters.len() && shelters[i as int] && raining_there {
            match first_rain_entry(rain) {
                Some(r) => (Some(r as usize), None),
                None => due,
            }
        } else {
            due
        },
        None => due,
    }
}

/// The first entry for rainy weather is the one before which none is.
pub proof fn lemma_first_rain_is(rain: Seq<bool>, k: int)
    requires
        0 <= k < rain.len(),
        rain[k],
        forall|j: int| 0 <= j < k ==> !rain[j],
    ensures
        first_rain_entry(rain) == Some(k),
{
    assert(0 <= k < rain.len() && rain[k] && forall|j: int| 0 <= j < k ==> !rain[j]);
    let w = choose|w: int| 0 <= w < rain.len() && rain[w] && forall|j: int| 0 <= j < w ==> !rain[j];
    if w < k {
        assert(!rain[w]);
    } else if w > k {
        assert(!rain[k]);
    }
}

/// The entry due once the weather is counted.
pub fn due_entry(due: Due, shelters: &Vec<bool>, rain: &Vec<bool>, raining_there: bool) -> (r: Due)
    ensures
        r == due_spec(due, shelters@, rain@, raining_there),
{
    let sheltering = match due.0 {
        Some(i) => i < shelters.len() && shelters[i] && raining_there,
        None => false,
    };
    if !sheltering {
        return due;
    }
    let mut k: usize = 0;
    while k < rain.len()
        invariant
            k <= rain.len(),
            forall|j: int| 0 <= j < k ==> !rain@[j],
            due.0 matches Some(i) && i < shelters.len() && shelters@[i as int] && raining_there,
        decreases rain.len() - k,
    {
        if rain[k] {
            proof {
                lemma_first_rain_is(rain@, k as int);
            }
            return (Some(k), None);
        }
        k = k + 1;
    }
    due
}

/// What a schedule entry is, as far as leaving or entering it goes.
#[derive(Debug, Clone, Copy, PartialEq, Eq, Structural)]
pub struct EntryFacts {
    /// The entry fishes.
    pub fishing: bool,
    /// The entry holds a pose or works an object.
    pub has_action: bool,
    /// The entry is a meeting.
    pub meeting: bool,
}

/// What a change of schedule entry does, in order: stop the old entry's
/// fishing and its pose, join the meeting, walk to the new entry, and say
/// we arrived at the meeting (nothing else wakes an NPC there).
#[derive(Debug, Clone, Copy, PartialEq, Eq, Structural)]
pub struct Transition {
    pub stop_fishing: bool,
    pub stop_interaction: bool,
    pub enter_meeting: bool,
    pub walk: bool,
    pub announce_meeting: bool,
}

/// What a change of schedule entry does; none when the entry did not
/// change. `making_music` says we are playing, which a pose stop ends too.
pub open spec fn transition_spec(
    current: Due,
    new: Due,
    old_entry: Option<EntryFacts>,
    new_entry: Option<EntryFacts>,
    making_music: bool,
) -> Option<Transition> {
    if new == current {
        None
    } else {
        let meeting = new_entry is Some && new_entry->0.meeting;
        Some(
            Transition {
                stop_fishing: old_entry is Some && old_entry->0.fishing,
                stop_interaction: (old_entry is Some && old_entry->0.has_action) || making_music,
                enter_meeting: meeting,
                walk: new.0 is Some,
                announce_meeting: meeting && new.0 is Some,
            },
        )
    }
}

/// What a change of schedule entry does. `old_entry` and `new_entry` are
/// the facts of the entries `current.0` and `new.0` name.
pub fn transition(
    current: Due,
    new: Due,
    old_entry: Option<EntryFacts>,
    new_entry: Option<EntryFacts>,
    making_music: bool,
) -> (r: Option<Transition>)
    ensures
        r == transition_spec(current, new, old_entry, new_entry, making_music),
{
    let same_entry = match (current.0, new.0) {
        (Some(a), Some(b)) => a == b,
        (None, None) => true,
        _ => false,
    };
    let same_start = match (current.1, new.1) {
        (Some(a), Some(b)) => a == b,
        (None, None) => true,
        _ => false,
    };
    if same_entry && same_start {
        return None;
    }
    let meeting = match new_entry {
        Some(e) => e.meeting,
        None => false,
    };
    let stop_fishing = match old_entry {
        Some(e) => e.fishing,
        None => false,
    };
    let posed = match old_entry {
        Some(e) => e.has_action,
        None => false,
    };
    Some(
        Transition {
            stop_fishing,
            stop_interaction: posed || making_music,
            enter_meeting: meeting,
            walk: new.0.is_some(),
            announce_meeting: meeting && new.0.is_some(),
        },
    )
}

/// How one leg of a schedule walk ended.
#[derive(Debug, Clone, Copy, PartialEq, Eq, Structural)]
pub enum MoveResult {
    Arrived,
    Blocked,
    Died,
    Error,
    /// Given up part-way for something worth fighting.
    Interrupted,
}

/// Whether the walk through an entry's waypoints goes on after one: a
/// blocked, interrupted or failed waypoint is skipped, death ends the walk.
pub fn waypoint_goes_on(r: MoveResult) -> (go_on: bool)
    ensures
        go_on == (r != MoveResult::Died),
{
    match r {
        MoveResult::Died => false,
        _ => true,
    }
}

/// Whether the NPC takes up its entry's exact spot, rotation and pose:
/// when it already stood near it (none walked), when it walked there, and
/// when the way was blocked (an NPC must keep its schedule, so it is moved
/// there anyway); not when it died, gave up or failed on the way.
pub fn takes_the_spot(walked: Option<MoveResult>) -> (r: bool)
    ensures
        r == (match walked {
            None => true,
            Some(m) => m == MoveResult::Arrived || m == MoveResult::Blocked,
        }),
{
    match walked {
        None => true,
        Some(MoveResult::Arrived) => true,
        Some(MoveResult::Blocked) => true,
        Some(_) => false,
    }
}

/// An unchanged entry stops and starts nothing; a changed one always
/// stops the old entry's fishing and pose, joins a meeting it moves to, and
/// walks wherever a new entry is due.
pub proof fn law_only_a_change_of_entry_moves_the_npc(
    current: Due,
    new: Due,
    old_entry: Option<EntryFacts>,
    new_entry: Option<EntryFacts>,
    making_music: bool,
)
    ensures
        new == current ==> transition_spec(current, new, old_entry, new_entry, making_music) is None,
        new != current ==> match transition_spec(current, new, old_entry, new_entry, making_music) {
            Some(t) => {
                &&& (old_entry matches Some(e) && e.fishing ==> t.stop_fishing)
                &&& (old_entry matches Some(e) && e.has_action ==> t.stop_interaction)
                &&& (making_music ==> t.stop_interaction)
                &&& t.walk == new.0 is Some
                &&& (t.announce_meeting ==> t.enter_meeting && t.walk)
            },
            None => false,
        },
{
}

/// Rain only ever swaps a sheltering entry for the rain entry; a dry spell
/// or an entry that does not shelter keeps the clock's choice.
pub proof fn law_rain_only_moves_a_sheltering_entry(
    due: Due,
    shelters: Seq<bool>,
    rain: Seq<bool>,
    raining_there: bool,
)
    requires
        rain.len() <= usize::MAX,
    ensures
        !raining_there ==> due_spec(due, shelters, rain, raining_there) == due,
        due_spec(due, shelters, rain, raining_there) != due ==> {
            &&& due.0 matches Some(i) && 0 <= i < shelters.len() && shelters[i as int]
            &&& due_spec(due, shelters, rain, raining_there).0 matches Some(r) && 0 <= r < rain.len()
                && rain[r as int]
        },
{
}

/// What an NPC does once it stands on its entry's spot.
#[derive(Debug, Clone, Copy, PartialEq, Eq, Structural)]
pub enum Interaction {
    /// Nothing beyond standing there.
    Nothing,
    /// Cast the line at the entry's water.
    Cast,
    /// Work the entry's object (a pose, a stall, an instrument).
    Interact,
}

/// What an NPC does on its entry's spot: an entry that fishes casts, but
/// only when a cast can start now (rod in hand, not already fishing);
/// an entry with an action and an object works the object.
pub fn interaction(fishes: bool, can_cast: bool, has_action: bool, has_object: bool) -> (r: Interaction)
    ensures
        r == (if fishes {
            if can_cast {
                Interaction::Cast
            } else {
                Interaction::Nothing
            }
        } else if has_action && has_object {
            Interaction::Interact
        } else {
            Interaction::Nothing
        }),
{
    if fishes {
        if can_cast {
            Interaction::Cast
        } else {
            Interaction::Nothing
        }
    } else if has_action && has_object {
        Interaction::Interact
    } else {
        Interaction::Nothing
    }
}

} // verus!
