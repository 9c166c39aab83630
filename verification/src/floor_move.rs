//! A move to a dungeon floor: what the agent is told instead of walking,
//! and which legs run. A depth counts downward from the surface (1 is the
//! first floor below ground, 0 leaves the dungeon) and its sign is ignored.
//! The walk runs in two legs, the surface approach to the entrance and then
//! the descent, because a search across floors from far away runs out of
//! nodes long before it reaches the stairs. The caller finds the dungeon,
//! tells whether we stand outside its footprint, and walks each leg.

use vstd::prelude::*;
use vstd::string::StringExecFns;

use crate::execute::{describe_target, MoveTargetKind};
use crate::text::{decimal, push_decimal};

verus! {

broadcast use vstd::string::group_string_axioms;

/// The floor a move asks for: the depth's size, capped at the deepest a
/// floor number goes.
pub open spec fn requested_floor_spec(depth: Option<i32>) -> Option<u8> {
    match depth {
        Some(d) => {
            let a: int = if d < 0 {
                -d
            } else {
                d as int
            };
            Some(
                if a > 255 {
                    255u8
                } else {
                    a as u8
                },
            )
        },
        None => None,
    }
}

/// The floor a move asks for.
pub fn requested_floor(depth: Option<i32>) -> (r: Option<u8>)
    ensures
        r == requested_floor_spec(depth),
{
    match depth {
        Some(d) => {
            if d < -255 || d > 255 {
                Some(255u8)
            } else if d < 0 {
                Some((-d) as u8)
            } else {
                Some(d as u8)
            }
        },
        None => None,
    }
}

/// How a floor move goes.
pub enum FloorMove {
    /// Nothing to walk: tell the agent this.
    Say(String),
    /// Walk to the entrance first when `via_entrance`, then to `floor`: 0
    /// stops outside, none stops at the entrance, any other floor is walked
    /// down to.
    Walk { via_entrance: bool, floor: Option<u8> },
}

/// How a floor move goes, as values.
pub enum FloorPlan {
    Say(Seq<char>),
    Walk { via_entrance: bool, floor: Option<u8> },
}

pub open spec fn already_above_note() -> Seq<char> {
    "[Arrived] You are already above ground — there is no dungeon to leave."@
}

pub open spec fn no_dungeon_note() -> Seq<char> {
    "[MoveFailed] There is no dungeon here to go into."@
}

pub open spec fn too_deep_note(name: Seq<char>, max_depth: u8) -> Seq<char> {
    "[MoveFailed] "@ + name + " only goes down to floor "@ + decimal(max_depth as nat) + "."@
}

pub open spec fn other_dungeon_note(level: nat, name: Seq<char>) -> Seq<char> {
    "[MoveFailed] You are on floor "@ + decimal(level)
        + " of another dungeon. Come back up with {\"type\": \"move\", \"depth\": 0} before heading for "@
        + name + "."@
}

pub open spec fn already_inside_note(name: Seq<char>, level: nat) -> Seq<char> {
    "[Arrived] You are already inside "@ + name + ", on floor "@ + decimal(level)
        + ". Name a \"depth\" to change floor, or 0 to leave."@
}

/// How a floor move goes. `depth` is the requested floor, `floor_level` the
/// one we stand on (negative underground), `dungeon` the one the move is
/// aimed at (its name and deepest floor), `outside` whether we stand outside
/// its footprint.
pub open spec fn plan_spec(
    depth: Option<u8>,
    floor_level: i32,
    dungeon: Option<(Seq<char>, u8)>,
    outside: bool,
) -> FloorPlan {
    if depth == Some(0u8) && floor_level >= 0 {
        FloorPlan::Say(already_above_note())
    } else {
        match dungeon {
            None => FloorPlan::Say(no_dungeon_note()),
            Some((name, max_depth)) => {
                if depth is Some && depth->0 > max_depth {
                    FloorPlan::Say(too_deep_note(name, max_depth))
                } else if depth is None && floor_level < 0 {
                    // A bare "go to X" from underground asks to be at X.
                    let level = (-floor_level) as nat;
                    if outside {
                        FloorPlan::Say(other_dungeon_note(level, name))
                    } else {
                        FloorPlan::Say(already_inside_note(name, level))
                    }
                } else {
                    FloorPlan::Walk {
                        via_entrance: outside || depth is None || depth == Some(0u8),
                        floor: depth,
                    }
                }
            },
        }
    }
}

/// How a floor move goes.
pub fn plan_floor_move(
    depth: Option<u8>,
    floor_level: i32,
    dungeon: Option<(&str, u8)>,
    outside: bool,
) -> (r: FloorMove)
    requires
        !(depth is None && dungeon is Some && floor_level == i32::MIN),
    ensures
        match r {
            FloorMove::Say(n) => plan_spec(
                depth,
                floor_level,
                match dungeon {
                    Some((name, m)) => Some((name@, m)),
                    None => None,
                },
                outside,
            ) == FloorPlan::Say(n@),
            FloorMove::Walk { via_entrance, floor } => plan_spec(
                depth,
                floor_level,
                match dungeon {
                    Some((name, m)) => Some((name@, m)),
                    None => None,
                },
                outside,
            ) == (FloorPlan::Walk { via_entrance, floor }),
        },
{
    let leaving = match depth {
        Some(d) => d == 0,
        None => false,
    };
    if leaving && floor_level >= 0 {
        return FloorMove::Say(
            String::from_str("[Arrived] You are already above ground — there is no dungeon to leave."),
        );
    }
    match dungeon {
        None => FloorMove::Say(String::from_str("[MoveFailed] There is no dungeon here to go into.")),
        Some((name, max_depth)) => {
            let too_deep = match depth {
                Some(d) => d > max_depth,
                None => false,
            };
            if too_deep {
                let mut n = String::from_str("[MoveFailed] ");
                n.append(name);
                n.append(" only goes down to floor ");
                push_decimal(&mut n, max_depth as u32);
                n.append(".");
                return FloorMove::Say(n);
            }
            if depth.is_none() && floor_level < 0 {
                let level: u32 = (-floor_level) as u32;
                if outside {
                    let mut n = String::from_str("[MoveFailed] You are on floor ");
                    push_decimal(&mut n, level);
                    n.append(
                        " of another dungeon. Come back up with {\"type\": \"move\", \"depth\": 0} before heading for ",
                    );
                    n.append(name);
                    n.append(".");
                    return FloorMove::Say(n);
                } else {
                    let mut n = String::from_str("[Arrived] You are already inside ");
                    n.append(name);
                    n.append(", on floor ");
                    push_decimal(&mut n, level);
                    n.append(". Name a \"depth\" to change floor, or 0 to leave.");
                    return FloorMove::Say(n);
                }
            }
            FloorMove::Walk { via_entrance: outside || depth.is_none() || leaving, floor: depth }
        },
    }
}

pub open spec fn entrance_blocked_note(name: Seq<char>) -> Seq<char> {
    "[MoveFailed] You could not reach the entrance of "@ + name + "."@
}

pub open spec fn back_outside_note(name: Seq<char>) -> Seq<char> {
    "[Arrived] You are back outside "@ + name + "."@
}

pub open spec fn at_entrance_note(name: Seq<char>, max_depth: u8) -> Seq<char> {
    "[Arrived] You stand at the entrance of "@ + name + " ("@ + decimal(max_depth as nat)
        + " floors deep). Go in with {\"type\": \"move\", \"target\": \""@ + name
        + "\", \"depth\": 1}."@
}

/// What follows the walk to the entrance: a blocked walk fails, a move out
/// of the dungeon or to its entrance ends there with its note, and a move
/// to a floor goes on down (none).
pub open spec fn after_entrance_spec(
    floor: Option<u8>,
    name: Seq<char>,
    max_depth: u8,
    blocked: bool,
) -> Option<Seq<char>> {
    if blocked {
        Some(entrance_blocked_note(name))
    } else {
        match floor {
            Some(d) => if d == 0 {
                Some(back_outside_note(name))
            } else {
                None
            },
            None => Some(at_entrance_note(name, max_depth)),
        }
    }
}

/// What follows the walk to the entrance.
pub fn after_entrance(floor: Option<u8>, name: &str, max_depth: u8, blocked: bool) -> (r: Option<
    String,
>)
    ensures
        match r {
            Some(n) => after_entrance_spec(floor, name@, max_depth, blocked) == Some(n@),
            None => after_entrance_spec(floor, name@, max_depth, blocked) is None,
        },
{
    if blocked {
        let mut n = String::from_str("[MoveFailed] You could not reach the entrance of ");
        n.append(name);
        n.append(".");
        return Some(n);
    }
    match floor {
        Some(d) => {
            if d == 0 {
                let mut n = String::from_str("[Arrived] You are back outside ");
                n.append(name);
                n.append(".");
                Some(n)
            } else {
                None
            }
        },
        None => {
            let mut n = String::from_str("[Arrived] You stand at the entrance of ");
            n.append(name);
            n.append(" (");
            push_decimal(&mut n, max_depth as u32);
            n.append(" floors deep). Go in with {\"type\": \"move\", \"target\": \"");
            n.append(name);
            n.append("\", \"depth\": 1}.");
            Some(n)
        },
    }
}

/// How a leg of the walk went.
#[derive(Debug, Clone, Copy, PartialEq, Eq, Structural)]
pub enum LegResult {
    Arrived,
    /// No route: the way is sealed.
    Blocked,
    Error,
}

/// The note closing a descent to `floor` of the dungeon `name`.
pub open spec fn descent_note_spec(name: Seq<char>, floor: u8, leg: LegResult) -> Seq<char> {
    match leg {
        LegResult::Arrived => "[Arrived] You are on floor "@ + decimal(floor as nat) + " of "@
            + name + "."@,
        LegResult::Blocked => "[MoveFailed] You could not get to floor "@ + decimal(floor as nat)
            + " of "@ + name
            + " — the way is sealed. Try a floor closer to where you are."@,
        LegResult::Error => "[MoveFailed] Something went wrong on the way to floor "@ + decimal(
            floor as nat,
        ) + " of "@ + name + "."@,
    }
}

/// The note closing a descent.
pub fn descent_note(name: &str, floor: u8, leg: LegResult) -> (r: String)
    ensures
        r@ == descent_note_spec(name@, floor, leg),
{
    match leg {
        LegResult::Arrived => {
            let mut n = String::from_str("[Arrived] You are on floor ");
            push_decimal(&mut n, floor as u32);
            n.append(" of ");
            n.append(name);
            n.append(".");
            n
        },
        LegResult::Blocked => {
            let mut n = String::from_str("[MoveFailed] You could not get to floor ");
            push_decimal(&mut n, floor as u32);
            n.append(" of ");
            n.append(name);
            n.append(" — the way is sealed. Try a floor closer to where you are.");
            n
        },
        LegResult::Error => {
            let mut n = String::from_str("[MoveFailed] Something went wrong on the way to floor ");
            push_decimal(&mut n, floor as u32);
            n.append(" of ");
            n.append(name);
            n.append(".");
            n
        },
    }
}

/// The sign and digits of `n`, as `{}` prints a signed integer.
pub open spec fn signed_decimal(n: i32) -> Seq<char> {
    if n < 0 {
        "-"@ + decimal((-n) as nat)
    } else {
        decimal(n as nat)
    }
}

/// The note for a depth given with a target that is not a dungeon.
pub open spec fn depth_misplaced_spec(depth: i32, named: Seq<char>, kind: MoveTargetKind) -> Seq<
    char,
> {
    "[MoveFailed] \"depth\": "@ + signed_decimal(depth) + " only goes with a dungeon name, but '"@
        + named + "' is "@ + describe_spec(kind) + ". Move to it without a depth, or name a dungeon."@
}

/// What a resolved target is, in words.
pub open spec fn describe_spec(t: MoveTargetKind) -> Seq<char> {
    match t {
        MoveTargetKind::Character => "a character"@,
        MoveTargetKind::Monster => "a monster"@,
        MoveTargetKind::GroundItem => "an item on the ground"@,
        MoveTargetKind::Prop => "a prop"@,
        MoveTargetKind::Chest => "a chest"@,
        MoveTargetKind::Dungeon => "a dungeon"@,
    }
}

/// The note for a depth given with a target that is not a dungeon.
pub fn depth_misplaced(depth: i32, named: &str, kind: MoveTargetKind) -> (r: String)
    ensures
        r@ == depth_misplaced_spec(depth, named@, kind),
{
    let mut n = String::from_str("[MoveFailed] \"depth\": ");
    if depth < 0 {
        n.append("-");
        let m: u32 = (-(depth as i64)) as u32;
        push_decimal(&mut n, m);
    } else {
        push_decimal(&mut n, depth as u32);
    }
    n.append(" only goes with a dungeon name, but '");
    n.append(named);
    n.append("' is ");
    n.append(describe_target(kind));
    n.append(". Move to it without a depth, or name a dungeon.");
    n
}

/// A move out of the dungeon from above ground walks nowhere; a move is
/// never walked past the dungeon's deepest floor; a walk that skips the
/// entrance always goes down to a floor.
pub proof fn law_a_floor_move_walks_only_where_the_dungeon_goes(
    depth: Option<u8>,
    floor_level: i32,
    dungeon: Option<(Seq<char>, u8)>,
    outside: bool,
)
    ensures
        depth == Some(0u8) && floor_level >= 0 ==> plan_spec(depth, floor_level, dungeon, outside)
            is Say,
        dungeon is None ==> plan_spec(depth, floor_level, dungeon, outside) is Say,
        match plan_spec(depth, floor_level, dungeon, outside) {
            FloorPlan::Walk { via_entrance, floor } => {
                &&& floor == depth
                &&& dungeon is Some
                &&& (floor is Some ==> floor->0 <= dungeon.unwrap().1)
                &&& (!via_entrance ==> !outside && floor is Some && floor->0 > 0)
            },
            FloorPlan::Say(_) => true,
        },
{
}

} // verus!
