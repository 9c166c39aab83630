//! What the agent sees of a dungeon floor: the chests and breakables in the
//! room it stands in, the shut doors, where a floor's sweep stops, which
//! chest a walk to "the chest" goes for, and whether a locked door bars the
//! way, with the sightings listed nearest first. Grid cells are the
//! generated layout's; turning a cell into a world position and measuring
//! how far it is are the caller's.

use vstd::prelude::*;

verus! {

/// Which chest a sighting is. The two render differently, so the agent is
/// told which it is looking at, the same as a player can see.
#[derive(Debug, Clone, Copy, PartialEq, Eq, Structural)]
pub enum ChestKind {
    /// The boss-guarded chest on the deepest floor.
    Treasure,
    /// A clutter chest, by its index into the floor's props.
    Prop(u32),
}

/// How a chest is named to the agent.
pub fn chest_label(kind: ChestKind) -> (r: &'static str)
    ensures
        r@ == match kind {
            ChestKind::Treasure => "the great chest"@,
            ChestKind::Prop(_) => "a small chest"@,
        },
{
    match kind {
        ChestKind::Treasure => "the great chest",
        ChestKind::Prop(_) => "a small chest",
    }
}

/// The first treasure chest among the sightings.
pub open spec fn first_treasure(kinds: Seq<ChestKind>) -> Option<int>
    decreases kinds.len(),
{
    if kinds.len() == 0 {
        None
    } else if kinds[0] == ChestKind::Treasure {
        Some(0)
    } else {
        match first_treasure(kinds.drop_first()) {
            Some(i) => Some(i + 1),
            None => None,
        }
    }
}

/// Which sighting (nearest first) a walk to a chest goes for: when the agent
/// asks for the great chest, the treasure chest if one is in sight, else the
/// nearest; otherwise the nearest.
pub open spec fn pick_chest_spec(kinds: Seq<ChestKind>, great: bool) -> Option<int> {
    if kinds.len() == 0 {
        None
    } else if great && first_treasure(kinds) is Some {
        first_treasure(kinds)
    } else {
        Some(0)
    }
}

/// Which of the sighted chests (nearest first) a walk goes for.
pub fn pick_chest(kinds: &Vec<ChestKind>, great: bool) -> (r: Option<usize>)
    ensures
        match r {
            Some(i) => pick_chest_spec(kinds@, great) == Some(i as int),
            None => pick_chest_spec(kinds@, great) is None,
        },
{
    if kinds.len() == 0 {
        return None;
    }
    if great {
        let mut k: usize = 0;
        assert(kinds@.skip(0) == kinds@);
        while k < kinds.len()
            invariant
                great,
                kinds@.len() > 0,
                k <= kinds@.len(),
                forall|j: int| 0 <= j < k ==> kinds@[j] != ChestKind::Treasure,
                first_treasure(kinds@) == match first_treasure(kinds@.skip(k as int)) {
                    Some(i) => Some(i + k),
                    None => None,
                },
            decreases kinds@.len() - k,
        {
            assert(kinds@.skip(k as int)[0] == kinds@[k as int]);
            assert(kinds@.skip(k as int).drop_first() == kinds@.skip(k + 1));
            if kinds[k] == ChestKind::Treasure {
                assert(first_treasure(kinds@.skip(k as int)) == Some(0int));
                return Some(k);
            }
            k += 1;
        }
        assert(kinds@.skip(k as int).len() == 0);
    }
    Some(0)
}

/// What a floor prop is, as far as the agent's rules care: the clutter
/// chests, the breakables, and everything else.
#[derive(Debug, Clone, Copy, PartialEq, Eq, Structural)]
pub enum PropKind {
    Chest,
    Barrel,
    Crate,
    Scenery,
}

/// A prop of the floor layout, by its index in the floor's props: what it
/// is, its grid cell, and whether that cell lies in the room the agent
/// stands in.
#[derive(Debug, Clone, Copy)]
pub struct FloorProp {
    pub kind: PropKind,
    pub cell: (i32, i32),
    pub in_room: bool,
}

/// Whether `x` is among `v`.
pub fn holds_u32(v: &Vec<u32>, x: u32) -> (r: bool)
    ensures
        r == v@.contains(x),
{
    let mut k: usize = 0;
    while k < v.len()
        invariant
            k <= v@.len(),
            forall|j: int| 0 <= j < k ==> v@[j] != x,
        decreases v@.len() - k,
    {
        if v[k] == x {
            assert(v@[k as int] == x);
            return true;
        }
        k += 1;
    }
    false
}

/// The clutter chests among the first `n` props that are in the room and
/// not opened yet, in prop order.
pub open spec fn room_prop_chests(props: Seq<FloorProp>, opened: Seq<u32>, n: int) -> Seq<
    (ChestKind, (i32, i32)),
>
    decreases n,
{
    if n <= 0 {
        Seq::empty()
    } else {
        let p = props[n - 1];
        room_prop_chests(props, opened, n - 1) + if p.kind == PropKind::Chest && !opened.contains(
            (n - 1) as u32,
        ) && p.in_room {
            seq![(ChestKind::Prop((n - 1) as u32), p.cell)]
        } else {
            Seq::empty()
        }
    }
}

/// Every chest someone standing in a room can see: the treasure chest when
/// its cell is in the room, then the clutter chests in the room not opened
/// yet. `treasure` is the floor's treasure cell, if it has one, and whether
/// it lies in the room.
pub open spec fn chests_in_room_spec(
    treasure: Option<((i32, i32), bool)>,
    props: Seq<FloorProp>,
    opened: Seq<u32>,
) -> Seq<(ChestKind, (i32, i32))> {
    (match treasure {
        Some((cell, true)) => seq![(ChestKind::Treasure, cell)],
        _ => Seq::empty(),
    }) + room_prop_chests(props, opened, props.len() as int)
}

/// The chests visible from inside a room, treasure first, by cell: walls
/// hide every chest of the next room over. `nearest_first` then lists them
/// nearest first, by the distances the caller measures. `opened` holds the prop indices
/// already claimed on this floor.
pub fn chests_in_room(
    treasure: Option<((i32, i32), bool)>,
    props: &Vec<FloorProp>,
    opened: &Vec<u32>,
) -> (r: Vec<(ChestKind, (i32, i32))>)
    requires
        props@.len() <= u32::MAX,
    ensures
        r@ == chests_in_room_spec(treasure, props@, opened@),
{
    let mut r: Vec<(ChestKind, (i32, i32))> = Vec::new();
    match treasure {
        Some((cell, true)) => r.push((ChestKind::Treasure, cell)),
        _ => {},
    }
    let ghost head = r@;
    let mut k: usize = 0;
    while k < props.len()
        invariant
            k <= props@.len() <= u32::MAX,
            r@ == head + room_prop_chests(props@, opened@, k as int),
        decreases props@.len() - k,
    {
        let p = props[k];
        if p.kind == PropKind::Chest && !holds_u32(opened, k as u32) && p.in_room {
            r.push((ChestKind::Prop(k as u32), p.cell));
        }
        k += 1;
    }
    r
}

/// The barrels and crates among the first `n` props that are in the room
/// and not broken yet, by prop index, in prop order.
pub open spec fn room_breakables(props: Seq<FloorProp>, broken: Seq<u32>, n: int) -> Seq<
    (u32, PropKind, (i32, i32)),
>
    decreases n,
{
    if n <= 0 {
        Seq::empty()
    } else {
        let p = props[n - 1];
        room_breakables(props, broken, n - 1) + if (p.kind == PropKind::Barrel || p.kind
            == PropKind::Crate) && !broken.contains((n - 1) as u32) && p.in_room {
            seq![((n - 1) as u32, p.kind, p.cell)]
        } else {
            Seq::empty()
        }
    }
}

/// Every barrel or crate visible from inside a room, by prop index, kind
/// and cell — the same room rule as the chests, and listed nearest first
/// the same way. `broken` holds the prop
/// indices already smashed on this floor.
pub fn breakables_in_room(props: &Vec<FloorProp>, broken: &Vec<u32>) -> (r: Vec<
    (u32, PropKind, (i32, i32)),
>)
    requires
        props@.len() <= u32::MAX,
    ensures
        r@ == room_breakables(props@, broken@, props@.len() as int),
{
    let mut r: Vec<(u32, PropKind, (i32, i32))> = Vec::new();
    let mut k: usize = 0;
    while k < props.len()
        invariant
            k <= props@.len() <= u32::MAX,
            r@ == room_breakables(props@, broken@, k as int),
        decreases props@.len() - k,
    {
        let p = props[k];
        if (p.kind == PropKind::Barrel || p.kind == PropKind::Crate) && !holds_u32(broken, k as u32)
            && p.in_room {
            r.push((k as u32, p.kind, p.cell));
        }
        k += 1;
    }
    r
}

/// The doors among the first `n` that are not open, in order.
pub open spec fn shut_doors(doors: Seq<(u32, bool)>, open: Seq<u32>, n: int) -> Seq<(u32, bool)>
    decreases n,
{
    if n <= 0 {
        Seq::empty()
    } else {
        shut_doors(doors, open, n - 1) + if !open.contains(doors[n - 1].0) {
            seq![doors[n - 1]]
        } else {
            Seq::empty()
        }
    }
}

/// Every shut interior door of a floor, as `(door id, locked)`: the floor's
/// doors less the ones known to be open. A blocked route is the mover's cue
/// to walk to the nearest of these and open it.
pub fn closed_doors(doors: &Vec<(u32, bool)>, open: &Vec<u32>) -> (r: Vec<(u32, bool)>)
    ensures
        r@ == shut_doors(doors@, open@, doors@.len() as int),
{
    let mut r: Vec<(u32, bool)> = Vec::new();
    let mut k: usize = 0;
    while k < doors.len()
        invariant
            k <= doors@.len(),
            r@ == shut_doors(doors@, open@, k as int),
        decreases doors@.len() - k,
    {
        if !holds_u32(open, doors[k].0) {
            r.push(doors[k]);
        }
        k += 1;
    }
    r
}

/// The spawn cells among the first `n` that are not the guardian's.
pub open spec fn plain_spawns(spawns: Seq<((i32, i32), bool)>, n: int) -> Seq<(i32, i32)>
    decreases n,
{
    if n <= 0 {
        Seq::empty()
    } else {
        plain_spawns(spawns, n - 1) + if !spawns[n - 1].1 {
            seq![spawns[n - 1].0]
        } else {
            Seq::empty()
        }
    }
}

/// Where a floor's sweep stops: the cells the layout spawns monsters in,
/// the guardian's left out (the boss floor is claimed, not swept); the room
/// centres fill in for a floor whose table spawned nothing. `spawns` are
/// `(cell, is_boss)`.
pub open spec fn sweep_cells_spec(spawns: Seq<((i32, i32), bool)>, room_centres: Seq<(i32, i32)>) -> Seq<
    (i32, i32),
> {
    let plain = plain_spawns(spawns, spawns.len() as int);
    if plain.len() > 0 {
        plain
    } else {
        room_centres
    }
}

/// Where to walk to sweep a floor for monsters: its spawn cells, which is
/// also where the server stands monsters back up, or its room centres when
/// the floor spawned nothing. Sight underground reaches one room, so this
/// tour is what turns "nothing eligible here" into a statement about the
/// floor.
pub fn sweep_cells(spawns: &Vec<((i32, i32), bool)>, room_centres: &Vec<(i32, i32)>) -> (r: Vec<
    (i32, i32),
>)
    ensures
        r@ == sweep_cells_spec(spawns@, room_centres@),
{
    let mut r: Vec<(i32, i32)> = Vec::new();
    let mut k: usize = 0;
    while k < spawns.len()
        invariant
            k <= spawns@.len(),
            r@ == plain_spawns(spawns@, k as int),
        decreases spawns@.len() - k,
    {
        if !spawns[k].1 {
            r.push(spawns[k].0);
        }
        k += 1;
    }
    if r.len() > 0 {
        return r;
    }
    let mut k: usize = 0;
    while k < room_centres.len()
        invariant
            k <= room_centres@.len(),
            r@ == room_centres@.take(k as int),
        decreases room_centres@.len() - k,
    {
        r.push(room_centres[k]);
        assert(room_centres@.take(k + 1) == room_centres@.take(k as int).push(room_centres@[k as int]));
        k += 1;
    }
    assert(room_centres@.take(k as int) == room_centres@);
    r
}

/// Whether the way on is a shut locked door we hold no key for — the one
/// wall a walk cannot open. `here` is, when we stand in a dungeon, whether
/// each shut door of the floor is locked, and whether we carry the floor's
/// key.
pub fn locked_door_without_key(here: &Option<(Vec<bool>, bool)>) -> (r: bool)
    ensures
        r == match here {
            Some((locks, has_key)) => !*has_key && locks@.contains(true),
            None => false,
        },
{
    match here {
        Some((locks, has_key)) => !*has_key && any_set(locks),
        None => false,
    }
}

/// Whether any flag is set.
fn any_set(flags: &Vec<bool>) -> (r: bool)
    ensures
        r == flags@.contains(true),
{
    let mut k: usize = 0;
    while k < flags.len()
        invariant
            k <= flags@.len(),
            forall|j: int| 0 <= j < k ==> !flags@[j],
        decreases flags@.len() - k,
    {
        if flags[k] {
            assert(flags@[k as int] == true);
            return true;
        }
        k += 1;
    }
    false
}

proof fn lemma_room_prop_chests(props: Seq<FloorProp>, opened: Seq<u32>, n: int)
    requires
        0 <= n <= props.len() <= u32::MAX,
    ensures
        forall|i: int|
            0 <= i < room_prop_chests(props, opened, n).len() ==> {
                let (kind, cell) = #[trigger] room_prop_chests(props, opened, n)[i];
                exists|j: int|
                    0 <= j < n && kind == ChestKind::Prop(j as u32) && cell == props[j].cell
                        && props[j].kind == PropKind::Chest && props[j].in_room && !opened.contains(
                        j as u32,
                    )
            },
        forall|j: int|
            0 <= j < n && props[j].kind == PropKind::Chest && props[j].in_room && !opened.contains(
                j as u32,
            ) ==> room_prop_chests(props, opened, n).contains(
                (ChestKind::Prop(j as u32), #[trigger] props[j].cell),
            ),
    decreases n,
{
    if n > 0 {
        lemma_room_prop_chests(props, opened, n - 1);
        let prev = room_prop_chests(props, opened, n - 1);
        let all = room_prop_chests(props, opened, n);
        assert forall|i: int| 0 <= i < all.len() implies {
            let (kind, cell) = #[trigger] all[i];
            exists|j: int|
                0 <= j < n && kind == ChestKind::Prop(j as u32) && cell == props[j].cell
                    && props[j].kind == PropKind::Chest && props[j].in_room && !opened.contains(
                    j as u32,
                )
        } by {
            if i < prev.len() {
                assert(all[i] == prev[i]);
            } else {
                assert(all[i] == (ChestKind::Prop((n - 1) as u32), props[n - 1].cell));
            }
        }
        assert forall|j: int|
            0 <= j < n && props[j].kind == PropKind::Chest && props[j].in_room && !opened.contains(
                j as u32,
            ) implies all.contains((ChestKind::Prop(j as u32), #[trigger] props[j].cell)) by {
            if j < n - 1 {
                let k = choose|k: int|
                    0 <= k < prev.len() && prev[k] == (ChestKind::Prop(j as u32), props[j].cell);
                assert(all[k] == prev[k]);
            } else {
                assert(all[prev.len() as int] == (ChestKind::Prop(j as u32), props[j].cell));
            }
        }
    }
}

/// Walls hide chests: every chest sighted from a room is the treasure chest
/// standing in that room or a clutter chest in that room not opened yet, and
/// every such clutter chest is sighted.
pub proof fn law_chests_are_seen_from_their_own_room_until_opened(
    treasure: Option<((i32, i32), bool)>,
    props: Seq<FloorProp>,
    opened: Seq<u32>,
)
    requires
        props.len() <= u32::MAX,
    ensures
        forall|i: int|
            0 <= i < chests_in_room_spec(treasure, props, opened).len() ==> {
                let (kind, cell) = #[trigger] chests_in_room_spec(treasure, props, opened)[i];
                ||| kind == ChestKind::Treasure && treasure == Some((cell, true))
                ||| exists|j: int|
                    0 <= j < props.len() && kind == ChestKind::Prop(j as u32) && cell
                        == props[j].cell && props[j].kind == PropKind::Chest && props[j].in_room
                        && !opened.contains(j as u32)
            },
        forall|j: int|
            0 <= j < props.len() && props[j].kind == PropKind::Chest && props[j].in_room
                && !opened.contains(j as u32) ==> chests_in_room_spec(treasure, props, opened).contains(
                (ChestKind::Prop(j as u32), #[trigger] props[j].cell),
            ),
{
    lemma_room_prop_chests(props, opened, props.len() as int);
    let head: Seq<(ChestKind, (i32, i32))> = match treasure {
        Some((cell, true)) => seq![(ChestKind::Treasure, cell)],
        _ => Seq::empty(),
    };
    let tail = room_prop_chests(props, opened, props.len() as int);
    let all = chests_in_room_spec(treasure, props, opened);
    assert(all == head + tail);
    assert forall|i: int| 0 <= i < all.len() implies {
        let (kind, cell) = #[trigger] all[i];
        ||| kind == ChestKind::Treasure && treasure == Some((cell, true))
        ||| exists|j: int|
            0 <= j < props.len() && kind == ChestKind::Prop(j as u32) && cell == props[j].cell
                && props[j].kind == PropKind::Chest && props[j].in_room && !opened.contains(
                j as u32,
            )
    } by {
        if i >= head.len() {
            assert(all[i] == tail[i - head.len()]);
        }
    }
    assert forall|j: int|
        0 <= j < props.len() && props[j].kind == PropKind::Chest && props[j].in_room
            && !opened.contains(j as u32) implies all.contains(
        (ChestKind::Prop(j as u32), #[trigger] props[j].cell),
    ) by {
        let k = choose|k: int|
            0 <= k < tail.len() && tail[k] == (ChestKind::Prop(j as u32), props[j].cell);
        assert(all[k + head.len()] == tail[k]);
    }
}

proof fn lemma_room_breakables(props: Seq<FloorProp>, broken: Seq<u32>, n: int)
    requires
        0 <= n <= props.len() <= u32::MAX,
    ensures
        forall|i: int|
            0 <= i < room_breakables(props, broken, n).len() ==> {
                let (id, kind, cell) = #[trigger] room_breakables(props, broken, n)[i];
                exists|j: int|
                    0 <= j < n && id == j as u32 && kind == props[j].kind && cell == props[j].cell
                        && (kind == PropKind::Barrel || kind == PropKind::Crate) && props[j].in_room
                        && !broken.contains(j as u32)
            },
        forall|j: int|
            0 <= j < n && (props[j].kind == PropKind::Barrel || props[j].kind == PropKind::Crate)
                && props[j].in_room && !broken.contains(j as u32) ==> room_breakables(
                props,
                broken,
                n,
            ).contains((j as u32, props[j].kind, #[trigger] props[j].cell)),
    decreases n,
{
    if n > 0 {
        lemma_room_breakables(props, broken, n - 1);
        let prev = room_breakables(props, broken, n - 1);
        let all = room_breakables(props, broken, n);
        assert forall|i: int| 0 <= i < all.len() implies {
            let (id, kind, cell) = #[trigger] all[i];
            exists|j: int|
                0 <= j < n && id == j as u32 && kind == props[j].kind && cell == props[j].cell
                    && (kind == PropKind::Barrel || kind == PropKind::Crate) && props[j].in_room
                    && !broken.contains(j as u32)
        } by {
            if i < prev.len() {
                assert(all[i] == prev[i]);
            } else {
                assert(all[i] == ((n - 1) as u32, props[n - 1].kind, props[n - 1].cell));
            }
        }
        assert forall|j: int|
            0 <= j < n && (props[j].kind == PropKind::Barrel || props[j].kind == PropKind::Crate)
                && props[j].in_room && !broken.contains(j as u32) implies all.contains(
            (j as u32, props[j].kind, #[trigger] props[j].cell),
        ) by {
            if j < n - 1 {
                let k = choose|k: int|
                    0 <= k < prev.len() && prev[k] == (j as u32, props[j].kind, props[j].cell);
                assert(all[k] == prev[k]);
            } else {
                assert(all[prev.len() as int] == (j as u32, props[j].kind, props[j].cell));
            }
        }
    }
}

/// Walls hide clutter too: every breakable sighted from a room is a barrel
/// or crate in that room not broken yet, named by its own prop index, and
/// every such prop is sighted.
pub proof fn law_breakables_are_seen_from_their_own_room_until_broken(
    props: Seq<FloorProp>,
    broken: Seq<u32>,
)
    requires
        props.len() <= u32::MAX,
    ensures
        forall|i: int|
            0 <= i < room_breakables(props, broken, props.len() as int).len() ==> {
                let (id, kind, cell) = #[trigger] room_breakables(props, broken, props.len() as int)[i];
                exists|j: int|
                    0 <= j < props.len() && id == j as u32 && kind == props[j].kind && cell
                        == props[j].cell && (kind == PropKind::Barrel || kind == PropKind::Crate)
                        && props[j].in_room && !broken.contains(j as u32)
            },
        forall|j: int|
            0 <= j < props.len() && (props[j].kind == PropKind::Barrel || props[j].kind
                == PropKind::Crate) && props[j].in_room && !broken.contains(j as u32)
                ==> room_breakables(props, broken, props.len() as int).contains(
                (j as u32, props[j].kind, #[trigger] props[j].cell),
            ),
{
    lemma_room_breakables(props, broken, props.len() as int);
}

/// Sighting `a` comes before sighting `b`: the nearer first (by the order
/// keys of their distances), and of equally near ones the one listed first.
pub open spec fn nearer(p: Seq<u32>, a: int, b: int) -> bool {
    p[a] < p[b] || (p[a] == p[b] && a < b)
}

/// `order` lists every sighting exactly once, nearest first.
pub open spec fn is_nearest_order(p: Seq<u32>, order: Seq<usize>) -> bool {
    &&& order.len() == p.len()
    &&& forall|i: int| 0 <= i < order.len() ==> #[trigger] order[i] < p.len()
    &&& forall|r: int| 0 <= r < p.len() ==> #[trigger] order.contains(r as usize)
    &&& forall|i: int, j: int|
        0 <= i < j < order.len() ==> nearer(p, #[trigger] order[i] as int, #[trigger] order[j] as int)
}

/// The order of sightings nearest first, by the order keys of their
/// distances: a stable sort, smallest key first.
pub fn nearest_order(keys: &Vec<u32>) -> (order: Vec<usize>)
    ensures
        is_nearest_order(keys@, order@),
{
    let ghost p = keys@;
    let mut order: Vec<usize> = Vec::new();
    let mut k: usize = 0;
    while k < keys.len()
        invariant
            k <= keys.len(),
            p == keys@,
            order@.len() == k,
            forall|i: int| 0 <= i < order@.len() ==> #[trigger] order@[i] < k,
            forall|r: int| 0 <= r < k ==> #[trigger] order@.contains(r as usize),
            forall|i: int, j: int|
                0 <= i < j < order@.len() ==> nearer(p, #[trigger] order@[i] as int, #[trigger] order@[j] as int),
        decreases keys.len() - k,
    {
        let pk = keys[k];
        let mut pos: usize = 0;
        while pos < order.len() && keys[order[pos]] <= pk
            invariant
                pos <= order@.len(),
                p == keys@,
                pk == p[k as int],
                k < p.len(),
                forall|i: int| 0 <= i < order@.len() ==> #[trigger] order@[i] < k,
                forall|i: int| 0 <= i < pos ==> p[#[trigger] order@[i] as int] <= pk,
            decreases order@.len() - pos,
        {
            pos = pos + 1;
        }
        let ghost old_order = order@;
        proof {
            assert forall|i: int| pos <= i < old_order.len() implies p[#[trigger] old_order[i] as int] > pk by {
                assert(p[old_order[pos as int] as int] > pk);
                if i > pos {
                    assert(nearer(p, old_order[pos as int] as int, old_order[i] as int));
                }
            }
        }
        order.insert(pos, k);
        proof {
            assert forall|i: int| 0 <= i < order@.len() implies #[trigger] order@[i] < k + 1 by {
                if i < pos {
                    assert(order@[i] == old_order[i]);
                } else if i > pos {
                    assert(order@[i] == old_order[i - 1]);
                }
            }
            assert forall|r: int| 0 <= r < k + 1 implies #[trigger] order@.contains(r as usize) by {
                if r == k {
                    assert(order@[pos as int] == k);
                } else {
                    assert(old_order.contains(r as usize));
                    let i = choose|i: int| 0 <= i < old_order.len() && old_order[i] == r as usize;
                    if i < pos {
                        assert(order@[i] == old_order[i]);
                    } else {
                        assert(order@[i + 1] == old_order[i]);
                    }
                }
            }
            assert forall|i: int, j: int| 0 <= i < j < order@.len() implies nearer(
                p,
                #[trigger] order@[i] as int,
                #[trigger] order@[j] as int,
            ) by {
                if j < pos {
                    assert(order@[i] == old_order[i] && order@[j] == old_order[j]);
                } else if j == pos {
                    assert(order@[i] == old_order[i]);
                    assert(p[old_order[i] as int] <= pk && old_order[i] < k);
                } else if i < pos {
                    assert(order@[i] == old_order[i] && order@[j] == old_order[j - 1]);
                    assert(nearer(p, old_order[i] as int, old_order[j - 1] as int));
                } else if i == pos {
                    assert(order@[j] == old_order[j - 1]);
                    assert(p[old_order[j - 1] as int] > pk);
                } else {
                    assert(order@[i] == old_order[i - 1] && order@[j] == old_order[j - 1]);
                    assert(nearer(p, old_order[i - 1] as int, old_order[j - 1] as int));
                }
            }
        }
        k = k + 1;
    }
    order
}

/// Sightings nearest first: `keys[i]` is the order key of how far sighting
/// `i` stands from us, as the caller measured it; of equally near ones the
/// one listed first comes first. The order is unique
/// (`law_the_nearest_first_order_is_unique`).
pub fn nearest_first<T: Copy>(items: &Vec<T>, keys: &Vec<u32>) -> (r: Vec<T>)
    requires
        items@.len() == keys@.len(),
    ensures
        exists|order: Seq<usize>|
            is_nearest_order(keys@, order) && r@ == order.map_values(|i: usize| items@[i as int]),
{
    let order = nearest_order(keys);
    let mut r: Vec<T> = Vec::new();
    let mut k: usize = 0;
    while k < order.len()
        invariant
            k <= order@.len(),
            order@.len() == keys@.len(),
            items@.len() == keys@.len(),
            is_nearest_order(keys@, order@),
            r@ == order@.take(k as int).map_values(|i: usize| items@[i as int]),
        decreases order@.len() - k,
    {
        let x = items[order[k]];
        r.push(x);
        assert(order@.take(k + 1) == order@.take(k as int).push(order@[k as int]));
        assert(r@ =~= order@.take(k + 1).map_values(|i: usize| items@[i as int]));
        k += 1;
    }
    assert(order@.take(k as int) == order@);
    r
}

/// In a nearest-first order no sighting is listed twice.
proof fn lemma_nearest_order_distinct(p: Seq<u32>, o: Seq<usize>, i: int, j: int)
    requires
        is_nearest_order(p, o),
        0 <= i < j < o.len(),
    ensures
        o[i] != o[j],
{
    assert(nearer(p, o[i] as int, o[j] as int));
}

/// Two nearest-first orders of the same sightings agree on their first
/// `n + 1` places.
proof fn lemma_nearest_orders_agree(p: Seq<u32>, o1: Seq<usize>, o2: Seq<usize>, n: int)
    requires
        is_nearest_order(p, o1),
        is_nearest_order(p, o2),
        0 <= n < p.len(),
    ensures
        forall|m: int| 0 <= m <= n ==> #[trigger] o1[m] == o2[m],
    decreases n,
{
    if n > 0 {
        lemma_nearest_orders_agree(p, o1, o2, n - 1);
    }
    let a = o1[n];
    let b = o2[n];
    assert(o2.contains(a as usize));
    let j = choose|j: int| 0 <= j < o2.len() && o2[j] == a;
    assert(o1.contains(b as usize));
    let jj = choose|jj: int| 0 <= jj < o1.len() && o1[jj] == b;
    if a != b {
        if j < n {
            assert(o1[j] == o2[j]);
            lemma_nearest_order_distinct(p, o1, j, n);
        }
        if jj < n {
            assert(o1[jj] == o2[jj]);
            lemma_nearest_order_distinct(p, o2, jj, n);
        }
        assert(j != n && jj != n);
        assert(nearer(p, o2[n] as int, o2[j] as int));
        assert(nearer(p, o1[n] as int, o1[jj] as int));
    }
}

/// There is one nearest-first order of given sightings: two orders that
/// both list every sighting once, nearest first and equally near ones as
/// listed, are the same.
pub proof fn law_the_nearest_first_order_is_unique(p: Seq<u32>, o1: Seq<usize>, o2: Seq<usize>)
    requires
        is_nearest_order(p, o1),
        is_nearest_order(p, o2),
    ensures
        o1 == o2,
{
    if p.len() > 0 {
        lemma_nearest_orders_agree(p, o1, o2, p.len() - 1);
    }
    assert(o1 =~= o2);
}

} // verus!
