//! Monster fighter: which monster is worth a swing, and which is worth the
//! walk. Distances are measured by the caller; each sighting carries its
//! squared horizontal distance to us as an order key (the IEEE-754 bits of
//! the non-negative `f32`, which order exactly as the values do) and whether
//! it stands inside the patrol circle.

use vstd::prelude::*;

verus! {

/// The order key of 225.0 (15 m squared): how close the target must be
/// before we swing.
pub const STRIKE_RANGE_SQ_KEY: u32 = 0x4361_0000;

/// The order key of 64.0 (8 m squared): monsters this close are crowding
/// us, as close as a walk that closes on a target ever brings one.
pub const CROWD_SQ_KEY: u32 = 0x4280_0000;

/// The order key of positive infinity: any measured distance.
pub const UNBOUNDED_KEY: u32 = 0x7f80_0000;

/// A monster in sight.
#[derive(Debug)]
pub struct Sighting {
    pub id: String,
    pub monster_type: String,
    /// The dungeon depth override of the type's level.
    pub level_override: Option<u8>,
    /// Which client simulates its AI, if any.
    pub owner: Option<u64>,
    pub dead: bool,
    pub health: i64,
    pub floor_level: i8,
    /// Order key of the squared horizontal distance to us.
    pub dist_key: u32,
    /// Whether it stands inside the patrol circle.
    pub in_circle: bool,
}

pub struct SightingView {
    pub id: Seq<char>,
    pub monster_type: Seq<char>,
    pub level_override: Option<u8>,
    pub owner: Option<u64>,
    pub dead: bool,
    pub health: i64,
    pub floor_level: i8,
    pub dist_key: u32,
    pub in_circle: bool,
}

impl View for Sighting {
    type V = SightingView;

    open spec fn view(&self) -> SightingView {
        SightingView {
            id: self.id@,
            monster_type: self.monster_type@,
            level_override: self.level_override,
            owner: self.owner,
            dead: self.dead,
            health: self.health,
            floor_level: self.floor_level,
            dist_key: self.dist_key,
            in_circle: self.in_circle,
        }
    }
}

/// Combat level per monster type, from the game data. A type listed twice
/// reads as its first row.
#[derive(Debug)]
pub struct MonsterLevels {
    pub rows: Vec<(String, u8)>,
}

/// The level of `ty` in `rows`, if listed.
pub open spec fn level_row(rows: Seq<(Seq<char>, u8)>, ty: Seq<char>) -> Option<u8>
    decreases rows.len(),
{
    if rows.len() == 0 {
        None
    } else if rows[0].0 == ty {
        Some(rows[0].1)
    } else {
        level_row(rows.drop_first(), ty)
    }
}

impl View for MonsterLevels {
    type V = Seq<(Seq<char>, u8)>;

    open spec fn view(&self) -> Seq<(Seq<char>, u8)> {
        self.rows@.map_values(|r: (String, u8)| (r.0@, r.1))
    }
}

impl MonsterLevels {
    /// The level of a monster type, if the data lists it.
    pub fn get(&self, ty: &String) -> (r: Option<u8>)
        ensures
            r == level_row(self@, ty@),
    {
        let ghost rows = self@;
        let mut k: usize = 0;
        assert(rows.skip(0) == rows);
        while k < self.rows.len()
            invariant
                rows == self@,
                k <= rows.len(),
                level_row(rows, ty@) == level_row(rows.skip(k as int), ty@),
            decreases rows.len() - k,
        {
            assert(rows.skip(k as int)[0] == (self.rows@[k as int].0@, self.rows@[k as int].1));
            assert(rows.skip(k as int).drop_first() == rows.skip(k + 1));
            if self.rows[k].0 == *ty {
                return Some(self.rows[k].1);
            }
            k += 1;
        }
        assert(rows.skip(k as int).len() == 0);
        None
    }
}

/// What the fighter's rules read of the world.
#[derive(Debug)]
pub struct Field {
    /// Our own level, when we are in the world.
    pub my_level: Option<u32>,
    pub my_id: Option<u64>,
    pub my_floor: i8,
    pub monsters: Vec<Sighting>,
}

impl Field {
    pub open spec fn sightings(&self) -> Seq<SightingView> {
        self.monsters@.map_values(|m: Sighting| m@)
    }

    /// Our level, or 1 out of the world.
    pub open spec fn level(&self) -> u32 {
        match self.my_level {
            Some(l) => l,
            None => 1,
        }
    }
}

/// A monster's level: the dungeon depth override, else its type's level,
/// else 1.
pub open spec fn level_of(levels: Seq<(Seq<char>, u8)>, m: SightingView) -> u32 {
    match m.level_override {
        Some(l) => l as u32,
        None => match level_row(levels, m.monster_type) {
            Some(l) => l as u32,
            None => 1,
        },
    }
}

/// A monster's level: the dungeon depth override, else its type's level.
pub fn monster_level(levels: &MonsterLevels, m: &Sighting) -> (r: u32)
    ensures
        r == level_of(levels@, m@),
{
    match m.level_override {
        Some(l) => l as u32,
        None => match levels.get(&m.monster_type) {
            Some(l) => l as u32,
            None => 1,
        },
    }
}

/// Whether the fighter may start a fight with `m`: on our floor, not
/// another client's, alive, and inside the level margin.
pub open spec fn eligible(f: &Field, levels: Seq<(Seq<char>, u8)>, margin: u32, m: SightingView) -> bool {
    &&& m.floor_level == f.my_floor
    &&& (m.owner matches Some(o) ==> f.my_id == Some(o))
    &&& !m.dead
    &&& m.health > 0
    &&& level_of(levels, m) <= f.level() + margin
}

/// Whether the fighter may start a fight with this monster: on our floor,
/// not another player's, alive, and inside the level margin. `owner` says
/// which client simulates the monster's AI, so the ambient monsters the
/// server assigns to us are exactly the ones there are to fight.
pub fn is_eligible(f: &Field, levels: &MonsterLevels, margin: u32, m: &Sighting) -> (r: bool)
    requires
        f.level() + margin <= u32::MAX,
    ensures
        r == eligible(f, levels@, margin, m@),
{
    let my_level = match f.my_level {
        Some(l) => l,
        None => 1,
    };
    let mine_or_nobodys = match m.owner {
        None => true,
        Some(o) => f.my_id == Some(o),
    };
    m.floor_level == f.my_floor && mine_or_nobodys && !m.dead && m.health > 0 && monster_level(
        levels,
        m,
    ) <= my_level + margin
}

/// How far a monster's level sits from ours.
pub open spec fn level_gap(mine: u32, theirs: u32) -> int {
    if mine >= theirs {
        mine - theirs
    } else {
        theirs - mine
    }
}

/// Whether `m` is a candidate: within `range_key`, eligible, and inside
/// the circle when `leashed`.
pub open spec fn candidate(
    f: &Field,
    levels: Seq<(Seq<char>, u8)>,
    margin: u32,
    range_key: u32,
    leashed: bool,
    m: SightingView,
) -> bool {
    m.dist_key <= range_key && eligible(f, levels, margin, m) && (!leashed || m.in_circle)
}

/// Whether a sighting is crowding us.
pub open spec fn crowding(m: SightingView) -> bool {
    m.dist_key <= CROWD_SQ_KEY
}

/// Whether `a` ranks strictly ahead of `b`. What crowds us comes before
/// anything further out. Among those crowding us, everything is equally
/// close, so the one already bleeding is finished first (the lowest
/// health), and of equals the nearest: spreading the damage leaves the
/// whole pack alive and swinging. Further out, the level closest to ours
/// comes first, and of equal gaps the shorter walk.
pub open spec fn ranks_ahead(mine: u32, levels: Seq<(Seq<char>, u8)>, a: SightingView, b: SightingView) -> bool {
    let ga = level_gap(mine, level_of(levels, a));
    let gb = level_gap(mine, level_of(levels, b));
    if crowding(a) != crowding(b) {
        crowding(a)
    } else if crowding(a) {
        a.health < b.health || (a.health == b.health && a.dist_key < b.dist_key)
    } else {
        ga < gb || (ga == gb && a.dist_key < b.dist_key)
    }
}

/// The best candidate among the first `k` sightings: the first one no later
/// candidate ranks ahead of.
pub open spec fn best_upto(
    f: &Field,
    levels: Seq<(Seq<char>, u8)>,
    margin: u32,
    range_key: u32,
    leashed: bool,
    ms: Seq<SightingView>,
    k: int,
) -> Option<SightingView>
    decreases k,
{
    if k <= 0 {
        None
    } else {
        let prev = best_upto(f, levels, margin, range_key, leashed, ms, k - 1);
        let m = ms[k - 1];
        if !candidate(f, levels, margin, range_key, leashed, m) {
            prev
        } else {
            match prev {
                None => Some(m),
                Some(b) => if ranks_ahead(f.level(), levels, m, b) {
                    Some(m)
                } else {
                    Some(b)
                },
            }
        }
    }
}

/// The best eligible monster within `range_key`, optionally restricted to
/// what stands inside the patrol circle; nothing out of the world.
pub open spec fn best_spec(
    f: &Field,
    levels: Seq<(Seq<char>, u8)>,
    margin: u32,
    range_key: u32,
    leashed: bool,
) -> Option<Seq<char>> {
    if f.my_level is None {
        None
    } else {
        match best_upto(f, levels, margin, range_key, leashed, f.sightings(), f.sightings().len() as int) {
            Some(m) => Some(m.id),
            None => None,
        }
    }
}

/// Which of the first `k` sightings is the best candidate: the first one no
/// later candidate ranks ahead of.
pub open spec fn best_index_upto(
    f: &Field,
    levels: Seq<(Seq<char>, u8)>,
    margin: u32,
    range_key: u32,
    leashed: bool,
    ms: Seq<SightingView>,
    k: int,
) -> Option<int>
    decreases k,
{
    if k <= 0 {
        None
    } else {
        let prev = best_index_upto(f, levels, margin, range_key, leashed, ms, k - 1);
        let m = ms[k - 1];
        if !candidate(f, levels, margin, range_key, leashed, m) {
            prev
        } else {
            match prev {
                None => Some(k - 1),
                Some(b) => if ranks_ahead(f.level(), levels, m, ms[b]) {
                    Some(k - 1)
                } else {
                    Some(b)
                },
            }
        }
    }
}

/// Where in the sightings the best eligible monster stands, as `best_spec`
/// picks it; nothing out of the world.
pub open spec fn best_index_spec(
    f: &Field,
    levels: Seq<(Seq<char>, u8)>,
    margin: u32,
    range_key: u32,
    leashed: bool,
) -> Option<int> {
    if f.my_level is None {
        None
    } else {
        best_index_upto(f, levels, margin, range_key, leashed, f.sightings(), f.sightings().len() as int)
    }
}

proof fn lemma_best_index_upto(
    f: &Field,
    levels: Seq<(Seq<char>, u8)>,
    margin: u32,
    range_key: u32,
    leashed: bool,
    ms: Seq<SightingView>,
    k: int,
)
    requires
        0 <= k <= ms.len(),
    ensures
        match best_index_upto(f, levels, margin, range_key, leashed, ms, k) {
            Some(i) => 0 <= i < k && best_upto(f, levels, margin, range_key, leashed, ms, k) == Some(
                ms[i],
            ),
            None => best_upto(f, levels, margin, range_key, leashed, ms, k) is None,
        },
    decreases k,
{
    if k > 0 {
        lemma_best_index_upto(f, levels, margin, range_key, leashed, ms, k - 1);
    }
}

/// Where the best eligible monster within `range_key` of us stands among
/// the sightings, by `ranks_ahead` (the first of equals when both tie).
pub fn best_index(
    f: &Field,
    levels: &MonsterLevels,
    margin: u32,
    range_key: u32,
    leashed: bool,
) -> (r: Option<usize>)
    requires
        f.level() + margin <= u32::MAX,
    ensures
        match r {
            Some(i) => i < f.monsters@.len() && best_index_spec(f, levels@, margin, range_key, leashed)
                == Some(i as int),
            None => best_index_spec(f, levels@, margin, range_key, leashed) is None,
        },
{
    let my_level = match f.my_level {
        Some(l) => l,
        None => return None,
    };
    let ghost ms = f.sightings();
    let mut best: Option<usize> = None;
    let mut best_gap: u32 = 0;
    let mut k: usize = 0;
    while k < f.monsters.len()
        invariant
            f.level() + margin <= u32::MAX,
            f.my_level == Some(my_level),
            ms == f.sightings(),
            k <= ms.len(),
            match best {
                Some(b) => b < k && best_index_upto(f, levels@, margin, range_key, leashed, ms, k as int)
                    == Some(b as int) && best_gap as int == level_gap(
                    my_level,
                    level_of(levels@, ms[b as int]),
                ),
                None => best_index_upto(f, levels@, margin, range_key, leashed, ms, k as int) is None,
            },
        decreases ms.len() - k,
    {
        let m = &f.monsters[k];
        assert(ms[k as int] == m@);
        if m.dist_key <= range_key && is_eligible(f, levels, margin, m) && (!leashed || m.in_circle) {
            let lvl: u32 = monster_level(levels, m);
            let gap: u32 = if my_level >= lvl {
                my_level - lvl
            } else {
                lvl - my_level
            };
            match best {
                None => {
                    best = Some(k);
                    best_gap = gap;
                },
                Some(b) => {
                    assert(ms[b as int] == f.monsters@[b as int]@);
                    let other = &f.monsters[b];
                    let near = m.dist_key <= CROWD_SQ_KEY;
                    let other_near = other.dist_key <= CROWD_SQ_KEY;
                    let ahead = if near != other_near {
                        near
                    } else if near {
                        m.health < other.health || (m.health == other.health && m.dist_key
                            < other.dist_key)
                    } else {
                        gap < best_gap || (gap == best_gap && m.dist_key < other.dist_key)
                    };
                    if ahead {
                        best = Some(k);
                        best_gap = gap;
                    }
                },
            }
        }
        k += 1;
    }
    best
}

/// The best eligible monster within `range_key` of us, by `ranks_ahead`.
pub fn best_eligible_within(
    f: &Field,
    levels: &MonsterLevels,
    margin: u32,
    range_key: u32,
    leashed: bool,
) -> (r: Option<String>)
    requires
        f.level() + margin <= u32::MAX,
    ensures
        match r {
            Some(id) => best_spec(f, levels@, margin, range_key, leashed) == Some(id@),
            None => best_spec(f, levels@, margin, range_key, leashed) is None,
        },
{
    let ghost ms = f.sightings();
    proof {
        lemma_best_index_upto(f, levels@, margin, range_key, leashed, ms, ms.len() as int);
    }
    match best_index(f, levels, margin, range_key, leashed) {
        Some(b) => {
            assert(ms[b as int] == f.monsters@[b as int]@);
            Some(f.monsters[b].id.clone())
        },
        None => None,
    }
}

/// The one already inside striking range, if any — a kill that costs no
/// walking at all. Not leashed: something already in reach costs no
/// walking, wherever we are.
pub fn free_kill(f: &Field, levels: &MonsterLevels, margin: u32) -> (r: Option<String>)
    requires
        f.level() + margin <= u32::MAX,
    ensures
        match r {
            Some(id) => best_spec(f, levels@, margin, STRIKE_RANGE_SQ_KEY, false) == Some(id@),
            None => best_spec(f, levels@, margin, STRIKE_RANGE_SQ_KEY, false) is None,
        },
{
    best_eligible_within(f, levels, margin, STRIKE_RANGE_SQ_KEY, false)
}

/// The monster worth walking to, by `ranks_ahead`, but only among those
/// inside the patrol circle.
pub fn eligible_target(f: &Field, levels: &MonsterLevels, margin: u32) -> (r: Option<String>)
    requires
        f.level() + margin <= u32::MAX,
    ensures
        match r {
            Some(id) => best_spec(f, levels@, margin, UNBOUNDED_KEY, true) == Some(id@),
            None => best_spec(f, levels@, margin, UNBOUNDED_KEY, true) is None,
        },
{
    best_eligible_within(f, levels, margin, UNBOUNDED_KEY, true)
}

/// Something worth abandoning a walk for: deliberately the same question
/// `free_kill` answers, so a leg is only thrown away when the very next
/// decision really would be an attack.
pub fn prey_in_reach(f: &Field, levels: &MonsterLevels, level_margin: u32) -> (r: bool)
    requires
        f.level() + level_margin <= u32::MAX,
    ensures
        r == best_spec(f, levels@, level_margin, STRIKE_RANGE_SQ_KEY, false) is Some,
{
    free_kill(f, levels, level_margin).is_some()
}

proof fn lemma_best_upto(
    f: &Field,
    levels: Seq<(Seq<char>, u8)>,
    margin: u32,
    range_key: u32,
    leashed: bool,
    ms: Seq<SightingView>,
    k: int,
)
    requires
        0 <= k <= ms.len(),
    ensures
        match best_upto(f, levels, margin, range_key, leashed, ms, k) {
            Some(m) => {
                &&& candidate(f, levels, margin, range_key, leashed, m)
                &&& exists|b: int| 0 <= b < k && ms[b] == m
                &&& forall|j: int|
                    0 <= j < k && candidate(f, levels, margin, range_key, leashed, #[trigger] ms[j])
                        ==> !ranks_ahead(f.level(), levels, ms[j], m)
            },
            None => forall|j: int|
                0 <= j < k ==> !candidate(f, levels, margin, range_key, leashed, #[trigger] ms[j]),
        },
    decreases k,
{
    if k > 0 {
        lemma_best_upto(f, levels, margin, range_key, leashed, ms, k - 1);
        let m = ms[k - 1];
        match best_upto(f, levels, margin, range_key, leashed, ms, k - 1) {
            Some(b) => {
                let i = choose|i: int| 0 <= i < k - 1 && ms[i] == b;
                assert(ms[i] == b);
            },
            None => {},
        }
    }
}

/// The fighter's pick is the best there is: a monster in sight that is a
/// candidate (eligible, in range, inside the circle when leashed) and that
/// no other candidate ranks ahead of (crowding first, and there the most
/// wounded; further out the closest level, then the shorter walk). Nothing is picked
/// only out of the world or when there is no candidate at all.
pub proof fn law_the_pick_is_the_best_candidate(
    f: &Field,
    levels: Seq<(Seq<char>, u8)>,
    margin: u32,
    range_key: u32,
    leashed: bool,
)
    ensures
        match best_spec(f, levels, margin, range_key, leashed) {
            Some(id) => exists|i: int|
                0 <= i < f.sightings().len() && (#[trigger] f.sightings()[i]).id == id && candidate(
                    f,
                    levels,
                    margin,
                    range_key,
                    leashed,
                    f.sightings()[i],
                ) && forall|j: int|
                    0 <= j < f.sightings().len() && candidate(
                        f,
                        levels,
                        margin,
                        range_key,
                        leashed,
                        #[trigger] f.sightings()[j],
                    ) ==> !ranks_ahead(f.level(), levels, f.sightings()[j], f.sightings()[i]),
            None => f.my_level is None || forall|j: int|
                0 <= j < f.sightings().len() ==> !candidate(
                    f,
                    levels,
                    margin,
                    range_key,
                    leashed,
                    #[trigger] f.sightings()[j],
                ),
        },
{
    let ms = f.sightings();
    lemma_best_upto(f, levels, margin, range_key, leashed, ms, ms.len() as int);
    if f.my_level is Some {
        match best_upto(f, levels, margin, range_key, leashed, ms, ms.len() as int) {
            Some(m) => {
                let b = choose|b: int| 0 <= b < ms.len() && ms[b] == m;
                assert(ms[b] == m);
            },
            None => {},
        }
    }
}

/// A free kill is a kill in reach: whatever it names stands within striking
/// range, and the monster worth walking to stands inside the patrol circle.
pub proof fn law_free_kills_are_in_reach_and_walks_stay_in_the_circle(
    f: &Field,
    levels: Seq<(Seq<char>, u8)>,
    margin: u32,
)
    ensures
        best_spec(f, levels, margin, STRIKE_RANGE_SQ_KEY, false) matches Some(id) ==> exists|i: int|
            0 <= i < f.sightings().len() && (#[trigger] f.sightings()[i]).id == id
                && f.sightings()[i].dist_key <= STRIKE_RANGE_SQ_KEY && eligible(
                f,
                levels,
                margin,
                f.sightings()[i],
            ),
        best_spec(f, levels, margin, UNBOUNDED_KEY, true) matches Some(id) ==> exists|i: int|
            0 <= i < f.sightings().len() && (#[trigger] f.sightings()[i]).id == id
                && f.sightings()[i].in_circle && eligible(f, levels, margin, f.sightings()[i]),
{
    law_the_pick_is_the_best_candidate(f, levels, margin, STRIKE_RANGE_SQ_KEY, false);
    law_the_pick_is_the_best_candidate(f, levels, margin, UNBOUNDED_KEY, true);
}

/// Surrounded, the fighter finishes the wounded one first: whenever a
/// candidate crowds us the pick crowds us too, and no candidate crowding us
/// has less health left than the pick (of equal health, none is nearer).
pub proof fn law_a_surrounded_fighter_finishes_the_wounded_one_first(
    f: &Field,
    levels: Seq<(Seq<char>, u8)>,
    margin: u32,
    range_key: u32,
    leashed: bool,
)
    ensures
        best_spec(f, levels, margin, range_key, leashed) matches Some(id) ==> exists|i: int|
            0 <= i < f.sightings().len() && (#[trigger] f.sightings()[i]).id == id && forall|j: int|
                0 <= j < f.sightings().len() && candidate(
                    f,
                    levels,
                    margin,
                    range_key,
                    leashed,
                    #[trigger] f.sightings()[j],
                ) && crowding(f.sightings()[j]) ==> crowding(f.sightings()[i])
                    && f.sightings()[i].health <= f.sightings()[j].health && (f.sightings()[i].health
                    == f.sightings()[j].health ==> f.sightings()[i].dist_key <= f.sightings()[j].dist_key),
{
    law_the_pick_is_the_best_candidate(f, levels, margin, range_key, leashed);
}

/// Prey in reach stays in reach as the level margin widens: whatever is
/// worth a swing under one margin is still eligible under a larger one.
pub proof fn law_prey_in_reach_widens_with_the_margin(
    f: &Field,
    levels: Seq<(Seq<char>, u8)>,
    narrow: u32,
    wide: u32,
)
    requires
        narrow <= wide,
    ensures
        best_spec(f, levels, narrow, STRIKE_RANGE_SQ_KEY, false) is Some ==> best_spec(
            f,
            levels,
            wide,
            STRIKE_RANGE_SQ_KEY,
            false,
        ) is Some,
{
    law_the_pick_is_the_best_candidate(f, levels, narrow, STRIKE_RANGE_SQ_KEY, false);
    law_the_pick_is_the_best_candidate(f, levels, wide, STRIKE_RANGE_SQ_KEY, false);
    if best_spec(f, levels, narrow, STRIKE_RANGE_SQ_KEY, false) is Some {
        let i = choose|i: int|
            0 <= i < f.sightings().len() && candidate(
                f,
                levels,
                narrow,
                STRIKE_RANGE_SQ_KEY,
                false,
                #[trigger] f.sightings()[i],
            );
        assert(candidate(f, levels, wide, STRIKE_RANGE_SQ_KEY, false, f.sightings()[i]));
    }
}

/// Beyond the crowd, the level closest to ours wins: when nothing crowds
/// us, no candidate's level lies strictly closer to ours than the pick's,
/// and of candidates equally close in level none is nearer than the pick.
/// When something does crowd us, the pick is one that crowds us.
pub proof fn law_further_out_the_closest_level_wins(
    f: &Field,
    levels: Seq<(Seq<char>, u8)>,
    margin: u32,
    range_key: u32,
    leashed: bool,
)
    ensures
        best_spec(f, levels, margin, range_key, leashed) matches Some(id) ==> exists|i: int|
            0 <= i < f.sightings().len() && (#[trigger] f.sightings()[i]).id == id && candidate(
                f,
                levels,
                margin,
                range_key,
                leashed,
                f.sightings()[i],
            ) && forall|j: int|
                0 <= j < f.sightings().len() && candidate(
                    f,
                    levels,
                    margin,
                    range_key,
                    leashed,
                    #[trigger] f.sightings()[j],
                ) ==> {
                    let mine = f.level() as int;
                    let li = level_of(levels, f.sightings()[i]) as int;
                    let lj = level_of(levels, f.sightings()[j]) as int;
                    let gi = if mine >= li {
                        mine - li
                    } else {
                        li - mine
                    };
                    let gj = if mine >= lj {
                        mine - lj
                    } else {
                        lj - mine
                    };
                    &&& f.sightings()[j].dist_key <= CROWD_SQ_KEY ==> f.sightings()[i].dist_key
                        <= CROWD_SQ_KEY
                    &&& (f.sightings()[i].dist_key > CROWD_SQ_KEY && f.sightings()[j].dist_key
                        > CROWD_SQ_KEY) ==> (gi <= gj && (gi == gj ==> f.sightings()[i].dist_key
                        <= f.sightings()[j].dist_key))
                },
{
    law_the_pick_is_the_best_candidate(f, levels, margin, range_key, leashed);
}

} // verus!
