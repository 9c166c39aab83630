//! Evaluating a rule file's conditions and actions against the world.
//! A condition is a JSON value: `true`/`false`, `{"all": [..]}`,
//! `{"any": [..]}`, `{"not": c}`, `{"exists": selector}` or a comparison
//! `{"eq"|"ne"|"lt"|"lte"|"gt"|"gte": [a, b]}` whose operands are literals
//! or `{"ref": "self.level"}`-style references. A selector names a pool
//! (`"select": "monsters" | "bag" | "players" | "ground_items"`) and may
//! filter it with a `"where"` condition read against each candidate.
//! Numbers the world supplies come with their order keys, and distances are
//! measured by the caller.

use vstd::prelude::*;

use vstd::string::StringExecFns;

use crate::rules::{check_header, header_error, is_rule_order, rule_order, MAX_RULE_ACTIONS};
use crate::json::{field, find_key, get, json_eq, json_equal, key_index, lemma_key_index, member, num_key, Json, Number};

verus! {

broadcast use vstd::string::group_string_axioms;

/// What we know of ourselves.
pub struct Me {
    /// Our health as a percentage of the maximum.
    pub health_pct: Number,
    pub level: Number,
}

/// A monster in sight.
pub struct RuleMonster {
    pub id: String,
    pub kind: String,
    pub level: Number,
    /// Its health as a percentage of its maximum.
    pub health_pct: Number,
    /// The horizontal distance to us.
    pub distance: Number,
    /// The order key of the squared horizontal distance to us.
    pub dist_key: u32,
}

/// An item in our bag.
pub struct RuleItem {
    /// The item's definition id.
    pub item: String,
    pub quantity: Number,
}

/// Another player in sight.
pub struct RulePlayer {
    pub id: Number,
    pub name: String,
    /// The horizontal distance to us.
    pub distance: Number,
}

/// An item lying in sight.
pub struct RuleGroundItem {
    /// Its instance id.
    pub id: Number,
    /// Its definition id.
    pub item: String,
    /// The horizontal distance to us.
    pub distance: Number,
}

/// The world as the rules read it: what we know of ourselves, the
/// monsters and players in sight, our bag, and the items lying in sight,
/// nearest first.
pub struct RuleWorld {
    /// Ourselves, once we are in the world.
    pub me: Option<Me>,
    pub gold: Option<Number>,
    pub monsters: Vec<RuleMonster>,
    pub bag: Vec<RuleItem>,
    pub players: Vec<RulePlayer>,
    pub ground_items: Vec<RuleGroundItem>,
}

/// What a reference inside a selector's `where` reads: the candidate,
/// by its place in its pool.
#[derive(Clone, Copy)]
pub enum Subject {
    Nothing,
    Monster(usize),
    Item(usize),
    Player(usize),
    GroundItem(usize),
}

/// The name a `{"ref": name}` value reads.
pub open spec fn ref_name(v: Json) -> Option<Seq<char>> {
    match member(v, "ref"@) {
        Some(Json::Str(r)) => Some(r@),
        _ => None,
    }
}

/// A number, or null where there is none.
pub open spec fn num_or_null(n: Option<Number>) -> Json {
    match n {
        Some(x) => Json::Num(x),
        None => Json::Null,
    }
}

/// What reference `r` reads of the world and the subject; null for an
/// unknown reference or a subject of another kind.
pub open spec fn ref_value(r: Seq<char>, w: RuleWorld, s: Subject) -> Json {
    let here = w.me is Some;
    if r == "self.health_pct"@ {
        match w.me {
            Some(p) => Json::Num(p.health_pct),
            None => Json::Null,
        }
    } else if r == "self.level"@ {
        match w.me {
            Some(p) => Json::Num(p.level),
            None => Json::Null,
        }
    } else if r == "self.gold"@ {
        num_or_null(w.gold)
    } else if r == "monster.id"@ {
        match s {
            Subject::Monster(i) if i < w.monsters@.len() => Json::Str(w.monsters@[i as int].id),
            _ => Json::Null,
        }
    } else if r == "monster.kind"@ || r == "monster.name"@ {
        match s {
            Subject::Monster(i) if i < w.monsters@.len() => Json::Str(w.monsters@[i as int].kind),
            _ => Json::Null,
        }
    } else if r == "monster.level"@ {
        match s {
            Subject::Monster(i) if i < w.monsters@.len() => Json::Num(w.monsters@[i as int].level),
            _ => Json::Null,
        }
    } else if r == "monster.distance"@ {
        match s {
            Subject::Monster(i) if i < w.monsters@.len() && here => Json::Num(w.monsters@[i as int].distance),
            _ => Json::Null,
        }
    } else if r == "monster.health_pct"@ {
        match s {
            Subject::Monster(i) if i < w.monsters@.len() => Json::Num(w.monsters@[i as int].health_pct),
            _ => Json::Null,
        }
    } else if r == "item.id"@ || r == "item.name"@ {
        match s {
            Subject::Item(i) if i < w.bag@.len() => Json::Str(w.bag@[i as int].item),
            _ => Json::Null,
        }
    } else if r == "item.count"@ || r == "item.quantity"@ {
        match s {
            Subject::Item(i) if i < w.bag@.len() => Json::Num(w.bag@[i as int].quantity),
            _ => Json::Null,
        }
    } else if r == "player.id"@ {
        match s {
            Subject::Player(i) if i < w.players@.len() => Json::Num(w.players@[i as int].id),
            _ => Json::Null,
        }
    } else if r == "player.name"@ {
        match s {
            Subject::Player(i) if i < w.players@.len() => Json::Str(w.players@[i as int].name),
            _ => Json::Null,
        }
    } else if r == "player.distance"@ {
        match s {
            Subject::Player(i) if i < w.players@.len() && here => Json::Num(w.players@[i as int].distance),
            _ => Json::Null,
        }
    } else if r == "ground_item.id"@ {
        match s {
            Subject::GroundItem(i) if i < w.ground_items@.len() => Json::Num(w.ground_items@[i as int].id),
            _ => Json::Null,
        }
    } else if r == "ground_item.item"@ || r == "ground_item.name"@ {
        match s {
            Subject::GroundItem(i) if i < w.ground_items@.len() => Json::Str(w.ground_items@[i as int].item),
            _ => Json::Null,
        }
    } else if r == "ground_item.distance"@ {
        match s {
            Subject::GroundItem(i) if i < w.ground_items@.len() && here => Json::Num(
                w.ground_items@[i as int].distance,
            ),
            _ => Json::Null,
        }
    } else {
        Json::Null
    }
}

/// An operand as compared: a reference reads the world, anything else is
/// the literal itself.
pub open spec fn resolved(v: Json, w: RuleWorld, s: Subject) -> Json {
    match ref_name(v) {
        Some(r) => ref_value(r, w, s),
        None => v,
    }
}

/// A comparison between two operands: `eq`/`ne` by JSON equality, the
/// orderings between numbers only, by their values as doubles.
pub open spec fn compare_spec(op: Seq<char>, l: Json, r: Json) -> bool {
    if op == "eq"@ {
        json_eq(l, r)
    } else if op == "ne"@ {
        !json_eq(l, r)
    } else {
        match (l, r) {
            (Json::Num(a), Json::Num(b)) => {
                if op == "lt"@ {
                    num_key(a) < num_key(b)
                } else if op == "lte"@ {
                    num_key(a) <= num_key(b)
                } else if op == "gt"@ {
                    num_key(a) > num_key(b)
                } else if op == "gte"@ {
                    num_key(a) >= num_key(b)
                } else {
                    false
                }
            },
            _ => false,
        }
    }
}

/// Whether `s` reads as `lit`.
pub fn text_is(s: &str, lit: &str) -> (r: bool)
    ensures
        r == (s@ == lit@),
{
    s.to_string() == lit.to_string()
}

fn key_of(n: &Number) -> (k: u64)
    ensures
        k == num_key(*n),
{
    match n {
        Number::Int(_, k) => *k,
        Number::Float(k) => *k,
    }
}

/// Compares two operands under `op`.
pub fn compare(op: &str, l: &Json, r: &Json) -> (b: bool)
    ensures
        b == compare_spec(op@, *l, *r),
{
    if text_is(op, "eq") {
        json_equal(l, r)
    } else if text_is(op, "ne") {
        !json_equal(l, r)
    } else {
        match (l, r) {
            (Json::Num(a), Json::Num(b)) => {
                let (ka, kb) = (key_of(a), key_of(b));
                if text_is(op, "lt") {
                    ka < kb
                } else if text_is(op, "lte") {
                    ka <= kb
                } else if text_is(op, "gt") {
                    ka > kb
                } else if text_is(op, "gte") {
                    ka >= kb
                } else {
                    false
                }
            },
            _ => false,
        }
    }
}

/// The name a `{"ref": name}` value reads.
fn ref_of(v: &Json) -> (r: Option<&String>)
    ensures
        match r {
            Some(n) => ref_name(*v) == Some(n@),
            None => ref_name(*v) is None,
        },
{
    match get(v, "ref") {
        Some(Json::Str(n)) => Some(n),
        _ => None,
    }
}

fn num_json(n: &Option<Number>) -> (r: Json)
    ensures
        r == num_or_null(*n),
{
    match n {
        Some(x) => Json::Num(*x),
        None => Json::Null,
    }
}

/// What reference `r` reads of the world and the subject.
pub fn read_ref(r: &str, w: &RuleWorld, s: Subject) -> (v: Json)
    ensures
        v == ref_value(r@, *w, s),
{
    let here = w.me.is_some();
    if text_is(r, "self.health_pct") {
        match &w.me {
            Some(p) => Json::Num(p.health_pct),
            None => Json::Null,
        }
    } else if text_is(r, "self.level") {
        match &w.me {
            Some(p) => Json::Num(p.level),
            None => Json::Null,
        }
    } else if text_is(r, "self.gold") {
        num_json(&w.gold)
    } else if text_is(r, "monster.id") {
        match s {
            Subject::Monster(i) if i < w.monsters.len() => Json::Str(w.monsters[i].id.clone()),
            _ => Json::Null,
        }
    } else if text_is(r, "monster.kind") || text_is(r, "monster.name") {
        match s {
            Subject::Monster(i) if i < w.monsters.len() => Json::Str(w.monsters[i].kind.clone()),
            _ => Json::Null,
        }
    } else if text_is(r, "monster.level") {
        match s {
            Subject::Monster(i) if i < w.monsters.len() => Json::Num(w.monsters[i].level),
            _ => Json::Null,
        }
    } else if text_is(r, "monster.distance") {
        match s {
            Subject::Monster(i) if i < w.monsters.len() && here => Json::Num(w.monsters[i].distance),
            _ => Json::Null,
        }
    } else if text_is(r, "monster.health_pct") {
        match s {
            Subject::Monster(i) if i < w.monsters.len() => Json::Num(w.monsters[i].health_pct),
            _ => Json::Null,
        }
    } else if text_is(r, "item.id") || text_is(r, "item.name") {
        match s {
            Subject::Item(i) if i < w.bag.len() => Json::Str(w.bag[i].item.clone()),
            _ => Json::Null,
        }
    } else if text_is(r, "item.count") || text_is(r, "item.quantity") {
        match s {
            Subject::Item(i) if i < w.bag.len() => Json::Num(w.bag[i].quantity),
            _ => Json::Null,
        }
    } else if text_is(r, "player.id") {
        match s {
            Subject::Player(i) if i < w.players.len() => Json::Num(w.players[i].id),
            _ => Json::Null,
        }
    } else if text_is(r, "player.name") {
        match s {
            Subject::Player(i) if i < w.players.len() => Json::Str(w.players[i].name.clone()),
            _ => Json::Null,
        }
    } else if text_is(r, "player.distance") {
        match s {
            Subject::Player(i) if i < w.players.len() && here => Json::Num(w.players[i].distance),
            _ => Json::Null,
        }
    } else if text_is(r, "ground_item.id") {
        match s {
            Subject::GroundItem(i) if i < w.ground_items.len() => Json::Num(w.ground_items[i].id),
            _ => Json::Null,
        }
    } else if text_is(r, "ground_item.item") || text_is(r, "ground_item.name") {
        match s {
            Subject::GroundItem(i) if i < w.ground_items.len() => Json::Str(w.ground_items[i].item.clone()),
            _ => Json::Null,
        }
    } else if text_is(r, "ground_item.distance") {
        match s {
            Subject::GroundItem(i) if i < w.ground_items.len() && here => Json::Num(w.ground_items[i].distance),
            _ => Json::Null,
        }
    } else {
        Json::Null
    }
}

/// Compares two operands of a condition under `op`, each read against the
/// world and the subject.
pub fn compare_operands(op: &str, l: &Json, r: &Json, w: &RuleWorld, s: Subject) -> (b: bool)
    ensures
        b == compare_spec(op@, resolved(*l, *w, s), resolved(*r, *w, s)),
{
    let lv = match ref_of(l) {
        Some(n) => Some(read_ref(n.as_str(), w, s)),
        None => None,
    };
    let rv = match ref_of(r) {
        Some(n) => Some(read_ref(n.as_str(), w, s)),
        None => None,
    };
    let lref: &Json = match &lv {
        Some(x) => x,
        None => l,
    };
    let rref: &Json = match &rv {
        Some(x) => x,
        None => r,
    };
    compare(op, lref, rref)
}

/// The pool a selector draws its candidates from.
#[derive(Clone, Copy)]
pub enum Pool {
    Monsters,
    Bag,
    Players,
    GroundItems,
}

/// The pool a selector names; none for anything else.
pub open spec fn pool_of(sel: Json) -> Option<Pool> {
    match member(sel, "select"@) {
        Some(Json::Str(k)) => if k@ == "monsters"@ {
            Some(Pool::Monsters)
        } else if k@ == "bag"@ {
            Some(Pool::Bag)
        } else if k@ == "players"@ {
            Some(Pool::Players)
        } else if k@ == "ground_items"@ {
            Some(Pool::GroundItems)
        } else {
            None
        },
        _ => None,
    }
}

/// How many candidates a pool holds.
pub open spec fn pool_len(p: Pool, w: RuleWorld) -> int {
    match p {
        Pool::Monsters => w.monsters@.len() as int,
        Pool::Bag => w.bag@.len() as int,
        Pool::Players => w.players@.len() as int,
        Pool::GroundItems => w.ground_items@.len() as int,
    }
}

/// The `i`-th candidate of a pool.
pub open spec fn candidate(p: Pool, i: int) -> Subject {
    match p {
        Pool::Monsters => Subject::Monster(i as usize),
        Pool::Bag => Subject::Item(i as usize),
        Pool::Players => Subject::Player(i as usize),
        Pool::GroundItems => Subject::GroundItem(i as usize),
    }
}

/// Whether `k` names a comparison.
pub open spec fn is_op(k: Seq<char>) -> bool {
    k == "eq"@ || k == "ne"@ || k == "lt"@ || k == "lte"@ || k == "gt"@ || k == "gte"@
}

/// Whether condition `v` holds of the world, read against subject `s`.
/// Anything that is not a boolean or a one-key condition object does not
/// hold.
pub open spec fn holds(v: Json, w: RuleWorld, s: Subject) -> bool
    decreases v,
{
    match v {
        Json::Bool(b) => b,
        Json::Obj(fs) => {
            if fs@.len() != 1 {
                false
            } else {
                let k = fs@[0].0@;
                let x = fs@[0].1;
                if k == "all"@ && x is Arr {
                    forall|i: int|
                        #![trigger x->Arr_0@[i]]
                        0 <= i < x->Arr_0@.len() ==> holds(x->Arr_0@[i], w, s)
                } else if k == "any"@ && x is Arr {
                    exists|i: int|
                        #![trigger x->Arr_0@[i]]
                        0 <= i < x->Arr_0@.len() && holds(x->Arr_0@[i], w, s)
                } else if k == "not"@ {
                    !holds(x, w, s)
                } else if k == "exists"@ {
                    match (pool_of(x), x) {
                        (Some(p), Json::Obj(xf)) => {
                            let wi = key_index(xf@, "where"@);
                            proof {
                                lemma_key_index(xf@, "where"@);
                            }
                            exists|i: int|
                                #![trigger candidate(p, i)]
                                0 <= i < pool_len(p, w) && (wi < 0 || holds(xf@[wi].1, w, candidate(p, i)))
                        },
                        _ => false,
                    }
                } else if is_op(k) && x is Arr {
                    x->Arr_0@.len() == 2 && compare_spec(
                        k,
                        resolved(x->Arr_0@[0], w, s),
                        resolved(x->Arr_0@[1], w, s),
                    )
                } else {
                    false
                }
            }
        },
        _ => false,
    }
}

/// The pool a selector names.
pub fn pool(sel: &Json) -> (r: Option<Pool>)
    ensures
        r == pool_of(*sel),
{
    match get(sel, "select") {
        Some(Json::Str(k)) => if text_is(k.as_str(), "monsters") {
            Some(Pool::Monsters)
        } else if text_is(k.as_str(), "bag") {
            Some(Pool::Bag)
        } else if text_is(k.as_str(), "players") {
            Some(Pool::Players)
        } else if text_is(k.as_str(), "ground_items") {
            Some(Pool::GroundItems)
        } else {
            None
        },
        _ => None,
    }
}

fn pool_size(p: Pool, w: &RuleWorld) -> (n: usize)
    ensures
        n == pool_len(p, *w),
{
    match p {
        Pool::Monsters => w.monsters.len(),
        Pool::Bag => w.bag.len(),
        Pool::Players => w.players.len(),
        Pool::GroundItems => w.ground_items.len(),
    }
}

fn candidate_at(p: Pool, i: usize) -> (s: Subject)
    ensures
        s == candidate(p, i as int),
{
    match p {
        Pool::Monsters => Subject::Monster(i),
        Pool::Bag => Subject::Item(i),
        Pool::Players => Subject::Player(i),
        Pool::GroundItems => Subject::GroundItem(i),
    }
}

fn op_named(k: &str) -> (r: bool)
    ensures
        r == is_op(k@),
{
    text_is(k, "eq") || text_is(k, "ne") || text_is(k, "lt") || text_is(k, "lte") || text_is(k, "gt")
        || text_is(k, "gte")
}

/// Whether condition `v` holds of the world, read against subject `s`.
#[verifier::loop_isolation(false)]
pub fn condition(v: &Json, w: &RuleWorld, s: Subject) -> (r: bool)
    ensures
        r == holds(*v, *w, s),
    decreases v,
{
    match v {
        Json::Bool(b) => *b,
        Json::Obj(fs) => {
            if fs.len() != 1 {
                return false;
            }
            let k = fs[0].0.as_str();
            let x = &fs[0].1;
            proof {
                assert(decreases_to!(*v => (*v)->Obj_0));
                assert(decreases_to!(*fs => fs@));
                assert(decreases_to!(fs@ => fs@[0]));
                assert(decreases_to!(fs@[0] => fs@[0].1));
            }
            if text_is(k, "all") && matches!(x, Json::Arr(_)) {
                let xs = match x {
                    Json::Arr(xs) => xs,
                    _ => {
                        return false;
                    },
                };
                let mut i: usize = 0;
                while i < xs.len()
                    invariant
                        i <= xs@.len(),
                        *x == Json::Arr(*xs),
                        decreases_to!(*v => *x),
                        forall|m: int| 0 <= m < i ==> holds(#[trigger] xs@[m], *w, s),
                    decreases xs@.len() - i,
                {
                    proof {
                        assert(decreases_to!(*x => (*x)->Arr_0));
                        assert(decreases_to!(*xs => xs@));
                        assert(decreases_to!(xs@ => xs@[i as int]));
                    }
                    if !condition(&xs[i], w, s) {
                        return false;
                    }
                    i += 1;
                }
                true
            } else if text_is(k, "any") && matches!(x, Json::Arr(_)) {
                let xs = match x {
                    Json::Arr(xs) => xs,
                    _ => {
                        return false;
                    },
                };
                let mut i: usize = 0;
                while i < xs.len()
                    invariant
                        i <= xs@.len(),
                        *x == Json::Arr(*xs),
                        decreases_to!(*v => *x),
                        forall|m: int| 0 <= m < i ==> !holds(#[trigger] xs@[m], *w, s),
                    decreases xs@.len() - i,
                {
                    proof {
                        assert(decreases_to!(*x => (*x)->Arr_0));
                        assert(decreases_to!(*xs => xs@));
                        assert(decreases_to!(xs@ => xs@[i as int]));
                    }
                    if condition(&xs[i], w, s) {
                        return true;
                    }
                    i += 1;
                }
                false
            } else if text_is(k, "not") {
                !condition(x, w, s)
            } else if text_is(k, "exists") {
                let (p, xf) = match (pool(x), x) {
                    (Some(p), Json::Obj(xf)) => (p, xf),
                    _ => {
                        return false;
                    },
                };
                proof {
                    lemma_key_index(xf@, "where"@);
                }
                let wi = find_key(xf, "where");
                let n = pool_size(p, w);
                let mut i: usize = 0;
                while i < n
                    invariant
                        i <= n,
                        n == pool_len(p, *w),
                        *x == Json::Obj(*xf),
                        decreases_to!(*v => *x),
                        wi matches Some(j) ==> j < xf@.len() && key_index(xf@, "where"@) == j,
                        wi is None ==> key_index(xf@, "where"@) == -1,
                        forall|m: int|
                            0 <= m < i ==> !(key_index(xf@, "where"@) < 0 || holds(
                                xf@[key_index(xf@, "where"@)].1,
                                *w,
                                #[trigger] candidate(p, m),
                            )),
                    decreases n - i,
                {
                    let c = candidate_at(p, i);
                    match wi {
                        None => {
                            return true;
                        },
                        Some(j) => {
                            proof {
                                assert(decreases_to!(*x => (*x)->Obj_0));
                                assert(decreases_to!(*xf => xf@));
                                assert(decreases_to!(xf@ => xf@[j as int]));
                                assert(decreases_to!(xf@[j as int] => xf@[j as int].1));
                            }
                            if condition(&xf[j].1, w, c) {
                                return true;
                            }
                        },
                    }
                    i += 1;
                }
                false
            } else if op_named(k) && matches!(x, Json::Arr(_)) {
                match x {
                    Json::Arr(xs) => xs.len() == 2 && compare_operands(k, &xs[0], &xs[1], w, s),
                    _ => false,
                }
            } else {
                false
            }
        },
        _ => false,
    }
}

/// Whether a selector's `where` condition, if it has one, holds of
/// candidate `c`.
pub open spec fn where_holds(sel: Json, w: RuleWorld, c: Subject) -> bool {
    match sel {
        Json::Obj(xf) => {
            let wi = key_index(xf@, "where"@);
            wi < 0 || holds(xf@[wi].1, w, c)
        },
        _ => true,
    }
}

/// Whether the selector names pool `p` and admits its `i`-th candidate.
pub open spec fn admits(sel: Json, w: RuleWorld, p: Pool, i: int) -> bool {
    pool_of(sel) == Some(p) && where_holds(sel, w, candidate(p, i))
}

/// The first candidate of pool `p`, from position `i` on, that the
/// selector admits.
pub open spec fn first_admitted(sel: Json, w: RuleWorld, p: Pool, i: int) -> Option<int>
    decreases pool_len(p, w) - i,
{
    if i < 0 || i >= pool_len(p, w) {
        None
    } else if admits(sel, w, p, i) {
        Some(i)
    } else {
        first_admitted(sel, w, p, i + 1)
    }
}

/// The monster an attack selector picks among the first `k`: the nearest
/// one it admits, the first of equals; with no position of ours to
/// measure from, the first one it admits.
pub open spec fn attack_pick(sel: Json, w: RuleWorld, k: int) -> Option<int>
    decreases k,
{
    if k <= 0 {
        None
    } else {
        let prev = attack_pick(sel, w, k - 1);
        if admits(sel, w, Pool::Monsters, k - 1) {
            match prev {
                None => Some(k - 1),
                Some(b) => if w.me is Some && w.monsters@[k - 1].dist_key < w.monsters@[b].dist_key {
                    Some(k - 1)
                } else {
                    Some(b)
                },
            }
        } else {
            prev
        }
    }
}

/// Whether a selector's `where` condition, if it has one, holds of `c`.
pub fn selector_where(sel: &Json, w: &RuleWorld, c: Subject) -> (r: bool)
    ensures
        r == where_holds(*sel, *w, c),
{
    match sel {
        Json::Obj(xf) => {
            proof {
                lemma_key_index(xf@, "where"@);
            }
            match find_key(xf, "where") {
                Some(j) => condition(&xf[j].1, w, c),
                None => true,
            }
        },
        _ => true,
    }
}

/// The first candidate of pool `p` that the selector admits.
pub fn first_match(sel: &Json, w: &RuleWorld, p: Pool) -> (r: Option<usize>)
    ensures
        match r {
            Some(i) => i < pool_len(p, *w) && first_admitted(*sel, *w, p, 0) == Some(i as int),
            None => first_admitted(*sel, *w, p, 0) is None,
        },
{
    let named = pool(sel);
    let n = pool_size(p, w);
    let mut i: usize = 0;
    while i < n
        invariant
            i <= n,
            n == pool_len(p, *w),
            named == pool_of(*sel),
            first_admitted(*sel, *w, p, 0) == first_admitted(*sel, *w, p, i as int),
        decreases n - i,
    {
        let same = match (named, p) {
            (Some(Pool::Monsters), Pool::Monsters) => true,
            (Some(Pool::Bag), Pool::Bag) => true,
            (Some(Pool::Players), Pool::Players) => true,
            (Some(Pool::GroundItems), Pool::GroundItems) => true,
            _ => false,
        };
        if same && selector_where(sel, w, candidate_at(p, i)) {
            return Some(i);
        }
        i += 1;
    }
    None
}

/// The monster an attack selector picks.
pub fn pick_attack(sel: &Json, w: &RuleWorld) -> (r: Option<usize>)
    ensures
        match r {
            Some(i) => i < w.monsters@.len() && attack_pick(*sel, *w, w.monsters@.len() as int) == Some(
                i as int,
            ),
            None => attack_pick(*sel, *w, w.monsters@.len() as int) is None,
        },
{
    let named = pool(sel);
    let is_monsters = match named {
        Some(Pool::Monsters) => true,
        _ => false,
    };
    let here = w.me.is_some();
    let mut best: Option<usize> = None;
    let mut k: usize = 0;
    while k < w.monsters.len()
        invariant
            k <= w.monsters@.len(),
            is_monsters == (pool_of(*sel) == Some(Pool::Monsters)),
            here == (w.me is Some),
            match best {
                Some(b) => b < k && attack_pick(*sel, *w, k as int) == Some(b as int),
                None => attack_pick(*sel, *w, k as int) is None,
            },
        decreases w.monsters@.len() - k,
    {
        if is_monsters && selector_where(sel, w, Subject::Monster(k)) {
            best = match best {
                None => Some(k),
                Some(b) => if here && w.monsters[k].dist_key < w.monsters[b].dist_key {
                    Some(k)
                } else {
                    Some(b)
                },
            };
        }
        k += 1;
    }
    best
}

/// A walk an intent asks for; where it leads, the caller measures.
#[derive(Clone, Copy, Debug, PartialEq, Eq, Structural)]
pub enum Intent {
    Patrol,
    Flee,
    ReturnToAnchor,
}

/// The intent a name stands for.
pub open spec fn intent_named(i: Seq<char>) -> Option<Intent> {
    if i == "patrol"@ {
        Some(Intent::Patrol)
    } else if i == "flee"@ {
        Some(Intent::Flee)
    } else if i == "return_to_anchor"@ {
        Some(Intent::ReturnToAnchor)
    } else {
        None
    }
}

/// What an action gains once its selector is resolved.
#[derive(Debug)]
pub enum Extra {
    /// The attack's target.
    MonsterId(String),
    /// The item to use (its definition id) or to pick up (its instance id).
    Item(Json),
    /// Any monster: an attack whose target is picked when it is decided.
    AnyMonster,
}

/// An action in its final form: its kind, its other fields as written,
/// and what resolving its selector added.
#[derive(Debug)]
pub struct CanonicalAction {
    pub kind: String,
    pub fields: Vec<(String, Json)>,
    pub extra: Option<Extra>,
}

/// What one action of a rule comes to.
#[derive(Debug)]
pub enum Canonical {
    Walk(Intent),
    Act(CanonicalAction),
}

pub enum ActView {
    Walk(Intent),
    Act(Seq<char>, Seq<(String, Json)>, Option<Extra>),
}

pub open spec fn act_view(a: CanonicalAction) -> ActView {
    ActView::Act(a.kind@, a.fields@, a.extra)
}

/// The entries `fs` without `key`.
pub open spec fn without(fs: Seq<(String, Json)>, key: Seq<char>) -> Seq<(String, Json)> {
    if key_index(fs, key) >= 0 {
        fs.remove(key_index(fs, key))
    } else {
        fs
    }
}

/// An action's kind (its `action` field, else its `type` field, which must
/// be a string) and its other fields.
pub open spec fn kind_split(fs: Seq<(String, Json)>) -> Option<(Seq<char>, Seq<(String, Json)>)> {
    let ai = key_index(fs, "action"@);
    let kv = if ai >= 0 {
        Some(fs[ai].1)
    } else {
        field(fs, "type"@)
    };
    match kv {
        Some(Json::Str(k)) => Some((k@, without(without(fs, "action"@), "type"@))),
        _ => None,
    }
}

/// The selector an action carries under `item`, else under `target`,
/// provided the first of them present is a selector.
pub open spec fn selector_spec(fs: Seq<(String, Json)>) -> Option<Json> {
    let v = match field(fs, "item"@) {
        Some(x) => Some(x),
        None => field(fs, "target"@),
    };
    match v {
        Some(x) => if member(x, "select"@) is Some {
            Some(x)
        } else {
            None
        },
        None => None,
    }
}

/// Whether any field is still a selector.
pub open spec fn has_selector(fs: Seq<(String, Json)>) -> bool {
    exists|i: int| 0 <= i < fs.len() && #[trigger] member(fs[i].1, "select"@) is Some
}

/// An action with nothing left to resolve, or the error naming its kind.
pub open spec fn finished(k: Seq<char>, fs: Seq<(String, Json)>, extra: Option<Extra>) -> Result<ActView, Seq<char>> {
    if has_selector(fs) {
        Err("unresolved selector in '"@ + k + "' action"@)
    } else {
        Ok(ActView::Act(k, fs, extra))
    }
}

/// What action `a` of a rule comes to in world `w`: an intent becomes a
/// walk; an attack without a monster id attacks the nearest monster its
/// target admits; a use or a pickup with a selector takes the first bag
/// item or the first (nearest) ground item it admits.
#[verifier::opaque]
pub open spec fn canonical_spec(a: Json, w: RuleWorld) -> Result<ActView, Seq<char>> {
    match a {
        Json::Obj(fs0) => {
            let fs = fs0@;
            match field(fs, "intent"@) {
                Some(Json::Str(i)) => match intent_named(i@) {
                    Some(t) => Ok(ActView::Walk(t)),
                    None => Err("unknown intent '"@ + i@ + "'"@),
                },
                Some(_) => Err("intent must be a string"@),
                None => match kind_split(fs) {
                    None => Err("action type is required"@),
                    Some((k, rest)) => {
                        if k == "attack"@ && key_index(rest, "monster_id"@) < 0 {
                            match field(rest, "target"@) {
                                None => Err("attack target is required"@),
                                Some(sel) => match attack_pick(sel, w, w.monsters@.len() as int) {
                                    Some(m) => finished(
                                        k,
                                        without(rest, "target"@),
                                        Some(Extra::MonsterId(w.monsters@[m].id)),
                                    ),
                                    None => Err("attack selector matched no monster"@),
                                },
                            }
                        } else if k == "use"@ || k == "pickup"@ {
                            match selector_spec(rest) {
                                Some(sel) => {
                                    let rest2 = without(without(rest, "item"@), "target"@);
                                    if k == "use"@ {
                                        match first_admitted(sel, w, Pool::Bag, 0) {
                                            Some(i) => finished(
                                                k,
                                                rest2,
                                                Some(Extra::Item(Json::Str(w.bag@[i].item))),
                                            ),
                                            None => Err("use selector matched no bag item"@),
                                        }
                                    } else {
                                        match first_admitted(sel, w, Pool::GroundItems, 0) {
                                            Some(g) => finished(
                                                k,
                                                rest2,
                                                Some(Extra::Item(Json::Num(w.ground_items@[g].id))),
                                            ),
                                            None => Err("pickup selector matched no ground item"@),
                                        }
                                    }
                                },
                                None => finished(k, rest, None),
                            }
                        } else {
                            finished(k, rest, None)
                        }
                    },
                },
            }
        },
        _ => Err("action must be an object"@),
    }
}

/// What checking action `a` of a rule file finds: an error, nothing more
/// to check (`None`: an intent, or a use or pickup whose selector names
/// the right pool), or the action whose fields the action parser must
/// accept (an attack's selected target stands for any monster).
pub open spec fn validate_spec(a: Json) -> Result<Option<ActView>, Seq<char>> {
    match a {
        Json::Obj(fs0) => {
            let fs = fs0@;
            match field(fs, "intent"@) {
                Some(Json::Str(i)) => match intent_named(i@) {
                    Some(_) => Ok(None),
                    None => Err("unknown intent '"@ + i@ + "'"@),
                },
                Some(_) => Err("intent must be a string"@),
                None => match kind_split(fs) {
                    None => Err("action type is required"@),
                    Some((k, rest)) => {
                        if k == "attack"@ && key_index(rest, "monster_id"@) < 0 {
                            match field(rest, "target"@) {
                                None => Err("attack target is required"@),
                                Some(sel) => if pool_of(sel) != Some(Pool::Monsters) {
                                    Err("attack target must select monsters"@)
                                } else {
                                    Ok(Some(ActView::Act(k, without(rest, "target"@), Some(Extra::AnyMonster))))
                                },
                            }
                        } else if k == "use"@ || k == "pickup"@ {
                            match selector_spec(rest) {
                                Some(sel) => {
                                    if k == "use"@ && pool_of(sel) != Some(Pool::Bag) {
                                        Err("use selector must select bag"@)
                                    } else if k == "pickup"@ && pool_of(sel) != Some(Pool::GroundItems) {
                                        Err("pickup selector must select ground_items"@)
                                    } else {
                                        Ok(None)
                                    }
                                },
                                None => Ok(Some(ActView::Act(k, rest, None))),
                            }
                        } else {
                            Ok(Some(ActView::Act(k, rest, None)))
                        }
                    },
                },
            }
        },
        _ => Err("action must be an object"@),
    }
}

/// The intent a name stands for.
pub fn intent_from(i: &str) -> (r: Option<Intent>)
    ensures
        r == intent_named(i@),
{
    if text_is(i, "patrol") {
        Some(Intent::Patrol)
    } else if text_is(i, "flee") {
        Some(Intent::Flee)
    } else if text_is(i, "return_to_anchor") {
        Some(Intent::ReturnToAnchor)
    } else {
        None
    }
}

/// `prefix`, then `middle`, then `suffix`.
fn message(prefix: &str, middle: &str, suffix: &str) -> (e: String)
    ensures
        e@ == prefix@ + middle@ + suffix@,
{
    let mut e = String::from_str(prefix);
    e.append(middle);
    e.append(suffix);
    e
}

/// Takes `key` out of the entries, giving back its value.
fn remove_key(fs: &mut Vec<(String, Json)>, key: &str) -> (r: Option<Json>)
    ensures
        final(fs)@ == without(old(fs)@, key@),
        r == field(old(fs)@, key@),
{
    proof {
        lemma_key_index(fs@, key@);
    }
    match find_key(fs, key) {
        Some(j) => {
            let e = fs.remove(j);
            Some(e.1)
        },
        None => None,
    }
}

/// Splits an action into its kind and its other fields.
fn split_kind(fs: Vec<(String, Json)>) -> (r: Option<(String, Vec<(String, Json)>)>)
    ensures
        match r {
            Some((k, rest)) => kind_split(fs@) == Some((k@, rest@)),
            None => kind_split(fs@) is None,
        },
{
    let ghost f0 = fs@;
    let mut fs = fs;
    proof {
        lemma_key_index(f0, "action"@);
        lemma_key_index(f0, "type"@);
    }
    let kind: String = match find_key(&fs, "action") {
        Some(j) => {
            let e = fs.remove(j);
            match e.1 {
                Json::Str(k) => k,
                _ => {
                    return None;
                },
            }
        },
        None => match find_key(&fs, "type") {
            Some(t) => match &fs[t].1 {
                Json::Str(k) => k.clone(),
                _ => {
                    return None;
                },
            },
            None => {
                return None;
            },
        },
    };
    assert(fs@ == without(f0, "action"@));
    remove_key(&mut fs, "type");
    Some((kind, fs))
}

/// Whether the action carries a selector under `item` or `target`.
fn carries_selector(fs: &Vec<(String, Json)>) -> (r: bool)
    ensures
        r == selector_spec(fs@) is Some,
{
    proof {
        lemma_key_index(fs@, "item"@);
        lemma_key_index(fs@, "target"@);
    }
    let v: Option<&Json> = match find_key(fs, "item") {
        Some(j) => Some(&fs[j].1),
        None => match find_key(fs, "target") {
            Some(j) => Some(&fs[j].1),
            None => None,
        },
    };
    match v {
        Some(x) => get(x, "select").is_some(),
        None => false,
    }
}

/// Whether any field is still a selector.
fn any_selector(fs: &Vec<(String, Json)>) -> (r: bool)
    ensures
        r == has_selector(fs@),
{
    let mut i: usize = 0;
    while i < fs.len()
        invariant
            i <= fs@.len(),
            forall|m: int| 0 <= m < i ==> !(#[trigger] member(fs@[m].1, "select"@) is Some),
        decreases fs@.len() - i,
    {
        if get(&fs[i].1, "select").is_some() {
            return true;
        }
        i += 1;
    }
    false
}

/// An action with nothing left to resolve, or the error naming its kind.
fn finish(kind: String, fs: Vec<(String, Json)>, extra: Option<Extra>) -> (r: Result<Canonical, String>)
    ensures
        match r {
            Ok(Canonical::Act(a)) => finished(kind@, fs@, extra) == Ok::<ActView, Seq<char>>(act_view(a)),
            Ok(Canonical::Walk(_)) => false,
            Err(e) => finished(kind@, fs@, extra) == Err::<ActView, Seq<char>>(e@),
        },
{
    if any_selector(&fs) {
        Err(message("unresolved selector in '", kind.as_str(), "' action"))
    } else {
        Ok(Canonical::Act(CanonicalAction { kind, fields: fs, extra }))
    }
}

/// What one action of a rule comes to in world `w`: an intent becomes a
/// walk; an attack without a monster id attacks the nearest monster its
/// target admits; a use or a pickup with a selector takes the first bag
/// item or the first (nearest) ground item it admits; an action still
/// holding a selector after that is refused.
pub fn canonical_action(action: Json, w: &RuleWorld) -> (r: Result<Canonical, String>)
    ensures
        match r {
            Ok(Canonical::Walk(t)) => canonical_spec(action, *w) == Ok::<ActView, Seq<char>>(ActView::Walk(t)),
            Ok(Canonical::Act(a)) => canonical_spec(action, *w) == Ok::<ActView, Seq<char>>(act_view(a)),
            Err(e) => canonical_spec(action, *w) == Err::<ActView, Seq<char>>(e@),
        },
{
    reveal(canonical_spec);
    let fs = match action {
        Json::Obj(fs) => fs,
        _ => {
            return Err(String::from_str("action must be an object"));
        },
    };
    proof {
        lemma_key_index(fs@, "intent"@);
    }
    match find_key(&fs, "intent") {
        Some(j) => {
            return match &fs[j].1 {
                Json::Str(i) => match intent_from(i.as_str()) {
                    Some(t) => Ok(Canonical::Walk(t)),
                    None => Err(message("unknown intent '", i.as_str(), "'")),
                },
                _ => Err(String::from_str("intent must be a string")),
            };
        },
        None => {},
    }
    let (kind, mut rest) = match split_kind(fs) {
        Some(p) => p,
        None => {
            return Err(String::from_str("action type is required"));
        },
    };
    proof {
        lemma_key_index(rest@, "monster_id"@);
    }
    if text_is(kind.as_str(), "attack") && find_key(&rest, "monster_id").is_none() {
        let sel = match remove_key(&mut rest, "target") {
            Some(sel) => sel,
            None => {
                return Err(String::from_str("attack target is required"));
            },
        };
        match pick_attack(&sel, w) {
            Some(m) => finish(kind, rest, Some(Extra::MonsterId(w.monsters[m].id.clone()))),
            None => Err(String::from_str("attack selector matched no monster")),
        }
    } else if text_is(kind.as_str(), "use") || text_is(kind.as_str(), "pickup") {
        if !carries_selector(&rest) {
            return finish(kind, rest, None);
        }
        let ghost r0 = rest@;
        let item = remove_key(&mut rest, "item");
        let target = remove_key(&mut rest, "target");
        let sel = match item {
            Some(x) => x,
            None => target.unwrap(),
        };
        assert(selector_spec(r0) == Some(sel));
        if text_is(kind.as_str(), "use") {
            match first_match(&sel, w, Pool::Bag) {
                Some(i) => finish(kind, rest, Some(Extra::Item(Json::Str(w.bag[i].item.clone())))),
                None => Err(String::from_str("use selector matched no bag item")),
            }
        } else {
            match first_match(&sel, w, Pool::GroundItems) {
                Some(g) => finish(kind, rest, Some(Extra::Item(Json::Num(w.ground_items[g].id)))),
                None => Err(String::from_str("pickup selector matched no ground item")),
            }
        }
    } else {
        finish(kind, rest, None)
    }
}

/// Checks action `a` of a rule file before any world is read: an error,
/// `Ok(None)` when nothing more is to be checked (an intent, or a use or
/// pickup whose selector names the right pool), or the action whose fields
/// the action parser must accept, an attack's selected target standing for
/// any monster.
pub fn validate_action(action: Json) -> (r: Result<Option<CanonicalAction>, String>)
    ensures
        match r {
            Ok(None) => validate_spec(action) == Ok::<Option<ActView>, Seq<char>>(None),
            Ok(Some(a)) => validate_spec(action) == Ok::<Option<ActView>, Seq<char>>(Some(act_view(a))),
            Err(e) => validate_spec(action) == Err::<Option<ActView>, Seq<char>>(e@),
        },
{
    let fs = match action {
        Json::Obj(fs) => fs,
        _ => {
            return Err(String::from_str("action must be an object"));
        },
    };
    proof {
        lemma_key_index(fs@, "intent"@);
    }
    match find_key(&fs, "intent") {
        Some(j) => {
            return match &fs[j].1 {
                Json::Str(i) => match intent_from(i.as_str()) {
                    Some(_) => Ok(None),
                    None => Err(message("unknown intent '", i.as_str(), "'")),
                },
                _ => Err(String::from_str("intent must be a string")),
            };
        },
        None => {},
    }
    let (kind, mut rest) = match split_kind(fs) {
        Some(p) => p,
        None => {
            return Err(String::from_str("action type is required"));
        },
    };
    proof {
        lemma_key_index(rest@, "monster_id"@);
    }
    if text_is(kind.as_str(), "attack") && find_key(&rest, "monster_id").is_none() {
        let sel = match remove_key(&mut rest, "target") {
            Some(sel) => sel,
            None => {
                return Err(String::from_str("attack target is required"));
            },
        };
        match pool(&sel) {
            Some(Pool::Monsters) => Ok(Some(CanonicalAction { kind, fields: rest, extra: Some(Extra::AnyMonster) })),
            _ => Err(String::from_str("attack target must select monsters")),
        }
    } else if text_is(kind.as_str(), "use") || text_is(kind.as_str(), "pickup") {
        if !carries_selector(&rest) {
            return Ok(Some(CanonicalAction { kind, fields: rest, extra: None }));
        }
        let ghost r0 = rest@;
        let item = remove_key(&mut rest, "item");
        let target = remove_key(&mut rest, "target");
        let sel = match item {
            Some(x) => x,
            None => target.unwrap(),
        };
        assert(selector_spec(r0) == Some(sel));
        let named = pool(&sel);
        assert("use"@ != "pickup"@ && "use"@ != "attack"@) by {
            reveal_strlit("use");
            reveal_strlit("pickup");
            reveal_strlit("attack");
            assert("use"@.len() != "pickup"@.len());
            assert("use"@[0] != "attack"@[0]);
        }
        if text_is(kind.as_str(), "use") {
            match named {
                Some(Pool::Bag) => Ok(None),
                _ => Err(String::from_str("use selector must select bag")),
            }
        } else {
            match named {
                Some(Pool::GroundItems) => Ok(None),
                _ => Err(String::from_str("pickup selector must select ground_items")),
            }
        }
    } else {
        Ok(Some(CanonicalAction { kind, fields: rest, extra: None }))
    }
}

/// What an action came to, as the contracts read it.
pub open spec fn canonical_view(c: Canonical) -> ActView {
    match c {
        Canonical::Walk(t) => ActView::Walk(t),
        Canonical::Act(a) => act_view(a),
    }
}

/// Whether each rule's condition holds of the world, rule by rule.
pub fn conditions_holding(conditions: &Vec<Json>, w: &RuleWorld) -> (h: Vec<bool>)
    ensures
        h@.len() == conditions@.len(),
        forall|i: int| 0 <= i < h@.len() ==> h@[i] == holds(#[trigger] conditions@[i], *w, Subject::Nothing),
{
    let mut h: Vec<bool> = Vec::new();
    let mut i: usize = 0;
    while i < conditions.len()
        invariant
            i <= conditions@.len(),
            h@.len() == i,
            forall|m: int| 0 <= m < i ==> h@[m] == holds(#[trigger] conditions@[m], *w, Subject::Nothing),
        decreases conditions@.len() - i,
    {
        h.push(condition(&conditions[i], w, Subject::Nothing));
        i += 1;
    }
    h
}

/// The deciding rule's actions in their final form: at most
/// `MAX_RULE_ACTIONS` of them, in order; the first that fails fails the
/// decision.
pub fn canonical_actions(actions: Vec<Json>, w: &RuleWorld) -> (r: Result<Vec<Canonical>, String>)
    ensures
        ({
            let n = if actions@.len() < MAX_RULE_ACTIONS {
                actions@.len() as int
            } else {
                MAX_RULE_ACTIONS as int
            };
            match r {
                Ok(cs) => cs@.len() == n && forall|i: int|
                    0 <= i < n ==> canonical_spec(#[trigger] actions@[i], *w) == Ok::<ActView, Seq<char>>(
                        canonical_view(cs@[i]),
                    ),
                Err(e) => exists|i: int|
                    0 <= i < n && canonical_spec(#[trigger] actions@[i], *w) == Err::<ActView, Seq<char>>(e@)
                        && forall|j: int| 0 <= j < i ==> canonical_spec(#[trigger] actions@[j], *w) is Ok,
            }
        }),
{
    let ghost a0 = actions@;
    let n: usize = if actions.len() < MAX_RULE_ACTIONS {
        actions.len()
    } else {
        MAX_RULE_ACTIONS
    };
    let mut rest = actions;
    let mut out: Vec<Canonical> = Vec::new();
    let mut i: usize = 0;
    while i < n
        invariant
            i <= n,
            n <= a0.len(),
            a0 == actions@,
            n == (if a0.len() < MAX_RULE_ACTIONS { a0.len() } else { MAX_RULE_ACTIONS as nat }),
            rest@ == a0.skip(i as int),
            out@.len() == i,
            forall|m: int|
                0 <= m < i ==> canonical_spec(#[trigger] a0[m], *w) == Ok::<ActView, Seq<char>>(
                    canonical_view(out@[m]),
                ),
        decreases n - i,
    {
        assert(rest@[0] == a0[i as int]);
        let a = rest.remove(0);
        assert(rest@ == a0.skip(i + 1));
        match canonical_action(a, w) {
            Ok(c) => {
                out.push(c);
            },
            Err(e) => {
                assert(canonical_spec(a0[i as int], *w) == Err::<ActView, Seq<char>>(e@));
                assert(forall|j: int| 0 <= j < i ==> canonical_spec(#[trigger] a0[j], *w) is Ok) by {
                    assert forall|j: int| 0 <= j < i implies canonical_spec(#[trigger] a0[j], *w) is Ok by {
                        assert(canonical_spec(a0[j], *w) == Ok::<ActView, Seq<char>>(canonical_view(out@[j])));
                    }
                }
                return Err(e);
            },
        }
        i += 1;
    }
    Ok(out)
}

/// What `attack_pick` picks among the first `k` monsters.
proof fn lemma_attack_pick(sel: Json, w: RuleWorld, k: int)
    requires
        0 <= k <= w.monsters@.len(),
    ensures
        match attack_pick(sel, w, k) {
            Some(b) => {
                &&& 0 <= b < k
                &&& admits(sel, w, Pool::Monsters, b)
                &&& w.me is Some ==> forall|j: int|
                    0 <= j < k && #[trigger] admits(sel, w, Pool::Monsters, j) ==> w.monsters@[b].dist_key
                        <= w.monsters@[j].dist_key && (w.monsters@[j].dist_key == w.monsters@[b].dist_key
                        ==> b <= j)
                &&& w.me is None ==> forall|j: int|
                    0 <= j < b ==> !#[trigger] admits(sel, w, Pool::Monsters, j)
            },
            None => forall|j: int| 0 <= j < k ==> !#[trigger] admits(sel, w, Pool::Monsters, j),
        },
    decreases k,
{
    if k > 0 {
        lemma_attack_pick(sel, w, k - 1);
    }
}

/// An attack without a monster id goes for a monster its target admits,
/// and no monster it admits stands nearer; of monsters equally near, the
/// first one seen. With no position of ours to measure from, it goes for
/// the first monster admitted. It finds none only where none is admitted.
pub proof fn law_an_attack_goes_for_the_nearest_admitted_monster(sel: Json, w: RuleWorld)
    ensures
        match attack_pick(sel, w, w.monsters@.len() as int) {
            Some(b) => {
                &&& 0 <= b < w.monsters@.len()
                &&& admits(sel, w, Pool::Monsters, b)
                &&& w.me is Some ==> forall|j: int|
                    0 <= j < w.monsters@.len() && #[trigger] admits(sel, w, Pool::Monsters, j)
                        ==> w.monsters@[b].dist_key <= w.monsters@[j].dist_key && (w.monsters@[j].dist_key
                        == w.monsters@[b].dist_key ==> b <= j)
                &&& w.me is None ==> forall|j: int|
                    0 <= j < b ==> !#[trigger] admits(sel, w, Pool::Monsters, j)
            },
            None => forall|j: int|
                0 <= j < w.monsters@.len() ==> !#[trigger] admits(sel, w, Pool::Monsters, j),
        },
{
    lemma_attack_pick(sel, w, w.monsters@.len() as int);
}

/// `first_admitted` from `i` finds a candidate exactly when one at `i` or
/// later is admitted, and what it finds is admitted.
proof fn lemma_first_admitted(sel: Json, w: RuleWorld, p: Pool, i: int)
    requires
        0 <= i,
    ensures
        (first_admitted(sel, w, p, i) is Some) == (exists|j: int|
            i <= j < pool_len(p, w) && #[trigger] admits(sel, w, p, j)),
        first_admitted(sel, w, p, i) matches Some(j) ==> i <= j < pool_len(p, w) && admits(sel, w, p, j),
    decreases pool_len(p, w) - i,
{
    if i < pool_len(p, w) && !admits(sel, w, p, i) {
        lemma_first_admitted(sel, w, p, i + 1);
        if exists|j: int| i <= j < pool_len(p, w) && #[trigger] admits(sel, w, p, j) {
            let j = choose|j: int| i <= j < pool_len(p, w) && #[trigger] admits(sel, w, p, j);
            assert(j != i);
        }
    }
}

/// An `exists` condition holds exactly when its selector names a pool and
/// a candidate of that pool is admitted: the one a use or a pickup with
/// the same selector would take.
pub proof fn law_exists_holds_exactly_when_a_candidate_is_admitted(
    cond: Json,
    sel: Json,
    w: RuleWorld,
    s: Subject,
)
    requires
        cond matches Json::Obj(fs) && fs@.len() == 1 && fs@[0].0@ == "exists"@ && fs@[0].1 == sel,
    ensures
        holds(cond, w, s) == (pool_of(sel) matches Some(p) && first_admitted(sel, w, p, 0) is Some),
{
    assert("exists"@ != "all"@ && "exists"@ != "any"@ && "exists"@ != "not"@) by {
        reveal_strlit("exists");
        reveal_strlit("all");
        reveal_strlit("any");
        reveal_strlit("not");
        assert("exists"@.len() != "all"@.len());
    }
    match pool_of(sel) {
        Some(p) => {
            lemma_first_admitted(sel, w, p, 0);
            let xf = sel->Obj_0;
            lemma_key_index(xf@, "where"@);
            if holds(cond, w, s) {
                let i = choose|i: int|
                    0 <= i < pool_len(p, w) && (key_index(xf@, "where"@) < 0 || holds(
                        xf@[key_index(xf@, "where"@)].1,
                        w,
                        #[trigger] candidate(p, i),
                    ));
                assert(admits(sel, w, p, i));
            }
            if first_admitted(sel, w, p, 0) is Some {
                let j = first_admitted(sel, w, p, 0)->0;
                assert(admits(sel, w, p, j));
            }
        },
        None => {},
    }
}

/// Whatever the world, an action naming a known intent is a walk, and one
/// naming an unknown intent is refused by name.
pub proof fn law_an_intent_always_decides_a_walk(a: Json, w: RuleWorld)
    requires
        a matches Json::Obj(fs) && field(fs@, "intent"@) matches Some(Json::Str(i)),
    ensures
        match field(a->Obj_0@, "intent"@) {
            Some(Json::Str(i)) => match intent_named(i@) {
                Some(t) => canonical_spec(a, w) == Ok::<ActView, Seq<char>>(ActView::Walk(t)),
                None => canonical_spec(a, w) == Err::<ActView, Seq<char>>("unknown intent '"@ + i@ + "'"@),
            },
            _ => false,
        },
{
    reveal(canonical_spec);
}

/// The actions of a rule file, rule by rule.
pub open spec fn action_views(actions: Seq<Vec<Json>>) -> Seq<Seq<Json>> {
    actions.map_values(|v: Vec<Json>| v@)
}

/// Every action before action `j` of rule `i`, in file order, passes the
/// check.
pub open spec fn valid_before(acts: Seq<Seq<Json>>, i: int, j: int) -> bool {
    forall|a: int, b: int|
        0 <= a < acts.len() && 0 <= b < acts[a].len() && (a < i || (a == i && b < j))
            ==> #[trigger] validate_spec(acts[a][b]) is Ok
}

/// Checks a parsed rule file, in order: the header, then every action of
/// every rule in file order (the first that fails fails the file); a file
/// that passes gives the order its rules are tried in. `priorities[i]` and
/// `actions[i]` are rule `i`'s.
pub fn check_rule_file(format: &str, version: u32, priorities: &Vec<i64>, actions: Vec<Vec<Json>>) -> (r:
    Result<Vec<usize>, String>)
    requires
        priorities@.len() == actions@.len(),
    ensures
        match r {
            Ok(order) => {
                &&& header_error(format@, version) is None
                &&& valid_before(action_views(actions@), actions@.len() as int, 0)
                &&& is_rule_order(priorities@, order@)
            },
            Err(e) => match header_error(format@, version) {
                Some(h) => e@ == h,
                None => exists|i: int, j: int|
                    0 <= i < actions@.len() && 0 <= j < actions@[i]@.len() && validate_spec(
                        #[trigger] action_views(actions@)[i][j],
                    ) == Err::<Option<ActView>, Seq<char>>(e@) && valid_before(
                        action_views(actions@),
                        i,
                        j,
                    ),
            },
        },
{
    match check_header(format, version) {
        Ok(()) => {},
        Err(e) => {
            return Err(e);
        },
    }
    let ghost a0 = actions@;
    let ghost acts = action_views(a0);
    let n = actions.len();
    let mut rest = actions;
    let mut i: usize = 0;
    while i < n
        invariant
            i <= n,
            n == a0.len(),
            a0 == actions@,
            acts == action_views(a0),
            rest@ == a0.skip(i as int),
            header_error(format@, version) is None,
            valid_before(acts, i as int, 0),
        decreases n - i,
    {
        assert(rest@[0] == a0[i as int]);
        let mut rule = rest.remove(0);
        assert(rest@ == a0.skip(i + 1));
        let ghost r0 = rule@;
        assert(acts[i as int] == r0);
        let m = rule.len();
        let mut j: usize = 0;
        while j < m
            invariant
                j <= m,
                m == r0.len(),
                i < n,
                n == a0.len(),
                a0 == actions@,
                acts == action_views(a0),
                acts[i as int] == r0,
                rule@ == r0.skip(j as int),
                header_error(format@, version) is None,
                valid_before(acts, i as int, j as int),
            decreases m - j,
        {
            assert(rule@[0] == r0[j as int]);
            let a = rule.remove(0);
            assert(rule@ == r0.skip(j + 1));
            match validate_action(a) {
                Ok(_) => {},
                Err(e) => {
                    assert(validate_spec(acts[i as int][j as int]) == Err::<Option<ActView>, Seq<char>>(e@));
                    return Err(e);
                },
            }
            j += 1;
        }
        assert(valid_before(acts, i + 1, 0)) by {
            assert forall|a: int, b: int|
                0 <= a < acts.len() && 0 <= b < acts[a].len() && (a < i + 1 || (a == i + 1 && b < 0))
                    implies #[trigger] validate_spec(acts[a][b]) is Ok by {
                if a == i {
                    assert(b < j);
                }
            }
        }
        i += 1;
    }
    Ok(rule_order(priorities))
}

/// The reference names are told apart.
proof fn lemma_reference_names_differ()
    ensures
        "self.health_pct"@.len() != "self.level"@.len(),
        "self.health_pct"@.len() != "self.gold"@.len(),
        "self.health_pct"@.len() != "monster.id"@.len(),
        "self.health_pct"@.len() != "monster.kind"@.len(),
        "self.health_pct"@.len() != "monster.name"@.len(),
        "self.health_pct"@.len() != "monster.level"@.len(),
        "self.health_pct"@.len() != "monster.distance"@.len(),
        "self.health_pct"@.len() != "monster.health_pct"@.len(),
        "self.health_pct"@.len() != "item.id"@.len(),
        "self.health_pct"@.len() != "item.name"@.len(),
        "self.health_pct"@.len() != "item.count"@.len(),
        "self.health_pct"@.len() != "item.quantity"@.len(),
        "self.health_pct"@.len() != "player.id"@.len(),
        "self.health_pct"@.len() != "player.name"@.len(),
        "self.health_pct"@[0] != "player.distance"@[0],
        "self.health_pct"@.len() != "ground_item.id"@.len(),
        "self.health_pct"@.len() != "ground_item.item"@.len(),
        "self.health_pct"@.len() != "ground_item.name"@.len(),
        "self.health_pct"@.len() != "ground_item.distance"@.len(),
        "self.level"@.len() != "self.gold"@.len(),
        "self.level"@[0] != "monster.id"@[0],
        "self.level"@.len() != "monster.kind"@.len(),
        "self.level"@.len() != "monster.name"@.len(),
        "self.level"@.len() != "monster.level"@.len(),
        "self.level"@.len() != "monster.distance"@.len(),
        "self.level"@.len() != "monster.health_pct"@.len(),
        "self.level"@.len() != "item.id"@.len(),
        "self.level"@.len() != "item.name"@.len(),
        "self.level"@[0] != "item.count"@[0],
        "self.level"@.len() != "item.quantity"@.len(),
        "self.level"@.len() != "player.id"@.len(),
        "self.level"@.len() != "player.name"@.len(),
        "self.level"@.len() != "player.distance"@.len(),
        "self.level"@.len() != "ground_item.id"@.len(),
        "self.level"@.len() != "ground_item.item"@.len(),
        "self.level"@.len() != "ground_item.name"@.len(),
        "self.level"@.len() != "ground_item.distance"@.len(),
        "self.gold"@.len() != "monster.id"@.len(),
        "self.gold"@.len() != "monster.kind"@.len(),
        "self.gold"@.len() != "monster.name"@.len(),
        "self.gold"@.len() != "monster.level"@.len(),
        "self.gold"@.len() != "monster.distance"@.len(),
        "self.gold"@.len() != "monster.health_pct"@.len(),
        "self.gold"@.len() != "item.id"@.len(),
        "self.gold"@[0] != "item.name"@[0],
        "self.gold"@.len() != "item.count"@.len(),
        "self.gold"@.len() != "item.quantity"@.len(),
        "self.gold"@[0] != "player.id"@[0],
        "self.gold"@.len() != "player.name"@.len(),
        "self.gold"@.len() != "player.distance"@.len(),
        "self.gold"@.len() != "ground_item.id"@.len(),
        "self.gold"@.len() != "ground_item.item"@.len(),
        "self.gold"@.len() != "ground_item.name"@.len(),
        "self.gold"@.len() != "ground_item.distance"@.len(),
        "monster.id"@.len() != "monster.kind"@.len(),
        "monster.id"@.len() != "monster.name"@.len(),
        "monster.id"@.len() != "monster.level"@.len(),
        "monster.id"@.len() != "monster.distance"@.len(),
        "monster.id"@.len() != "monster.health_pct"@.len(),
        "monster.id"@.len() != "item.id"@.len(),
        "monster.id"@.len() != "item.name"@.len(),
        "monster.id"@[0] != "item.count"@[0],
        "monster.id"@.len() != "item.quantity"@.len(),
        "monster.id"@.len() != "player.id"@.len(),
        "monster.id"@.len() != "player.name"@.len(),
        "monster.id"@.len() != "player.distance"@.len(),
        "monster.id"@.len() != "ground_item.id"@.len(),
        "monster.id"@.len() != "ground_item.item"@.len(),
        "monster.id"@.len() != "ground_item.name"@.len(),
        "monster.id"@.len() != "ground_item.distance"@.len(),
        "monster.kind"@[8] != "monster.name"@[8],
        "monster.kind"@.len() != "monster.level"@.len(),
        "monster.kind"@.len() != "monster.distance"@.len(),
        "monster.kind"@.len() != "monster.health_pct"@.len(),
        "monster.kind"@.len() != "item.id"@.len(),
        "monster.kind"@.len() != "item.name"@.len(),
        "monster.kind"@.len() != "item.count"@.len(),
        "monster.kind"@.len() != "item.quantity"@.len(),
        "monster.kind"@.len() != "player.id"@.len(),
        "monster.kind"@.len() != "player.name"@.len(),
        "monster.kind"@.len() != "player.distance"@.len(),
        "monster.kind"@.len() != "ground_item.id"@.len(),
        "monster.kind"@.len() != "ground_item.item"@.len(),
        "monster.kind"@.len() != "ground_item.name"@.len(),
        "monster.kind"@.len() != "ground_item.distance"@.len(),
        "monster.name"@.len() != "monster.level"@.len(),
        "monster.name"@.len() != "monster.distance"@.len(),
        "monster.name"@.len() != "monster.health_pct"@.len(),
        "monster.name"@.len() != "item.id"@.len(),
        "monster.name"@.len() != "item.name"@.len(),
        "monster.name"@.len() != "item.count"@.len(),
        "monster.name"@.len() != "item.quantity"@.len(),
        "monster.name"@.len() != "player.id"@.len(),
        "monster.name"@.len() != "player.name"@.len(),
        "monster.name"@.len() != "player.distance"@.len(),
        "monster.name"@.len() != "ground_item.id"@.len(),
        "monster.name"@.len() != "ground_item.item"@.len(),
        "monster.name"@.len() != "ground_item.name"@.len(),
        "monster.name"@.len() != "ground_item.distance"@.len(),
        "monster.level"@.len() != "monster.distance"@.len(),
        "monster.level"@.len() != "monster.health_pct"@.len(),
        "monster.level"@.len() != "item.id"@.len(),
        "monster.level"@.len() != "item.name"@.len(),
        "monster.level"@.len() != "item.count"@.len(),
        "monster.level"@[0] != "item.quantity"@[0],
        "monster.level"@.len() != "player.id"@.len(),
        "monster.level"@.len() != "player.name"@.len(),
        "monster.level"@.len() != "player.distance"@.len(),
        "monster.level"@.len() != "ground_item.id"@.len(),
        "monster.level"@.len() != "ground_item.item"@.len(),
        "monster.level"@.len() != "ground_item.name"@.len(),
        "monster.level"@.len() != "ground_item.distance"@.len(),
        "monster.distance"@.len() != "monster.health_pct"@.len(),
        "monster.distance"@.len() != "item.id"@.len(),
        "monster.distance"@.len() != "item.name"@.len(),
        "monster.distance"@.len() != "item.count"@.len(),
        "monster.distance"@.len() != "item.quantity"@.len(),
        "monster.distance"@.len() != "player.id"@.len(),
        "monster.distance"@.len() != "player.name"@.len(),
        "monster.distance"@.len() != "player.distance"@.len(),
        "monster.distance"@.len() != "ground_item.id"@.len(),
        "monster.distance"@[0] != "ground_item.item"@[0],
        "monster.distance"@[0] != "ground_item.name"@[0],
        "monster.distance"@.len() != "ground_item.distance"@.len(),
        "monster.health_pct"@.len() != "item.id"@.len(),
        "monster.health_pct"@.len() != "item.name"@.len(),
        "monster.health_pct"@.len() != "item.count"@.len(),
        "monster.health_pct"@.len() != "item.quantity"@.len(),
        "monster.health_pct"@.len() != "player.id"@.len(),
        "monster.health_pct"@.len() != "player.name"@.len(),
        "monster.health_pct"@.len() != "player.distance"@.len(),
        "monster.health_pct"@.len() != "ground_item.id"@.len(),
        "monster.health_pct"@.len() != "ground_item.item"@.len(),
        "monster.health_pct"@.len() != "ground_item.name"@.len(),
        "monster.health_pct"@.len() != "ground_item.distance"@.len(),
        "item.id"@.len() != "item.name"@.len(),
        "item.id"@.len() != "item.count"@.len(),
        "item.id"@.len() != "item.quantity"@.len(),
        "item.id"@.len() != "player.id"@.len(),
        "item.id"@.len() != "player.name"@.len(),
        "item.id"@.len() != "player.distance"@.len(),
        "item.id"@.len() != "ground_item.id"@.len(),
        "item.id"@.len() != "ground_item.item"@.len(),
        "item.id"@.len() != "ground_item.name"@.len(),
        "item.id"@.len() != "ground_item.distance"@.len(),
        "item.name"@.len() != "item.count"@.len(),
        "item.name"@.len() != "item.quantity"@.len(),
        "item.name"@[0] != "player.id"@[0],
        "item.name"@.len() != "player.name"@.len(),
        "item.name"@.len() != "player.distance"@.len(),
        "item.name"@.len() != "ground_item.id"@.len(),
        "item.name"@.len() != "ground_item.item"@.len(),
        "item.name"@.len() != "ground_item.name"@.len(),
        "item.name"@.len() != "ground_item.distance"@.len(),
        "item.count"@.len() != "item.quantity"@.len(),
        "item.count"@.len() != "player.id"@.len(),
        "item.count"@.len() != "player.name"@.len(),
        "item.count"@.len() != "player.distance"@.len(),
        "item.count"@.len() != "ground_item.id"@.len(),
        "item.count"@.len() != "ground_item.item"@.len(),
        "item.count"@.len() != "ground_item.name"@.len(),
        "item.count"@.len() != "ground_item.distance"@.len(),
        "item.quantity"@.len() != "player.id"@.len(),
        "item.quantity"@.len() != "player.name"@.len(),
        "item.quantity"@.len() != "player.distance"@.len(),
        "item.quantity"@.len() != "ground_item.id"@.len(),
        "item.quantity"@.len() != "ground_item.item"@.len(),
        "item.quantity"@.len() != "ground_item.name"@.len(),
        "item.quantity"@.len() != "ground_item.distance"@.len(),
        "player.id"@.len() != "player.name"@.len(),
        "player.id"@.len() != "player.distance"@.len(),
        "player.id"@.len() != "ground_item.id"@.len(),
        "player.id"@.len() != "ground_item.item"@.len(),
        "player.id"@.len() != "ground_item.name"@.len(),
        "player.id"@.len() != "ground_item.distance"@.len(),
        "player.name"@.len() != "player.distance"@.len(),
        "player.name"@.len() != "ground_item.id"@.len(),
        "player.name"@.len() != "ground_item.item"@.len(),
        "player.name"@.len() != "ground_item.name"@.len(),
        "player.name"@.len() != "ground_item.distance"@.len(),
        "player.distance"@.len() != "ground_item.id"@.len(),
        "player.distance"@.len() != "ground_item.item"@.len(),
        "player.distance"@.len() != "ground_item.name"@.len(),
        "player.distance"@.len() != "ground_item.distance"@.len(),
        "ground_item.id"@.len() != "ground_item.item"@.len(),
        "ground_item.id"@.len() != "ground_item.name"@.len(),
        "ground_item.id"@.len() != "ground_item.distance"@.len(),
        "ground_item.item"@[12] != "ground_item.name"@[12],
        "ground_item.item"@.len() != "ground_item.distance"@.len(),
        "ground_item.name"@.len() != "ground_item.distance"@.len(),
{
    reveal_strlit("self.health_pct");
    reveal_strlit("self.level");
    reveal_strlit("self.gold");
    reveal_strlit("monster.id");
    reveal_strlit("monster.kind");
    reveal_strlit("monster.name");
    reveal_strlit("monster.level");
    reveal_strlit("monster.distance");
    reveal_strlit("monster.health_pct");
    reveal_strlit("item.id");
    reveal_strlit("item.name");
    reveal_strlit("item.count");
    reveal_strlit("item.quantity");
    reveal_strlit("player.id");
    reveal_strlit("player.name");
    reveal_strlit("player.distance");
    reveal_strlit("ground_item.id");
    reveal_strlit("ground_item.item");
    reveal_strlit("ground_item.name");
    reveal_strlit("ground_item.distance");
}

/// A reference reads the field it names of the candidate in hand: of a
/// monster its id, its type (under `monster.kind` and `monster.name`), its
/// level and its health; of a bag item its definition id and how many there
/// are; of a player its id and name; of an item on the ground its instance
/// id and definition id. A distance reads only once we are in the world to
/// measure from, and what we know of ourselves only once we are in it.
/// With no candidate of the kind in hand, a candidate's reference reads null.
pub proof fn law_a_reference_reads_the_field_it_names(w: RuleWorld, i: usize)
    ensures
        i < w.monsters@.len() ==> {
            let m = w.monsters@[i as int];
            &&& ref_value("monster.id"@, w, Subject::Monster(i)) == Json::Str(m.id)
            &&& ref_value("monster.kind"@, w, Subject::Monster(i)) == Json::Str(m.kind)
            &&& ref_value("monster.name"@, w, Subject::Monster(i)) == Json::Str(m.kind)
            &&& ref_value("monster.level"@, w, Subject::Monster(i)) == Json::Num(m.level)
            &&& ref_value("monster.health_pct"@, w, Subject::Monster(i)) == Json::Num(m.health_pct)
            &&& ref_value("monster.distance"@, w, Subject::Monster(i)) == (if w.me is Some {
                Json::Num(m.distance)
            } else {
                Json::Null
            })
        },
        i < w.bag@.len() ==> {
            let b = w.bag@[i as int];
            &&& ref_value("item.id"@, w, Subject::Item(i)) == Json::Str(b.item)
            &&& ref_value("item.name"@, w, Subject::Item(i)) == Json::Str(b.item)
            &&& ref_value("item.count"@, w, Subject::Item(i)) == Json::Num(b.quantity)
            &&& ref_value("item.quantity"@, w, Subject::Item(i)) == Json::Num(b.quantity)
        },
        i < w.players@.len() ==> {
            let p = w.players@[i as int];
            &&& ref_value("player.id"@, w, Subject::Player(i)) == Json::Num(p.id)
            &&& ref_value("player.name"@, w, Subject::Player(i)) == Json::Str(p.name)
            &&& ref_value("player.distance"@, w, Subject::Player(i)) == (if w.me is Some {
                Json::Num(p.distance)
            } else {
                Json::Null
            })
        },
        i < w.ground_items@.len() ==> {
            let g = w.ground_items@[i as int];
            &&& ref_value("ground_item.id"@, w, Subject::GroundItem(i)) == Json::Num(g.id)
            &&& ref_value("ground_item.item"@, w, Subject::GroundItem(i)) == Json::Str(g.item)
            &&& ref_value("ground_item.name"@, w, Subject::GroundItem(i)) == Json::Str(g.item)
            &&& ref_value("ground_item.distance"@, w, Subject::GroundItem(i)) == (if w.me is Some {
                Json::Num(g.distance)
            } else {
                Json::Null
            })
        },
        ref_value("self.health_pct"@, w, Subject::Nothing) == (match w.me {
            Some(p) => Json::Num(p.health_pct),
            None => Json::Null,
        }),
        ref_value("self.level"@, w, Subject::Nothing) == (match w.me {
            Some(p) => Json::Num(p.level),
            None => Json::Null,
        }),
        ref_value("self.gold"@, w, Subject::Nothing) == (match w.gold {
            Some(g) => Json::Num(g),
            None => Json::Null,
        }),
        ref_value("monster.kind"@, w, Subject::Nothing) == Json::Null,
        ref_value("item.id"@, w, Subject::Monster(i)) == Json::Null,
{
    lemma_reference_names_differ();
}

/// The condition names are told apart.
proof fn lemma_condition_names_differ()
    ensures
        "all"@[1] != "any"@[1],
        "all"@[0] != "not"@[0],
        "all"@.len() != "exists"@.len(),
        "all"@.len() != "eq"@.len(),
        "all"@.len() != "ne"@.len(),
        "all"@.len() != "lt"@.len(),
        "all"@[0] != "lte"@[0],
        "all"@.len() != "gt"@.len(),
        "all"@[0] != "gte"@[0],
        "any"@[0] != "not"@[0],
        "any"@.len() != "exists"@.len(),
        "any"@.len() != "eq"@.len(),
        "any"@.len() != "ne"@.len(),
        "any"@.len() != "lt"@.len(),
        "any"@[0] != "lte"@[0],
        "any"@.len() != "gt"@.len(),
        "any"@[0] != "gte"@[0],
        "not"@.len() != "exists"@.len(),
        "not"@.len() != "eq"@.len(),
        "not"@.len() != "ne"@.len(),
        "not"@.len() != "lt"@.len(),
        "not"@[0] != "lte"@[0],
        "not"@.len() != "gt"@.len(),
        "not"@[0] != "gte"@[0],
        "exists"@.len() != "eq"@.len(),
        "exists"@.len() != "ne"@.len(),
        "exists"@.len() != "lt"@.len(),
        "exists"@.len() != "lte"@.len(),
        "exists"@.len() != "gt"@.len(),
        "exists"@.len() != "gte"@.len(),
        "eq"@[0] != "ne"@[0],
        "eq"@[0] != "lt"@[0],
        "eq"@.len() != "lte"@.len(),
        "eq"@[0] != "gt"@[0],
        "eq"@.len() != "gte"@.len(),
        "ne"@[0] != "lt"@[0],
        "ne"@.len() != "lte"@.len(),
        "ne"@[0] != "gt"@[0],
        "ne"@.len() != "gte"@.len(),
        "lt"@.len() != "lte"@.len(),
        "lt"@[0] != "gt"@[0],
        "lt"@.len() != "gte"@.len(),
        "lte"@.len() != "gt"@.len(),
        "lte"@[0] != "gte"@[0],
        "gt"@.len() != "gte"@.len(),
{
    reveal_strlit("all");
    reveal_strlit("any");
    reveal_strlit("not");
    reveal_strlit("exists");
    reveal_strlit("eq");
    reveal_strlit("ne");
    reveal_strlit("lt");
    reveal_strlit("lte");
    reveal_strlit("gt");
    reveal_strlit("gte");
}

/// Conditions read as logic: `true` and `false` hold as written; `not`
/// negates; `all` holds when every condition of its list holds and `any`
/// when one does; `eq` and `ne` compare the operands as read against the
/// world by JSON equality; `lt`, `lte`, `gt` and `gte` hold between two
/// numbers as their values order, and never when an operand is not a
/// number. Anything else (an array, a number, a string, null) never holds.
pub proof fn law_conditions_read_as_logic(cond: Json, w: RuleWorld, s: Subject)
    ensures
        cond matches Json::Bool(b) ==> holds(cond, w, s) == b,
        (cond is Null || cond is Num || cond is Str || cond is Arr) ==> !holds(cond, w, s),
        (cond is Obj && cond->Obj_0@.len() != 1) ==> !holds(cond, w, s),
        (cond is Obj && cond->Obj_0@.len() == 1) ==> {
            let k = cond->Obj_0@[0].0@;
            let x = cond->Obj_0@[0].1;
            let xs = x->Arr_0@;
            &&& k == "not"@ ==> holds(cond, w, s) == !holds(x, w, s)
            &&& (k == "all"@ && x is Arr) ==> (holds(cond, w, s) <==> forall|i: int|
                0 <= i < xs.len() ==> holds(#[trigger] xs[i], w, s))
            &&& (k == "any"@ && x is Arr) ==> (holds(cond, w, s) <==> exists|i: int|
                0 <= i < xs.len() && holds(#[trigger] xs[i], w, s))
            &&& (x is Arr && xs.len() == 2) ==> {
                let l = resolved(xs[0], w, s);
                let r = resolved(xs[1], w, s);
                &&& k == "eq"@ ==> holds(cond, w, s) == json_eq(l, r)
                &&& k == "ne"@ ==> holds(cond, w, s) == !json_eq(l, r)
                &&& ((k == "lt"@ || k == "lte"@ || k == "gt"@ || k == "gte"@) && !(l is Num && r is Num))
                    ==> !holds(cond, w, s)
                &&& (l is Num && r is Num) ==> {
                    let a = num_key(l->Num_0);
                    let b = num_key(r->Num_0);
                    &&& k == "lt"@ ==> holds(cond, w, s) == (a < b)
                    &&& k == "lte"@ ==> holds(cond, w, s) == (a <= b)
                    &&& k == "gt"@ ==> holds(cond, w, s) == (a > b)
                    &&& k == "gte"@ ==> holds(cond, w, s) == (a >= b)
                }
            }
            &&& (is_op(k) && x is Arr && xs.len() != 2) ==> !holds(cond, w, s)
        },
{
    lemma_condition_names_differ();
}

/// What a use or a pickup takes with a selector is the first candidate of
/// its pool the selector admits: it is admitted, and none listed before it
/// is; there is none exactly when no candidate is admitted.
pub proof fn law_a_selector_takes_the_first_admitted(sel: Json, w: RuleWorld, p: Pool)
    ensures
        match first_admitted(sel, w, p, 0) {
            Some(i) => 0 <= i < pool_len(p, w) && admits(sel, w, p, i) && forall|j: int|
                0 <= j < i ==> !#[trigger] admits(sel, w, p, j),
            None => forall|j: int| 0 <= j < pool_len(p, w) ==> !#[trigger] admits(sel, w, p, j),
        },
{
    lemma_first_admitted_is_first(sel, w, p, 0);
}

/// `first_admitted` from `i` is the first admitted candidate at `i` or later.
proof fn lemma_first_admitted_is_first(sel: Json, w: RuleWorld, p: Pool, i: int)
    requires
        0 <= i,
    ensures
        match first_admitted(sel, w, p, i) {
            Some(k) => i <= k < pool_len(p, w) && admits(sel, w, p, k) && forall|j: int|
                i <= j < k ==> !#[trigger] admits(sel, w, p, j),
            None => forall|j: int| i <= j < pool_len(p, w) ==> !#[trigger] admits(sel, w, p, j),
        },
    decreases pool_len(p, w) - i,
{
    if i < pool_len(p, w) && !admits(sel, w, p, i) {
        lemma_first_admitted_is_first(sel, w, p, i + 1);
    }
}

} // verus!
