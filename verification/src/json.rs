//! JSON values as a rule file writes them and as the rules see the world.
//! Numbers are carried exactly as JSON tells them apart (an integer is
//! never equal to a float) together with an order key: the order key of the
//! number read as a double, from which `<` between any two numbers follows.

use vstd::prelude::*;

verus! {

broadcast use vstd::string::group_string_axioms;

/// A JSON number.
#[derive(Clone, Copy, Debug)]
pub enum Number {
    /// An integer, with the order key of its value read as a double.
    Int(i128, u64),
    /// A double, by its order key (equal doubles have equal keys).
    Float(u64),
}

/// A JSON value. An object lists each key once.
#[derive(Debug)]
pub enum Json {
    Null,
    Bool(bool),
    Num(Number),
    Str(String),
    Arr(Vec<Json>),
    Obj(Vec<(String, Json)>),
}

/// Equality of numbers: integers by value, doubles by value, and an integer
/// never equals a double.
pub open spec fn num_eq(a: Number, b: Number) -> bool {
    match (a, b) {
        (Number::Int(x, _), Number::Int(y, _)) => x == y,
        (Number::Float(x), Number::Float(y)) => x == y,
        _ => false,
    }
}

/// The order key of a number read as a double.
pub open spec fn num_key(a: Number) -> u64 {
    match a {
        Number::Int(_, k) => k,
        Number::Float(k) => k,
    }
}

/// Where `key` first stands among the entries `fs`, or -1.
pub open spec fn key_index(fs: Seq<(String, Json)>, key: Seq<char>) -> int
    decreases fs.len(),
{
    if fs.len() == 0 {
        -1
    } else if fs[0].0@ == key {
        0
    } else {
        let r = key_index(fs.drop_first(), key);
        if r < 0 {
            -1
        } else {
            r + 1
        }
    }
}

/// `key_index` is the first position of the key, or -1 where it is absent.
pub broadcast proof fn lemma_key_index(fs: Seq<(String, Json)>, key: Seq<char>)
    ensures
        -1 <= #[trigger] key_index(fs, key) < fs.len(),
        key_index(fs, key) >= 0 ==> fs[key_index(fs, key)].0@ == key,
        forall|m: int| 0 <= m < fs.len() && (key_index(fs, key) < 0 || m < key_index(fs, key))
            ==> #[trigger] fs[m].0@ != key,
    decreases fs.len(),
{
    if fs.len() > 0 && fs[0].0@ != key {
        lemma_key_index(fs.drop_first(), key);
        assert forall|m: int| 0 <= m < fs.len() && (key_index(fs, key) < 0 || m < key_index(fs, key))
            implies #[trigger] fs[m].0@ != key by {
            if m > 0 {
                assert(fs[m] == fs.drop_first()[m - 1]);
            }
        }
    }
}

/// The value of `key` among the entries `fs`.
pub open spec fn field(fs: Seq<(String, Json)>, key: Seq<char>) -> Option<Json> {
    if key_index(fs, key) >= 0 {
        Some(fs[key_index(fs, key)].1)
    } else {
        None
    }
}

/// Equality of JSON values: arrays element by element, objects as maps
/// from key to value, whatever order they list their keys in.
pub open spec fn json_eq(a: Json, b: Json) -> bool
    decreases a,
{
    match a {
        Json::Null => b is Null,
        Json::Bool(x) => b matches Json::Bool(y) && x == y,
        Json::Num(x) => b matches Json::Num(y) && num_eq(x, y),
        Json::Str(x) => b matches Json::Str(y) && x@ == y@,
        Json::Arr(xs) => b matches Json::Arr(ys) && xs@.len() == ys@.len() && forall|i: int|
            #![trigger xs@[i]]
            0 <= i < xs@.len() ==> json_eq(xs@[i], ys@[i]),
        Json::Obj(xs) => b matches Json::Obj(ys) && xs@.len() == ys@.len() && forall|i: int|
            #![trigger xs@[i]]
            0 <= i < xs@.len() ==> key_index(ys@, xs@[i].0@) >= 0 && json_eq(
                xs@[i].1,
                ys@[key_index(ys@, xs@[i].0@)].1,
            ),
    }
}

/// Where `key` first stands among the entries `fs`.
pub fn find_key(fs: &Vec<(String, Json)>, key: &str) -> (r: Option<usize>)
    ensures
        match r {
            Some(j) => key_index(fs@, key@) == j,
            None => key_index(fs@, key@) == -1,
        },
{
    proof {
        lemma_key_index(fs@, key@);
    }
    let want = key.to_string();
    let mut k: usize = 0;
    while k < fs.len()
        invariant
            want@ == key@,
            k <= fs@.len(),
            -1 <= key_index(fs@, key@) < fs@.len(),
            key_index(fs@, key@) < 0 || k <= key_index(fs@, key@),
            key_index(fs@, key@) >= 0 ==> fs@[key_index(fs@, key@)].0@ == key@,
            forall|m: int| 0 <= m < fs@.len() && (key_index(fs@, key@) < 0 || m < key_index(fs@, key@))
                ==> #[trigger] fs@[m].0@ != key@,
        decreases fs@.len() - k,
    {
        if fs[k].0 == want {
            return Some(k);
        }
        k += 1;
    }
    None
}

/// The value of `key` in `v` when `v` is an object; nothing for any other
/// value.
pub open spec fn member(v: Json, key: Seq<char>) -> Option<Json> {
    match v {
        Json::Obj(fs) => field(fs@, key),
        _ => None,
    }
}

/// The value of `key` in an object; nothing for any other value.
pub fn get<'a>(v: &'a Json, key: &str) -> (r: Option<&'a Json>)
    ensures
        match r {
            Some(x) => member(*v, key@) == Some(*x),
            None => member(*v, key@) is None,
        },
{
    match v {
        Json::Obj(fs) => {
            proof {
                lemma_key_index(fs@, key@);
            }
            match find_key(fs, key) {
                Some(j) => Some(&fs[j].1),
                None => None,
            }
        },
        _ => None,
    }
}

fn number_equal(a: &Number, b: &Number) -> (r: bool)
    ensures
        r == num_eq(*a, *b),
{
    match (a, b) {
        (Number::Int(x, _), Number::Int(y, _)) => *x == *y,
        (Number::Float(x), Number::Float(y)) => *x == *y,
        _ => false,
    }
}

/// Whether two JSON values are equal.
pub fn json_equal(a: &Json, b: &Json) -> (r: bool)
    ensures
        r == json_eq(*a, *b),
    decreases a,
{
    match a {
        Json::Null => match b {
            Json::Null => true,
            _ => false,
        },
        Json::Bool(x) => match b {
            Json::Bool(y) => *x == *y,
            _ => false,
        },
        Json::Num(x) => match b {
            Json::Num(y) => number_equal(x, y),
            _ => false,
        },
        Json::Str(x) => match b {
            Json::Str(y) => *x == *y,
            _ => false,
        },
        Json::Arr(xs) => match b {
            Json::Arr(ys) => {
                if xs.len() != ys.len() {
                    return false;
                }
                let mut i: usize = 0;
                while i < xs.len()
                    invariant
                        i <= xs@.len(),
                        xs@.len() == ys@.len(),
                        *a == Json::Arr(*xs),
                        *b == Json::Arr(*ys),
                        forall|k: int| 0 <= k < i ==> json_eq(#[trigger] xs@[k], ys@[k]),
                    decreases xs@.len() - i,
                {
                    proof {
                        assert(decreases_to!(*a => (*a)->Arr_0));
                        assert(decreases_to!(*xs => xs@));
                        assert(decreases_to!(xs@ => xs@[i as int]));
                    }
                    if !json_equal(&xs[i], &ys[i]) {
                        assert(!json_eq(xs@[i as int], ys@[i as int]));
                        return false;
                    }
                    i += 1;
                }
                true
            },
            _ => false,
        },
        Json::Obj(xs) => match b {
            Json::Obj(ys) => {
                if xs.len() != ys.len() {
                    return false;
                }
                let mut i: usize = 0;
                while i < xs.len()
                    invariant
                        i <= xs@.len(),
                        xs@.len() == ys@.len(),
                        *a == Json::Obj(*xs),
                        *b == Json::Obj(*ys),
                        forall|k: int|
                            #![trigger xs@[k]]
                            0 <= k < i ==> key_index(ys@, xs@[k].0@) >= 0 && json_eq(
                                xs@[k].1,
                                ys@[key_index(ys@, xs@[k].0@)].1,
                            ),
                    decreases xs@.len() - i,
                {
                    proof {
                        assert(decreases_to!(*a => (*a)->Obj_0));
                        assert(decreases_to!(*xs => xs@));
                        assert(decreases_to!(xs@ => xs@[i as int]));
                        assert(decreases_to!(xs@[i as int] => xs@[i as int].1));
                    }
                    proof {
                        lemma_key_index(ys@, xs@[i as int].0@);
                    }
                    match find_key(ys, xs[i].0.as_str()) {
                        Some(j) => {
                            if !json_equal(&xs[i].1, &ys[j].1) {
                                return false;
                            }
                        },
                        None => {
                            return false;
                        },
                    }
                    i += 1;
                }
                true
            },
            _ => false,
        },
    }
}

} // verus!
