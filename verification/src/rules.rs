//! The skeleton of a rule-file worker: the file's header is checked, its
//! rules are ordered by priority (highest first, ties in file order), and
//! each tick the first rule whose condition holds decides, with at most
//! `MAX_RULE_ACTIONS` of its actions. Conditions and actions are read
//! against the world in `rule_eval`.

use vstd::prelude::*;
use vstd::string::StringExecFns;

use crate::text::{decimal, push_decimal};

verus! {

broadcast use vstd::string::group_string_axioms;

/// The format a rule file declares.
pub const WORKER_FORMAT: &'static str = "openmmo-worker";

/// The rule-file version understood here.
pub const WORKER_VERSION: u32 = 1;

/// The most actions one decision carries out.
pub const MAX_RULE_ACTIONS: usize = 8;

/// Why a rule file's header is refused.
pub open spec fn header_error(format: Seq<char>, version: u32) -> Option<Seq<char>> {
    if format != WORKER_FORMAT@ {
        Some("unsupported worker format '"@ + format + "'"@)
    } else if version != WORKER_VERSION {
        Some("unsupported worker version "@ + decimal(version as nat))
    } else {
        None
    }
}

/// Checks a rule file's header: the format first, then the version.
pub fn check_header(format: &str, version: u32) -> (r: Result<(), String>)
    ensures
        match r {
            Ok(()) => header_error(format@, version) is None,
            Err(e) => header_error(format@, version) == Some(e@),
        },
{
    let expected = String::from_str(WORKER_FORMAT);
    let given = format.to_string();
    if given != expected {
        let mut e = String::from_str("unsupported worker format '");
        e.append(format);
        e.append("'");
        return Err(e);
    }
    if version != WORKER_VERSION {
        let mut e = String::from_str("unsupported worker version ");
        push_decimal(&mut e, version);
        return Err(e);
    }
    Ok(())
}

/// Rule `a` is tried before rule `b`: a higher priority first, and of equal
/// priorities the one earlier in the file.
pub open spec fn before(p: Seq<i64>, a: int, b: int) -> bool {
    p[a] > p[b] || (p[a] == p[b] && a < b)
}

/// `order` lists every rule exactly once, in the order they are tried.
pub open spec fn is_rule_order(p: Seq<i64>, order: Seq<usize>) -> bool {
    &&& order.len() == p.len()
    &&& forall|i: int| 0 <= i < order.len() ==> #[trigger] order[i] < p.len()
    &&& forall|r: int| 0 <= r < p.len() ==> #[trigger] order.contains(r as usize)
    &&& forall|i: int, j: int|
        0 <= i < j < order.len() ==> before(p, #[trigger] order[i] as int, #[trigger] order[j] as int)
}

/// The order the rules are tried in, by their priorities in file order: a
/// stable sort, highest priority first.
pub fn rule_order(priorities: &Vec<i64>) -> (order: Vec<usize>)
    ensures
        is_rule_order(priorities@, order@),
{
    let ghost p = priorities@;
    let mut order: Vec<usize> = Vec::new();
    let mut k: usize = 0;
    while k < priorities.len()
        invariant
            k <= priorities.len(),
            p == priorities@,
            order@.len() == k,
            forall|i: int| 0 <= i < order@.len() ==> #[trigger] order@[i] < k,
            forall|r: int| 0 <= r < k ==> #[trigger] order@.contains(r as usize),
            forall|i: int, j: int|
                0 <= i < j < order@.len() ==> before(p, #[trigger] order@[i] as int, #[trigger] order@[j] as int),
        decreases priorities.len() - k,
    {
        let pk = priorities[k];
        let mut pos: usize = 0;
        while pos < order.len() && priorities[order[pos]] >= pk
            invariant
                pos <= order@.len(),
                p == priorities@,
                pk == p[k as int],
                k < p.len(),
                forall|i: int| 0 <= i < order@.len() ==> #[trigger] order@[i] < k,
                forall|i: int| 0 <= i < pos ==> p[#[trigger] order@[i] as int] >= pk,
            decreases order@.len() - pos,
        {
            pos = pos + 1;
        }
        let ghost old_order = order@;
        proof {
            assert forall|i: int| pos <= i < old_order.len() implies p[#[trigger] old_order[i] as int] < pk by {
                assert(p[old_order[pos as int] as int] < pk);
                if i > pos {
                    assert(before(p, old_order[pos as int] as int, old_order[i] as int));
                }
            }
        }
        order.insert(pos, k);
        proof {
            assert forall|i: int| 0 <= i < order@.len() implies #[trigger] order@[i] < k + 1 by {
                if i < pos {
                    assert(order@[i] == old_order[i]);
                } else if i > pos {
                    assert(order@[i] == old_order[i - 1]);
                }
            }
            assert forall|r: int| 0 <= r < k + 1 implies #[trigger] order@.contains(r as usize) by {
                if r == k {
                    assert(order@[pos as int] == k);
                } else {
                    assert(old_order.contains(r as usize));
                    let i = choose|i: int| 0 <= i < old_order.len() && old_order[i] == r as usize;
                    if i < pos {
                        assert(order@[i] == old_order[i]);
                    } else {
                        assert(order@[i + 1] == old_order[i]);
                    }
                }
            }
            assert forall|i: int, j: int| 0 <= i < j < order@.len() implies before(
                p,
                #[trigger] order@[i] as int,
                #[trigger] order@[j] as int,
            ) by {
                if j < pos {
                    assert(order@[i] == old_order[i] && order@[j] == old_order[j]);
                } else if j == pos {
                    assert(order@[i] == old_order[i]);
                    assert(p[old_order[i] as int] >= pk && old_order[i] < k);
                } else if i < pos {
                    assert(order@[i] == old_order[i] && order@[j] == old_order[j - 1]);
                    assert(before(p, old_order[i] as int, old_order[j - 1] as int));
                } else if i == pos {
                    assert(order@[j] == old_order[j - 1]);
                    assert(p[old_order[j - 1] as int] < pk);
                } else {
                    assert(order@[i] == old_order[i - 1] && order@[j] == old_order[j - 1]);
                    assert(before(p, old_order[i - 1] as int, old_order[j - 1] as int));
                }
            }
        }
        k = k + 1;
    }
    order
}

/// The rule that decides: the first, in trying order, whose condition holds
/// (`holds[r]` for rule `r`).
pub open spec fn deciding_spec(order: Seq<usize>, holds: Seq<bool>) -> Option<int>
    decreases order.len(),
{
    if order.len() == 0 {
        None
    } else if order[0] < holds.len() && holds[order[0] as int] {
        Some(order[0] as int)
    } else {
        deciding_spec(order.drop_first(), holds)
    }
}

/// The rule that decides this tick, and how many of its `action_counts`
/// actions are carried out.
pub fn decide(order: &Vec<usize>, holds: &Vec<bool>, action_counts: &Vec<usize>) -> (r: Option<(usize, usize)>)
    ensures
        match r {
            Some((rule, n)) => {
                &&& deciding_spec(order@, holds@) == Some(rule as int)
                &&& n == (if rule < action_counts.len() && action_counts@[rule as int] < MAX_RULE_ACTIONS {
                    action_counts@[rule as int]
                } else if rule < action_counts.len() {
                    MAX_RULE_ACTIONS
                } else {
                    0
                })
            },
            None => deciding_spec(order@, holds@) is None,
        },
{
    let mut k: usize = 0;
    assert(order@.skip(0) == order@);
    while k < order.len()
        invariant
            k <= order.len(),
            deciding_spec(order@.skip(k as int), holds@) == deciding_spec(order@, holds@),
        decreases order.len() - k,
    {
        assert(order@.skip(k as int).drop_first() == order@.skip(k + 1));
        assert(order@.skip(k as int)[0] == order@[k as int]);
        let rule = order[k];
        if rule < holds.len() && holds[rule] {
            let n: usize = if rule < action_counts.len() {
                if action_counts[rule] < MAX_RULE_ACTIONS {
                    action_counts[rule]
                } else {
                    MAX_RULE_ACTIONS
                }
            } else {
                0
            };
            return Some((rule, n));
        }
        k = k + 1;
    }
    assert(order@.skip(k as int).len() == 0);
    None
}

/// Of two rules whose conditions both hold, the one tried first decides;
/// a higher-priority rule whose condition holds always beats a lower one.
pub proof fn law_the_highest_priority_rule_that_holds_decides(
    p: Seq<i64>,
    order: Seq<usize>,
    holds: Seq<bool>,
    a: int,
)
    requires
        is_rule_order(p, order),
        p.len() <= usize::MAX,
        holds.len() == p.len(),
        0 <= a < p.len(),
        holds[a],
    ensures
        deciding_spec(order, holds) matches Some(r) && 0 <= r < p.len() && holds[r] && (p[r] > p[a]
            || (p[r] == p[a] && r <= a)),
{
    assert(order.contains(a as usize));
    let i = choose|i: int| 0 <= i < order.len() && order[i] == a as usize;
    assert(order[i] == a);
    lemma_deciding_first(p, order, holds, a);
}

/// The first holding rule in a rule order is tried no later than any other
/// holding rule.
proof fn lemma_deciding_first(p: Seq<i64>, order: Seq<usize>, holds: Seq<bool>, a: int)
    requires
        forall|i: int| 0 <= i < order.len() ==> #[trigger] order[i] < p.len(),
        forall|i: int, j: int|
            0 <= i < j < order.len() ==> before(p, #[trigger] order[i] as int, #[trigger] order[j] as int),
        holds.len() == p.len(),
        0 <= a < p.len(),
        holds[a],
        exists|i: int| 0 <= i < order.len() && order[i] == a,
    ensures
        deciding_spec(order, holds) matches Some(r) && 0 <= r < p.len() && holds[r] && (p[r] > p[a]
            || (p[r] == p[a] && r <= a)),
    decreases order.len(),
{
    let i0 = choose|i: int| 0 <= i < order.len() && order[i] == a;
    if order[0] < holds.len() && holds[order[0] as int] {
        if i0 > 0 {
            assert(before(p, order[0] as int, order[i0] as int));
        }
    } else {
        assert(i0 != 0);
        let rest = order.drop_first();
        assert(rest[i0 - 1] == a);
        assert forall|i: int, j: int| 0 <= i < j < rest.len() implies before(
            p,
            #[trigger] rest[i] as int,
            #[trigger] rest[j] as int,
        ) by {
            assert(rest[i] == order[i + 1] && rest[j] == order[j + 1]);
        }
        lemma_deciding_first(p, rest, holds, a);
    }
}

} // verus!
