//! Pieces of running an agent's actions: how a sell/drop quantity is filled
//! from the bag's copies of an item, which pending invite or summons an
//! answer is for, and how a resolved move target is named.

use vstd::prelude::*;
use vstd::string::StringExecFns;

use crate::labels::views;
use crate::outcome::{lemma_move_failed_reports_failure, reports_failure_spec};
use crate::text::{chars_of, decimal, eq_ignore_ascii_case, joined, push_decimal, push_joined};

verus! {

broadcast use vstd::string::group_string_axioms;

/// A quantity as the agent asked for it: a count, or a word (`all`).
#[derive(Debug, Clone, PartialEq)]
pub enum Qty {
    Count(u32),
    Named(String),
}

/// What a quantity request comes to against `available` units: a positive
/// count as itself, `all` as everything available; anything else is no
/// quantity at all.
pub open spec fn qty_resolves(qty: Qty, available: u32) -> Option<u32> {
    match qty {
        Qty::Count(n) => if n > 0 {
            Some(n)
        } else {
            None
        },
        Qty::Named(w) => if w@ == "all"@ {
            Some(available)
        } else {
            None
        },
    }
}

impl Qty {
    /// The units this request asks for out of `available`.
    pub fn resolve(&self, available: u32) -> (r: Option<u32>)
        ensures
            r == qty_resolves(*self, available),
    {
        match self {
            Qty::Count(n) => if *n > 0 {
                Some(*n)
            } else {
                None
            },
            Qty::Named(w) => {
                let all = String::from_str("all");
                if *w == all {
                    Some(available)
                } else {
                    None
                }
            },
        }
    }
}

/// One line of a sale or a drop: units taken from one bag instance.
#[derive(Debug, Clone, Copy, PartialEq, Eq, Structural)]
pub struct BagLineItem {
    pub instance_id: u64,
    pub qty: u32,
}

/// Units across the copies.
pub open spec fn copies_total(copies: Seq<(u64, u32)>) -> int
    decreases copies.len(),
{
    if copies.len() == 0 {
        0
    } else {
        copies[0].1 + copies_total(copies.drop_first())
    }
}

/// `need` units taken greedily from the copies in order, each copy drained
/// before the next is touched; a line per copy touched.
pub open spec fn fill(copies: Seq<(u64, u32)>, need: int) -> Seq<BagLineItem>
    decreases copies.len(),
{
    if need <= 0 || copies.len() == 0 {
        Seq::empty()
    } else {
        let take = if need < copies[0].1 {
            need
        } else {
            copies[0].1 as int
        };
        seq![BagLineItem { instance_id: copies[0].0, qty: take as u32 }] + fill(
            copies.drop_first(),
            need - take,
        )
    }
}

/// The reason given for a quantity that is no quantity.
pub open spec fn bad_qty_reason() -> Seq<char> {
    "qty must be a positive number or \"all\""@
}

/// The reason given for asking more than is left.
pub open spec fn short_reason(available: u32, requested: u32) -> Seq<char> {
    "only "@ + decimal(available as nat) + " left, not "@ + decimal(requested as nat)
}

/// What a sell/drop request comes to: one unit by default, else what the
/// quantity resolves to; refused when it resolves to nothing or to more than
/// the copies hold; otherwise filled greedily across the copies.
pub open spec fn qty_lines_spec(copies: Seq<(u64, u32)>, qty: Option<Qty>) -> Result<
    Seq<BagLineItem>,
    Seq<char>,
> {
    let available = copies_total(copies);
    let requested = match qty {
        None => Some(1u32),
        Some(q) => qty_resolves(q, available as u32),
    };
    match requested {
        None => Err(bad_qty_reason()),
        Some(r) => if r > available {
            Err(short_reason(available as u32, r))
        } else {
            Ok(fill(copies, r as int))
        },
    }
}

proof fn lemma_copies_total_nonneg(copies: Seq<(u64, u32)>)
    ensures
        copies_total(copies) >= 0,
    decreases copies.len(),
{
    if copies.len() > 0 {
        lemma_copies_total_nonneg(copies.drop_first());
    }
}

/// Resolves a sell/drop qty request against the item's available bag copies
/// (`None` means the default of 1) into concrete `(instance_id, qty)` lines,
/// greedily filled across however many separate copies that takes. `Err`
/// carries a reason (bad qty value, or not enough units) with no unit word.
pub fn resolve_qty_lines(copies: &Vec<(u64, u32)>, qty: Option<&Qty>) -> (r: Result<
    Vec<BagLineItem>,
    String,
>)
    requires
        copies_total(copies@) <= u32::MAX,
    ensures
        match r {
            Ok(lines) => qty_lines_spec(
                copies@,
                match qty {
                    Some(q) => Some(*q),
                    None => None,
                },
            ) == Ok::<Seq<BagLineItem>, Seq<char>>(lines@),
            Err(reason) => qty_lines_spec(
                copies@,
                match qty {
                    Some(q) => Some(*q),
                    None => None,
                },
            ) == Err::<Seq<BagLineItem>, Seq<char>>(reason@),
        },
{
    let mut available: u32 = 0;
    let mut k: usize = 0;
    proof {
        assert(copies@.skip(0) == copies@);
        lemma_copies_total_nonneg(copies@);
    }
    while k < copies.len()
        invariant
            k <= copies@.len(),
            available + copies_total(copies@.skip(k as int)) == copies_total(copies@),
            copies_total(copies@) <= u32::MAX,
        decreases copies@.len() - k,
    {
        proof {
            assert(copies@.skip(k as int).drop_first() == copies@.skip(k + 1));
            lemma_copies_total_nonneg(copies@.skip(k + 1));
        }
        available = available + copies[k].1;
        k += 1;
    }
    assert(copies@.skip(k as int).len() == 0);
    let requested = match qty {
        None => 1,
        Some(q) => match q.resolve(available) {
            Some(n) => n,
            None => {
                let reason = String::from_str("qty must be a positive number or \"all\"");
                return Err(reason);
            },
        },
    };
    if requested > available {
        let mut reason = String::from_str("only ");
        push_decimal(&mut reason, available);
        reason.append(" left, not ");
        push_decimal(&mut reason, requested);
        return Err(reason);
    }
    let mut need = requested;
    let mut lines: Vec<BagLineItem> = Vec::new();
    let mut k: usize = 0;
    let ghost qv = match qty {
        Some(q) => Some(*q),
        None => None,
    };
    assert(qty_lines_spec(copies@, qv) == Ok::<Seq<BagLineItem>, Seq<char>>(
        fill(copies@, requested as int),
    ));
    assert(copies@.skip(0) == copies@);
    assert(lines@ + fill(copies@, requested as int) == fill(copies@, requested as int));
    while k < copies.len()
        invariant
            k <= copies@.len(),
            lines@ + fill(copies@.skip(k as int), need as int) == fill(copies@, requested as int),
            qv == match qty {
                Some(q) => Some(*q),
                None => None,
            },
            qty_lines_spec(copies@, qv) == Ok::<Seq<BagLineItem>, Seq<char>>(
                fill(copies@, requested as int),
            ),
        decreases copies@.len() - k,
    {
        if need == 0 {
            assert(fill(copies@.skip(k as int), 0) == Seq::<BagLineItem>::empty());
            assert(lines@ + Seq::<BagLineItem>::empty() == lines@);
            return Ok(lines);
        }
        let (instance_id, remaining) = copies[k];
        let take = if need < remaining {
            need
        } else {
            remaining
        };
        let ghost before = lines@;
        lines.push(BagLineItem { instance_id, qty: take });
        proof {
            let rest = copies@.skip(k as int);
            assert(rest[0] == (instance_id, remaining));
            assert(rest.drop_first() == copies@.skip(k + 1));
            assert(fill(rest, need as int) == seq![BagLineItem { instance_id, qty: take }] + fill(
                copies@.skip(k + 1),
                need - take,
            ));
            assert(lines@ + fill(copies@.skip(k + 1), need - take) == before + fill(
                rest,
                need as int,
            ));
        }
        need = need - take;
        k += 1;
    }
    assert(copies@.skip(k as int).len() == 0);
    assert(lines@ + Seq::<BagLineItem>::empty() == lines@);
    Ok(lines)
}

/// Units across the lines.
pub open spec fn lines_total(lines: Seq<BagLineItem>) -> int
    decreases lines.len(),
{
    if lines.len() == 0 {
        0
    } else {
        lines[0].qty + lines_total(lines.drop_first())
    }
}

/// A filled request takes exactly what was asked: the lines add up to the
/// units requested whenever the copies hold that many, line `i` is drawn
/// from copy `i`, and no line takes more than its copy holds.
pub proof fn law_lines_add_up_to_the_request(copies: Seq<(u64, u32)>, need: int)
    requires
        0 <= need <= copies_total(copies),
    ensures
        lines_total(fill(copies, need)) == need,
        fill(copies, need).len() <= copies.len(),
        forall|i: int|
            0 <= i < fill(copies, need).len() ==> (#[trigger] fill(copies, need)[i]).instance_id
                == copies[i].0 && fill(copies, need)[i].qty <= copies[i].1,
    decreases copies.len(),
{
    if need > 0 && copies.len() > 0 {
        let take = if need < copies[0].1 {
            need
        } else {
            copies[0].1 as int
        };
        let head = seq![BagLineItem { instance_id: copies[0].0, qty: take as u32 }];
        let rest = fill(copies.drop_first(), need - take);
        lemma_copies_total_nonneg(copies.drop_first());
        law_lines_add_up_to_the_request(copies.drop_first(), need - take);
        assert(fill(copies, need) == head + rest);
        assert((head + rest).drop_first() == rest);
        assert forall|i: int| 0 <= i < (head + rest).len() implies (#[trigger] (head + rest)[i]).instance_id
            == copies[i].0 && (head + rest)[i].qty <= copies[i].1 by {
            if i > 0 {
                assert((head + rest)[i] == rest[i - 1]);
                assert(copies.drop_first()[i - 1] == copies[i]);
            }
        }
    } else if need == 0 {
        assert(fill(copies, need) == Seq::<BagLineItem>::empty());
    } else {
        assert(copies_total(copies) == 0);
    }
}

/// A sell or drop is refused exactly when its quantity is no quantity or
/// asks for more than the copies hold; an accepted one takes exactly the
/// units asked for (one by default, everything for `all`).
pub proof fn law_a_request_is_refused_or_filled(copies: Seq<(u64, u32)>, qty: Option<Qty>)
    requires
        copies_total(copies) <= u32::MAX,
    ensures
        ({
            let available = copies_total(copies);
            let requested = match qty {
                None => Some(1u32),
                Some(q) => qty_resolves(q, available as u32),
            };
            match qty_lines_spec(copies, qty) {
                Ok(lines) => requested matches Some(r) && r <= available && lines_total(lines) == r,
                Err(_) => requested is None || requested->0 > available,
            }
        }),
{
    lemma_copies_total_nonneg(copies);
    let available = copies_total(copies);
    let requested = match qty {
        None => Some(1u32),
        Some(q) => qty_resolves(q, available as u32),
    };
    if let Some(r) = requested {
        if r <= available {
            law_lines_add_up_to_the_request(copies, r as int);
        }
    }
}

/// ASCII lower case of one char.
fn lower(c: char) -> (r: char)
    ensures
        r == crate::text::ascii_lower(c),
{
    if 'A' <= c && c <= 'Z' {
        ((c as u32) + 32) as u8 as char
    } else {
        c
    }
}

/// `str::eq_ignore_ascii_case`.
pub fn eq_ignore_case(a: &str, b: &str) -> (r: bool)
    ensures
        r == eq_ignore_ascii_case(a@, b@),
{
    let x = chars_of(a);
    let y = chars_of(b);
    if x.len() != y.len() {
        return false;
    }
    let mut k: usize = 0;
    while k < x.len()
        invariant
            k <= x@.len() == y@.len(),
            x@ == a@,
            y@ == b@,
            forall|i: int| 0 <= i < k ==> crate::text::ascii_lower(x@[i]) == crate::text::ascii_lower(y@[i]),
        decreases x@.len() - k,
    {
        if lower(x[k]) != lower(y[k]) {
            return false;
        }
        k += 1;
    }
    true
}

/// Whether entry `i` is the first whose name matches `n` ignoring ASCII
/// case.
pub open spec fn first_match(names: Seq<Seq<char>>, n: Seq<char>, i: int) -> bool {
    &&& 0 <= i < names.len()
    &&& eq_ignore_ascii_case(names[i], n)
    &&& forall|j: int| 0 <= j < i ==> !eq_ignore_ascii_case(names[j], n)
}

/// The first entry whose name matches `n` ignoring ASCII case.
pub open spec fn pick_by_name(names: Seq<Seq<char>>, n: Seq<char>) -> Option<int> {
    if exists|i: int| first_match(names, n, i) {
        Some(choose|i: int| first_match(names, n, i))
    } else {
        None
    }
}

/// The entry an answer is for: the first whose name matches `name` ignoring
/// ASCII case, or the oldest when no name is given.
pub open spec fn pick_pending_spec(names: Seq<Seq<char>>, name: Option<Seq<char>>) -> Option<int> {
    match name {
        Some(n) => pick_by_name(names, n),
        None => if names.len() > 0 {
            Some(0)
        } else {
            None
        },
    }
}

proof fn lemma_pick_found(names: Seq<Seq<char>>, n: Seq<char>, k: int)
    requires
        first_match(names, n, k),
    ensures
        pick_pending_spec(names, Some(n)) == Some(k),
{
    let c = choose|i: int| first_match(names, n, i);
    assert(first_match(names, n, c));
    if c < k {
        assert(!eq_ignore_ascii_case(names[c], n));
    } else if k < c {
        assert(!eq_ignore_ascii_case(names[k], n));
    }
}

/// The chars of an optional string slice.
pub open spec fn opt_str_view(o: Option<&str>) -> Option<Seq<char>> {
    match o {
        Some(n) => Some(n@),
        None => None,
    }
}

/// Pick a pending entry (an invite, a summons) by its name, compared
/// ignoring ASCII case, or the oldest when no name is given. `names` are the
/// entries' names in the order they arrived.
pub fn pick_pending(names: &Vec<String>, name: Option<&str>) -> (r: Option<usize>)
    ensures
        match r {
            Some(i) => pick_pending_spec(views(names@), opt_str_view(name)) == Some(i as int),
            None => pick_pending_spec(views(names@), opt_str_view(name)) is None,
        },
{
    let ghost vs = views(names@);
    match name {
        None => {
            if names.len() > 0 {
                Some(0)
            } else {
                None
            }
        },
        Some(n) => {
            let mut k: usize = 0;
            while k < names.len()
                invariant
                    vs == views(names@),
                    opt_str_view(name) == Some(n@),
                    k <= names@.len(),
                    forall|j: int| 0 <= j < k ==> !eq_ignore_ascii_case(vs[j], n@),
                decreases names@.len() - k,
            {
                assert(vs[k as int] == names@[k as int]@);
                if eq_ignore_case(names[k].as_str(), n) {
                    proof {
                        assert(first_match(vs, n@, k as int));
                        lemma_pick_found(vs, n@, k as int);
                    }
                    return Some(k);
                }
                k += 1;
            }
            proof {
                if exists|i: int| first_match(vs, n@, i) {
                    let i = choose|i: int| first_match(vs, n@, i);
                    assert(!eq_ignore_ascii_case(vs[i], n@));
                }
            }
            None
        },
    }
}

/// Why a `move` target string resolved to nothing.
#[derive(Debug)]
pub enum MoveTargetError {
    /// A monster kind was named where one monster was meant; `candidates`
    /// are the nearby monsters of that kind, nearest first, each with its
    /// distance as shown to the agent (whole metres, formatted by the
    /// caller).
    SpeciesNotId { species: String, candidates: Vec<(String, String)> },
    /// The monster named by id is not in sight.
    MonsterGone { id: String },
    /// Nothing is called `asked`; `addressable` is what could be moved to.
    Unknown { asked: String, addressable: Vec<String> },
}

/// How many same-kind monsters the feedback lists.
pub const LISTED_CANDIDATES: usize = 5;

/// One listed candidate: its id and how far it is.
pub open spec fn candidate_label(c: (String, String)) -> Seq<char> {
    c.0@ + " ("@ + c.1@ + "m)"@
}

/// The first candidates, as many as are listed.
pub open spec fn listed(cands: Seq<(String, String)>) -> Seq<(String, String)> {
    if cands.len() > LISTED_CANDIDATES {
        cands.take(LISTED_CANDIDATES as int)
    } else {
        cands
    }
}

/// The feedback for a `move` target that resolved to nothing: it hands back
/// the ids or names that would have worked.
pub open spec fn move_failure_spec(e: &MoveTargetError) -> Seq<char> {
    match e {
        MoveTargetError::SpeciesNotId { species, candidates } => "[MoveFailed] '"@ + species@
            + "' names a kind of monster, not one monster. Nearby "@ + species@ + "s: "@ + joined(
            listed(candidates@).map_values(|c: (String, String)| candidate_label(c)),
            ", "@,
        ) + ". Use the id."@,
        MoveTargetError::MonsterGone { id } => "[MoveFailed] Monster "@ + id@
            + " is not in sight — it died, or it wandered off. Pick an id from the current world state."@,
        MoveTargetError::Unknown { asked, addressable } => if addressable@.len() == 0 {
            "[MoveFailed] Nothing here is called '"@ + asked@ + "'."@
        } else {
            "[MoveFailed] Nothing here is called '"@ + asked@ + "'. You can move to: "@ + joined(
                addressable@.map_values(|p: String| p@),
                ", "@,
            ) + "."@
        },
    }
}

/// Feedback for a `move` target string that resolved to nothing. Each case
/// hands back the ids or names that would have worked, so the agent can fix
/// the target next turn instead of reissuing the same string.
pub fn move_target_failure(e: &MoveTargetError) -> (r: String)
    ensures
        r@ == move_failure_spec(e),
{
    match e {
        MoveTargetError::SpeciesNotId { species, candidates } => {
            let n = if candidates.len() > LISTED_CANDIDATES {
                LISTED_CANDIDATES
            } else {
                candidates.len()
            };
            let ghost shown = listed(candidates@);
            let mut labels: Vec<String> = Vec::new();
            let mut k: usize = 0;
            while k < n
                invariant
                    n == shown.len(),
                    shown == listed(candidates@),
                    n <= candidates@.len(),
                    k <= n,
                    labels@.len() == k,
                    forall|i: int| 0 <= i < k ==> #[trigger] labels@[i]@ == candidate_label(shown[i]),
                decreases n - k,
            {
                assert(shown[k as int] == candidates@[k as int]);
                let mut label = candidates[k].0.clone();
                label.append(" (");
                label.append(candidates[k].1.as_str());
                label.append("m)");
                labels.push(label);
                k += 1;
            }
            assert(labels@.map_values(|p: String| p@) =~= shown.map_values(
                |c: (String, String)| candidate_label(c),
            ));
            let mut r = String::from_str("[MoveFailed] '");
            r.append(species.as_str());
            r.append("' names a kind of monster, not one monster. Nearby ");
            r.append(species.as_str());
            r.append("s: ");
            push_joined(&mut r, &labels, ", ");
            r.append(". Use the id.");
            r
        },
        MoveTargetError::MonsterGone { id } => {
            let mut r = String::from_str("[MoveFailed] Monster ");
            r.append(id.as_str());
            r.append(
                " is not in sight — it died, or it wandered off. Pick an id from the current world state.",
            );
            r
        },
        MoveTargetError::Unknown { asked, addressable } => {
            let mut r = String::from_str("[MoveFailed] Nothing here is called '");
            r.append(asked.as_str());
            if addressable.len() == 0 {
                r.append("'.");
            } else {
                r.append("'. You can move to: ");
                push_joined(&mut r, addressable, ", ");
                r.append(".");
            }
            r
        },
    }
}

/// The items in sight as (instance id, item id).
pub open spec fn sight_views(v: Seq<(u64, String)>) -> Seq<(u64, Seq<char>)> {
    v.map_values(|p: (u64, String)| (p.0, p.1@))
}

/// The first item in sight that `by_id` names by instance id, or else the
/// first of the item kind `named_def`.
pub open spec fn first_sighted(
    in_sight: Seq<(u64, Seq<char>)>,
    by_id: Option<u64>,
    named_def: Option<Seq<char>>,
) -> Option<(u64, Seq<char>)>
    decreases in_sight.len(),
{
    if in_sight.len() == 0 {
        None
    } else if match by_id {
        Some(id) => in_sight[0].0 == id,
        None => named_def == Some(in_sight[0].1),
    } {
        Some(in_sight[0])
    } else {
        first_sighted(in_sight.drop_first(), by_id, named_def)
    }
}

/// Resolve a pickup reference to an item the agent can actually walk to:
/// by instance id, or by name to the nearest item of the kind the name
/// resolves to. Only what the agent can see counts: an id it read several
/// turns ago may have fallen out of sight since. `in_sight` is nearest
/// first; `named_def` is the item id the name resolved to among what is in
/// sight, when the reference is a name.
pub fn resolve_ground_item(
    in_sight: &Vec<(u64, String)>,
    by_id: Option<u64>,
    named_def: Option<&str>,
) -> (r: Option<(u64, String)>)
    ensures
        match r {
            Some((id, def)) => first_sighted(
                sight_views(in_sight@),
                by_id,
                opt_str_view(named_def),
            ) == Some((id, def@)),
            None => first_sighted(sight_views(in_sight@), by_id, opt_str_view(named_def)) is None,
        },
{
    let ghost all = sight_views(in_sight@);
    let wanted: Option<String> = match named_def {
        Some(d) => Some(d.to_owned()),
        None => None,
    };
    if by_id.is_none() && wanted.is_none() {
        proof {
            lemma_nothing_sighted(all);
        }
        return None;
    }
    let mut k: usize = 0;
    assert(all.skip(0) == all);
    while k < in_sight.len()
        invariant
            k <= in_sight@.len(),
            all == sight_views(in_sight@),
            match wanted {
                Some(w) => opt_str_view(named_def) == Some(w@),
                None => opt_str_view(named_def) is None,
            },
            first_sighted(all, by_id, opt_str_view(named_def)) == first_sighted(
                all.skip(k as int),
                by_id,
                opt_str_view(named_def),
            ),
        decreases in_sight@.len() - k,
    {
        assert(all.skip(k as int)[0] == (in_sight@[k as int].0, in_sight@[k as int].1@));
        assert(all.skip(k as int).drop_first() == all.skip(k + 1));
        let hit = match by_id {
            Some(id) => in_sight[k].0 == id,
            None => match &wanted {
                Some(w) => in_sight[k].1 == *w,
                None => false,
            },
        };
        if hit {
            return Some((in_sight[k].0, in_sight[k].1.clone()));
        }
        k += 1;
    }
    assert(all.skip(k as int).len() == 0);
    None
}

proof fn lemma_nothing_sighted(in_sight: Seq<(u64, Seq<char>)>)
    ensures
        first_sighted(in_sight, None, None) is None,
    decreases in_sight.len(),
{
    if in_sight.len() > 0 {
        lemma_nothing_sighted(in_sight.drop_first());
    }
}

/// What a resolved move target is.
#[derive(Debug, Clone, Copy, PartialEq, Eq, Structural)]
pub enum MoveTargetKind {
    Character,
    Monster,
    GroundItem,
    Prop,
    Chest,
    Dungeon,
}

/// What a resolved target is, for the message about a depth that does not
/// belong with it.
pub fn describe_target(t: MoveTargetKind) -> (r: &'static str)
    ensures
        r@ == match t {
            MoveTargetKind::Character => "a character"@,
            MoveTargetKind::Monster => "a monster"@,
            MoveTargetKind::GroundItem => "an item on the ground"@,
            MoveTargetKind::Prop => "a prop"@,
            MoveTargetKind::Chest => "a chest"@,
            MoveTargetKind::Dungeon => "a dungeon"@,
        },
{
    match t {
        MoveTargetKind::Character => "a character",
        MoveTargetKind::Monster => "a monster",
        MoveTargetKind::GroundItem => "an item on the ground",
        MoveTargetKind::Prop => "a prop",
        MoveTargetKind::Chest => "a chest",
        MoveTargetKind::Dungeon => "a dungeon",
    }
}

/// Every feedback for a `move` target that resolved to nothing opens with
/// the `[MoveFailed] ` tag, so the action is read as one that failed.
pub proof fn law_every_move_failure_reads_as_a_failure(e: &MoveTargetError)
    ensures
        move_failure_spec(e).len() >= 13,
        move_failure_spec(e).subrange(0, 13) == "[MoveFailed] "@,
        reports_failure_spec(move_failure_spec(e)),
{
    reveal_strlit("[MoveFailed] ");
    let lit = match e {
        MoveTargetError::SpeciesNotId { .. } => {
            reveal_strlit("[MoveFailed] '");
            "[MoveFailed] '"@
        },
        MoveTargetError::MonsterGone { .. } => {
            reveal_strlit("[MoveFailed] Monster ");
            "[MoveFailed] Monster "@
        },
        MoveTargetError::Unknown { .. } => {
            reveal_strlit("[MoveFailed] Nothing here is called '");
            "[MoveFailed] Nothing here is called '"@
        },
    };
    let s = move_failure_spec(e);
    assert(lit.subrange(0, 13) =~= "[MoveFailed] "@);
    assert(s.len() >= lit.len() && s.subrange(0, lit.len() as int) =~= lit) by {
        match e {
            MoveTargetError::SpeciesNotId { species, candidates } => {
                assert(s =~= lit + (species@ + "' names a kind of monster, not one monster. Nearby "@ + species@ + "s: "@ + joined(
                    listed(candidates@).map_values(|c: (String, String)| candidate_label(c)),
                    ", "@,
                ) + ". Use the id."@));
            },
            MoveTargetError::MonsterGone { id } => {
                assert(s =~= lit + (id@
                    + " is not in sight — it died, or it wandered off. Pick an id from the current world state."@));
            },
            MoveTargetError::Unknown { asked, addressable } => {
                if addressable@.len() == 0 {
                    assert(s =~= lit + (asked@ + "'."@));
                } else {
                    assert(s =~= lit + (asked@ + "'. You can move to: "@ + joined(
                        addressable@.map_values(|p: String| p@),
                        ", "@,
                    ) + "."@));
                }
            },
        }
    }
    assert(s.subrange(0, 13) =~= lit.subrange(0, 13));
    lemma_move_failed_reports_failure(s);
}

} // verus!
