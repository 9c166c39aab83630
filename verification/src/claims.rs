//! The claim board workers sharing a building use so that two of them do not
//! answer the same call: the first to claim a bedside, a seated guest or a
//! meal wins, and the other moves on to its next pending event. A hold
//! lasts until its deadline; time is a monotonic millisecond count.

use vstd::prelude::*;

verus! {

/// How long a visit (sick-room bedside, guest's table) holds a worker there.
pub const VISIT_DWELL_MS: u64 = 90_000;

/// The fallback expiry of a hold on a seated guest; the hold is released
/// when the guest stands.
pub const GUEST_CLAIM_TTL_MS: u64 = 300_000;

/// How long clearing a plate holds a worker off its post, and its claim.
pub const CLEAR_DWELL_MS: u64 = 30_000;

/// One answerable call: a sick-room bed (by its furniture placement id), a
/// seated guest (by player id) or a meal order.
#[derive(Debug, Clone, Copy, PartialEq, Eq, Structural, Hash)]
pub enum ClaimKey {
    Bed(u32),
    Guest(u64),
    Meal(u64),
}

/// A hold on one call: who holds it, and until when.
#[derive(Debug)]
struct Claim {
    key: ClaimKey,
    owner: String,
    until: u64,
}

/// Every key at most once.
spec fn unique_keys(s: Seq<Claim>) -> bool {
    forall|i: int, j: int| 0 <= i < j < s.len() ==> #[trigger] s[i].key != #[trigger] s[j].key
}

/// The holds as a map from key to (holder, deadline).
spec fn board(s: Seq<Claim>) -> Map<ClaimKey, (Seq<char>, u64)>
    decreases s.len(),
{
    if s.len() == 0 {
        Map::empty()
    } else {
        board(s.drop_last()).insert(s.last().key, (s.last().owner@, s.last().until))
    }
}

/// The holds whose deadline has not passed at `now`.
pub open spec fn live(m: Map<ClaimKey, (Seq<char>, u64)>, now: u64) -> Map<
    ClaimKey,
    (Seq<char>, u64),
> {
    Map::new(|k: ClaimKey| m.contains_key(k) && now < m[k].1, |k: ClaimKey| m[k])
}

/// Who holds `key` at `now`, if the hold has not lapsed.
pub open spec fn holder_spec(m: Map<ClaimKey, (Seq<char>, u64)>, key: ClaimKey, now: u64) -> Option<
    Seq<char>,
> {
    if m.contains_key(key) && now < m[key].1 {
        Some(m[key].0)
    } else {
        None
    }
}

/// A claim of `key` by `who` for `ttl` at `now`: lapsed holds are dropped;
/// it is refused when someone else still holds the key, else it is (re)taken
/// until `now + ttl`.
pub open spec fn claim_spec(
    m: Map<ClaimKey, (Seq<char>, u64)>,
    key: ClaimKey,
    who: Seq<char>,
    ttl: u64,
    now: u64,
) -> (bool, Map<ClaimKey, (Seq<char>, u64)>) {
    let l = live(m, now);
    if l.contains_key(key) && l[key].0 != who {
        (false, l)
    } else {
        (true, l.insert(key, (who, (now + ttl) as u64)))
    }
}

/// Giving `key` up: only its holder can, lapsed or not.
pub open spec fn release_spec(m: Map<ClaimKey, (Seq<char>, u64)>, key: ClaimKey, who: Seq<char>) -> Map<
    ClaimKey,
    (Seq<char>, u64),
> {
    if m.contains_key(key) && m[key].0 == who {
        m.remove(key)
    } else {
        m
    }
}

proof fn lemma_board_has(s: Seq<Claim>, k: ClaimKey)
    ensures
        board(s).contains_key(k) <==> exists|i: int| 0 <= i < s.len() && #[trigger] s[i].key == k,
    decreases s.len(),
{
    if s.len() > 0 {
        lemma_board_has(s.drop_last(), k);
        if board(s.drop_last()).contains_key(k) {
            let i = choose|i: int| 0 <= i < s.drop_last().len() && #[trigger] s.drop_last()[i].key == k;
            assert(s[i].key == k);
        }
        if exists|i: int| 0 <= i < s.len() && #[trigger] s[i].key == k {
            let i = choose|i: int| 0 <= i < s.len() && #[trigger] s[i].key == k;
            if i < s.len() - 1 {
                assert(s.drop_last()[i].key == k);
            }
        }
    }
}

proof fn lemma_take_step(s: Seq<Claim>, i: int)
    requires
        0 <= i < s.len(),
    ensures
        board(s.take(i + 1)) == board(s.take(i)).insert(s[i].key, (s[i].owner@, s[i].until)),
{
    assert(s.take(i + 1).drop_last() == s.take(i));
}

proof fn lemma_unique_push(s: Seq<Claim>, c: Claim)
    requires
        unique_keys(s),
        !board(s).contains_key(c.key),
    ensures
        unique_keys(s.push(c)),
        board(s.push(c)) == board(s).insert(c.key, (c.owner@, c.until)),
{
    lemma_board_has(s, c.key);
    assert(s.push(c).drop_last() == s);
    assert forall|i: int, j: int| 0 <= i < j < s.push(c).len() implies #[trigger] s.push(c)[i].key
        != #[trigger] s.push(c)[j].key by {
        if j == s.len() {
            assert(s[i].key == s.push(c)[i].key);
        } else {
            assert(s[i] == s.push(c)[i] && s[j] == s.push(c)[j]);
        }
    }
}

/// The claim board. Each key is held at most once.
pub struct VisitClaims {
    holds: Vec<Claim>,
}

impl View for VisitClaims {
    type V = Map<ClaimKey, (Seq<char>, u64)>;

    closed spec fn view(&self) -> Map<ClaimKey, (Seq<char>, u64)> {
        board(self.holds@)
    }
}

impl VisitClaims {
    #[verifier::type_invariant]
    spec fn inv(&self) -> bool {
        unique_keys(self.holds@)
    }

    /// An empty board.
    pub fn new() -> (r: Self)
        ensures
            r@ == Map::<ClaimKey, (Seq<char>, u64)>::empty(),
    {
        VisitClaims { holds: Vec::new() }
    }

    /// True when `who` may hold `key` for `ttl_ms` from `now`: unclaimed,
    /// lapsed, or already theirs (which refreshes the hold). Lapsed holds
    /// are swept off the board either way.
    pub fn try_claim(&mut self, key: ClaimKey, who: &str, ttl_ms: u64, now: u64) -> (won: bool)
        requires
            now + ttl_ms <= u64::MAX,
        ensures
            (won, final(self)@) == claim_spec(old(self)@, key, who@, ttl_ms, now),
    {
        proof {
            use_type_invariant(&*self);
        }
        let ghost s = self.holds@;
        let mut kept: Vec<Claim> = Vec::new();
        let mut prior: Option<Claim> = None;
        let mut i: usize = 0;
        assert(s.take(0) == Seq::<Claim>::empty());
        assert(live(board(s.take(0)), now).remove(key) =~= board(kept@));
        while i < self.holds.len()
            invariant
                s == self.holds@,
                unique_keys(s),
                i <= s.len(),
                unique_keys(kept@),
                board(kept@) == live(board(s.take(i as int)), now).remove(key),
                match prior {
                    Some(c) => c.key == key && live(board(s.take(i as int)), now).contains_key(key)
                        && live(board(s.take(i as int)), now)[key] == (c.owner@, c.until),
                    None => !live(board(s.take(i as int)), now).contains_key(key),
                },
            decreases s.len() - i,
        {
            let c = &self.holds[i];
            proof {
                lemma_take_step(s, i as int);
                lemma_board_has(s.take(i as int), c.key);
                if board(s.take(i as int)).contains_key(c.key) {
                    let j = choose|j: int|
                        0 <= j < s.take(i as int).len() && #[trigger] s.take(i as int)[j].key
                            == c.key;
                    assert(s[j].key == s[i as int].key);
                }
                assert(!board(s.take(i as int)).contains_key(c.key));
            }
            let ghost before = live(board(s.take(i as int)), now);
            let ghost after = live(board(s.take(i + 1)), now);
            if now < c.until {
                let copy = Claim { key: c.key, owner: c.owner.clone(), until: c.until };
                if c.key == key {
                    assert(after =~= before.insert(key, (c.owner@, c.until)));
                    assert(after.remove(key) =~= before.remove(key));
                    prior = Some(copy);
                } else {
                    proof {
                        assert(!board(kept@).contains_key(c.key));
                        lemma_unique_push(kept@, copy);
                    }
                    assert(after =~= before.insert(c.key, (c.owner@, c.until)));
                    assert(after.remove(key) =~= before.remove(key).insert(c.key, (c.owner@, c.until)));
                    kept.push(copy);
                }
            } else {
                assert(after =~= before);
            }
            i += 1;
        }
        assert(s.take(i as int) == s);
        let holder = who.to_owned();
        match prior {
            Some(c) => {
                if c.owner != holder {
                    proof {
                        lemma_unique_push(kept@, c);
                    }
                    let ghost v = (c.owner@, c.until);
                    kept.push(c);
                    assert(live(board(s), now) =~= live(board(s), now).remove(key).insert(key, v));
                    self.holds = kept;
                    return false;
                }
            },
            None => {},
        }
        let fresh = Claim { key, owner: holder, until: now + ttl_ms };
        proof {
            lemma_unique_push(kept@, fresh);
        }
        kept.push(fresh);
        assert(live(board(s), now).insert(key, (who@, (now + ttl_ms) as u64)) =~= live(
            board(s),
            now,
        ).remove(key).insert(key, (who@, (now + ttl_ms) as u64)));
        self.holds = kept;
        true
    }

    /// Give `key` up if `who` holds it, so the next call can go elsewhere.
    pub fn release(&mut self, key: ClaimKey, who: &str)
        ensures
            final(self)@ == release_spec(old(self)@, key, who@),
    {
        proof {
            use_type_invariant(&*self);
        }
        let ghost s = self.holds@;
        let mut found: Option<usize> = None;
        let mut i: usize = 0;
        while i < self.holds.len()
            invariant_except_break
                found is None,
            invariant
                s == self.holds@,
                i <= s.len(),
                forall|j: int| 0 <= j < i ==> #[trigger] s[j].key != key,
            ensures
                match found {
                    Some(f) => f < s.len() && s[f as int].key == key,
                    None => forall|j: int| 0 <= j < s.len() ==> #[trigger] s[j].key != key,
                },
            decreases s.len() - i,
        {
            if self.holds[i].key == key {
                found = Some(i);
                break;
            }
            i += 1;
        }
        let f = match found {
            Some(f) => f,
            None => {
                proof {
                    lemma_board_has(s, key);
                }
                return;
            },
        };
        proof {
            lemma_board_at(s, f as int);
        }
        let asker = who.to_owned();
        if self.holds[f].owner != asker {
            return;
        }
        let mut kept: Vec<Claim> = Vec::new();
        let mut j: usize = 0;
        assert(s.take(0) == Seq::<Claim>::empty());
        assert(board(s.take(0)).remove(key) =~= board(kept@));
        while j < self.holds.len()
            invariant
                s == self.holds@,
                unique_keys(s),
                j <= s.len(),
                unique_keys(kept@),
                board(kept@) == board(s.take(j as int)).remove(key),
            decreases s.len() - j,
        {
            let c = &self.holds[j];
            proof {
                lemma_take_step(s, j as int);
                lemma_board_has(s.take(j as int), c.key);
                if board(s.take(j as int)).contains_key(c.key) {
                    let k = choose|k: int|
                        0 <= k < s.take(j as int).len() && #[trigger] s.take(j as int)[k].key
                            == c.key;
                    assert(s[k].key == s[j as int].key);
                }
            }
            let ghost before = board(s.take(j as int));
            if c.key != key {
                let copy = Claim { key: c.key, owner: c.owner.clone(), until: c.until };
                proof {
                    lemma_unique_push(kept@, copy);
                }
                assert(before.insert(c.key, (c.owner@, c.until)).remove(key) =~= before.remove(
                    key,
                ).insert(c.key, (c.owner@, c.until)));
                kept.push(copy);
            } else {
                assert(before.insert(key, (c.owner@, c.until)).remove(key) =~= before.remove(key));
            }
            j += 1;
        }
        assert(s.take(j as int) == s);
        self.holds = kept;
    }

    /// Who holds `key` at `now`. Honours the deadline, unlike `release`, so
    /// a lapsed hold reads as free.
    pub fn holder(&self, key: ClaimKey, now: u64) -> (r: Option<String>)
        ensures
            match r {
                Some(o) => holder_spec(self@, key, now) == Some(o@),
                None => holder_spec(self@, key, now) is None,
            },
    {
        proof {
            use_type_invariant(self);
        }
        let ghost s = self.holds@;
        let mut i: usize = 0;
        while i < self.holds.len()
            invariant
                s == self.holds@,
                unique_keys(s),
                i <= s.len(),
                forall|j: int| 0 <= j < i ==> #[trigger] s[j].key != key,
            decreases s.len() - i,
        {
            if self.holds[i].key == key {
                proof {
                    lemma_board_at(s, i as int);
                }
                if now < self.holds[i].until {
                    return Some(self.holds[i].owner.clone());
                }
                return None;
            }
            i += 1;
        }
        proof {
            lemma_board_has(s, key);
        }
        None
    }
}

impl Default for VisitClaims {
    fn default() -> (r: Self)
        ensures
            r@ == Map::<ClaimKey, (Seq<char>, u64)>::empty(),
    {
        VisitClaims::new()
    }
}

proof fn lemma_board_at(s: Seq<Claim>, i: int)
    requires
        unique_keys(s),
        0 <= i < s.len(),
    ensures
        board(s).contains_key(s[i].key),
        board(s)[s[i].key] == (s[i].owner@, s[i].until),
    decreases s.len(),
{
    if i < s.len() - 1 {
        assert(s.drop_last()[i] == s[i]);
        assert(unique_keys(s.drop_last()));
        lemma_board_at(s.drop_last(), i);
        assert(s.last().key != s[i].key);
    }
}

/// The first claim wins: while someone else's hold on a key is live, a
/// claim of it is refused and the hold stays theirs.
pub proof fn law_the_first_claim_wins(
    m: Map<ClaimKey, (Seq<char>, u64)>,
    key: ClaimKey,
    who: Seq<char>,
    ttl: u64,
    now: u64,
)
    requires
        holder_spec(m, key, now) matches Some(o) && o != who,
    ensures
        !claim_spec(m, key, who, ttl, now).0,
        holder_spec(claim_spec(m, key, who, ttl, now).1, key, now) == holder_spec(m, key, now),
{
}

/// A key nobody holds, or one we hold already, is ours for the asking.
pub proof fn law_a_free_or_own_key_is_won(
    m: Map<ClaimKey, (Seq<char>, u64)>,
    key: ClaimKey,
    who: Seq<char>,
    ttl: u64,
    now: u64,
)
    requires
        holder_spec(m, key, now) is None || holder_spec(m, key, now) == Some(who),
    ensures
        claim_spec(m, key, who, ttl, now).0,
{
}

/// A won claim reads back: from the moment it is taken until its deadline
/// the key's holder is the claimant, and from the deadline on it is free.
pub proof fn law_a_won_claim_reads_back_until_it_lapses(
    m: Map<ClaimKey, (Seq<char>, u64)>,
    key: ClaimKey,
    who: Seq<char>,
    ttl: u64,
    now: u64,
    t: u64,
)
    requires
        now + ttl <= u64::MAX,
        claim_spec(m, key, who, ttl, now).0,
        now <= t,
    ensures
        t < now + ttl ==> holder_spec(claim_spec(m, key, who, ttl, now).1, key, t) == Some(who),
        t >= now + ttl ==> holder_spec(claim_spec(m, key, who, ttl, now).1, key, t) is None,
{
}

/// A claim touches its own key only: who holds any other key, as of the
/// same moment, is unchanged.
pub proof fn law_a_claim_leaves_other_keys_alone(
    m: Map<ClaimKey, (Seq<char>, u64)>,
    key: ClaimKey,
    other: ClaimKey,
    who: Seq<char>,
    ttl: u64,
    now: u64,
)
    requires
        other != key,
    ensures
        holder_spec(claim_spec(m, key, who, ttl, now).1, other, now) == holder_spec(m, other, now),
{
}

/// Only the holder can give a key up: after its own release the key reads
/// free, while a release by anyone else changes nothing.
pub proof fn law_only_the_holder_releases(
    m: Map<ClaimKey, (Seq<char>, u64)>,
    key: ClaimKey,
    who: Seq<char>,
    now: u64,
)
    ensures
        holder_spec(m, key, now) == Some(who) ==> holder_spec(release_spec(m, key, who), key, now)
            is None,
        (m.contains_key(key) && m[key].0 != who) ==> release_spec(m, key, who) == m,
        !m.contains_key(key) ==> release_spec(m, key, who) == m,
{
}

} // verus!
