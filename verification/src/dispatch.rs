//! What the actions of one reply decide once the world has been asked:
//! the units already given away this turn, which buyback entry is taken
//! back, what using an item does, which trade partner an action may name,
//! what follows a walk toward an action's target, and the notes the agent
//! reads when an action cannot run. The caller resolves names against the
//! world state, walks, and sends the commands.

use vstd::prelude::*;
use vstd::string::StringExecFns;
use std::collections::HashMap;

use crate::execute::BagLineItem;
use crate::text::{decimal, joined, push_decimal, push_decimal_u64, push_joined};
use crate::walk::{lost_clause, unreachable_note, unreachable_spec, LostReason};

verus! {

broadcast use vstd::string::group_string_axioms, vstd::std_specs::hash::group_hash_axioms;

/// The units of instance `id` the lines give away.
pub open spec fn line_units(lines: Seq<BagLineItem>, id: u64) -> nat
    decreases lines.len(),
{
    if lines.len() == 0 {
        0
    } else {
        line_units(lines.drop_last(), id) + (if lines.last().instance_id == id {
            lines.last().qty as nat
        } else {
            0
        })
    }
}

/// The units of instance `id` a ledger holds as given away.
pub open spec fn spent_in(m: Map<u64, u32>, id: u64) -> nat {
    if m.contains_key(id) {
        m[id] as nat
    } else {
        0
    }
}

/// What a prefix of the lines gives away is no more than all of them do.
pub proof fn lemma_line_units_prefix(lines: Seq<BagLineItem>, i: int, id: u64)
    requires
        0 <= i <= lines.len(),
    ensures
        line_units(lines.take(i), id) <= line_units(lines, id),
    decreases lines.len(),
{
    if i < lines.len() {
        assert(lines.drop_last().take(i) =~= lines.take(i));
        lemma_line_units_prefix(lines.drop_last(), i, id);
    } else {
        assert(lines.take(i) =~= lines);
    }
}

/// Units of each bag instance already given away this turn. The bag the
/// agent sees only refreshes when the server says so, so without this a
/// second sale would resend units the server has already taken.
pub struct SpentUnits {
    units: HashMap<u64, u32>,
}

impl View for SpentUnits {
    type V = Map<u64, u32>;

    closed spec fn view(&self) -> Map<u64, u32> {
        self.units@
    }
}

impl SpentUnits {
    /// A turn that has given nothing away.
    pub fn new() -> (r: Self)
        ensures
            forall|id: u64| spent_in(r@, id) == 0,
    {
        SpentUnits { units: HashMap::new() }
    }

    /// The units of instance `id` given away so far.
    pub fn spent(&self, id: u64) -> (n: u32)
        ensures
            n == spent_in(self@, id),
    {
        match self.units.get(&id) {
            Some(n) => *n,
            None => 0,
        }
    }

    /// A sale or a drop of these lines went out.
    pub fn record(&mut self, lines: &Vec<BagLineItem>)
        requires
            forall|id: u64| spent_in(old(self)@, id) + line_units(lines@, id) <= u32::MAX,
        ensures
            forall|id: u64| spent_in(final(self)@, id) == spent_in(old(self)@, id) + line_units(lines@, id),
    {
        let ghost start = self@;
        let mut i: usize = 0;
        while i < lines.len()
            invariant
                i <= lines.len(),
                forall|id: u64| spent_in(start, id) + line_units(lines@, id) <= u32::MAX,
                forall|id: u64|
                    spent_in(self@, id) == spent_in(start, id) + line_units(lines@.take(i as int), id),
            decreases lines.len() - i,
        {
            let line = lines[i];
            proof {
                assert(lines@.take(i + 1).drop_last() =~= lines@.take(i as int));
                assert(lines@.take(i + 1).last() == line);
                lemma_line_units_prefix(lines@, i + 1, line.instance_id);
            }
            let before = self.spent(line.instance_id);
            let ghost prev = self@;
            self.units.insert(line.instance_id, before + line.qty);
            proof {
                assert forall|id: u64|
                    spent_in(self@, id) == spent_in(start, id) + line_units(
                        lines@.take(i + 1),
                        id,
                    ) by {
                    assert(line_units(lines@.take(i + 1), id) == line_units(lines@.take(i as int), id)
                        + (if line.instance_id == id {
                        line.qty as nat
                    } else {
                        0
                    }));
                    if id != line.instance_id {
                        assert(spent_in(self@, id) == spent_in(prev, id));
                    }
                }
            }
            i = i + 1;
        }
        proof {
            assert(lines@.take(lines.len() as int) =~= lines@);
        }
    }
}

/// Whether entry `j` is the item wanted back.
pub open spec fn buyback_match(entries: Seq<(String, u32)>, want: Seq<char>, j: int) -> bool {
    0 <= j < entries.len() && entries[j].0@ == want
}

/// The buyback entry taken back: of the entries holding the wanted item,
/// the best enchanted; of equals, the last listed (the payout was the
/// same, so nothing else tells them apart).
pub open spec fn is_best_buyback(entries: Seq<(String, u32)>, want: Seq<char>, i: int) -> bool {
    &&& buyback_match(entries, want, i)
    &&& forall|j: int| #[trigger] buyback_match(entries, want, j) ==> entries[j].1 <= entries[i].1
    &&& forall|j: int| #[trigger] buyback_match(entries, want, j) && j > i ==> entries[j].1 < entries[i].1
}

/// Which of a merchant's buyback entries (item and enchant, in the order
/// listed) is taken back for `want`: none when no entry holds it.
pub fn pick_buyback(entries: &Vec<(String, u32)>, want: &String) -> (r: Option<usize>)
    ensures
        match r {
            Some(i) => is_best_buyback(entries@, want@, i as int),
            None => forall|j: int| !#[trigger] buyback_match(entries@, want@, j),
        },
{
    let mut best: Option<usize> = None;
    let mut k: usize = 0;
    while k < entries.len()
        invariant
            k <= entries.len(),
            match best {
                Some(b) => {
                    &&& b < k
                    &&& buyback_match(entries@, want@, b as int)
                    &&& forall|j: int|
                        0 <= j < k && #[trigger] buyback_match(entries@, want@, j) ==> entries@[j].1
                            <= entries@[b as int].1
                    &&& forall|j: int|
                        b < j < k && #[trigger] buyback_match(entries@, want@, j) ==> entries@[j].1
                            < entries@[b as int].1
                },
                None => forall|j: int| 0 <= j < k ==> !#[trigger] buyback_match(entries@, want@, j),
            },
        decreases entries.len() - k,
    {
        if entries[k].0 == *want {
            let better = match best {
                Some(b) => entries[k].1 >= entries[b].1,
                None => true,
            };
            if better {
                best = Some(k);
            }
        }
        k = k + 1;
    }
    best
}

/// Where an item the agent asked to use is.
#[derive(Debug, Clone, Copy, PartialEq, Eq, Structural)]
pub enum Carried {
    Worn,
    InBag,
}

/// What using an item does.
#[derive(Debug, Clone, Copy, PartialEq, Eq, Structural)]
pub enum UseKind {
    /// Worn gear comes off.
    TakeOff,
    /// Gear in the bag is put on (lighting a torch is wearing one).
    PutOn,
    /// Anything else consumable is used up.
    Consume,
}

/// What using an item does: worn gear comes off; from the bag, what has a
/// slot is put on and what is consumable is used; anything else cannot be
/// used (none).
pub fn use_kind(at: Carried, has_slot: bool, consumable: bool) -> (r: Option<UseKind>)
    ensures
        r == (match at {
            Carried::Worn => Some(UseKind::TakeOff),
            Carried::InBag => if has_slot {
                Some(UseKind::PutOn)
            } else if consumable {
                Some(UseKind::Consume)
            } else {
                None
            },
        }),
{
    match at {
        Carried::Worn => Some(UseKind::TakeOff),
        Carried::InBag => {
            if has_slot {
                Some(UseKind::PutOn)
            } else if consumable {
                Some(UseKind::Consume)
            } else {
                None
            }
        },
    }
}

/// Which way a haggled deal goes.
#[derive(Debug, Clone, Copy, PartialEq, Eq, Structural)]
pub enum DealKind {
    Buy,
    Sell,
}

/// Which way a deal goes: a sale only when the agent says `sell`, a
/// purchase otherwise.
pub fn deal_kind(kind: Option<&str>) -> (r: DealKind)
    ensures
        r == (match kind {
            Some(k) => if k@ == "sell"@ {
                DealKind::Sell
            } else {
                DealKind::Buy
            },
            None => DealKind::Buy,
        }),
{
    match kind {
        Some(k) => {
            let sell = String::from_str("sell");
            let asked = k.to_string();
            if asked == sell {
                DealKind::Sell
            } else {
                DealKind::Buy
            }
        },
        None => DealKind::Buy,
    }
}

/// Which of the two sales pitches an action makes to another player.
#[derive(Debug, Clone, Copy, PartialEq, Eq, Structural)]
pub enum Pitch {
    /// A haggled price on one item.
    Deal,
    /// Our shop window opened on their screen.
    Trade,
}

/// Whether a bag action sells or drops.
#[derive(Debug, Clone, Copy, PartialEq, Eq, Structural)]
pub enum BagVerb {
    Sell,
    Drop,
}

/// A note the agent reads about an action of its reply. Where a walk was
/// involved, `loss` is why it fell short, none when something went wrong.
#[derive(Debug)]
pub enum Note {
    /// The reply was not the JSON object asked for.
    BadResponse { error: String },
    UnknownAction { kind: String },
    FollowNobody { name: String },
    Following { name: String },
    FollowEnded { name: String, loss: Option<LostReason> },
    /// The chase before an attack went wrong.
    AttackWentWrong { monster: String },
    PitchNobody { pitch: Pitch, player: String },
    PitchToNpc { pitch: Pitch, player: String },
    TradeAsked { player: String },
    NoInvite,
    InviteDeclined { inviter: String },
    NoSummons,
    SummonsDeclined { caster: String },
    UseNothing { item: String },
    UseUnusable { def: String },
    BagNothing { verb: BagVerb, item: String },
    BagWorn { verb: BagVerb, def: String },
    BagQty { verb: BagVerb, def: String, reason: String },
    MerchantTraveler { tag: String, merchant: String },
    MerchantNobody { tag: String, merchant: String },
    MerchantUnreached { tag: String, merchant: String, loss: Option<LostReason> },
    BuybackNothing { merchant: String },
    BuybackMissing { merchant: String, item: String, held: Vec<String> },
    PropSmashed { prop: u32 },
    PropNotHere { prop: u32 },
    PropUnreached { prop: u32, loss: Option<LostReason> },
    ChestNone,
    ChestUnreached { loss: Option<LostReason> },
    PickupNothing { item: String },
    PickupUnreached { def: String, loss: Option<LostReason> },
    CharacterReached { id: u64, name: String },
    CharacterUnreached { name: String, loss: Option<LostReason> },
    MonsterReached { id: String },
    /// The walk to a monster (or an item) went wrong on the way.
    WalkWentWrong { name: String },
    ItemReached { instance: u64, name: String },
    ItemUnreached { instance: u64, name: String, loss: LostReason },
    NotADirection { dir: String },
    NoGoal,
    /// A prop or chest to walk up to is no longer in the room.
    SightingGone { what: String },
    SightingReached { what: String },
    SightingUnreached { what: String, loss: Option<LostReason> },
}

/// The failure tag of a bag action.
pub open spec fn bag_tag(v: BagVerb) -> Seq<char> {
    match v {
        BagVerb::Sell => "[SellFailed] "@,
        BagVerb::Drop => "[DropFailed] "@,
    }
}

/// What a note says.
pub open spec fn note_spec(n: Note) -> Seq<char> {
    match n {
        Note::BadResponse { error } => "[BadResponse] Your last reply was not the required JSON object ("@
            + error@
            + "), so your character did nothing. Reply with the raw JSON schema only."@,
        Note::UnknownAction { kind } => "[ActionFailed] '"@ + kind@
            + "' is not an action type — it did nothing. Use one of the types listed in your instructions."@,
        Note::FollowNobody { name } => "[MoveFailed] No character named '"@ + name@
            + "' is nearby to follow."@,
        Note::Following { name } => "[Following] You are now following "@ + name@
            + ". Any other action that takes your body over — a move, attack, pickup, chest, trade or fishing — stops the follow."@,
        Note::FollowEnded { name, loss } => match loss {
            Some(l) => "[FollowEnded] You are no longer following "@ + name@ + " — "@ + lost_clause(l)
                + "."@,
            None => "[FollowEnded] Something went wrong while following "@ + name@ + "."@,
        },
        Note::AttackWentWrong { monster } => "[Unreachable] Could not reach monster "@ + monster@
            + ": something went wrong on the way."@,
        Note::PitchNobody { pitch, player } => match pitch {
            Pitch::Deal => "[DealFailed] No player named '"@ + player@
                + "' is nearby; the offer was not sent."@,
            Pitch::Trade => "[TradeFailed] No player named '"@ + player@
                + "' is nearby; no trade window was opened."@,
        },
        Note::PitchToNpc { pitch, player } => match pitch {
            Pitch::Deal => "[DealFailed] "@ + player@
                + " is an NPC — deals can only be offered to player travelers. Drop the subject."@,
            Pitch::Trade => "[TradeFailed] "@ + player@
                + " is an NPC — trade windows can only be opened for player travelers. Drop the subject."@,
        },
        Note::TradeAsked { player } => "[OpenTrade] You asked the server to open your trade window for "@
            + player@
            + " — it only appears on their screen if they are within a few meters and accept."@,
        Note::NoInvite => "[PartyFailed] No pending party invite to answer."@,
        Note::InviteDeclined { inviter } => "[Party] You declined "@ + inviter@ + "'s invite."@,
        Note::NoSummons => "[SummonFailed] No pending summons to answer."@,
        Note::SummonsDeclined { caster } => "[Party] You declined "@ + caster@ + "'s summons."@,
        Note::UseNothing { item } => "[UseFailed] You are not carrying anything called '"@ + item@
            + "'."@,
        Note::UseUnusable { def } => "[UseFailed] "@ + def@ + " cannot be worn or used."@,
        Note::BagNothing { verb, item } => bag_tag(verb) + "Nothing called '"@ + item@
            + "' is left in your bag."@,
        Note::BagWorn { verb, def } => bag_tag(verb) + def@ + (match verb {
            BagVerb::Sell => " is equipped — worn gear is not for sale."@,
            BagVerb::Drop => " is equipped — worn gear cannot be dropped."@,
        }),
        Note::BagQty { verb, def, reason } => bag_tag(verb) + def@ + ": "@ + reason@ + "."@,
        Note::MerchantTraveler { tag, merchant } => "["@ + tag@ + "] "@ + merchant@
            + " is a fellow traveler, not a shopkeeper — trading is with NPC merchants only."@,
        Note::MerchantNobody { tag, merchant } => "["@ + tag@ + "] No one named '"@ + merchant@
            + "' is nearby."@,
        Note::MerchantUnreached { tag, merchant, loss } => match loss {
            Some(l) => "["@ + tag@ + "] You could not reach "@ + merchant@ + " — "@ + lost_clause(l)
                + "."@,
            None => "["@ + tag@ + "] You could not reach "@ + merchant@ + "."@,
        },
        Note::BuybackNothing { merchant } => "[BuybackFailed] Nothing of yours is waiting with "@
            + merchant@
            + " — the [Buyback] event after a sale lists what they still hold."@,
        Note::BuybackMissing { merchant, item, held } => "[BuybackFailed] "@ + merchant@
            + "'s buyback list has no '"@ + item@ + "' — it holds: "@ + joined(
            held@.map_values(|h: String| h@),
            ", "@,
        ) + "."@,
        Note::PropSmashed { prop } => "[PropFailed] Prop "@ + decimal(prop as nat)
            + " is already smashed."@,
        Note::PropNotHere { prop } => "[PropFailed] Prop "@ + decimal(prop as nat)
            + " is not a barrel or crate standing in this room — smash one of the props the world state lists."@,
        Note::PropUnreached { prop, loss } => match loss {
            Some(l) => "[PropFailed] You could not get to prop "@ + decimal(prop as nat) + " — "@
                + lost_clause(l) + "."@,
            None => "[PropFailed] You could not get to prop "@ + decimal(prop as nat) + "."@,
        },
        Note::ChestNone => "[ChestFailed] You see no chest in this room — go and find one."@,
        Note::ChestUnreached { loss } => match loss {
            Some(l) => "[ChestFailed] You did not reach the chest — "@ + lost_clause(l) + "."@,
            None => "[ChestFailed] You did not reach the chest — something went wrong on the way."@,
        },
        Note::PickupNothing { item } => "[PickupFailed] No item matching '"@ + item@
            + "' is on the ground nearby."@,
        Note::PickupUnreached { def, loss } => match loss {
            Some(l) => "[PickupFailed] You could not reach the "@ + def@ + " — "@ + (match l {
                LostReason::TargetGone => "it was taken or despawned before you got there"@,
                _ => lost_clause(l),
            }) + "."@,
            None => "[PickupFailed] Something went wrong on the way to the "@ + def@ + "."@,
        },
        Note::CharacterReached { id, name } => "[Arrived] You walked up to character "@ + decimal(
            id as nat,
        ) + " ("@ + name@
            + ") and now stand right next to them. No further movement is needed to interact."@,
        Note::CharacterUnreached { name, loss } => match loss {
            Some(l) => "[MoveFailed] You could not reach "@ + name@ + " — "@ + (match l {
                LostReason::TargetGone => "they moved out of sight"@,
                LostReason::TooFar(d) => "they are "@ + d@ + "m away, too far to follow"@,
                _ => lost_clause(l),
            }) + "."@,
            None => "[MoveFailed] Something went wrong walking to "@ + name@ + "."@,
        },
        Note::MonsterReached { id } => "[Arrived] You stand within striking distance of "@ + id@
            + ". Attack it with {\"type\": \"attack\", \"target\": \""@ + id@ + "\"}."@,
        Note::WalkWentWrong { name } => "[MoveFailed] Something went wrong walking to "@ + name@
            + "."@,
        Note::ItemReached { instance, name } => "[Arrived] You stand over ground item "@ + decimal(
            instance as nat,
        ) + " ("@ + name@ + "). Take it with {\"type\": \"pickup\", \"target\": "@ + decimal(
            instance as nat,
        ) + "}."@,
        Note::ItemUnreached { instance, name, loss } => "[MoveFailed] You did not reach "@ + name@
            + " [id "@ + decimal(instance as nat) + "] — "@ + lost_clause(loss) + "."@,
        Note::NotADirection { dir } => "[MoveFailed] '"@ + dir@
            + "' is not a direction, so you stayed put. Use north, south, east, west, northeast, northwest, southeast or southwest."@,
        Note::NoGoal => "[MoveFailed] That move had no usable goal — give a target, both x and z, or a direction with a distance."@,
        Note::SightingGone { what } => "[MoveFailed] "@ + what@
            + " is no longer in this room to walk to."@,
        Note::SightingReached { what } => "[Arrived] You stand next to "@ + what@ + "."@,
        Note::SightingUnreached { what, loss } => match loss {
            Some(l) => "[MoveFailed] You did not reach "@ + what@ + " — "@ + lost_clause(l) + "."@,
            None => "[MoveFailed] Something went wrong walking to "@ + what@ + "."@,
        },
    }
}

/// `s` followed by `tail`.
fn cat(s: &str, tail: &str) -> (r: String)
    ensures
        r@ == s@ + tail@,
{
    let mut r = String::from_str(s);
    r.append(tail);
    r
}

impl Note {
    /// What the note says.
    pub fn text(&self) -> (r: String)
        ensures
            r@ == note_spec(*self),
    {
        match self {
            Note::BadResponse { error } => {
                let mut r = String::from_str(
                    "[BadResponse] Your last reply was not the required JSON object (",
                );
                r.append(error.as_str());
                r.append("), so your character did nothing. Reply with the raw JSON schema only.");
                r
            },
            Note::UnknownAction { kind } => {
                let mut r = cat("[ActionFailed] '", kind.as_str());
                r.append(
                    "' is not an action type — it did nothing. Use one of the types listed in your instructions.",
                );
                r
            },
            Note::FollowNobody { name } => {
                let mut r = cat("[MoveFailed] No character named '", name.as_str());
                r.append("' is nearby to follow.");
                r
            },
            Note::Following { name } => {
                let mut r = cat("[Following] You are now following ", name.as_str());
                r.append(
                    ". Any other action that takes your body over — a move, attack, pickup, chest, trade or fishing — stops the follow.",
                );
                r
            },
            Note::FollowEnded { name, loss } => match loss {
                Some(l) => {
                    let mut r = cat("[FollowEnded] You are no longer following ", name.as_str());
                    r.append(" — ");
                    let c = l.clause();
                    r.append(c.as_str());
                    r.append(".");
                    r
                },
                None => {
                    let mut r = cat("[FollowEnded] Something went wrong while following ", name.as_str());
                    r.append(".");
                    r
                },
            },
            Note::AttackWentWrong { monster } => {
                let mut r = cat("[Unreachable] Could not reach monster ", monster.as_str());
                r.append(": something went wrong on the way.");
                r
            },
            Note::PitchNobody { pitch, player } => match pitch {
                Pitch::Deal => {
                    let mut r = cat("[DealFailed] No player named '", player.as_str());
                    r.append("' is nearby; the offer was not sent.");
                    r
                },
                Pitch::Trade => {
                    let mut r = cat("[TradeFailed] No player named '", player.as_str());
                    r.append("' is nearby; no trade window was opened.");
                    r
                },
            },
            Note::PitchToNpc { pitch, player } => match pitch {
                Pitch::Deal => {
                    let mut r = cat("[DealFailed] ", player.as_str());
                    r.append(
                        " is an NPC — deals can only be offered to player travelers. Drop the subject.",
                    );
                    r
                },
                Pitch::Trade => {
                    let mut r = cat("[TradeFailed] ", player.as_str());
                    r.append(
                        " is an NPC — trade windows can only be opened for player travelers. Drop the subject.",
                    );
                    r
                },
            },
            Note::TradeAsked { player } => {
                let mut r = cat(
                    "[OpenTrade] You asked the server to open your trade window for ",
                    player.as_str(),
                );
                r.append(" — it only appears on their screen if they are within a few meters and accept.");
                r
            },
            Note::NoInvite => String::from_str("[PartyFailed] No pending party invite to answer."),
            Note::InviteDeclined { inviter } => {
                let mut r = cat("[Party] You declined ", inviter.as_str());
                r.append("'s invite.");
                r
            },
            Note::NoSummons => String::from_str("[SummonFailed] No pending summons to answer."),
            Note::SummonsDeclined { caster } => {
                let mut r = cat("[Party] You declined ", caster.as_str());
                r.append("'s summons.");
                r
            },
            Note::UseNothing { item } => {
                let mut r = cat("[UseFailed] You are not carrying anything called '", item.as_str());
                r.append("'.");
                r
            },
            Note::UseUnusable { def } => {
                let mut r = cat("[UseFailed] ", def.as_str());
                r.append(" cannot be worn or used.");
                r
            },
            Note::BagNothing { verb, item } => {
                let mut r = bag_tag_text(*verb);
                r.append("Nothing called '");
                r.append(item.as_str());
                r.append("' is left in your bag.");
                r
            },
            Note::BagWorn { verb, def } => {
                let mut r = bag_tag_text(*verb);
                r.append(def.as_str());
                match verb {
                    BagVerb::Sell => r.append(" is equipped — worn gear is not for sale."),
                    BagVerb::Drop => r.append(" is equipped — worn gear cannot be dropped."),
                }
                r
            },
            Note::BagQty { verb, def, reason } => {
                let mut r = bag_tag_text(*verb);
                r.append(def.as_str());
                r.append(": ");
                r.append(reason.as_str());
                r.append(".");
                r
            },
            Note::MerchantTraveler { tag, merchant } => {
                let mut r = cat("[", tag.as_str());
                r.append("] ");
                r.append(merchant.as_str());
                r.append(
                    " is a fellow traveler, not a shopkeeper — trading is with NPC merchants only.",
                );
                r
            },
            Note::MerchantNobody { tag, merchant } => {
                let mut r = cat("[", tag.as_str());
                r.append("] No one named '");
                r.append(merchant.as_str());
                r.append("' is nearby.");
                r
            },
            Note::MerchantUnreached { tag, merchant, loss } => {
                let mut r = cat("[", tag.as_str());
                r.append("] You could not reach ");
                r.append(merchant.as_str());
                match loss {
                    Some(l) => {
                        r.append(" — ");
                        let c = l.clause();
                        r.append(c.as_str());
                    },
                    None => {},
                }
                r.append(".");
                r
            },
            Note::BuybackNothing { merchant } => {
                let mut r = cat("[BuybackFailed] Nothing of yours is waiting with ", merchant.as_str());
                r.append(" — the [Buyback] event after a sale lists what they still hold.");
                r
            },
            Note::BuybackMissing { merchant, item, held } => {
                let mut r = cat("[BuybackFailed] ", merchant.as_str());
                r.append("'s buyback list has no '");
                r.append(item.as_str());
                r.append("' — it holds: ");
                push_joined(&mut r, held, ", ");
                r.append(".");
                r
            },
            Note::PropSmashed { prop } => {
                let mut r = String::from_str("[PropFailed] Prop ");
                push_decimal(&mut r, *prop);
                r.append(" is already smashed.");
                r
            },
            Note::PropNotHere { prop } => {
                let mut r = String::from_str("[PropFailed] Prop ");
                push_decimal(&mut r, *prop);
                r.append(
                    " is not a barrel or crate standing in this room — smash one of the props the world state lists.",
                );
                r
            },
            Note::PropUnreached { prop, loss } => {
                let mut r = String::from_str("[PropFailed] You could not get to prop ");
                push_decimal(&mut r, *prop);
                match loss {
                    Some(l) => {
                        r.append(" — ");
                        let c = l.clause();
                        r.append(c.as_str());
                    },
                    None => {},
                }
                r.append(".");
                r
            },
            Note::ChestNone => String::from_str(
                "[ChestFailed] You see no chest in this room — go and find one.",
            ),
            Note::ChestUnreached { loss } => match loss {
                Some(l) => {
                    let c = l.clause();
                    let mut r = cat("[ChestFailed] You did not reach the chest — ", c.as_str());
                    r.append(".");
                    r
                },
                None => String::from_str(
                    "[ChestFailed] You did not reach the chest — something went wrong on the way.",
                ),
            },
            Note::PickupNothing { item } => {
                let mut r = cat("[PickupFailed] No item matching '", item.as_str());
                r.append("' is on the ground nearby.");
                r
            },
            Note::PickupUnreached { def, loss } => match loss {
                Some(l) => {
                    let mut r = cat("[PickupFailed] You could not reach the ", def.as_str());
                    r.append(" — ");
                    match l {
                        LostReason::TargetGone => r.append(
                            "it was taken or despawned before you got there",
                        ),
                        _ => {
                            let c = l.clause();
                            r.append(c.as_str());
                        },
                    }
                    r.append(".");
                    r
                },
                None => {
                    let mut r = cat("[PickupFailed] Something went wrong on the way to the ", def.as_str());
                    r.append(".");
                    r
                },
            },
            Note::CharacterReached { id, name } => {
                let mut r = String::from_str("[Arrived] You walked up to character ");
                push_decimal_u64(&mut r, *id);
                r.append(" (");
                r.append(name.as_str());
                r.append(") and now stand right next to them. No further movement is needed to interact.");
                r
            },
            Note::CharacterUnreached { name, loss } => match loss {
                Some(l) => {
                    let mut r = cat("[MoveFailed] You could not reach ", name.as_str());
                    r.append(" — ");
                    match l {
                        LostReason::TargetGone => r.append("they moved out of sight"),
                        LostReason::TooFar(d) => {
                            r.append("they are ");
                            r.append(d.as_str());
                            r.append("m away, too far to follow");
                        },
                        _ => {
                            let c = l.clause();
                            r.append(c.as_str());
                        },
                    }
                    r.append(".");
                    r
                },
                None => {
                    let mut r = cat("[MoveFailed] Something went wrong walking to ", name.as_str());
                    r.append(".");
                    r
                },
            },
            Note::MonsterReached { id } => {
                let mut r = cat("[Arrived] You stand within striking distance of ", id.as_str());
                r.append(". Attack it with {\"type\": \"attack\", \"target\": \"");
                r.append(id.as_str());
                r.append("\"}.");
                r
            },
            Note::WalkWentWrong { name } => {
                let mut r = cat("[MoveFailed] Something went wrong walking to ", name.as_str());
                r.append(".");
                r
            },
            Note::ItemReached { instance, name } => {
                let mut r = String::from_str("[Arrived] You stand over ground item ");
                push_decimal_u64(&mut r, *instance);
                r.append(" (");
                r.append(name.as_str());
                r.append("). Take it with {\"type\": \"pickup\", \"target\": ");
                push_decimal_u64(&mut r, *instance);
                r.append("}.");
                r
            },
            Note::ItemUnreached { instance, name, loss } => {
                let mut r = cat("[MoveFailed] You did not reach ", name.as_str());
                r.append(" [id ");
                push_decimal_u64(&mut r, *instance);
                r.append("] — ");
                let c = loss.clause();
                r.append(c.as_str());
                r.append(".");
                r
            },
            Note::NotADirection { dir } => {
                let mut r = cat("[MoveFailed] '", dir.as_str());
                r.append(
                    "' is not a direction, so you stayed put. Use north, south, east, west, northeast, northwest, southeast or southwest.",
                );
                r
            },
            Note::NoGoal => String::from_str(
                "[MoveFailed] That move had no usable goal — give a target, both x and z, or a direction with a distance.",
            ),
            Note::SightingGone { what } => {
                let mut r = cat("[MoveFailed] ", what.as_str());
                r.append(" is no longer in this room to walk to.");
                r
            },
            Note::SightingReached { what } => {
                let mut r = cat("[Arrived] You stand next to ", what.as_str());
                r.append(".");
                r
            },
            Note::SightingUnreached { what, loss } => match loss {
                Some(l) => {
                    let mut r = cat("[MoveFailed] You did not reach ", what.as_str());
                    r.append(" — ");
                    let c = l.clause();
                    r.append(c.as_str());
                    r.append(".");
                    r
                },
                None => {
                    let mut r = cat("[MoveFailed] Something went wrong walking to ", what.as_str());
                    r.append(".");
                    r
                },
            },
        }
    }
}

/// The failure tag of a bag action.
fn bag_tag_text(v: BagVerb) -> (r: String)
    ensures
        r@ == bag_tag(v),
{
    match v {
        BagVerb::Sell => String::from_str("[SellFailed] "),
        BagVerb::Drop => String::from_str("[DropFailed] "),
    }
}

/// How a chase after a target ended.
#[derive(Debug)]
pub enum Chase {
    InRange,
    Lost(LostReason),
    Error,
}

/// Whether a follow goes on after one chase: within range it waits and
/// looks again; a chase that ran out of time while the target kept walking
/// is following working, not failing; anything else ends the follow.
pub open spec fn follow_goes_on(c: Chase, target_moved: bool) -> bool {
    match c {
        Chase::InRange => true,
        Chase::Lost(LostReason::Timeout) => target_moved,
        _ => false,
    }
}

/// One round of following `name`: none while the follow goes on, else the
/// note that ends it.
pub fn follow_round(c: Chase, target_moved: bool, name: &str) -> (r: Option<Note>)
    ensures
        r is None <==> follow_goes_on(c, target_moved),
        match r {
            Some(n) => note_spec(n) == (match c {
                Chase::Lost(l) => "[FollowEnded] You are no longer following "@ + name@ + " — "@
                    + lost_clause(l) + "."@,
                _ => "[FollowEnded] Something went wrong while following "@ + name@ + "."@,
            }),
            None => true,
        },
{
    match c {
        Chase::InRange => None,
        Chase::Lost(l) => {
            let timed_out = match l {
                LostReason::Timeout => true,
                _ => false,
            };
            if timed_out && target_moved {
                None
            } else {
                Some(Note::FollowEnded { name: name.to_string(), loss: Some(l) })
            }
        },
        Chase::Error => Some(Note::FollowEnded { name: name.to_string(), loss: None }),
    }
}

/// The player a deal or a trade window is offered to: someone nearby
/// (`resolved` is their id and whether they are an NPC), and a traveler,
/// for the server refuses NPCs anyway and a refusal here keeps a false
/// result out of the agent's context.
pub fn pitch_partner(pitch: Pitch, player: &str, resolved: Option<(u64, bool)>) -> (r: Result<
    u64,
    Note,
>)
    ensures
        match resolved {
            None => r matches Err(n) && note_spec(n) == (match pitch {
                Pitch::Deal => "[DealFailed] No player named '"@ + player@
                    + "' is nearby; the offer was not sent."@,
                Pitch::Trade => "[TradeFailed] No player named '"@ + player@
                    + "' is nearby; no trade window was opened."@,
            }),
            Some((id, npc)) => if npc {
                r matches Err(n) && note_spec(n) == (match pitch {
                    Pitch::Deal => "[DealFailed] "@ + player@
                        + " is an NPC — deals can only be offered to player travelers. Drop the subject."@,
                    Pitch::Trade => "[TradeFailed] "@ + player@
                        + " is an NPC — trade windows can only be opened for player travelers. Drop the subject."@,
                })
            } else {
                r == Ok::<u64, Note>(id)
            },
        },
{
    match resolved {
        None => Err(Note::PitchNobody { pitch, player: player.to_string() }),
        Some((id, npc)) => {
            if npc {
                Err(Note::PitchToNpc { pitch, player: player.to_string() })
            } else {
                Ok(id)
            }
        },
    }
}

/// The merchant a sale, purchase or buyback goes to: someone nearby, and
/// an NPC, for only NPC merchants trade. `tag` labels the failure.
pub fn merchant_partner(tag: &str, merchant: &str, resolved: Option<(u64, bool)>) -> (r: Result<
    u64,
    Note,
>)
    ensures
        match resolved {
            None => r matches Err(n) && note_spec(n) == "["@ + tag@ + "] No one named '"@ + merchant@
                + "' is nearby."@,
            Some((id, npc)) => if npc {
                r == Ok::<u64, Note>(id)
            } else {
                r matches Err(n) && note_spec(n) == "["@ + tag@ + "] "@ + merchant@
                    + " is a fellow traveler, not a shopkeeper — trading is with NPC merchants only."@
            },
        },
{
    match resolved {
        None => Err(Note::MerchantNobody { tag: tag.to_string(), merchant: merchant.to_string() }),
        Some((id, npc)) => {
            if npc {
                Ok(id)
            } else {
                Err(
                    Note::MerchantTraveler { tag: tag.to_string(), merchant: merchant.to_string() },
                )
            }
        },
    }
}

/// What a walk toward an action's target was for.
#[derive(Debug)]
pub enum Errand {
    /// An attack on this monster.
    Attack { monster: String },
    /// Smashing a prop.
    Smash { prop: u32 },
    /// Opening the chest picked in this room.
    OpenChest,
    /// Picking up an item of this kind.
    Pickup { def: String },
    /// Trading with a merchant; a failure is reported under the trade's tag.
    Trade { tag: String, merchant: String },
    /// A move up to a character.
    ToCharacter { id: u64, name: String },
    /// A move up to a monster.
    ToMonster { id: String },
    /// A move onto an item on the ground.
    ToItem { instance: u64, name: String },
    /// A move up to a dungeon sighting: a prop or a chest.
    ToSighting { what: String },
}

/// What follows a walk: whether the action sends its command (the swing,
/// the smash, the opening, the pickup, the trade, or turning to face who
/// we walked up to), and what the agent is told, if anything.
#[derive(Debug)]
pub struct AfterWalk {
    pub sends: bool,
    pub told: Option<String>,
}

/// What follows a walk for errand `e` that ended as `c`.
pub open spec fn after_walk_spec(e: Errand, c: Chase) -> (bool, Option<Seq<char>>) {
    match e {
        Errand::Attack { monster } => match c {
            Chase::InRange => (true, None),
            Chase::Lost(l) => (false, Some(unreachable_spec(monster@, l))),
            Chase::Error => (false, Some(note_spec(Note::AttackWentWrong { monster }))),
        },
        Errand::Smash { prop } => match c {
            Chase::InRange => (true, None),
            Chase::Lost(l) => (false, Some(note_spec(Note::PropUnreached { prop, loss: Some(l) }))),
            Chase::Error => (false, Some(note_spec(Note::PropUnreached { prop, loss: None }))),
        },
        Errand::OpenChest => match c {
            Chase::InRange => (true, None),
            Chase::Lost(l) => (false, Some(note_spec(Note::ChestUnreached { loss: Some(l) }))),
            Chase::Error => (false, Some(note_spec(Note::ChestUnreached { loss: None }))),
        },
        Errand::Pickup { def } => match c {
            Chase::InRange => (true, None),
            Chase::Lost(l) => (false, Some(note_spec(Note::PickupUnreached { def, loss: Some(l) }))),
            Chase::Error => (false, Some(note_spec(Note::PickupUnreached { def, loss: None }))),
        },
        Errand::Trade { tag, merchant } => match c {
            Chase::InRange => (true, None),
            Chase::Lost(l) => (false, Some(note_spec(Note::MerchantUnreached { tag, merchant, loss: Some(l) }))),
            Chase::Error => (false, Some(note_spec(Note::MerchantUnreached { tag, merchant, loss: None }))),
        },
        Errand::ToCharacter { id, name } => match c {
            Chase::InRange => (true, Some(note_spec(Note::CharacterReached { id, name }))),
            Chase::Lost(l) => (false, Some(note_spec(Note::CharacterUnreached { name, loss: Some(l) }))),
            Chase::Error => (false, Some(note_spec(Note::CharacterUnreached { name, loss: None }))),
        },
        Errand::ToMonster { id } => match c {
            Chase::InRange => (true, Some(note_spec(Note::MonsterReached { id }))),
            Chase::Lost(l) => (false, Some(unreachable_spec(id@, l))),
            Chase::Error => (false, Some(note_spec(Note::WalkWentWrong { name: id }))),
        },
        Errand::ToItem { instance, name } => match c {
            Chase::InRange => (false, Some(note_spec(Note::ItemReached { instance, name }))),
            Chase::Lost(l) => (false, Some(note_spec(Note::ItemUnreached { instance, name, loss: l }))),
            Chase::Error => (false, Some(note_spec(Note::WalkWentWrong { name }))),
        },
        Errand::ToSighting { what } => match c {
            Chase::InRange => (false, Some(note_spec(Note::SightingReached { what }))),
            Chase::Lost(l) => (false, Some(note_spec(Note::SightingUnreached { what, loss: Some(l) }))),
            Chase::Error => (false, Some(note_spec(Note::SightingUnreached { what, loss: None }))),
        },
    }
}

/// What follows a walk for errand `e` that ended as `c`: within range the
/// action sends its command (a move to a character or a monster turns to
/// face it and says so; a move onto an item or a sighting only says so);
/// a lost walk tells why, and a walk that went wrong says that.
pub fn after_walk(e: Errand, c: Chase) -> (r: AfterWalk)
    ensures
        r.sends == after_walk_spec(e, c).0,
        match r.told {
            Some(t) => after_walk_spec(e, c).1 == Some(t@),
            None => after_walk_spec(e, c).1 is None,
        },
{
    let (sends, note): (bool, Option<Note>) = match e {
        Errand::Attack { monster } => match c {
            Chase::InRange => (true, None),
            Chase::Lost(l) => {
                return AfterWalk { sends: false, told: Some(unreachable_note(monster.as_str(), &l)) };
            },
            Chase::Error => (false, Some(Note::AttackWentWrong { monster })),
        },
        Errand::Smash { prop } => match c {
            Chase::InRange => (true, None),
            Chase::Lost(l) => (false, Some(Note::PropUnreached { prop, loss: Some(l) })),
            Chase::Error => (false, Some(Note::PropUnreached { prop, loss: None })),
        },
        Errand::OpenChest => match c {
            Chase::InRange => (true, None),
            Chase::Lost(l) => (false, Some(Note::ChestUnreached { loss: Some(l) })),
            Chase::Error => (false, Some(Note::ChestUnreached { loss: None })),
        },
        Errand::Pickup { def } => match c {
            Chase::InRange => (true, None),
            Chase::Lost(l) => (false, Some(Note::PickupUnreached { def, loss: Some(l) })),
            Chase::Error => (false, Some(Note::PickupUnreached { def, loss: None })),
        },
        Errand::Trade { tag, merchant } => match c {
            Chase::InRange => (true, None),
            Chase::Lost(l) => (false, Some(Note::MerchantUnreached { tag, merchant, loss: Some(l) })),
            Chase::Error => (false, Some(Note::MerchantUnreached { tag, merchant, loss: None })),
        },
        Errand::ToCharacter { id, name } => match c {
            Chase::InRange => (true, Some(Note::CharacterReached { id, name })),
            Chase::Lost(l) => (false, Some(Note::CharacterUnreached { name, loss: Some(l) })),
            Chase::Error => (false, Some(Note::CharacterUnreached { name, loss: None })),
        },
        Errand::ToMonster { id } => match c {
            Chase::InRange => (true, Some(Note::MonsterReached { id })),
            Chase::Lost(l) => {
                return AfterWalk { sends: false, told: Some(unreachable_note(id.as_str(), &l)) };
            },
            Chase::Error => (false, Some(Note::WalkWentWrong { name: id })),
        },
        Errand::ToItem { instance, name } => match c {
            Chase::InRange => (false, Some(Note::ItemReached { instance, name })),
            Chase::Lost(l) => (false, Some(Note::ItemUnreached { instance, name, loss: l })),
            Chase::Error => (false, Some(Note::WalkWentWrong { name })),
        },
        Errand::ToSighting { what } => match c {
            Chase::InRange => (false, Some(Note::SightingReached { what })),
            Chase::Lost(l) => (false, Some(Note::SightingUnreached { what, loss: Some(l) })),
            Chase::Error => (false, Some(Note::SightingUnreached { what, loss: None })),
        },
    };
    let told = match note {
        Some(n) => Some(n.text()),
        None => None,
    };
    AfterWalk { sends, told }
}

/// A walk that reaches its target lets the action send its command for
/// every errand that carries one (an attack, a smash, a chest, a pickup, a
/// trade, a move up to a character or a monster), and for those that only
/// move onto something nothing is sent; a walk that is lost or goes wrong
/// sends nothing and always tells the agent why. Whatever stops short of
/// its target is said; an attack, a smash, a chest, a pickup or a trade
/// that arrives says nothing more than its own result.
pub proof fn law_a_walk_in_range_sends_the_command(e: Errand, c: Chase)
    ensures
        after_walk_spec(e, Chase::InRange).0 == !(e is ToItem || e is ToSighting),
        (e is Attack || e is Smash || e is OpenChest || e is Pickup || e is Trade) ==> after_walk_spec(
            e,
            Chase::InRange,
        ).1 is None,
        !(e is Attack || e is Smash || e is OpenChest || e is Pickup || e is Trade) ==> after_walk_spec(
            e,
            Chase::InRange,
        ).1 is Some,
        !(c is InRange) ==> !after_walk_spec(e, c).0 && after_walk_spec(e, c).1 is Some,
{
}

} // verus!
