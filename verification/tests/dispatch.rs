use agent_client::dispatch::{
    after_walk, deal_kind, follow_round, merchant_partner, pick_buyback, pitch_partner, use_kind,
    BagVerb, Carried, Chase, DealKind, Errand, Note, Pitch, SpentUnits, UseKind,
};
use agent_client::execute::BagLineItem;
use agent_client::walk::LostReason;

fn text(n: Note) -> String {
    n.text()
}

#[test]
fn a_second_sale_sees_the_units_the_first_gave_away() {
    let mut spent = SpentUnits::new();
    assert_eq!(spent.spent(7), 0);
    spent.record(&vec![
        BagLineItem { instance_id: 7, qty: 2 },
        BagLineItem { instance_id: 9, qty: 1 },
    ]);
    spent.record(&vec![BagLineItem { instance_id: 7, qty: 3 }]);
    assert_eq!(spent.spent(7), 5);
    assert_eq!(spent.spent(9), 1);
    assert_eq!(spent.spent(8), 0);
}

#[test]
fn the_best_enchanted_buyback_is_taken_back_the_last_of_equals() {
    let entries = vec![
        ("iron_sword".to_string(), 1u32),
        ("shield".to_string(), 5),
        ("iron_sword".to_string(), 3),
        ("iron_sword".to_string(), 3),
        ("iron_sword".to_string(), 2),
    ];
    assert_eq!(pick_buyback(&entries, &"iron_sword".to_string()), Some(3));
    assert_eq!(pick_buyback(&entries, &"shield".to_string()), Some(1));
    assert_eq!(pick_buyback(&entries, &"bow".to_string()), None);
    assert_eq!(pick_buyback(&Vec::new(), &"bow".to_string()), None);
}

#[test]
fn using_an_item_takes_off_puts_on_or_consumes() {
    assert_eq!(use_kind(Carried::Worn, true, true), Some(UseKind::TakeOff));
    assert_eq!(use_kind(Carried::InBag, true, true), Some(UseKind::PutOn));
    assert_eq!(use_kind(Carried::InBag, false, true), Some(UseKind::Consume));
    assert_eq!(use_kind(Carried::InBag, false, false), None);
}

#[test]
fn a_deal_is_a_purchase_unless_it_says_sell() {
    assert_eq!(deal_kind(Some("sell")), DealKind::Sell);
    assert_eq!(deal_kind(Some("buy")), DealKind::Buy);
    assert_eq!(deal_kind(Some("Sell")), DealKind::Buy);
    assert_eq!(deal_kind(None), DealKind::Buy);
}

#[test]
fn a_follow_goes_on_while_the_target_keeps_walking() {
    assert!(follow_round(Chase::InRange, false, "Ann").is_none());
    assert!(follow_round(Chase::Lost(LostReason::Timeout), true, "Ann").is_none());
    assert_eq!(
        follow_round(Chase::Lost(LostReason::Timeout), false, "Ann").map(text).as_deref(),
        Some("[FollowEnded] You are no longer following Ann — you ran out of time before arriving.")
    );
    assert_eq!(
        follow_round(Chase::Lost(LostReason::TargetGone), true, "Ann").map(text).as_deref(),
        Some("[FollowEnded] You are no longer following Ann — your target is no longer there.")
    );
    assert_eq!(
        follow_round(Chase::Error, true, "Ann").map(text).as_deref(),
        Some("[FollowEnded] Something went wrong while following Ann.")
    );
}

#[test]
fn deals_and_trade_windows_go_to_nearby_travelers_only() {
    assert_eq!(pitch_partner(Pitch::Deal, "Ann", Some((4, false))).ok(), Some(4));
    assert_eq!(
        pitch_partner(Pitch::Deal, "Ann", None).err().map(text).as_deref(),
        Some("[DealFailed] No player named 'Ann' is nearby; the offer was not sent.")
    );
    assert_eq!(
        pitch_partner(Pitch::Trade, "Ann", None).err().map(text).as_deref(),
        Some("[TradeFailed] No player named 'Ann' is nearby; no trade window was opened.")
    );
    assert_eq!(
        pitch_partner(Pitch::Deal, "Gus", Some((2, true))).err().map(text).as_deref(),
        Some("[DealFailed] Gus is an NPC — deals can only be offered to player travelers. Drop the subject.")
    );
    assert_eq!(
        pitch_partner(Pitch::Trade, "Gus", Some((2, true))).err().map(text).as_deref(),
        Some(
            "[TradeFailed] Gus is an NPC — trade windows can only be opened for player travelers. \
             Drop the subject."
        )
    );
}

#[test]
fn trading_is_with_nearby_npc_merchants_only() {
    assert_eq!(merchant_partner("SellFailed", "Gus", Some((2, true))).ok(), Some(2));
    assert_eq!(
        merchant_partner("SellFailed", "Ann", Some((4, false))).err().map(text).as_deref(),
        Some(
            "[SellFailed] Ann is a fellow traveler, not a shopkeeper — trading is with NPC \
             merchants only."
        )
    );
    assert_eq!(
        merchant_partner("BuyFailed", "Gus", None).err().map(text).as_deref(),
        Some("[BuyFailed] No one named 'Gus' is nearby.")
    );
}

#[test]
fn bag_failures_name_the_action() {
    assert_eq!(
        text(Note::BagNothing { verb: BagVerb::Sell, item: "pelt".to_string() }),
        "[SellFailed] Nothing called 'pelt' is left in your bag."
    );
    assert_eq!(
        text(Note::BagWorn { verb: BagVerb::Drop, def: "iron_sword".to_string() }),
        "[DropFailed] iron_sword is equipped — worn gear cannot be dropped."
    );
    assert_eq!(
        text(Note::BagWorn { verb: BagVerb::Sell, def: "iron_sword".to_string() }),
        "[SellFailed] iron_sword is equipped — worn gear is not for sale."
    );
    assert_eq!(
        text(Note::BagQty {
            verb: BagVerb::Sell,
            def: "pelt".to_string(),
            reason: "only 2 left, not 5".to_string()
        }),
        "[SellFailed] pelt: only 2 left, not 5."
    );
}

#[test]
fn buyback_failures_say_what_the_merchant_holds() {
    assert_eq!(
        text(Note::BuybackNothing { merchant: "Gus".to_string() }),
        "[BuybackFailed] Nothing of yours is waiting with Gus — the [Buyback] event after a sale \
         lists what they still hold."
    );
    assert_eq!(
        text(Note::BuybackMissing {
            merchant: "Gus".to_string(),
            item: "bow".to_string(),
            held: vec!["iron_sword".to_string(), "shield".to_string()],
        }),
        "[BuybackFailed] Gus's buyback list has no 'bow' — it holds: iron_sword, shield."
    );
}

#[test]
fn a_missed_pickup_or_approach_says_why() {
    assert_eq!(
        text(Note::PickupUnreached { def: "pelt".to_string(), loss: Some(LostReason::TargetGone) }),
        "[PickupFailed] You could not reach the pelt — it was taken or despawned before you got there."
    );
    assert_eq!(
        text(Note::PickupUnreached { def: "pelt".to_string(), loss: Some(LostReason::NoPath) }),
        "[PickupFailed] You could not reach the pelt — no route leads there from here."
    );
    assert_eq!(
        text(Note::PickupUnreached { def: "pelt".to_string(), loss: None }),
        "[PickupFailed] Something went wrong on the way to the pelt."
    );
    assert_eq!(
        text(Note::CharacterUnreached {
            name: "Ann".to_string(),
            loss: Some(LostReason::TooFar("31".to_string()))
        }),
        "[MoveFailed] You could not reach Ann — they are 31m away, too far to follow."
    );
    assert_eq!(
        text(Note::CharacterUnreached { name: "Ann".to_string(), loss: Some(LostReason::TargetGone) }),
        "[MoveFailed] You could not reach Ann — they moved out of sight."
    );
}

#[test]
fn arrival_notes_say_what_to_do_next() {
    assert_eq!(
        text(Note::CharacterReached { id: 42, name: "Ann".to_string() }),
        "[Arrived] You walked up to character 42 (Ann) and now stand right next to them. No \
         further movement is needed to interact."
    );
    assert_eq!(
        text(Note::MonsterReached { id: "m3_1".to_string() }),
        "[Arrived] You stand within striking distance of m3_1. Attack it with {\"type\": \
         \"attack\", \"target\": \"m3_1\"}."
    );
    assert_eq!(
        text(Note::ItemReached { instance: 905, name: "pelt".to_string() }),
        "[Arrived] You stand over ground item 905 (pelt). Take it with {\"type\": \"pickup\", \
         \"target\": 905}."
    );
    assert_eq!(
        text(Note::ItemUnreached {
            instance: 905,
            name: "pelt".to_string(),
            loss: LostReason::Timeout
        }),
        "[MoveFailed] You did not reach pelt [id 905] — you ran out of time before arriving."
    );
}

#[test]
fn props_and_chests_out_of_reach_are_reported() {
    assert_eq!(text(Note::PropSmashed { prop: 12 }), "[PropFailed] Prop 12 is already smashed.");
    assert_eq!(
        text(Note::PropNotHere { prop: 12 }),
        "[PropFailed] Prop 12 is not a barrel or crate standing in this room — smash one of the \
         props the world state lists."
    );
    assert_eq!(
        text(Note::PropUnreached { prop: 12, loss: Some(LostReason::LockedDoor) }),
        "[PropFailed] You could not get to prop 12 — the way on is a locked door and you hold no \
         key for it."
    );
    assert_eq!(text(Note::PropUnreached { prop: 12, loss: None }), "[PropFailed] You could not get to prop 12.");
    assert_eq!(
        text(Note::ChestNone),
        "[ChestFailed] You see no chest in this room — go and find one."
    );
    assert_eq!(
        text(Note::ChestUnreached { loss: None }),
        "[ChestFailed] You did not reach the chest — something went wrong on the way."
    );
}

#[test]
fn the_remaining_notes_read_as_the_agent_expects() {
    assert_eq!(
        text(Note::BadResponse { error: "expected value at line 1".to_string() }),
        "[BadResponse] Your last reply was not the required JSON object (expected value at line \
         1), so your character did nothing. Reply with the raw JSON schema only."
    );
    assert_eq!(
        text(Note::Following { name: "Ann".to_string() }),
        "[Following] You are now following Ann. Any other action that takes your body over — a \
         move, attack, pickup, chest, trade or fishing — stops the follow."
    );
    assert_eq!(
        text(Note::FollowNobody { name: "Ann".to_string() }),
        "[MoveFailed] No character named 'Ann' is nearby to follow."
    );
    assert_eq!(
        text(Note::AttackWentWrong { monster: "m1".to_string() }),
        "[Unreachable] Could not reach monster m1: something went wrong on the way."
    );
    assert_eq!(
        text(Note::TradeAsked { player: "Ann".to_string() }),
        "[OpenTrade] You asked the server to open your trade window for Ann — it only appears on \
         their screen if they are within a few meters and accept."
    );
    assert_eq!(text(Note::NoInvite), "[PartyFailed] No pending party invite to answer.");
    assert_eq!(
        text(Note::InviteDeclined { inviter: "Ann".to_string() }),
        "[Party] You declined Ann's invite."
    );
    assert_eq!(text(Note::NoSummons), "[SummonFailed] No pending summons to answer.");
    assert_eq!(
        text(Note::SummonsDeclined { caster: "Ann".to_string() }),
        "[Party] You declined Ann's summons."
    );
    assert_eq!(
        text(Note::UseNothing { item: "torch".to_string() }),
        "[UseFailed] You are not carrying anything called 'torch'."
    );
    assert_eq!(
        text(Note::UseUnusable { def: "pelt".to_string() }),
        "[UseFailed] pelt cannot be worn or used."
    );
    assert_eq!(
        text(Note::MerchantUnreached {
            tag: "BuyFailed".to_string(),
            merchant: "Gus".to_string(),
            loss: Some(LostReason::NoPath)
        }),
        "[BuyFailed] You could not reach Gus — no route leads there from here."
    );
    assert_eq!(
        text(Note::MerchantUnreached { tag: "BuyFailed".to_string(), merchant: "Gus".to_string(), loss: None }),
        "[BuyFailed] You could not reach Gus."
    );
    assert_eq!(
        text(Note::PickupNothing { item: "pelt".to_string() }),
        "[PickupFailed] No item matching 'pelt' is on the ground nearby."
    );
    assert_eq!(
        text(Note::WalkWentWrong { name: "m1".to_string() }),
        "[MoveFailed] Something went wrong walking to m1."
    );
    assert_eq!(
        text(Note::NotADirection { dir: "up".to_string() }),
        "[MoveFailed] 'up' is not a direction, so you stayed put. Use north, south, east, west, \
         northeast, northwest, southeast or southwest."
    );
    assert_eq!(
        text(Note::NoGoal),
        "[MoveFailed] That move had no usable goal — give a target, both x and z, or a direction \
         with a distance."
    );
}

#[test]
fn a_walk_to_a_prop_or_chest_says_where_it_got() {
    assert_eq!(
        text(Note::SightingGone { what: "prop 12".to_string() }),
        "[MoveFailed] prop 12 is no longer in this room to walk to."
    );
    assert_eq!(
        text(Note::SightingReached { what: "the great chest".to_string() }),
        "[Arrived] You stand next to the great chest."
    );
    assert_eq!(
        text(Note::SightingUnreached { what: "a small chest".to_string(), loss: Some(LostReason::Timeout) }),
        "[MoveFailed] You did not reach a small chest — you ran out of time before arriving."
    );
    assert_eq!(
        text(Note::SightingUnreached { what: "a small chest".to_string(), loss: None }),
        "[MoveFailed] Something went wrong walking to a small chest."
    );
}

fn walked(e: Errand, c: Chase) -> (bool, Option<String>) {
    let a = after_walk(e, c);
    (a.sends, a.told)
}

#[test]
fn an_attack_swings_once_in_range_and_says_why_it_did_not() {
    assert_eq!(walked(Errand::Attack { monster: "m1".to_string() }, Chase::InRange), (true, None));
    assert_eq!(
        walked(Errand::Attack { monster: "m1".to_string() }, Chase::Lost(LostReason::NoPath)),
        (
            false,
            Some(
                "[Unreachable] No route leads to monster m1 from here — it is behind walls or on \
                 another floor. Pick a reachable monster."
                    .to_string()
            )
        )
    );
    assert_eq!(
        walked(Errand::Attack { monster: "m1".to_string() }, Chase::Error),
        (false, Some("[Unreachable] Could not reach monster m1: something went wrong on the way.".to_string()))
    );
}

#[test]
fn a_move_up_to_someone_faces_them_and_says_so() {
    assert_eq!(
        walked(Errand::ToCharacter { id: 7, name: "Ada".to_string() }, Chase::InRange),
        (
            true,
            Some(
                "[Arrived] You walked up to character 7 (Ada) and now stand right next to them. \
                 No further movement is needed to interact."
                    .to_string()
            )
        )
    );
    assert_eq!(
        walked(Errand::ToCharacter { id: 7, name: "Ada".to_string() }, Chase::Lost(LostReason::TargetGone)),
        (false, Some("[MoveFailed] You could not reach Ada — they moved out of sight.".to_string()))
    );
    assert_eq!(
        walked(Errand::ToMonster { id: "m2".to_string() }, Chase::Error),
        (false, Some("[MoveFailed] Something went wrong walking to m2.".to_string()))
    );
}

#[test]
fn a_move_onto_an_item_only_says_where_we_stand() {
    assert_eq!(
        walked(Errand::ToItem { instance: 41, name: "bone".to_string() }, Chase::InRange),
        (
            false,
            Some(
                "[Arrived] You stand over ground item 41 (bone). Take it with {\"type\": \"pickup\", \"target\": 41}."
                    .to_string()
            )
        )
    );
    assert_eq!(
        walked(Errand::ToItem { instance: 41, name: "bone".to_string() }, Chase::Lost(LostReason::Timeout)),
        (false, Some("[MoveFailed] You did not reach bone [id 41] — you ran out of time before arriving.".to_string()))
    );
}

#[test]
fn a_lost_walk_to_a_chest_prop_pickup_or_merchant_is_reported_under_its_tag() {
    assert_eq!(walked(Errand::OpenChest, Chase::InRange), (true, None));
    assert_eq!(
        walked(Errand::OpenChest, Chase::Lost(LostReason::LockedDoor)),
        (
            false,
            Some("[ChestFailed] You did not reach the chest — the way on is a locked door and you hold no key for it.".to_string())
        )
    );
    assert_eq!(
        walked(Errand::Smash { prop: 12 }, Chase::Error),
        (false, Some("[PropFailed] You could not get to prop 12.".to_string()))
    );
    assert_eq!(
        walked(Errand::Pickup { def: "pelt".to_string() }, Chase::Lost(LostReason::TargetGone)),
        (
            false,
            Some("[PickupFailed] You could not reach the pelt — it was taken or despawned before you got there.".to_string())
        )
    );
    assert_eq!(
        walked(
            Errand::Trade { tag: "BuyFailed".to_string(), merchant: "Greta".to_string() },
            Chase::Lost(LostReason::PlayerDied)
        ),
        (false, Some("[BuyFailed] You could not reach Greta — you died on the way.".to_string()))
    );
    assert_eq!(
        walked(Errand::ToSighting { what: "prop 3".to_string() }, Chase::InRange),
        (false, Some("[Arrived] You stand next to prop 3.".to_string()))
    );
}

#[test]
fn an_unknown_action_type_is_named_back() {
    assert_eq!(
        text(Note::UnknownAction { kind: "dance".to_string() }),
        "[ActionFailed] 'dance' is not an action type — it did nothing. Use one of the types listed \
         in your instructions."
    );
}
