use agent_client::errand::{
    fighter_town_bound, hunting_arm, loot_step, self_rescue, town_errand, Errand, TownPause,
    MAX_LOOT_TRIES, TOWN_RETRY_DELAY_MS, TOWN_VISIT_DELAY_MS,
};
use agent_client::items::{BagItem, ItemCatalog, ItemCategory, ItemDef};
use agent_client::labels::BagLabels;
use agent_client::worker::{
    bag_item_in_category, bag_units_in_category, default_bag_full_pct, default_food_stock,
    default_level_margin, default_low_health_pct, default_patrol_radius, default_potion_stock,
    default_scroll_stock, food_to_buy, health_pct, is_keeper, junk_list, potions_to_buy,
    reins_for_leg, restock_buy, scrolls_to_buy, sell_list, Saddle, should_drink_potion, should_eat, should_town_trip,
    should_use_return_scroll, surplus_list, town_business, Step, Vitals, WorkerConfig, WorkerKind,
    WorkerView,
};

type P = (f32, f32);

const HEALING_POTION: &str = "healing_potion";
const RETURN_SCROLL: &str = "scroll_of_return";
/// The satiation at which sprinting is lost, standing in for the game's own.
const SPRINT_AT: u32 = 300;

fn def(id: &str, category: Option<ItemCategory>, price: Option<i64>) -> ItemDef {
    ItemDef {
        id: id.to_string(),
        category,
        base_price: price,
    }
}

fn catalog() -> ItemCatalog {
    use_categories()
}

fn use_categories() -> ItemCatalog {
    ItemCatalog {
        defs: vec![
            def("healing_potion", Some(ItemCategory::HealingPotion), Some(25)),
            def("greater_healing_potion", Some(ItemCategory::HealingPotion), Some(60)),
            def("scroll_of_return", Some(ItemCategory::ReturnScroll), Some(40)),
            def("apple", Some(ItemCategory::Food), Some(2)),
            def("bread", Some(ItemCategory::Food), Some(3)),
            def("raw_minnow", Some(ItemCategory::Fish), Some(1)),
            def("fishing_rod", Some(ItemCategory::FishingRod), Some(15)),
            def("gold_ring", Some(ItemCategory::Other), Some(50)),
            def("iron_sword", Some(ItemCategory::Other), Some(30)),
            def("iron_helmet", Some(ItemCategory::Other), Some(20)),
            def("old_boot", Some(ItemCategory::Junk), None),
            def("clump_of_kelp", Some(ItemCategory::Junk), None),
            def("sunken_coin_pouch", Some(ItemCategory::Other), None),
            def("worn_iron_sword", Some(ItemCategory::Other), None),
            def("horse_reins", Some(ItemCategory::Mount), Some(400)),
        ],
    }
}

fn shop(ids: &[&str]) -> Option<Vec<String>> {
    Some(ids.iter().map(|s| s.to_string()).collect())
}

fn wick() -> Option<Vec<String>> {
    shop(&["bread", "apple", "healing_potion", "scroll_of_return"])
}

fn rica() -> Option<Vec<String>> {
    shop(&["greater_healing_potion", "healing_potion", "scroll_of_return"])
}

fn state() -> WorkerView {
    WorkerView {
        catalog: catalog(),
        me: Some(Vitals {
            health: 100,
            max_health: 100,
            level: 1,
        }),
        bag: Vec::new(),
        main_hand: None,
        satiation: None,
        sprint_threshold: SPRINT_AT,
        gold: None,
        load_pct: 0,
        merchant_in_sight: false,
        merchant_shop: None,
        underground: false,
    }
}

fn bag(s: &mut WorkerView, def_id: &str, quantity: u32) {
    let instance_id = s.bag.len() as u64 + 1;
    s.bag.push(BagItem {
        instance_id,
        item_def_id: def_id.to_string(),
        quantity,
    });
}

fn hurt(s: &mut WorkerView, pct: u32) {
    s.me = Some(Vitals {
        health: pct,
        max_health: 100,
        level: 1,
    });
}

fn cfg() -> WorkerConfig {
    WorkerConfig {
        kind: WorkerKind::Fighter,
        ..WorkerConfig::default()
    }
}

fn labels(sellable: &[&str], dropable: &[&str]) -> BagLabels {
    BagLabels {
        sellable: sellable.iter().map(|s| s.to_string()).collect(),
        dropable: dropable.iter().map(|s| s.to_string()).collect(),
    }
}

#[test]
fn the_config_defaults_are_the_documented_ones() {
    assert_eq!(default_level_margin(), 0);
    assert_eq!(default_low_health_pct(), 70);
    assert_eq!(default_food_stock(), 10);
    assert_eq!(default_potion_stock(), 10);
    assert_eq!(default_scroll_stock(), 5);
    assert_eq!(default_bag_full_pct(), 90);
    assert_eq!(default_patrol_radius(), 100);
    let c = WorkerConfig::default();
    assert_eq!(c.kind, WorkerKind::Llm);
    assert_eq!(WorkerKind::default(), WorkerKind::Llm);
    assert_eq!(c.low_health_pct, 70);
    assert!(c.food_item.is_none());
}

#[test]
fn health_reads_as_a_percentage_capped_at_full() {
    let mut s = state();
    hurt(&mut s, 37);
    assert_eq!(health_pct(&s), 37);
    s.me = Some(Vitals {
        health: 150,
        max_health: 100,
        level: 1,
    });
    assert_eq!(health_pct(&s), 100);
    s.me = Some(Vitals {
        health: 1,
        max_health: 3,
        level: 1,
    });
    assert_eq!(health_pct(&s), 33);
    s.me = None;
    assert_eq!(health_pct(&s), 100, "out of the world reads as healthy");
}

#[test]
fn a_hurt_worker_drinks_while_it_still_has_a_potion() {
    let mut s = state();
    hurt(&mut s, 30);
    assert!(!should_drink_potion(&s, &cfg()), "no potion, no drink");
    bag(&mut s, HEALING_POTION, 2);
    assert!(should_drink_potion(&s, &cfg()));
    hurt(&mut s, 90);
    assert!(!should_drink_potion(&s, &cfg()), "healthy again");
}

#[test]
fn the_scroll_is_the_last_resort_only() {
    let mut s = state();
    hurt(&mut s, 20);
    bag(&mut s, RETURN_SCROLL, 1);
    assert!(should_use_return_scroll(&s, &cfg()));

    bag(&mut s, HEALING_POTION, 1);
    assert!(
        !should_use_return_scroll(&s, &cfg()),
        "a potion is cheaper than a trip home"
    );
}

#[test]
fn any_potion_in_the_bag_is_drunk_even_if_it_is_not_the_configured_type() {
    let c = WorkerConfig {
        potion_item: Some("greater_healing_potion".into()),
        ..cfg()
    };
    let mut s = state();
    hurt(&mut s, 30);
    bag(&mut s, HEALING_POTION, 1);
    assert!(
        should_drink_potion(&s, &c),
        "whatever potion is on hand still saves the fight"
    );
}

#[test]
fn a_configured_restock_item_falls_back_to_whatever_the_nearby_merchant_actually_stocks() {
    let mut s = state();
    s.merchant_in_sight = true;
    s.merchant_shop = wick();
    let c = WorkerConfig {
        potion_item: Some("greater_healing_potion".into()),
        ..cfg()
    };
    // Wick does not carry the greater potion: buy what he does stock.
    let (id, _) = potions_to_buy(&s, &c).expect("Wick sells healing potions");
    assert_eq!(id, HEALING_POTION);

    // Swap in Rica, who carries both: the configured potion wins.
    s.merchant_shop = rica();
    let (id, _) = potions_to_buy(&s, &c).expect("Rica sells healing potions");
    assert_eq!(id, "greater_healing_potion");
}

#[test]
fn eating_waits_for_the_lost_sprint_and_needs_food_in_the_bag() {
    let mut s = state();
    bag(&mut s, "apple", 1);
    s.satiation = Some(900);
    assert_eq!(should_eat(&s), None);
    // Still the Normal band, but sprinting is already gone — eat now.
    s.satiation = Some(SPRINT_AT);
    assert_eq!(should_eat(&s).as_deref(), Some("apple"));
    s.satiation = Some(200);
    assert_eq!(should_eat(&s).as_deref(), Some("apple"));
    s.bag.clear();
    s.satiation = Some(10);
    assert_eq!(should_eat(&s), None, "nothing to eat");
    // A fisher standing in its own supply should not starve on the way home.
    bag(&mut s, "raw_minnow", 3);
    assert_eq!(should_eat(&s).as_deref(), Some("raw_minnow"));
}

#[test]
fn a_full_bag_sends_the_worker_to_town() {
    let mut s = state();
    s.satiation = Some(900);
    assert!(!should_town_trip(&s, &cfg()));
    // 140 kg of boots in a 150 kg bag is 93%.
    bag(&mut s, "old_boot", 140);
    s.load_pct = 93;
    assert!(s.load_pct >= cfg().bag_full_pct);
    assert!(should_town_trip(&s, &cfg()));
}

#[test]
fn starving_with_no_food_is_a_town_trip_too() {
    let mut s = state();
    s.satiation = Some(10);
    assert!(should_town_trip(&s, &cfg()));
    bag(&mut s, "apple", 1);
    assert!(!should_town_trip(&s, &cfg()), "it can eat where it stands");
}

#[test]
fn the_town_trip_sells_marked_loot_drops_marked_junk_and_keeps_the_kit() {
    let mut s = state();
    s.merchant_in_sight = true;
    s.merchant_shop = wick();
    bag(&mut s, "gold_ring", 1);
    bag(&mut s, "old_boot", 1);
    bag(&mut s, HEALING_POTION, 3);
    bag(&mut s, "apple", 1);
    let labels = labels(&["gold_ring"], &["old_boot"]);

    assert_eq!(sell_list(&s, &labels), vec!["gold_ring".to_string()]);
    assert_eq!(junk_list(&s, &labels), vec!["old_boot".to_string()]);
    assert_eq!(
        potions_to_buy(&s, &cfg()).map(|(_, n)| n),
        Some(cfg().potion_stock - 3)
    );

    // A purse that covers two potions orders two, not a refused ten.
    let price = catalog()
        .defs
        .iter()
        .find(|d| d.id == HEALING_POTION)
        .and_then(|d| d.base_price)
        .expect("potions are priced");
    s.gold = Some(price * 2);
    assert_eq!(potions_to_buy(&s, &cfg()).map(|(_, n)| n), Some(2));
    s.gold = Some(0);
    assert_eq!(potions_to_buy(&s, &cfg()), None);
}

#[test]
fn a_worker_keeps_items_it_was_not_labeled_to_sell() {
    let mut s = state();
    bag(&mut s, "gold_ring", 1);
    bag(&mut s, "old_boot", 1);
    let empty = BagLabels::default();

    assert!(
        sell_list(&s, &empty).is_empty(),
        "nothing marked, nothing sold"
    );
    assert!(
        junk_list(&s, &empty).is_empty(),
        "nothing marked, nothing dropped"
    );
}

#[test]
fn a_town_trip_with_nothing_to_do_asks_for_nothing() {
    let mut s = state();
    s.satiation = Some(10);
    s.gold = Some(0);
    let labels = BagLabels::default();
    assert!(should_town_trip(&s, &cfg()));
    assert_eq!(town_business::<P>(&s, &cfg(), &labels), Vec::new());

    bag(&mut s, "old_boot", 1);
    assert_eq!(
        town_business::<P>(&s, &cfg(), &labels),
        Vec::new(),
        "unmarked junk is kept, so the shop has nothing to fix"
    );
}

#[test]
fn only_real_junk_is_dropped() {
    let mut s = state();
    bag(&mut s, "sunken_coin_pouch", 1);
    bag(&mut s, "worn_iron_sword", 1);
    bag(&mut s, "clump_of_kelp", 2);
    let labels = labels(&["worn_iron_sword"], &["clump_of_kelp"]);

    assert_eq!(junk_list(&s, &labels), vec!["clump_of_kelp".to_string()]);
    assert!(
        sell_list(&s, &labels).is_empty(),
        "none of these has a price"
    );
}

fn on_foot() -> Saddle {
    Saddle {
        mounted: false,
        alive: true,
        underground: false,
        posed: false,
        in_combat: false,
        wading: false,
    }
}

/// The reins toggle, so asking for them in the saddle climbs off, and a
/// patrol leg is too short to be worth mounting for in the first place.
#[test]
fn a_rider_stays_up_and_a_patrol_leg_is_walked() {
    let mut s = state();
    bag(&mut s, "horse_reins", 1);
    assert_eq!(reins_for_leg(&s, on_foot(), true).as_deref(), Some("horse_reins"));
    assert_eq!(
        reins_for_leg(&s, Saddle { mounted: true, ..on_foot() }, true),
        None,
        "already riding: just ride"
    );
    assert_eq!(reins_for_leg(&s, on_foot(), false), None, "a patrol leg is walked");
    assert_eq!(reins_for_leg(&state(), on_foot(), true), None, "no reins, no ride");
}

/// Every condition the server mounts on, checked here first: a refused
/// toggle spends the turn.
#[test]
fn the_mount_is_only_asked_for_where_the_server_would_allow_it() {
    let mut s = state();
    bag(&mut s, "horse_reins", 1);
    assert!(reins_for_leg(&s, on_foot(), true).is_some(), "nothing in the way: mount");
    assert!(reins_for_leg(&s, Saddle { alive: false, ..on_foot() }, true).is_none(), "a corpse does not climb on");
    assert!(reins_for_leg(&s, Saddle { underground: true, ..on_foot() }, true).is_none(), "underground");
    assert!(reins_for_leg(&s, Saddle { posed: true, ..on_foot() }, true).is_none(), "a pose has to be left first");
    assert!(
        reins_for_leg(&s, Saddle { in_combat: true, ..on_foot() }, true).is_none(),
        "the server's window outlasts the last blow"
    );
    assert!(
        reins_for_leg(&s, Saddle { wading: true, ..on_foot() }, true).is_none(),
        "standing in water deeper than the mount allows"
    );
}

/// The horse is the commute. A Sellable mark on the dearest thing in the bag
/// is a slip of the mouse, not an order to sell the ride.
#[test]
fn the_reins_are_never_sold() {
    let mut s = state();
    bag(&mut s, "horse_reins", 1);
    let labels = BagLabels {
        sellable: vec!["horse_reins".to_string()],
        dropable: Vec::new(),
    };

    assert_eq!(sell_list(&s, &labels), Vec::<String>::new());
}

#[test]
fn supply_past_its_cap_is_sold_without_waiting_for_a_label() {
    let mut s = state();
    bag(&mut s, HEALING_POTION, 15);
    bag(&mut s, "bread", 4);
    bag(&mut s, RETURN_SCROLL, 8);
    let c = WorkerConfig {
        potion_stock: 10,
        food_stock: 10,
        scroll_stock: 5,
        ..cfg()
    };

    assert_eq!(
        surplus_list(&s, &c),
        vec![
            (HEALING_POTION.to_string(), Some(5)),
            (RETURN_SCROLL.to_string(), Some(3)),
        ],
        "sell what is over each cap, keep the caps, leave the under-stocked bread"
    );

    // The kit itself is never surplus, however the labels read.
    let empty = BagLabels {
        sellable: Vec::new(),
        dropable: Vec::new(),
    };
    assert!(town_business::<P>(&s, &c, &empty)
        .contains(&Step::Sell(HEALING_POTION.to_string(), Some(5))));
    assert!(
        sell_list(&s, &empty).is_empty(),
        "loot still needs its mark"
    );
}

#[test]
fn surplus_spreads_over_stacks_and_skips_unpriced_ones() {
    let mut s = state();
    bag(&mut s, HEALING_POTION, 4);
    bag(&mut s, "greater_healing_potion", 9);
    bag(&mut s, HEALING_POTION, 3);
    let c = WorkerConfig {
        potion_stock: 5,
        ..cfg()
    };
    assert_eq!(
        surplus_list(&s, &c),
        vec![
            (HEALING_POTION.to_string(), Some(4)),
            ("greater_healing_potion".to_string(), Some(7)),
        ]
    );
}

#[test]
fn the_kit_is_never_sold_even_when_marked() {
    let mut s = state();
    bag(&mut s, HEALING_POTION, 2);
    bag(&mut s, "gold_ring", 1);
    bag(&mut s, "gold_ring", 1);
    let marks = labels(&[HEALING_POTION, "gold_ring"], &[]);
    assert_eq!(sell_list(&s, &marks), vec!["gold_ring".to_string()]);
    assert!(is_keeper(&s.catalog, &HEALING_POTION.to_string()));
    assert!(is_keeper(&s.catalog, &"fishing_rod".to_string()));
    assert!(!is_keeper(&s.catalog, &"gold_ring".to_string()));
}

#[test]
fn units_and_items_are_counted_by_category() {
    let mut s = state();
    bag(&mut s, "greater_healing_potion", 2);
    bag(&mut s, HEALING_POTION, 3);
    assert_eq!(bag_units_in_category(&s, ItemCategory::HealingPotion), 5);
    assert_eq!(
        bag_item_in_category(&s, ItemCategory::HealingPotion).as_deref(),
        Some("greater_healing_potion")
    );
    assert_eq!(bag_item_in_category(&s, ItemCategory::Food), None);
}

#[test]
fn a_full_shelf_restocks_up_to_the_cap_and_the_purse() {
    let mut s = state();
    s.merchant_in_sight = true;
    s.merchant_shop = wick();
    bag(&mut s, "bread", 4);
    assert_eq!(
        food_to_buy(&s, &cfg()),
        Some(("bread".to_string(), 6)),
        "the first food on the shelf, up to the cap"
    );
    s.gold = Some(-5);
    assert_eq!(food_to_buy(&s, &cfg()), None, "a negative purse buys nothing");
    s.gold = Some(7);
    assert_eq!(food_to_buy(&s, &cfg()), Some(("bread".to_string(), 2)));
    s.gold = None;
    s.merchant_shop = shop(&["gold_ring"]);
    assert_eq!(scrolls_to_buy(&s, &cfg()), None, "nothing of the kind on the shelf");
    s.merchant_shop = None;
    assert_eq!(
        restock_buy(&s, ItemCategory::Food, &None, 10),
        None,
        "no shop, no order"
    );
}

#[test]
fn the_town_trip_orders_food_potions_scrolls_then_eats() {
    let mut s = state();
    s.merchant_in_sight = true;
    s.merchant_shop = wick();
    s.satiation = Some(100);
    s.gold = Some(100);
    bag(&mut s, "gold_ring", 1);
    bag(&mut s, "apple", 9);
    bag(&mut s, HEALING_POTION, 9);
    bag(&mut s, RETURN_SCROLL, 4);
    let marks = labels(&["gold_ring"], &[]);
    assert_eq!(
        town_business::<P>(&s, &cfg(), &marks),
        vec![
            Step::Sell("gold_ring".to_string(), None),
            Step::Buy("bread".to_string()),
            Step::Buy(HEALING_POTION.to_string()),
            Step::Buy(RETURN_SCROLL.to_string()),
            Step::Use("apple".to_string()),
        ]
    );
}

#[test]
fn rescue_drinks_then_flees_then_eats() {
    let c = cfg();
    let mut s = state();
    hurt(&mut s, 20);
    bag(&mut s, RETURN_SCROLL, 2);
    let mut errand = Errand::Work;
    assert_eq!(
        self_rescue::<P>(&s, &c, &mut errand),
        Some(vec![Step::Use(RETURN_SCROLL.to_string())])
    );
    assert_eq!(errand, Errand::InTown);
    assert_eq!(
        self_rescue::<P>(&s, &c, &mut errand),
        None,
        "only ever one scroll: the errand says the escape happened"
    );
    bag(&mut s, HEALING_POTION, 1);
    assert_eq!(
        self_rescue::<P>(&s, &c, &mut errand),
        Some(vec![Step::Use(HEALING_POTION.to_string())])
    );
    hurt(&mut s, 100);
    s.satiation = Some(10);
    bag(&mut s, "apple", 1);
    assert_eq!(
        self_rescue::<P>(&s, &c, &mut errand),
        Some(vec![Step::Use("apple".to_string())])
    );
}

fn trip(scrolls: u32) -> Vec<Step<P>> {
    let mut s = state();
    s.satiation = Some(900);
    for _ in 0..40 {
        bag(&mut s, "iron_helmet", 1);
    }
    s.load_pct = 95;
    if scrolls > 0 {
        bag(&mut s, RETURN_SCROLL, scrolls);
    }
    assert!(should_town_trip(&s, &cfg()));
    let marks = labels(&["iron_helmet"], &[]);
    let (mut errand, mut blocked, mut stop) = (Errand::Work, None, 0usize);
    let stops: Vec<(P, bool)> = vec![((10.0, 10.0), false)];
    town_errand(
        &s,
        &cfg(),
        &marks,
        1_000,
        &mut errand,
        &mut blocked,
        &mut stop,
        &stops,
        vec![Step::Idle],
    )
    .unwrap_or_default()
}

#[test]
fn a_full_bag_reads_a_scroll_home_and_keeps_the_last_one() {
    assert_eq!(
        trip(3),
        vec![Step::Use(RETURN_SCROLL.to_string())],
        "a spare scroll is the ride home"
    );
    assert!(
        !trip(1).contains(&Step::Use(RETURN_SCROLL.to_string())),
        "the last scroll stays for the low-health escape"
    );
    assert!(
        !trip(0).contains(&Step::Use(RETURN_SCROLL.to_string())),
        "no scroll, walk"
    );
}

#[test]
fn the_errand_walks_the_town_stops_until_a_merchant_is_in_sight() {
    let c = cfg();
    let mut s = state();
    s.load_pct = 95;
    s.gold = Some(0);
    bag(&mut s, "gold_ring", 1);
    let marks = labels(&["gold_ring"], &[]);
    let stops: Vec<(P, bool)> = vec![((0.0, 0.0), true), ((5.0, 5.0), false), ((9.0, 9.0), false)];
    let (mut errand, mut blocked, mut stop) = (Errand::Work, None, 0usize);
    let now = 10_000;

    let walk = town_errand(&s, &c, &marks, now, &mut errand, &mut blocked, &mut stop, &stops, vec![]);
    assert_eq!(walk, Some(vec![Step::Walk((5.0, 5.0))]), "the centre is stood on already");
    assert_eq!((errand, stop), (Errand::ToTown, 1));

    s.merchant_in_sight = true;
    s.merchant_shop = wick();
    let business =
        town_errand(&s, &c, &marks, now, &mut errand, &mut blocked, &mut stop, &stops, vec![]);
    assert_eq!(business, Some(vec![Step::Sell("gold_ring".to_string(), None)]));
    assert_eq!((errand, stop), (Errand::Work, 0));
    assert_eq!(
        blocked,
        Some(TownPause {
            until: now + TOWN_VISIT_DELAY_MS,
            useless: false
        })
    );
    // The breather holds the next trip off even with the bag still full.
    assert_eq!(
        town_errand(&s, &c, &marks, now + 1, &mut errand, &mut blocked, &mut stop, &stops, vec![]),
        None
    );
}

#[test]
fn a_town_that_cannot_help_is_left_with_a_verdict() {
    let c = cfg();
    let mut s = state();
    s.satiation = Some(10);
    s.gold = Some(0);
    s.merchant_in_sight = true;
    s.merchant_shop = wick();
    let (mut errand, mut blocked, mut stop) = (Errand::ToTown, None, 2usize);
    let leave = vec![Step::Walk((70.0, 0.0))];
    let now = 5_000;
    let out = town_errand(
        &s,
        &c,
        &BagLabels::default(),
        now,
        &mut errand,
        &mut blocked,
        &mut stop,
        &Vec::new(),
        leave,
    );
    assert_eq!(out, Some(vec![Step::Walk((70.0, 0.0))]));
    assert_eq!((errand, stop), (Errand::Work, 0));
    assert_eq!(
        blocked,
        Some(TownPause {
            until: now + TOWN_RETRY_DELAY_MS,
            useless: true
        })
    );
    assert!(
        !fighter_town_bound(&s, &c, now + 1, blocked),
        "hunting beats standing in front of a town that said no"
    );
    assert!(fighter_town_bound(&s, &c, now + TOWN_RETRY_DELAY_MS, blocked));
    assert_eq!(hunting_arm(&c, false, false), Some(c.level_margin));
    assert_eq!(hunting_arm(&c, true, false), None);
    assert_eq!(hunting_arm(&c, false, true), None);
}

#[test]
fn a_town_with_no_merchant_anywhere_is_written_off() {
    let c = cfg();
    let mut s = state();
    s.load_pct = 95;
    let stops: Vec<(P, bool)> = vec![((0.0, 0.0), true), ((5.0, 5.0), true)];
    let (mut errand, mut blocked, mut stop) = (Errand::ToTown, None, 0usize);
    let out = town_errand(
        &s,
        &c,
        &BagLabels::default(),
        0,
        &mut errand,
        &mut blocked,
        &mut stop,
        &stops,
        vec![Step::Idle],
    );
    assert_eq!(out, Some(vec![Step::Idle]));
    assert_eq!(errand, Errand::Work);
    assert_eq!(
        blocked,
        Some(TownPause {
            until: TOWN_RETRY_DELAY_MS,
            useless: true
        })
    );
}

#[test]
fn the_loot_of_a_kill_is_picked_a_few_times_then_written_off() {
    let mut at: Option<(P, u32)> = Some(((1.0, 2.0), 0));
    for tries in 1..=MAX_LOOT_TRIES {
        assert_eq!(loot_step::<P, P>(&mut at, Some(7)), Some(Step::Pickup(7)));
        assert_eq!(at, Some(((1.0, 2.0), tries)));
    }
    assert_eq!(loot_step::<P, P>(&mut at, Some(7)), None);
    assert_eq!(at, None);
    let mut at: Option<(P, u32)> = Some(((1.0, 2.0), 0));
    assert_eq!(loot_step::<P, P>(&mut at, None), None, "nothing left to pick");
    assert_eq!(at, None);
}

#[test]
fn the_food_restock_orders_what_this_merchant_actually_sells() {
    let mut s = state();
    s.merchant_in_sight = true;
    s.merchant_shop = wick();
    let (id, count) = food_to_buy(&s, &cfg()).expect("Wick sells food");
    assert_eq!(count, cfg().food_stock, "an empty larder tops right up");
    assert_eq!(catalog().category(&id), Some(ItemCategory::Food));

    // Meals already carried count against the stock.
    bag(&mut s, &id, 4);
    assert_eq!(food_to_buy(&s, &cfg()).map(|(_, n)| n), Some(cfg().food_stock - 4));

    // And the purse bounds the order.
    let price = catalog().price(&id).expect("food is priced");
    s.gold = Some(price * 2);
    assert_eq!(food_to_buy(&s, &cfg()).map(|(_, n)| n), Some(2));

    // A different shop, a different first meal on the shelf.
    s.gold = None;
    s.bag.clear();
    s.merchant_shop = shop(&["apple", "bread", "healing_potion"]);
    let (rica_food, _) = food_to_buy(&s, &cfg()).expect("this shop sells food too");
    assert_ne!(rica_food, id, "each merchant's own catalog decides");

    // Nobody to buy from at all: nothing to order.
    s.merchant_in_sight = false;
    s.merchant_shop = None;
    assert_eq!(food_to_buy(&s, &cfg()), None);
}

#[test]
fn a_configured_food_item_is_preferred_when_the_merchant_carries_it() {
    let mut s = state();
    s.merchant_in_sight = true;
    // This shop stocks bread and apples; apples are not its first meal.
    s.merchant_shop = shop(&["bread", "apple"]);
    let c = WorkerConfig {
        food_item: Some("apple".into()),
        ..cfg()
    };
    let (id, _) = food_to_buy(&s, &c).expect("the shop sells food");
    assert_eq!(id, "apple");

    // It does not carry cheese: fall back to whatever this shop sells.
    let c = WorkerConfig {
        food_item: Some("cheese".into()),
        ..cfg()
    };
    let (id, _) = food_to_buy(&s, &c).expect("the shop sells food");
    assert_ne!(id, "cheese");
}

#[test]
fn an_empty_larder_sends_the_worker_home_when_the_sprint_goes() {
    let mut s = state();
    s.satiation = Some(900);
    assert!(!should_town_trip(&s, &cfg()), "well fed, nothing to do");

    // At the sprint threshold, which is where `should_eat` acts.
    s.satiation = Some(SPRINT_AT);
    assert!(
        should_town_trip(&s, &cfg()),
        "hungry with an empty bag is the trip, without waiting for weakness"
    );

    // Carrying food, it eats instead of walking home.
    bag(&mut s, "bread", 1);
    assert!(should_eat(&s).is_some());
    assert!(!should_town_trip(&s, &cfg()), "food in the bag answers hunger without a trip");
}
