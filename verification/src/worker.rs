//! Rule-based worker decisions: deterministic, LLM-free rules over a
//! snapshot of the world and the worker's config. Survival first, then the
//! town round trip (sell, drop, restock, eat), then the worker's purpose.

use vstd::prelude::*;
use vstd::string::StringExecFns;

use crate::items::{
    bag_views, first_in, in_category, lemma_units_in_le_total, paid_for, price_of, total_units,
    units_in, BagItem, BagItemView, ItemCatalog, ItemCategory, ItemDefView,
};
use crate::labels::{views, BagLabels};

verus! {

broadcast use crate::items::lemma_units_in_le_total;

/// Which rule engine drives automatic play, or `Llm` for the LLM agent.
#[derive(Debug, Clone, Copy, PartialEq, Eq, Structural)]
pub enum WorkerKind {
    /// No rule engine: the LLM agent plays.
    Llm,
    Fighter,
    Fisher,
    /// Works one dungeon's locked sections for its keys and its chest.
    Dungeoneer,
}

impl Default for WorkerKind {
    fn default() -> (r: Self)
        ensures
            r == WorkerKind::Llm,
    {
        WorkerKind::Llm
    }
}

/// Fight monsters up to `own level + margin`; zero keeps the worker off
/// anything above its own level.
pub fn default_level_margin() -> (r: u32)
    ensures
        r == 0,
{
    0
}

/// Health percentage below which the worker drinks (then flees).
pub fn default_low_health_pct() -> (r: u32)
    ensures
        r == 70,
{
    70
}

/// How many meals a town trip stocks up to.
pub fn default_food_stock() -> (r: u32)
    ensures
        r == 10,
{
    10
}

/// How many healing potions a town trip stocks up to.
pub fn default_potion_stock() -> (r: u32)
    ensures
        r == 10,
{
    10
}

/// How many return scrolls a town trip stocks up to.
pub fn default_scroll_stock() -> (r: u32)
    ensures
        r == 5,
{
    5
}

/// Carry-weight percentage that sends the worker to town.
pub fn default_bag_full_pct() -> (r: u32)
    ensures
        r == 90,
{
    90
}

/// How far from the anchor the fighter roams.
pub fn default_patrol_radius() -> (r: u32)
    ensures
        r == 100,
{
    100
}

/// Worker settings. Where the fighter works (its anchor) is a position and
/// stays with the caller; everything the rules here read is below.
#[derive(Debug)]
pub struct WorkerConfig {
    pub kind: WorkerKind,
    pub level_margin: u32,
    pub low_health_pct: u32,
    pub food_stock: u32,
    /// Which food `food_stock` restocks; unset takes whatever food the
    /// merchant offers first.
    pub food_item: Option<String>,
    pub potion_stock: u32,
    /// Which potion `potion_stock` restocks; unset takes whatever the
    /// merchant offers first.
    pub potion_item: Option<String>,
    pub scroll_stock: u32,
    /// Which scroll `scroll_stock` restocks; unset takes whatever the
    /// merchant offers first.
    pub scroll_item: Option<String>,
    pub bag_full_pct: u32,
    pub patrol_radius: u32,
}

impl Default for WorkerConfig {
    fn default() -> (r: Self)
        ensures
            r.kind == WorkerKind::Llm,
            r.level_margin == 0,
            r.low_health_pct == 70,
            r.food_stock == 10,
            r.food_item is None,
            r.potion_stock == 10,
            r.potion_item is None,
            r.scroll_stock == 5,
            r.scroll_item is None,
            r.bag_full_pct == 90,
            r.patrol_radius == 100,
    {
        WorkerConfig {
            kind: WorkerKind::Llm,
            level_margin: default_level_margin(),
            low_health_pct: default_low_health_pct(),
            food_stock: default_food_stock(),
            food_item: None,
            potion_stock: default_potion_stock(),
            potion_item: None,
            scroll_stock: default_scroll_stock(),
            scroll_item: None,
            bag_full_pct: default_bag_full_pct(),
            patrol_radius: default_patrol_radius(),
        }
    }
}

/// What a worker does next. `P` is a spot on the map, which the rules here
/// only ever pass along.
#[derive(Debug, PartialEq)]
pub enum Step<P> {
    Attack(String),
    Pickup(u64),
    Use(String),
    Sell(String, Option<u32>),
    Drop(String),
    Buy(String),
    Fish(P),
    Walk(P),
    /// Go to a floor of the named dungeon; floor 0 is back out on the
    /// surface.
    Descend(String, u8),
    /// Take the stairs down to the ground, then on towards a spot outdoors.
    ToGround(P),
    /// Open the treasure chest in sight.
    OpenChest,
    Idle,
}

pub enum StepView<P> {
    Attack(Seq<char>),
    Pickup(u64),
    Use(Seq<char>),
    Sell(Seq<char>, Option<u32>),
    Drop(Seq<char>),
    Buy(Seq<char>),
    Fish(P),
    Walk(P),
    Descend(Seq<char>, u8),
    ToGround(P),
    OpenChest,
    Idle,
}

impl<P: Copy> View for Step<P> {
    type V = StepView<P>;

    open spec fn view(&self) -> StepView<P> {
        match self {
            Step::Attack(id) => StepView::Attack(id@),
            Step::Pickup(id) => StepView::Pickup(*id),
            Step::Use(id) => StepView::Use(id@),
            Step::Sell(id, n) => StepView::Sell(id@, *n),
            Step::Drop(id) => StepView::Drop(id@),
            Step::Buy(id) => StepView::Buy(id@),
            Step::Fish(p) => StepView::Fish(*p),
            Step::Walk(p) => StepView::Walk(*p),
            Step::Descend(name, depth) => StepView::Descend(name@, *depth),
            Step::ToGround(p) => StepView::ToGround(*p),
            Step::OpenChest => StepView::OpenChest,
            Step::Idle => StepView::Idle,
        }
    }
}

/// The steps of a turn.
pub open spec fn step_views<P: Copy>(steps: Seq<Step<P>>) -> Seq<StepView<P>> {
    steps.map_values(|s: Step<P>| s@)
}

/// Our own character, when we are in the world.
#[derive(Debug, Clone, Copy)]
pub struct Vitals {
    pub health: u32,
    pub max_health: u32,
    pub level: u32,
}

/// What the worker's rules read of the world.
#[derive(Debug)]
pub struct WorkerView {
    /// The game's item definitions.
    pub catalog: ItemCatalog,
    pub me: Option<Vitals>,
    pub bag: Vec<BagItem>,
    /// What the main hand holds, by item id.
    pub main_hand: Option<String>,
    /// Satiation, when the server has reported it.
    pub satiation: Option<u32>,
    /// The satiation at or below which sprinting is lost.
    pub sprint_threshold: u32,
    pub gold: Option<i64>,
    /// How full the bag is, as a percentage of the carry cap.
    pub load_pct: u32,
    /// Whether a merchant is in sight.
    pub merchant_in_sight: bool,
    /// What the nearest merchant in sight sells, when it keeps a shop.
    pub merchant_shop: Option<Vec<String>>,
    /// We stand on a floor below ground.
    pub underground: bool,
}

impl WorkerView {
    /// The values the rules compute with stay inside `u32`.
    pub open spec fn wf(&self) -> bool {
        &&& total_units(bag_views(self.bag@)) <= u32::MAX
        &&& self.me matches Some(p) ==> p.health * 100 <= u32::MAX
    }

    pub open spec fn defs(&self) -> Seq<ItemDefView> {
        self.catalog@
    }

    pub open spec fn bag_v(&self) -> Seq<BagItemView> {
        bag_views(self.bag@)
    }
}

/// Our health as a percentage of maximum; 100 when we are not in the world.
pub open spec fn health_pct_spec(me: Option<Vitals>) -> u32 {
    match me {
        Some(p) => if p.max_health > 0 {
            let pct = (p.health * 100) / (p.max_health as int);
            if pct < 100 {
                pct as u32
            } else {
                100
            }
        } else {
            100
        },
        None => 100,
    }
}

/// Our health as a percentage of maximum; 100 when we are not in the world.
pub fn health_pct(s: &WorkerView) -> (r: u32)
    requires
        s.me matches Some(p) ==> p.health * 100 <= u32::MAX,
    ensures
        r == health_pct_spec(s.me),
{
    match s.me {
        Some(p) => {
            if p.max_health > 0 {
                let pct: u32 = p.health * 100 / p.max_health;
                if pct < 100 {
                    pct
                } else {
                    100
                }
            } else {
                100
            }
        },
        None => 100,
    }
}

/// How many units of a category are carried, whichever specific items they
/// are — a restock that fell back off the configured item still counts.
pub fn bag_units_in_category(s: &WorkerView, cat: ItemCategory) -> (r: u32)
    requires
        units_in(s.defs(), s.bag_v(), cat) <= u32::MAX,
    ensures
        r == units_in(s.defs(), s.bag_v(), cat),
{
    let ghost bag = s.bag_v();
    let mut total: u32 = 0;
    let mut k: usize = 0;
    proof {
        assert(bag.skip(0) == bag);
        lemma_units_in_le_total(s.defs(), bag, cat);
    }
    while k < s.bag.len()
        invariant
            bag == s.bag_v(),
            k <= bag.len(),
            total + units_in(s.defs(), bag.skip(k as int), cat) == units_in(s.defs(), bag, cat),
            units_in(s.defs(), bag, cat) <= u32::MAX,
        decreases bag.len() - k,
    {
        let item = &s.bag[k];
        proof {
            assert(bag.skip(k as int)[0] == item@);
            assert(bag.skip(k as int).drop_first() == bag.skip(k + 1));
            lemma_units_in_le_total(s.defs(), bag.skip(k + 1), cat);
        }
        if s.catalog.is_in(&item.item_def_id, cat) {
            total = total + item.quantity;
        }
        k += 1;
    }
    proof {
        assert(bag.skip(k as int).len() == 0);
    }
    total
}

/// One carried item of a category, to drink or read — whatever is actually
/// in the bag, not necessarily the id configured to buy.
pub fn bag_item_in_category(s: &WorkerView, cat: ItemCategory) -> (r: Option<String>)
    ensures
        match r {
            Some(id) => first_in(s.defs(), s.bag_v(), cat) == Some(id@),
            None => first_in(s.defs(), s.bag_v(), cat) is None,
        },
{
    let ghost bag = s.bag_v();
    let mut k: usize = 0;
    assert(bag.skip(0) == bag);
    while k < s.bag.len()
        invariant
            bag == s.bag_v(),
            k <= bag.len(),
            first_in(s.defs(), bag, cat) == first_in(s.defs(), bag.skip(k as int), cat),
        decreases bag.len() - k,
    {
        let item = &s.bag[k];
        assert(bag.skip(k as int)[0] == item@);
        assert(bag.skip(k as int).drop_first() == bag.skip(k + 1));
        if s.catalog.is_in(&item.item_def_id, cat) {
            return Some(item.item_def_id.clone());
        }
        k += 1;
    }
    assert(bag.skip(k as int).len() == 0);
    None
}

/// Drink at low health while a potion is left — the fight continues.
pub fn should_drink_potion(s: &WorkerView, cfg: &WorkerConfig) -> (r: bool)
    requires
        s.wf(),
    ensures
        r == (health_pct_spec(s.me) < cfg.low_health_pct && units_in(
            s.defs(),
            s.bag_v(),
            ItemCategory::HealingPotion,
        ) > 0),
{
    health_pct(s) < cfg.low_health_pct && bag_units_in_category(s, ItemCategory::HealingPotion) > 0
}

/// Out of potions at low health: read the scroll and take the town trip.
pub fn should_use_return_scroll(s: &WorkerView, cfg: &WorkerConfig) -> (r: bool)
    requires
        s.wf(),
    ensures
        r == (health_pct_spec(s.me) < cfg.low_health_pct && units_in(
            s.defs(),
            s.bag_v(),
            ItemCategory::HealingPotion,
        ) == 0 && units_in(s.defs(), s.bag_v(), ItemCategory::ReturnScroll) > 0),
{
    health_pct(s) < cfg.low_health_pct && bag_units_in_category(s, ItemCategory::HealingPotion)
        == 0 && bag_units_in_category(s, ItemCategory::ReturnScroll) > 0
}

/// Kit the worker lives on: never sold, never dropped. The reins are the
/// commute, so a sell mark on them is a slip, not an order.
pub open spec fn keeper(defs: Seq<ItemDefView>, id: Seq<char>) -> bool {
    ||| in_category(defs, id, ItemCategory::HealingPotion)
    ||| in_category(defs, id, ItemCategory::ReturnScroll)
    ||| in_category(defs, id, ItemCategory::Food)
    ||| in_category(defs, id, ItemCategory::FishingRod)
    ||| in_category(defs, id, ItemCategory::Mount)
}

/// Kit the worker lives on — never sold, never dropped.
pub fn is_keeper(catalog: &ItemCatalog, id: &String) -> (r: bool)
    ensures
        r == keeper(catalog@, id@),
{
    match catalog.category(id) {
        Some(ItemCategory::HealingPotion) | Some(ItemCategory::ReturnScroll) | Some(
            ItemCategory::Food,
        ) | Some(ItemCategory::FishingRod) | Some(ItemCategory::Mount) => true,
        _ => false,
    }
}

/// The first carried food or fish.
pub open spec fn first_edible(defs: Seq<ItemDefView>, bag: Seq<BagItemView>) -> Option<Seq<char>>
    decreases bag.len(),
{
    if bag.len() == 0 {
        None
    } else if in_category(defs, bag[0].item_def_id, ItemCategory::Food) || in_category(
        defs,
        bag[0].item_def_id,
        ItemCategory::Fish,
    ) {
        Some(bag[0].item_def_id)
    } else {
        first_edible(defs, bag.drop_first())
    }
}

/// What to eat: the first food or fish carried, once hunger has cost the
/// sprint; nothing before that, or without a satiation reading.
pub open spec fn should_eat_spec(s: &WorkerView) -> Option<Seq<char>> {
    match s.satiation {
        Some(sat) => if sat > s.sprint_threshold {
            None
        } else {
            first_edible(s.defs(), s.bag_v())
        },
        None => None,
    }
}

/// Food in the bag, once hunger has cost us the sprint. Passive HP regen is
/// hunger-gated server-side, so an unfed worker never heals out of combat.
/// A raw catch counts: a fisher standing in its own supply should not walk
/// to town starving.
pub fn should_eat(s: &WorkerView) -> (r: Option<String>)
    ensures
        match r {
            Some(id) => should_eat_spec(s) == Some(id@),
            None => should_eat_spec(s) is None,
        },
{
    let sat = match s.satiation {
        Some(sat) => sat,
        None => return None,
    };
    if sat > s.sprint_threshold {
        return None;
    }
    assert(should_eat_spec(s) == first_edible(s.defs(), s.bag_v()));
    let ghost bag = s.bag_v();
    let mut k: usize = 0;
    assert(bag.skip(0) == bag);
    while k < s.bag.len()
        invariant
            bag == s.bag_v(),
            k <= bag.len(),
            should_eat_spec(s) == first_edible(s.defs(), bag),
            first_edible(s.defs(), bag) == first_edible(s.defs(), bag.skip(k as int)),
        decreases bag.len() - k,
    {
        let item = &s.bag[k];
        assert(bag.skip(k as int)[0] == item@);
        assert(bag.skip(k as int).drop_first() == bag.skip(k + 1));
        if s.catalog.is_in(&item.item_def_id, ItemCategory::Food) || s.catalog.is_in(
            &item.item_def_id,
            ItemCategory::Fish,
        ) {
            assert(first_edible(s.defs(), bag.skip(k as int)) == Some(item@.item_def_id));
            return Some(item.item_def_id.clone());
        }
        k += 1;
    }
    assert(bag.skip(k as int).len() == 0);
    None
}

/// Head to town when the bag is nearly full, or when hungry past the sprint
/// with nothing to eat — the two states the field cannot fix. Never from
/// underground: there is no merchant down there, and no way to one that does
/// not throw the descent away.
pub open spec fn should_town_trip_spec(s: &WorkerView, cfg: &WorkerConfig) -> bool {
    &&& !s.underground
    &&& {
        ||| s.load_pct >= cfg.bag_full_pct
        ||| (s.satiation matches Some(sat) && sat <= s.sprint_threshold) && should_eat_spec(s) is None
    }
}

/// Head to town when the bag is nearly full, or when starving with nothing
/// to eat — the two states the field cannot fix.
pub fn should_town_trip(s: &WorkerView, cfg: &WorkerConfig) -> (r: bool)
    ensures
        r == should_town_trip_spec(s, cfg),
{
    if s.underground {
        return false;
    }
    if s.load_pct >= cfg.bag_full_pct {
        return true;
    }
    let hungry = match s.satiation {
        Some(sat) => sat <= s.sprint_threshold,
        None => false,
    };
    hungry && should_eat(s).is_none()
}

/// Whether `id` is one of `ids`.
pub fn contains_id(ids: &Vec<String>, id: &String) -> (r: bool)
    ensures
        r == views(ids@).contains(id@),
{
    let mut k: usize = 0;
    while k < ids.len()
        invariant
            k <= ids@.len(),
            forall|j: int| 0 <= j < k ==> views(ids@)[j] != id@,
        decreases ids@.len() - k,
    {
        if ids[k] == *id {
            assert(views(ids@)[k as int] == id@);
            return true;
        }
        k += 1;
    }
    false
}

/// The marked loot a merchant pays for, each id once, in bag order: priced,
/// not kit the worker lives on, and named by the sell label.
pub open spec fn sell_ids(
    defs: Seq<ItemDefView>,
    bag: Seq<BagItemView>,
    sellable: Seq<Seq<char>>,
    acc: Seq<Seq<char>>,
) -> Seq<Seq<char>>
    decreases bag.len(),
{
    if bag.len() == 0 {
        acc
    } else {
        let id = bag[0].item_def_id;
        let next = if paid_for(defs, id) && !keeper(defs, id) && !acc.contains(id)
            && sellable.contains(id) {
            acc.push(id)
        } else {
            acc
        };
        sell_ids(defs, bag.drop_first(), sellable, next)
    }
}

/// The marked junk, each id once, in bag order: what the game calls junk and
/// the drop label names.
pub open spec fn junk_ids(
    defs: Seq<ItemDefView>,
    bag: Seq<BagItemView>,
    dropable: Seq<Seq<char>>,
    acc: Seq<Seq<char>>,
) -> Seq<Seq<char>>
    decreases bag.len(),
{
    if bag.len() == 0 {
        acc
    } else {
        let id = bag[0].item_def_id;
        let next = if in_category(defs, id, ItemCategory::Junk) && !acc.contains(id)
            && dropable.contains(id) {
            acc.push(id)
        } else {
            acc
        };
        junk_ids(defs, bag.drop_first(), dropable, next)
    }
}

/// Everything in the bag a merchant pays for. Only what the app has marked
/// with the sell label is sold — a worker keeps everything it did not get
/// the ok to sell — and never the kit it lives on.
pub fn sell_list(s: &WorkerView, labels: &BagLabels) -> (ids: Vec<String>)
    ensures
        views(ids@) == sell_ids(s.defs(), s.bag_v(), views(labels.sellable@), Seq::empty()),
{
    let ghost bag = s.bag_v();
    let ghost sellable = views(labels.sellable@);
    let mut ids: Vec<String> = Vec::new();
    let mut k: usize = 0;
    proof {
        assert(bag.skip(0) == bag);
        assert(views(ids@) == Seq::<Seq<char>>::empty());
    }
    while k < s.bag.len()
        invariant
            bag == s.bag_v(),
            sellable == views(labels.sellable@),
            k <= bag.len(),
            sell_ids(s.defs(), bag.skip(k as int), sellable, views(ids@)) == sell_ids(
                s.defs(),
                bag,
                sellable,
                Seq::empty(),
            ),
        decreases bag.len() - k,
    {
        let item = &s.bag[k];
        let ghost before = views(ids@);
        assert(bag.skip(k as int)[0] == item@);
        assert(bag.skip(k as int).drop_first() == bag.skip(k + 1));
        let id = &item.item_def_id;
        if s.catalog.is_paid_for(id) && !is_keeper(&s.catalog, id) && !contains_id(&ids, id)
            && contains_id(&labels.sellable, id) {
            ids.push(id.clone());
            assert(views(ids@) == before.push(id@));
        }
        k += 1;
    }
    assert(bag.skip(k as int).len() == 0);
    ids
}

/// Dead weight, dropped in town. Only what the game itself calls junk, and
/// only what the app has marked with the drop label.
pub fn junk_list(s: &WorkerView, labels: &BagLabels) -> (ids: Vec<String>)
    ensures
        views(ids@) == junk_ids(s.defs(), s.bag_v(), views(labels.dropable@), Seq::empty()),
{
    let ghost bag = s.bag_v();
    let ghost dropable = views(labels.dropable@);
    let mut ids: Vec<String> = Vec::new();
    let mut k: usize = 0;
    proof {
        assert(bag.skip(0) == bag);
        assert(views(ids@) == Seq::<Seq<char>>::empty());
    }
    while k < s.bag.len()
        invariant
            bag == s.bag_v(),
            dropable == views(labels.dropable@),
            k <= bag.len(),
            junk_ids(s.defs(), bag.skip(k as int), dropable, views(ids@)) == junk_ids(
                s.defs(),
                bag,
                dropable,
                Seq::empty(),
            ),
        decreases bag.len() - k,
    {
        let item = &s.bag[k];
        let ghost before = views(ids@);
        assert(bag.skip(k as int)[0] == item@);
        assert(bag.skip(k as int).drop_first() == bag.skip(k + 1));
        let id = &item.item_def_id;
        if s.catalog.is_in(id, ItemCategory::Junk) && !contains_id(&ids, id) && contains_id(
            &labels.dropable,
            id,
        ) {
            ids.push(id.clone());
            assert(views(ids@) == before.push(id@));
        }
        k += 1;
    }
    assert(bag.skip(k as int).len() == 0);
    ids
}

/// The surplus of one category, stack by stack in bag order: while more than
/// `cap` units are carried, each priced stack of the category gives up as
/// many units as it holds, up to the excess.
pub open spec fn surplus_of(
    defs: Seq<ItemDefView>,
    bag: Seq<BagItemView>,
    cat: ItemCategory,
    carried: int,
    cap: int,
) -> Seq<(Seq<char>, Option<u32>)>
    decreases bag.len(),
{
    if bag.len() == 0 || carried <= cap {
        Seq::empty()
    } else {
        let item = bag[0];
        if in_category(defs, item.item_def_id, cat) && paid_for(defs, item.item_def_id) {
            let units = if item.quantity < carried - cap {
                item.quantity as int
            } else {
                carried - cap
            };
            seq![(item.item_def_id, Some(units as u32))] + surplus_of(
                defs,
                bag.drop_first(),
                cat,
                carried - units,
                cap,
            )
        } else {
            surplus_of(defs, bag.drop_first(), cat, carried, cap)
        }
    }
}

/// The lines of a surplus list.
pub open spec fn sale_views(lines: Seq<(String, Option<u32>)>) -> Seq<(Seq<char>, Option<u32>)> {
    lines.map_values(|l: (String, Option<u32>)| (l.0@, l.1))
}

/// Supply carried past its cap: potions, then food, then scrolls.
pub open spec fn surplus_spec(s: &WorkerView, cfg: &WorkerConfig) -> Seq<(Seq<char>, Option<u32>)> {
    let defs = s.defs();
    let bag = s.bag_v();
    surplus_of(
        defs,
        bag,
        ItemCategory::HealingPotion,
        units_in(defs, bag, ItemCategory::HealingPotion),
        cfg.potion_stock as int,
    ) + surplus_of(defs, bag, ItemCategory::Food, units_in(defs, bag, ItemCategory::Food), cfg.food_stock as int)
        + surplus_of(
        defs,
        bag,
        ItemCategory::ReturnScroll,
        units_in(defs, bag, ItemCategory::ReturnScroll),
        cfg.scroll_stock as int,
    )
}

/// Appends the surplus of one category to `out`.
fn push_surplus_of(
    s: &WorkerView,
    cat: ItemCategory,
    cap: u32,
    out: &mut Vec<(String, Option<u32>)>,
)
    requires
        s.wf(),
    ensures
        sale_views(final(out)@) == sale_views(old(out)@) + surplus_of(
            s.defs(),
            s.bag_v(),
            cat,
            units_in(s.defs(), s.bag_v(), cat),
            cap as int,
        ),
{
    let ghost bag = s.bag_v();
    let ghost start = sale_views(out@);
    let mut carried: u32 = bag_units_in_category(s, cat);
    let mut k: usize = 0;
    proof {
        assert(bag.skip(0) == bag);
        assert(start + Seq::<(Seq<char>, Option<u32>)>::empty() == start);
    }
    while k < s.bag.len()
        invariant
            bag == s.bag_v(),
            k <= bag.len(),
            start + surplus_of(s.defs(), bag, cat, units_in(s.defs(), bag, cat), cap as int)
                == sale_views(out@) + surplus_of(
                s.defs(),
                bag.skip(k as int),
                cat,
                carried as int,
                cap as int,
            ),
        decreases bag.len() - k,
    {
        let ghost before = sale_views(out@);
        let ghost rest = bag.skip(k as int);
        let item = &s.bag[k];
        assert(rest[0] == item@);
        assert(rest.drop_first() == bag.skip(k + 1));
        if carried <= cap {
            assert(surplus_of(s.defs(), rest, cat, carried as int, cap as int) == Seq::<
                (Seq<char>, Option<u32>),
            >::empty());
            assert(surplus_of(s.defs(), bag.skip(k + 1), cat, carried as int, cap as int) == Seq::<
                (Seq<char>, Option<u32>),
            >::empty());
        } else if s.catalog.is_in(&item.item_def_id, cat) && s.catalog.is_paid_for(
            &item.item_def_id,
        ) {
            let excess: u32 = carried - cap;
            let units: u32 = if item.quantity < excess {
                item.quantity
            } else {
                excess
            };
            carried = carried - units;
            out.push((item.item_def_id.clone(), Some(units)));
            assert(sale_views(out@) == before.push((item@.item_def_id, Some(units))));
            assert(before.push((item@.item_def_id, Some(units))) + surplus_of(
                s.defs(),
                bag.skip(k + 1),
                cat,
                carried as int,
                cap as int,
            ) == before + (seq![(item@.item_def_id, Some(units))] + surplus_of(
                s.defs(),
                bag.skip(k + 1),
                cat,
                carried as int,
                cap as int,
            )));
        }
        k += 1;
    }
    assert(bag.skip(k as int).len() == 0);
    assert(sale_views(out@) + Seq::<(Seq<char>, Option<u32>)>::empty() == sale_views(out@));
}

/// Supply carried past its cap, and how many units of it to sell. No label is
/// needed: writing `potion_stock = 10` is already saying ten is all we want.
pub fn surplus_list(s: &WorkerView, cfg: &WorkerConfig) -> (out: Vec<(String, Option<u32>)>)
    requires
        s.wf(),
    ensures
        sale_views(out@) == surplus_spec(s, cfg),
{
    let mut out: Vec<(String, Option<u32>)> = Vec::new();
    assert(sale_views(out@) == Seq::<(Seq<char>, Option<u32>)>::empty());
    push_surplus_of(s, ItemCategory::HealingPotion, cfg.potion_stock, &mut out);
    push_surplus_of(s, ItemCategory::Food, cfg.food_stock, &mut out);
    push_surplus_of(s, ItemCategory::ReturnScroll, cfg.scroll_stock, &mut out);
    out
}

/// The first id on `shelf` of category `cat`.
pub open spec fn first_on_shelf(defs: Seq<ItemDefView>, shelf: Seq<Seq<char>>, cat: ItemCategory) -> Option<
    Seq<char>,
>
    decreases shelf.len(),
{
    if shelf.len() == 0 {
        None
    } else if in_category(defs, shelf[0], cat) {
        Some(shelf[0])
    } else {
        first_on_shelf(defs, shelf.drop_first(), cat)
    }
}

/// Which item a restock of `cat` orders from `shelf`: the configured item
/// when it is named and on the shelf, else the first item of the category
/// the shelf carries.
pub open spec fn restock_item(
    defs: Seq<ItemDefView>,
    shelf: Seq<Seq<char>>,
    cat: ItemCategory,
    preferred: Option<Seq<char>>,
) -> Option<Seq<char>> {
    match preferred {
        Some(p) if p.len() > 0 && shelf.contains(p) => Some(p),
        _ => first_on_shelf(defs, shelf, cat),
    }
}

/// Units of `id` a purse of `gold` plausibly covers, at the item's base price
/// floored at one: none for an empty or negative purse.
pub open spec fn purse_units(defs: Seq<ItemDefView>, gold: i64, id: Seq<char>) -> u32 {
    let price: int = match price_of(defs, id) {
        Some(p) => if p < 1 {
            1
        } else {
            p as int
        },
        None => 1,
    };
    if gold <= 0 {
        0
    } else {
        ((gold as int) / price) as u32
    }
}

/// What a town trip buys for one category and how many: the gap to the
/// stock cap, never more than the purse covers; nothing when no merchant
/// with a shop is in sight, the shelf has nothing of the category, or the
/// count comes to zero.
pub open spec fn restock_spec(
    s: &WorkerView,
    cat: ItemCategory,
    preferred: Option<Seq<char>>,
    stock: u32,
) -> Option<(Seq<char>, u32)> {
    match s.merchant_shop {
        None => None,
        Some(shop) => match restock_item(s.defs(), views(shop@), cat, preferred) {
            None => None,
            Some(id) => {
                let carried = units_in(s.defs(), s.bag_v(), cat);
                let wanted: u32 = if stock > carried {
                    (stock - carried) as u32
                } else {
                    0
                };
                let affordable: u32 = match s.gold {
                    None => wanted,
                    Some(g) => {
                        let cover = purse_units(s.defs(), g, id);
                        if wanted < cover {
                            wanted
                        } else {
                            cover
                        }
                    },
                };
                if affordable > 0 {
                    Some((id, affordable))
                } else {
                    None
                }
            },
        },
    }
}

/// The first item of `cat` on `shelf`.
fn first_on_shelf_exec(catalog: &ItemCatalog, shelf: &Vec<String>, cat: ItemCategory) -> (r: Option<
    String,
>)
    ensures
        match r {
            Some(id) => first_on_shelf(catalog@, views(shelf@), cat) == Some(id@),
            None => first_on_shelf(catalog@, views(shelf@), cat) is None,
        },
{
    let ghost sh = views(shelf@);
    let mut k: usize = 0;
    assert(sh.skip(0) == sh);
    while k < shelf.len()
        invariant
            sh == views(shelf@),
            k <= sh.len(),
            first_on_shelf(catalog@, sh, cat) == first_on_shelf(catalog@, sh.skip(k as int), cat),
        decreases sh.len() - k,
    {
        assert(sh.skip(k as int)[0] == shelf@[k as int]@);
        assert(sh.skip(k as int).drop_first() == sh.skip(k + 1));
        if catalog.is_in(&shelf[k], cat) {
            return Some(shelf[k].clone());
        }
        k += 1;
    }
    assert(sh.skip(k as int).len() == 0);
    None
}

/// What a town trip should buy for one category, and how many: the gap to
/// the stock cap, never more than the purse can plausibly cover. The server
/// prices the sale, so this is a bound, not a quote — it only keeps a broke
/// worker from firing refused purchases every trip.
///
/// The item comes from the merchant in front of us: the configured item when
/// this merchant carries it, otherwise whatever else of the category is on
/// the shelf. A category the merchant has none of buys nothing this trip.
pub fn restock_buy(s: &WorkerView, cat: ItemCategory, preferred: &Option<String>, stock: u32) -> (r:
    Option<(String, u32)>)
    requires
        s.wf(),
    ensures
        match r {
            Some((id, n)) => restock_spec(
                s,
                cat,
                match preferred {
                    Some(p) => Some(p@),
                    None => None,
                },
                stock,
            ) == Some((id@, n)),
            None => restock_spec(
                s,
                cat,
                match preferred {
                    Some(p) => Some(p@),
                    None => None,
                },
                stock,
            ) is None,
        },
{
    let ghost pref = match preferred {
        Some(p) => Some(p@),
        None => None::<Seq<char>>,
    };
    let shop = match &s.merchant_shop {
        Some(shop) => shop,
        None => return None,
    };
    let mut chosen: Option<String> = None;
    if let Some(p) = preferred {
        if !p.as_str().is_empty() && contains_id(shop, p) {
            chosen = Some(p.clone());
        }
    }
    if chosen.is_none() {
        chosen = first_on_shelf_exec(&s.catalog, shop, cat);
    }
    assert(match chosen {
        Some(id) => restock_item(s.defs(), views(shop@), cat, pref) == Some(id@),
        None => restock_item(s.defs(), views(shop@), cat, pref) is None,
    });
    let id = match chosen {
        Some(id) => id,
        None => return None,
    };
    let carried: u32 = bag_units_in_category(s, cat);
    let wanted: u32 = stock.saturating_sub(carried);
    let price = match s.catalog.price(&id) {
        Some(p) => if p < 1 {
            1
        } else {
            p
        },
        None => 1,
    };
    let affordable = match s.gold {
        None => wanted,
        Some(g) => {
            let per: i64 = if g <= 0 {
                0
            } else {
                g / price
            };
            let cover: u32 = per as u32;
            assert(cover == purse_units(s.defs(), g, id@));
            if wanted < cover {
                wanted
            } else {
                cover
            }
        },
    };
    if affordable > 0 {
        Some((id, affordable))
    } else {
        None
    }
}

/// The food order of a town trip.
pub fn food_to_buy(s: &WorkerView, cfg: &WorkerConfig) -> (r: Option<(String, u32)>)
    requires
        s.wf(),
    ensures
        r matches Some((id, n)) ==> restock_spec(s, ItemCategory::Food, opt_view(cfg.food_item), cfg.food_stock) == Some((id@, n)),
        r is None ==> restock_spec(s, ItemCategory::Food, opt_view(cfg.food_item), cfg.food_stock) is None,
{
    restock_buy(s, ItemCategory::Food, &cfg.food_item, cfg.food_stock)
}

/// The potion order of a town trip.
pub fn potions_to_buy(s: &WorkerView, cfg: &WorkerConfig) -> (r: Option<(String, u32)>)
    requires
        s.wf(),
    ensures
        r matches Some((id, n)) ==> restock_spec(s, ItemCategory::HealingPotion, opt_view(cfg.potion_item), cfg.potion_stock) == Some((id@, n)),
        r is None ==> restock_spec(s, ItemCategory::HealingPotion, opt_view(cfg.potion_item), cfg.potion_stock) is None,
{
    restock_buy(s, ItemCategory::HealingPotion, &cfg.potion_item, cfg.potion_stock)
}

/// The scroll order of a town trip.
pub fn scrolls_to_buy(s: &WorkerView, cfg: &WorkerConfig) -> (r: Option<(String, u32)>)
    requires
        s.wf(),
    ensures
        r matches Some((id, n)) ==> restock_spec(s, ItemCategory::ReturnScroll, opt_view(cfg.scroll_item), cfg.scroll_stock) == Some((id@, n)),
        r is None ==> restock_spec(s, ItemCategory::ReturnScroll, opt_view(cfg.scroll_item), cfg.scroll_stock) is None,
{
    restock_buy(s, ItemCategory::ReturnScroll, &cfg.scroll_item, cfg.scroll_stock)
}

/// The chars of an optional string.
pub open spec fn opt_view(o: Option<String>) -> Option<Seq<char>> {
    match o {
        Some(s) => Some(s@),
        None => None,
    }
}

/// `n` orders of `id`.
pub open spec fn buys<P>(id: Seq<char>, n: u32) -> Seq<StepView<P>> {
    Seq::new(n as nat, |i: int| StepView::Buy(id))
}

/// An order as steps: none without an order.
pub open spec fn order_steps<P>(order: Option<(Seq<char>, u32)>) -> Seq<StepView<P>> {
    match order {
        Some((id, n)) => buys(id, n),
        None => Seq::empty(),
    }
}

/// Everything the town trip does in one turn, in order: sell the marked
/// loot, sell the surplus supply, drop the marked junk, restock food,
/// potions and scrolls, eat.
pub open spec fn town_business_spec<P>(s: &WorkerView, cfg: &WorkerConfig, labels: &BagLabels) -> Seq<
    StepView<P>,
> {
    sell_ids(s.defs(), s.bag_v(), views(labels.sellable@), Seq::empty()).map_values(
        |id: Seq<char>| StepView::Sell(id, None),
    ) + surplus_spec(s, cfg).map_values(|l: (Seq<char>, Option<u32>)| StepView::Sell(l.0, l.1))
        + junk_ids(s.defs(), s.bag_v(), views(labels.dropable@), Seq::empty()).map_values(
        |id: Seq<char>| StepView::Drop(id),
    ) + order_steps(restock_spec(s, ItemCategory::Food, opt_view(cfg.food_item), cfg.food_stock))
        + order_steps(
        restock_spec(s, ItemCategory::HealingPotion, opt_view(cfg.potion_item), cfg.potion_stock),
    ) + order_steps(
        restock_spec(s, ItemCategory::ReturnScroll, opt_view(cfg.scroll_item), cfg.scroll_stock),
    ) + match should_eat_spec(s) {
        Some(id) => seq![StepView::Use(id)],
        None => Seq::empty(),
    }
}

/// Appends `n` orders of `id` to `steps`.
fn push_buys<P: Copy>(steps: &mut Vec<Step<P>>, id: &String, n: u32)
    ensures
        step_views(final(steps)@) == step_views(old(steps)@) + buys::<P>(id@, n),
{
    let ghost start = step_views(steps@);
    let mut k: u32 = 0;
    assert(buys::<P>(id@, 0) == Seq::<StepView<P>>::empty());
    assert(start + Seq::<StepView<P>>::empty() == start);
    while k < n
        invariant
            k <= n,
            step_views(steps@) == start + buys::<P>(id@, k),
        decreases n - k,
    {
        let ghost before = step_views(steps@);
        steps.push(Step::Buy(id.clone()));
        assert(step_views(steps@) == before.push(StepView::Buy(id@)));
        assert(buys::<P>(id@, (k + 1) as u32) == buys::<P>(id@, k).push(StepView::Buy(id@)));
        k += 1;
    }
}

/// Everything the town trip does in one turn: sell the marked loot and the
/// surplus supply, drop the marked junk, restock, eat. Empty when the shop
/// has nothing to offer this trip.
pub fn town_business<P: Copy>(s: &WorkerView, cfg: &WorkerConfig, labels: &BagLabels) -> (steps: Vec<
    Step<P>,
>)
    requires
        s.wf(),
    ensures
        step_views(steps@) == town_business_spec::<P>(s, cfg, labels),
{
    let mut steps: Vec<Step<P>> = Vec::new();
    let sells = sell_list(s, labels);
    let mut k: usize = 0;
    while k < sells.len()
        invariant
            k <= sells@.len(),
            step_views(steps@) == views(sells@).take(k as int).map_values(
                |id: Seq<char>| StepView::<P>::Sell(id, None),
            ),
        decreases sells@.len() - k,
    {
        let ghost before = step_views(steps@);
        steps.push(Step::Sell(sells[k].clone(), None));
        assert(views(sells@).take(k + 1) == views(sells@).take(k as int).push(sells@[k as int]@));
        assert(step_views(steps@) == before.push(StepView::Sell(sells@[k as int]@, None)));
        k += 1;
    }
    assert(views(sells@).take(k as int) == views(sells@));
    let ghost part1 = step_views(steps@);
    let surplus = surplus_list(s, cfg);
    let mut k: usize = 0;
    while k < surplus.len()
        invariant
            k <= surplus@.len(),
            step_views(steps@) == part1 + sale_views(surplus@).take(k as int).map_values(
                |l: (Seq<char>, Option<u32>)| StepView::<P>::Sell(l.0, l.1),
            ),
        decreases surplus@.len() - k,
    {
        let ghost before = step_views(steps@);
        let (id, units) = &surplus[k];
        steps.push(Step::Sell(id.clone(), *units));
        assert(sale_views(surplus@).take(k + 1) == sale_views(surplus@).take(k as int).push(
            (id@, *units),
        ));
        assert(step_views(steps@) == before.push(StepView::Sell(id@, *units)));
        k += 1;
    }
    assert(sale_views(surplus@).take(k as int) == sale_views(surplus@));
    let ghost part2 = step_views(steps@);
    let junk = junk_list(s, labels);
    let mut k: usize = 0;
    while k < junk.len()
        invariant
            k <= junk@.len(),
            step_views(steps@) == part2 + views(junk@).take(k as int).map_values(
                |id: Seq<char>| StepView::<P>::Drop(id),
            ),
        decreases junk@.len() - k,
    {
        let ghost before = step_views(steps@);
        steps.push(Step::Drop(junk[k].clone()));
        assert(views(junk@).take(k + 1) == views(junk@).take(k as int).push(junk@[k as int]@));
        assert(step_views(steps@) == before.push(StepView::Drop(junk@[k as int]@)));
        k += 1;
    }
    assert(views(junk@).take(k as int) == views(junk@));
    let ghost part3 = step_views(steps@);
    match food_to_buy(s, cfg) {
        Some((food, count)) => push_buys(&mut steps, &food, count),
        None => {},
    }
    let ghost part4 = step_views(steps@);
    match potions_to_buy(s, cfg) {
        Some((potion, count)) => push_buys(&mut steps, &potion, count),
        None => {},
    }
    let ghost part5 = step_views(steps@);
    match scrolls_to_buy(s, cfg) {
        Some((scroll, count)) => push_buys(&mut steps, &scroll, count),
        None => {},
    }
    let ghost part6 = step_views(steps@);
    match should_eat(s) {
        Some(food) => {
            steps.push(Step::Use(food));
        },
        None => {},
    }
    proof {
        assert(part4 == part3 + order_steps::<P>(
            restock_spec(s, ItemCategory::Food, opt_view(cfg.food_item), cfg.food_stock),
        ));
        assert(part5 == part4 + order_steps::<P>(
            restock_spec(s, ItemCategory::HealingPotion, opt_view(cfg.potion_item), cfg.potion_stock),
        ));
        assert(part6 == part5 + order_steps::<P>(
            restock_spec(s, ItemCategory::ReturnScroll, opt_view(cfg.scroll_item), cfg.scroll_stock),
        ));
    }
    steps
}

/// The fishing rod's item id.
pub const ROD: &'static str = "fishing_rod";

/// What the server checks before it lets us climb on a mount.
#[derive(Debug, Clone, Copy, PartialEq, Eq, Structural)]
pub struct Saddle {
    /// Already riding: the reins toggle, so asking again climbs off.
    pub mounted: bool,
    pub alive: bool,
    pub underground: bool,
    /// Sitting, lying or playing: a pose has to be left first.
    pub posed: bool,
    /// Inside the server's out-of-combat window after a blow either way.
    pub in_combat: bool,
    /// Standing in water deeper than a mount may wade.
    pub wading: bool,
}

/// Whether the server would let us mount now. A refused toggle spends the
/// turn and answers with a system message, and these are states a worker
/// sits in for seconds at a time, so they are checked here first.
pub open spec fn may_mount(s: Saddle) -> bool {
    s.alive && !s.underground && !s.posed && !s.in_combat && !s.wading
}

/// The reins to use before a leg (the first carried mount item, by id):
/// when we are not riding yet, the leg is long enough to pay for mounting
/// (a patrol leg is not), and the server would allow it.
pub open spec fn reins_for_leg_spec(s: &WorkerView, saddle: Saddle, long_leg: bool) -> Option<
    Seq<char>,
> {
    if !saddle.mounted && long_leg && may_mount(saddle) {
        first_in(s.defs(), s.bag_v(), ItemCategory::Mount)
    } else {
        None
    }
}

/// The reins to use before a leg, if any.
pub fn reins_for_leg(s: &WorkerView, saddle: Saddle, long_leg: bool) -> (r: Option<String>)
    ensures
        match r {
            Some(id) => reins_for_leg_spec(s, saddle, long_leg) == Some(id@),
            None => reins_for_leg_spec(s, saddle, long_leg) is None,
        },
{
    let allowed = saddle.alive && !saddle.underground && !saddle.posed && !saddle.in_combat
        && !saddle.wading;
    if saddle.mounted || !long_leg || !allowed {
        return None;
    }
    bag_item_in_category(s, ItemCategory::Mount)
}

/// No leg is ridden from below ground, the reins are never asked for in
/// the saddle (they would climb us off), and a short leg is walked.
pub proof fn law_the_reins_are_used_only_where_the_server_lets_us_ride(
    s: &WorkerView,
    saddle: Saddle,
    long_leg: bool,
)
    ensures
        reins_for_leg_spec(s, saddle, long_leg) is Some ==> {
            &&& !saddle.underground && !saddle.mounted && long_leg
            &&& saddle.alive && !saddle.posed && !saddle.in_combat && !saddle.wading
        },
{
}

/// A rod in hand or in the bag. The main hand is read from our own
/// inventory snapshot.
pub fn has_rod(s: &WorkerView) -> (r: bool)
    ensures
        r == ((s.main_hand matches Some(h) && h@ == ROD@) || carries(s.bag_v(), ROD@)),
{
    let rod = String::from_str(ROD);
    let in_hand = match &s.main_hand {
        Some(h) => *h == rod,
        None => false,
    };
    if in_hand {
        return true;
    }
    let ghost bag = s.bag_v();
    let mut k: usize = 0;
    while k < s.bag.len()
        invariant
            k <= bag.len(),
            bag == s.bag_v(),
            rod@ == ROD@,
            forall|j: int| 0 <= j < k ==> bag[j].item_def_id != ROD@,
        decreases bag.len() - k,
    {
        assert(bag[k as int].item_def_id == s.bag@[k as int].item_def_id@);
        if s.bag[k].item_def_id == rod {
            assert(bag[k as int].item_def_id == ROD@);
            return true;
        }
        k += 1;
    }
    false
}

/// What the sell list may hold: an item a merchant pays for, not kit the
/// worker lives on, and marked with the sell label.
pub open spec fn sellable_id(defs: Seq<ItemDefView>, sellable: Seq<Seq<char>>, id: Seq<char>) -> bool {
    paid_for(defs, id) && !keeper(defs, id) && sellable.contains(id)
}

/// Whether some stack of the bag is `id`.
pub open spec fn carries(bag: Seq<BagItemView>, id: Seq<char>) -> bool {
    exists|i: int| 0 <= i < bag.len() && #[trigger] bag[i].item_def_id == id
}

proof fn lemma_sell_ids(
    defs: Seq<ItemDefView>,
    bag: Seq<BagItemView>,
    sellable: Seq<Seq<char>>,
    acc: Seq<Seq<char>>,
)
    requires
        acc.no_duplicates(),
    ensures
        sell_ids(defs, bag, sellable, acc).no_duplicates(),
        forall|x: Seq<char>|
            #[trigger] sell_ids(defs, bag, sellable, acc).contains(x) <==> (acc.contains(x) || (
            carries(bag, x) && sellable_id(defs, sellable, x))),
    decreases bag.len(),
{
    if bag.len() > 0 {
        let id = bag[0].item_def_id;
        let next = if paid_for(defs, id) && !keeper(defs, id) && !acc.contains(id)
            && sellable.contains(id) {
            acc.push(id)
        } else {
            acc
        };
        assert(next.no_duplicates()) by {
            if next != acc {
                assert forall|i: int, j: int| 0 <= i < j < next.len() implies next[i] != next[j] by {
                    if j == acc.len() {
                        assert(acc.contains(acc[i]));
                    }
                }
            }
        }
        lemma_sell_ids(defs, bag.drop_first(), sellable, next);
        assert(sell_ids(defs, bag, sellable, acc) == sell_ids(defs, bag.drop_first(), sellable, next));
        assert(acc.contains(id) ==> next.contains(id));
        assert(next != acc ==> next[acc.len() as int] == id);
        assert forall|x: Seq<char>| #[trigger] sell_ids(defs, bag, sellable, acc).contains(x) <==> (
        acc.contains(x) || (carries(bag, x) && sellable_id(defs, sellable, x))) by {
            if carries(bag, x) {
                let i = choose|i: int| 0 <= i < bag.len() && #[trigger] bag[i].item_def_id == x;
                if i > 0 {
                    assert(bag.drop_first()[i - 1].item_def_id == x);
                }
            }
            if carries(bag.drop_first(), x) {
                let i = choose|i: int| 0 <= i < bag.drop_first().len() && #[trigger] bag.drop_first()[i].item_def_id == x;
                assert(bag[i + 1].item_def_id == x);
            }
            if next.contains(x) && !acc.contains(x) {
                let j = choose|j: int| 0 <= j < next.len() && next[j] == x;
                if next != acc && j < acc.len() {
                    assert(next[j] == acc[j]);
                }
                assert(x == id);
                assert(bag[0].item_def_id == x);
            }
            if acc.contains(x) {
                let j = choose|j: int| 0 <= j < acc.len() && acc[j] == x;
                assert(next[j] == x);
            }
        }
    }
}

/// The sell list names each item once, and exactly the carried items a
/// merchant pays for that are marked Sellable and are not the kit the worker
/// lives on: unmarked loot is kept, and the kit is never sold.
pub proof fn law_sell_list_is_the_marked_priced_loot(s: &WorkerView, labels: &BagLabels)
    ensures
        sell_ids(s.defs(), s.bag_v(), views(labels.sellable@), Seq::empty()).no_duplicates(),
        forall|x: Seq<char>|
            #[trigger] sell_ids(s.defs(), s.bag_v(), views(labels.sellable@), Seq::empty()).contains(
                x,
            ) <==> (carries(s.bag_v(), x) && sellable_id(s.defs(), views(labels.sellable@), x)),
{
    lemma_sell_ids(s.defs(), s.bag_v(), views(labels.sellable@), Seq::empty());
}

/// The kit the worker lives on is never sold, whatever the labels mark:
/// no healing potion, return scroll, food, fishing rod or mount is ever on
/// the sell list, and each of them counts as kit.
pub proof fn law_the_kit_is_never_sold(s: &WorkerView, labels: &BagLabels, id: Seq<char>)
    ensures
        ({
            let kit = in_category(s.defs(), id, ItemCategory::HealingPotion) || in_category(
                s.defs(),
                id,
                ItemCategory::ReturnScroll,
            ) || in_category(s.defs(), id, ItemCategory::Food) || in_category(
                s.defs(),
                id,
                ItemCategory::FishingRod,
            ) || in_category(s.defs(), id, ItemCategory::Mount);
            &&& kit ==> keeper(s.defs(), id)
            &&& kit ==> !sell_ids(s.defs(), s.bag_v(), views(labels.sellable@), Seq::empty()).contains(id)
        }),
{
    law_sell_list_is_the_marked_priced_loot(s, labels);
}

proof fn lemma_junk_ids(
    defs: Seq<ItemDefView>,
    bag: Seq<BagItemView>,
    dropable: Seq<Seq<char>>,
    acc: Seq<Seq<char>>,
)
    requires
        acc.no_duplicates(),
    ensures
        junk_ids(defs, bag, dropable, acc).no_duplicates(),
        forall|x: Seq<char>|
            #[trigger] junk_ids(defs, bag, dropable, acc).contains(x) <==> (acc.contains(x) || (
            carries(bag, x) && in_category(defs, x, ItemCategory::Junk) && dropable.contains(x))),
    decreases bag.len(),
{
    if bag.len() > 0 {
        let id = bag[0].item_def_id;
        let next = if in_category(defs, id, ItemCategory::Junk) && !acc.contains(id)
            && dropable.contains(id) {
            acc.push(id)
        } else {
            acc
        };
        assert(next.no_duplicates()) by {
            if next != acc {
                assert forall|i: int, j: int| 0 <= i < j < next.len() implies next[i] != next[j] by {
                    if j == acc.len() {
                        assert(acc.contains(acc[i]));
                    }
                }
            }
        }
        lemma_junk_ids(defs, bag.drop_first(), dropable, next);
        assert(junk_ids(defs, bag, dropable, acc) == junk_ids(defs, bag.drop_first(), dropable, next));
        assert(acc.contains(id) ==> next.contains(id));
        assert(next != acc ==> next[acc.len() as int] == id);
        assert forall|x: Seq<char>| #[trigger] junk_ids(defs, bag, dropable, acc).contains(x) <==> (
        acc.contains(x) || (carries(bag, x) && in_category(defs, x, ItemCategory::Junk)
            && dropable.contains(x))) by {
            if carries(bag, x) {
                let i = choose|i: int| 0 <= i < bag.len() && #[trigger] bag[i].item_def_id == x;
                if i > 0 {
                    assert(bag.drop_first()[i - 1].item_def_id == x);
                }
            }
            if carries(bag.drop_first(), x) {
                let i = choose|i: int| 0 <= i < bag.drop_first().len() && #[trigger] bag.drop_first()[i].item_def_id == x;
                assert(bag[i + 1].item_def_id == x);
            }
            if next.contains(x) && !acc.contains(x) {
                let j = choose|j: int| 0 <= j < next.len() && next[j] == x;
                if next != acc && j < acc.len() {
                    assert(next[j] == acc[j]);
                }
                assert(x == id);
                assert(bag[0].item_def_id == x);
            }
            if acc.contains(x) {
                let j = choose|j: int| 0 <= j < acc.len() && acc[j] == x;
                assert(next[j] == x);
            }
        }
    }
}

/// The junk list names each item once, and exactly the carried items the
/// game calls junk that are marked Dropable: an unpriced item that is not
/// junk (a coin pouch, a worn weapon) is never dropped.
pub proof fn law_junk_list_is_the_marked_junk(s: &WorkerView, labels: &BagLabels)
    ensures
        junk_ids(s.defs(), s.bag_v(), views(labels.dropable@), Seq::empty()).no_duplicates(),
        forall|x: Seq<char>|
            #[trigger] junk_ids(s.defs(), s.bag_v(), views(labels.dropable@), Seq::empty()).contains(
                x,
            ) <==> (carries(s.bag_v(), x) && in_category(s.defs(), x, ItemCategory::Junk)
                && views(labels.dropable@).contains(x)),
{
    lemma_junk_ids(s.defs(), s.bag_v(), views(labels.dropable@), Seq::empty());
}

/// Units across sale lines.
pub open spec fn sold_units(lines: Seq<(Seq<char>, Option<u32>)>) -> int
    decreases lines.len(),
{
    if lines.len() == 0 {
        0
    } else {
        (match lines[0].1 {
            Some(n) => n as int,
            None => 0,
        }) + sold_units(lines.drop_first())
    }
}

proof fn lemma_sold_units_add(a: Seq<(Seq<char>, Option<u32>)>, b: Seq<(Seq<char>, Option<u32>)>)
    ensures
        sold_units(a + b) == sold_units(a) + sold_units(b),
    decreases a.len(),
{
    if a.len() > 0 {
        assert((a + b).drop_first() == a.drop_first() + b);
        lemma_sold_units_add(a.drop_first(), b);
    } else {
        assert(a + b == b);
    }
}

proof fn lemma_surplus_of(
    defs: Seq<ItemDefView>,
    bag: Seq<BagItemView>,
    cat: ItemCategory,
    carried: int,
    cap: int,
)
    ensures
        sold_units(surplus_of(defs, bag, cat, carried, cap)) <= if carried > cap {
            carried - cap
        } else {
            0
        },
        forall|i: int|
            0 <= i < surplus_of(defs, bag, cat, carried, cap).len() ==> {
                let l = #[trigger] surplus_of(defs, bag, cat, carried, cap)[i];
                &&& in_category(defs, l.0, cat)
                &&& paid_for(defs, l.0)
                &&& l.1 is Some
            },
    decreases bag.len(),
{
    if bag.len() > 0 && carried > cap {
        let item = bag[0];
        if in_category(defs, item.item_def_id, cat) && paid_for(defs, item.item_def_id) {
            let units = if item.quantity < carried - cap {
                item.quantity as int
            } else {
                carried - cap
            };
            let head = seq![(item.item_def_id, Some(units as u32))];
            let rest = surplus_of(defs, bag.drop_first(), cat, carried - units, cap);
            lemma_surplus_of(defs, bag.drop_first(), cat, carried - units, cap);
            lemma_sold_units_add(head, rest);
            assert(head.drop_first() == Seq::<(Seq<char>, Option<u32>)>::empty());
            assert(sold_units(Seq::<(Seq<char>, Option<u32>)>::empty()) == 0);
            assert(0 <= units <= item.quantity);
            assert(sold_units(head) == units);
            assert(surplus_of(defs, bag, cat, carried, cap) == head + rest);
            assert forall|i: int| 0 <= i < (head + rest).len() implies {
                let l = #[trigger] (head + rest)[i];
                &&& in_category(defs, l.0, cat)
                &&& paid_for(defs, l.0)
                &&& l.1 is Some
            } by {
                if i > 0 {
                    assert((head + rest)[i] == rest[i - 1]);
                }
            }
        } else {
            lemma_surplus_of(defs, bag.drop_first(), cat, carried, cap);
        }
    }
}

/// Selling the surplus keeps the caps: of each supply category no more
/// units are sold than are carried past its cap, and every line sold is a
/// priced stack of that category with a count.
pub proof fn law_surplus_keeps_the_caps(s: &WorkerView, cat: ItemCategory, cap: u32)
    ensures
        ({
            let carried = units_in(s.defs(), s.bag_v(), cat);
            let lines = surplus_of(s.defs(), s.bag_v(), cat, carried, cap as int);
            &&& sold_units(lines) <= if carried > cap {
                carried - cap
            } else {
                0
            }
            &&& forall|i: int|
                0 <= i < lines.len() ==> {
                    &&& in_category(s.defs(), (#[trigger] lines[i]).0, cat)
                    &&& paid_for(s.defs(), lines[i].0)
                    &&& lines[i].1 is Some
                }
        }),
{
    lemma_surplus_of(s.defs(), s.bag_v(), cat, units_in(s.defs(), s.bag_v(), cat), cap as int);
}

proof fn lemma_first_on_shelf(defs: Seq<ItemDefView>, shelf: Seq<Seq<char>>, cat: ItemCategory)
    ensures
        first_on_shelf(defs, shelf, cat) matches Some(id) ==> shelf.contains(id) && in_category(
            defs,
            id,
            cat,
        ),
    decreases shelf.len(),
{
    if shelf.len() > 0 && !in_category(defs, shelf[0], cat) {
        lemma_first_on_shelf(defs, shelf.drop_first(), cat);
        match first_on_shelf(defs, shelf, cat) {
            Some(id) => {
                let i = choose|i: int|
                    0 <= i < shelf.drop_first().len() && shelf.drop_first()[i] == id;
                assert(shelf[i + 1] == id);
            },
            None => {},
        }
    } else if shelf.len() > 0 {
        assert(shelf[0] == shelf[0]);
    }
}

/// A restock orders something the merchant in front of us has on its shelf
/// — the configured item, or one of the category — and never more than the
/// gap to the stock cap nor more than the purse covers; an order is never
/// for nothing.
pub proof fn law_restock_stays_within_cap_and_purse(
    s: &WorkerView,
    cat: ItemCategory,
    preferred: Option<Seq<char>>,
    stock: u32,
)
    ensures
        restock_spec(s, cat, preferred, stock) matches Some((id, n)) ==> {
            &&& n > 0
            &&& units_in(s.defs(), s.bag_v(), cat) + n <= stock
            &&& (s.gold matches Some(g) ==> n <= purse_units(s.defs(), g, id))
            &&& (s.merchant_shop matches Some(shop) && views(shop@).contains(id))
            &&& (in_category(s.defs(), id, cat) || preferred == Some(id))
        },
{
    lemma_units_in_le_total(s.defs(), s.bag_v(), cat);
    if let Some(shop) = s.merchant_shop {
        lemma_first_on_shelf(s.defs(), views(shop@), cat);
    }
}

} // verus!
