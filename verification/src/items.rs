//! The item catalog and the bag: what an item is (its category, its price)
//! and what the worker carries.

use vstd::prelude::*;

verus! {

/// The categories the worker's rules tell apart. Every other category the
/// game data names reads as `Other`.
#[derive(Debug, Clone, Copy, PartialEq, Eq, Structural)]
pub enum ItemCategory {
    HealingPotion,
    ReturnScroll,
    Food,
    Fish,
    FishingRod,
    /// The reins of a mount: the ride to and from work.
    Mount,
    Junk,
    Other,
}

/// One catalog row: an item id, its category and its base price.
#[derive(Debug)]
pub struct ItemDef {
    pub id: String,
    pub category: Option<ItemCategory>,
    pub base_price: Option<i64>,
}

pub struct ItemDefView {
    pub id: Seq<char>,
    pub category: Option<ItemCategory>,
    pub base_price: Option<i64>,
}

impl View for ItemDef {
    type V = ItemDefView;

    open spec fn view(&self) -> ItemDefView {
        ItemDefView { id: self.id@, category: self.category, base_price: self.base_price }
    }
}

/// The game's item definitions. An id listed twice reads as its first row.
#[derive(Debug)]
pub struct ItemCatalog {
    pub defs: Vec<ItemDef>,
}

/// The rows of a catalog.
pub open spec fn def_views(defs: Seq<ItemDef>) -> Seq<ItemDefView> {
    defs.map_values(|d: ItemDef| d@)
}

impl View for ItemCatalog {
    type V = Seq<ItemDefView>;

    open spec fn view(&self) -> Seq<ItemDefView> {
        def_views(self.defs@)
    }
}

/// The first row for `id`.
pub open spec fn def_of(defs: Seq<ItemDefView>, id: Seq<char>) -> Option<ItemDefView>
    decreases defs.len(),
{
    if defs.len() == 0 {
        None
    } else if defs[0].id == id {
        Some(defs[0])
    } else {
        def_of(defs.drop_first(), id)
    }
}

/// An item's category, when the catalog knows the item and gives it one.
pub open spec fn category_of(defs: Seq<ItemDefView>, id: Seq<char>) -> Option<ItemCategory> {
    match def_of(defs, id) {
        Some(d) => d.category,
        None => None,
    }
}

/// An item's base price, when the catalog knows the item and prices it.
pub open spec fn price_of(defs: Seq<ItemDefView>, id: Seq<char>) -> Option<i64> {
    match def_of(defs, id) {
        Some(d) => d.base_price,
        None => None,
    }
}

/// Whether a merchant pays for the item: a known base price above zero.
pub open spec fn paid_for(defs: Seq<ItemDefView>, id: Seq<char>) -> bool {
    match price_of(defs, id) {
        Some(p) => p > 0,
        None => false,
    }
}

/// Whether the item is `cat`.
pub open spec fn in_category(defs: Seq<ItemDefView>, id: Seq<char>, cat: ItemCategory) -> bool {
    category_of(defs, id) == Some(cat)
}

impl ItemCatalog {
    /// The first row for `id`.
    pub fn get(&self, id: &String) -> (r: Option<&ItemDef>)
        ensures
            match r {
                Some(d) => def_of(self@, id@) == Some(d@),
                None => def_of(self@, id@) is None,
            },
    {
        let mut k: usize = 0;
        assert(self@.skip(0) == self@);
        while k < self.defs.len()
            invariant
                k <= self.defs@.len(),
                def_of(self@, id@) == def_of(self@.skip(k as int), id@),
            decreases self.defs@.len() - k,
        {
            let d = &self.defs[k];
            assert(self@.skip(k as int)[0] == d@);
            assert(self@.skip(k as int).drop_first() == self@.skip(k + 1));
            if d.id == *id {
                return Some(d);
            }
            k += 1;
        }
        assert(self@.skip(k as int).len() == 0);
        None
    }

    /// `item_defs::get(id)`'s category.
    pub fn category(&self, id: &String) -> (r: Option<ItemCategory>)
        ensures
            r == category_of(self@, id@),
    {
        match self.get(id) {
            Some(d) => d.category,
            None => None,
        }
    }

    /// `item_defs::get(id)`'s base price.
    pub fn price(&self, id: &String) -> (r: Option<i64>)
        ensures
            r == price_of(self@, id@),
    {
        match self.get(id) {
            Some(d) => d.base_price,
            None => None,
        }
    }

    /// Whether a merchant pays for the item.
    pub fn is_paid_for(&self, id: &String) -> (r: bool)
        ensures
            r == paid_for(self@, id@),
    {
        match self.price(id) {
            Some(p) => p > 0,
            None => false,
        }
    }

    /// Whether the item is `cat`.
    pub fn is_in(&self, id: &String, cat: ItemCategory) -> (r: bool)
        ensures
            r == in_category(self@, id@, cat),
    {
        match self.category(id) {
            Some(c) => c == cat,
            None => false,
        }
    }
}

/// One stack in the bag.
#[derive(Debug)]
pub struct BagItem {
    pub instance_id: u64,
    pub item_def_id: String,
    pub quantity: u32,
}

pub struct BagItemView {
    pub instance_id: u64,
    pub item_def_id: Seq<char>,
    pub quantity: u32,
}

impl View for BagItem {
    type V = BagItemView;

    open spec fn view(&self) -> BagItemView {
        BagItemView {
            instance_id: self.instance_id,
            item_def_id: self.item_def_id@,
            quantity: self.quantity,
        }
    }
}

/// The stacks of a bag.
pub open spec fn bag_views(bag: Seq<BagItem>) -> Seq<BagItemView> {
    bag.map_values(|i: BagItem| i@)
}

/// Units carried across all stacks.
pub open spec fn total_units(bag: Seq<BagItemView>) -> int
    decreases bag.len(),
{
    if bag.len() == 0 {
        0
    } else {
        bag[0].quantity + total_units(bag.drop_first())
    }
}

/// Units of `cat` carried, whichever items they are.
pub open spec fn units_in(defs: Seq<ItemDefView>, bag: Seq<BagItemView>, cat: ItemCategory) -> int
    decreases bag.len(),
{
    if bag.len() == 0 {
        0
    } else {
        (if in_category(defs, bag[0].item_def_id, cat) {
            bag[0].quantity as int
        } else {
            0
        }) + units_in(defs, bag.drop_first(), cat)
    }
}

/// The first carried item of `cat`.
pub open spec fn first_in(defs: Seq<ItemDefView>, bag: Seq<BagItemView>, cat: ItemCategory) -> Option<
    Seq<char>,
>
    decreases bag.len(),
{
    if bag.len() == 0 {
        None
    } else if in_category(defs, bag[0].item_def_id, cat) {
        Some(bag[0].item_def_id)
    } else {
        first_in(defs, bag.drop_first(), cat)
    }
}

pub broadcast proof fn lemma_units_in_le_total(defs: Seq<ItemDefView>, bag: Seq<BagItemView>, cat: ItemCategory)
    ensures
        0 <= #[trigger] units_in(defs, bag, cat) <= total_units(bag),
    decreases bag.len(),
{
    if bag.len() > 0 {
        lemma_units_in_le_total(defs, bag.drop_first(), cat);
    }
}

pub proof fn lemma_total_units_nonneg(bag: Seq<BagItemView>)
    ensures
        0 <= total_units(bag),
    decreases bag.len(),
{
    if bag.len() > 0 {
        lemma_total_units_nonneg(bag.drop_first());
    }
}

} // verus!
