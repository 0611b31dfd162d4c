//! What an agent believes a product is worth.
use crate::fixed::{clamp_range, clamp_range_exec, valid_range};
use crate::fixed::{Money, Ratio, CENT, MAX_PRICE};
use crate::model::product::ProductCategory;
use crate::random::random_in_range;
use vstd::prelude::*;

verus! {

/// The belief of one agent about one product: the price and elasticity it
/// started from, the price it believed in last, and the range of prices it
/// accepts at present.
#[derive(Clone, Copy, Debug)]
pub struct Preference {
    /// The price that the agent first believed in.
    pub original_price: Money,
    /// How easily the agent goes without the product, in parts per million.
    pub original_elastic: Ratio,
    /// The price that the agent believed in last.
    pub current_price: Money,
    /// The lowest and the highest price that the agent accepts.
    pub current_range: (Money, Money),
}

/// The top of the first range of an agent that starts at `original_price`:
/// one and a half times that price, within `MAX_PRICE`.
pub open spec fn first_range_ceiling(original_price: Money) -> int {
    if original_price * 3 / 2 <= MAX_PRICE {
        original_price * 3 / 2
    } else {
        MAX_PRICE as int
    }
}

impl Preference {
    /// Whether the range of accepted prices is a proper one: its upper bound
    /// lies strictly above its lower bound.
    pub open spec fn range_is_proper(&self) -> bool {
        valid_range(self.current_range)
    }

    /// A belief that has not been formed yet: no current price and the empty
    /// range at zero. Its range becomes a proper one with the first trade
    /// that is settled.
    pub fn new(original_price: Money, original_elastic: Ratio) -> (p: Self)
        ensures
            p.original_price == original_price,
            p.original_elastic == original_elastic,
            p.current_price == 0,
            p.current_range == (0u64, 0u64),
    {
        Preference { original_price, original_elastic, current_price: 0, current_range: (0, 0) }
    }

    /// What [`Preference::from_product`] may return, whatever the draws: the
    /// lower bound is drawn below half the ceiling, the upper bound between
    /// the lower bound and the ceiling, and the range is then kept at least
    /// one cent wide.
    pub open spec fn first_belief(original_price: Money, original_elastic: Ratio, p: Self) -> bool {
        let ceiling = first_range_ceiling(original_price);
        &&& p.original_price == original_price
        &&& p.original_elastic == original_elastic
        &&& p.current_price == original_price
        &&& exists|low: int, high: int|
            {
                &&& 0 <= low <= high <= ceiling
                &&& low == 0 || low < ceiling / 2
                &&& p.current_range == #[trigger] clamp_range(low, high, CENT as int)
            }
    }

    /// The first belief of an agent about a product, from a price and an
    /// elasticity sampled from the product's distributions. The range of
    /// accepted prices is drawn at random below one and a half times the
    /// price.
    pub fn from_product(original_price: Money, original_elastic: Ratio) -> (p: Self)
        ensures
            Self::first_belief(original_price, original_elastic, p),
            p.range_is_proper(),
    {
        let wide: u128 = (original_price as u128) * 3 / 2;
        let ceiling: u64 = if wide <= MAX_PRICE as u128 { wide as u64 } else { MAX_PRICE };
        let half: u64 = ceiling / 2;
        let low: u64 = if half > 0 { random_in_range(0, half) } else { 0 };
        let high: u64 = if low < ceiling { random_in_range(low, ceiling) } else { low };
        let current_range = clamp_range_exec(low as u128, high as u128, CENT);
        let p = Preference {
            original_price,
            original_elastic,
            current_price: original_price,
            current_range,
        };
        assert(p.current_range == clamp_range(low as int, high as int, CENT as int));
        p
    }
}

/// The belief of an agent about the product `product_id` of the kind
/// `category`.
#[derive(Clone, Copy, Debug)]
pub struct PreferenceEntry {
    /// The kind of the product.
    pub category: ProductCategory,
    /// The product.
    pub product_id: u64,
    /// What the agent believes about it.
    pub preference: Preference,
}

/// Whether `entry` is the belief about the product `product_id` of the kind
/// `category`.
pub open spec fn entry_is_for(entry: PreferenceEntry, category: ProductCategory, product_id: u64) -> bool {
    entry.category == category && entry.product_id == product_id
}

/// Whether the entry at `i` is the first one about the given product.
pub open spec fn first_entry_at(
    entries: Seq<PreferenceEntry>,
    category: ProductCategory,
    product_id: u64,
    i: int,
) -> bool {
    &&& 0 <= i < entries.len()
    &&& entry_is_for(entries[i], category, product_id)
    &&& forall|j: int| 0 <= j < i ==> !entry_is_for(#[trigger] entries[j], category, product_id)
}

/// Where the belief about the given product stands among `entries`.
pub open spec fn position(
    entries: Seq<PreferenceEntry>,
    category: ProductCategory,
    product_id: u64,
) -> Option<int> {
    if exists|i: int| first_entry_at(entries, category, product_id, i) {
        Some(choose|i: int| first_entry_at(entries, category, product_id, i))
    } else {
        None
    }
}

/// The belief about the given product, if `entries` hold one.
pub open spec fn lookup(
    entries: Seq<PreferenceEntry>,
    category: ProductCategory,
    product_id: u64,
) -> Option<Preference> {
    match position(entries, category, product_id) {
        Some(i) => Some(entries[i].preference),
        None => None,
    }
}

/// `entries` with the belief about the given product replaced by
/// `preference`, or added at the end where there was none.
pub open spec fn with_preference(
    entries: Seq<PreferenceEntry>,
    category: ProductCategory,
    product_id: u64,
    preference: Preference,
) -> Seq<PreferenceEntry> {
    let entry = PreferenceEntry { category, product_id, preference };
    match position(entries, category, product_id) {
        Some(i) => entries.update(i, entry),
        None => entries.push(entry),
    }
}

/// Only one entry can be the first about a product.
pub proof fn lemma_first_entry_unique(
    entries: Seq<PreferenceEntry>,
    category: ProductCategory,
    product_id: u64,
    i: int,
)
    requires
        first_entry_at(entries, category, product_id, i),
    ensures
        position(entries, category, product_id) == Some(i),
{
    let k = choose|k: int| first_entry_at(entries, category, product_id, k);
    if k < i {
        assert(!entry_is_for(entries[k], category, product_id));
    } else if i < k {
        assert(!entry_is_for(entries[i], category, product_id));
    }
}

/// After a belief was stored, looking it up gives it back, and the beliefs
/// about all other products are as before.
pub proof fn lemma_with_preference_lookup(
    entries: Seq<PreferenceEntry>,
    category: ProductCategory,
    product_id: u64,
    preference: Preference,
    other_category: ProductCategory,
    other_id: u64,
)
    ensures
        lookup(with_preference(entries, category, product_id, preference), category, product_id)
            == Some(preference),
        (other_category != category || other_id != product_id) ==> lookup(
            with_preference(entries, category, product_id, preference),
            other_category,
            other_id,
        ) == lookup(entries, other_category, other_id),
{
    let entry = PreferenceEntry { category, product_id, preference };
    let after = with_preference(entries, category, product_id, preference);
    match position(entries, category, product_id) {
        Some(i) => {
            assert(first_entry_at(entries, category, product_id, i));
            assert forall|j: int| 0 <= j < i implies !entry_is_for(
                #[trigger] after[j],
                category,
                product_id,
            ) by {
                assert(after[j] == entries[j]);
            }
            assert(first_entry_at(after, category, product_id, i));
            lemma_first_entry_unique(after, category, product_id, i);
        },
        None => {
            let n = entries.len() as int;
            assert forall|j: int| 0 <= j < n implies !entry_is_for(
                #[trigger] after[j],
                category,
                product_id,
            ) by {
                assert(after[j] == entries[j]);
                if entry_is_for(entries[j], category, product_id) {
                    lemma_has_first_entry(entries, category, product_id, j);
                }
            }
            assert(first_entry_at(after, category, product_id, n));
            lemma_first_entry_unique(after, category, product_id, n);
        },
    }
    if other_category != category || other_id != product_id {
        lemma_with_preference_keeps_others(
            entries,
            category,
            product_id,
            preference,
            other_category,
            other_id,
        );
    }
}

/// Where some entry is about a product, one of them is the first.
pub proof fn lemma_has_first_entry(
    entries: Seq<PreferenceEntry>,
    category: ProductCategory,
    product_id: u64,
    j: int,
)
    requires
        0 <= j < entries.len(),
        entry_is_for(entries[j], category, product_id),
    ensures
        position(entries, category, product_id) is Some,
        position(entries, category, product_id)->0 <= j,
    decreases j,
{
    if exists|k: int| 0 <= k < j && entry_is_for(entries[k], category, product_id) {
        let k = choose|k: int| 0 <= k < j && entry_is_for(entries[k], category, product_id);
        lemma_has_first_entry(entries, category, product_id, k);
    } else {
        assert(first_entry_at(entries, category, product_id, j));
        lemma_first_entry_unique(entries, category, product_id, j);
    }
}

/// Storing a belief about one product leaves the place of every other
/// product's belief as it was.
proof fn lemma_with_preference_keeps_others(
    entries: Seq<PreferenceEntry>,
    category: ProductCategory,
    product_id: u64,
    preference: Preference,
    other_category: ProductCategory,
    other_id: u64,
)
    requires
        other_category != category || other_id != product_id,
    ensures
        position(
            with_preference(entries, category, product_id, preference),
            other_category,
            other_id,
        ) == position(entries, other_category, other_id),
        lookup(with_preference(entries, category, product_id, preference), other_category, other_id)
            == lookup(entries, other_category, other_id),
{
    let after = with_preference(entries, category, product_id, preference);
    assert forall|k: int| 0 <= k < entries.len() implies entry_is_for(
        #[trigger] after[k],
        other_category,
        other_id,
    ) == entry_is_for(entries[k], other_category, other_id) by {}
    match position(entries, other_category, other_id) {
        Some(i) => {
            assert(first_entry_at(entries, other_category, other_id, i));
            assert forall|j: int| 0 <= j < i implies !entry_is_for(
                #[trigger] after[j],
                other_category,
                other_id,
            ) by {
                assert(!entry_is_for(entries[j], other_category, other_id));
            }
            assert(first_entry_at(after, other_category, other_id, i));
            lemma_first_entry_unique(after, other_category, other_id, i);
            assert(after[i].preference == entries[i].preference);
        },
        None => {
            if exists|i: int| first_entry_at(after, other_category, other_id, i) {
                let i = choose|i: int| first_entry_at(after, other_category, other_id, i);
                assert(i < entries.len());
                assert(entry_is_for(entries[i], other_category, other_id));
                lemma_has_first_entry(entries, other_category, other_id, i);
            }
        },
    }
}

/// Whether no product has two beliefs: no two entries are about the same
/// product of the same kind.
pub open spec fn each_product_once(entries: Seq<PreferenceEntry>) -> bool {
    forall|i: int, j: int|
        0 <= i < j < entries.len() ==> !entry_is_for(
            #[trigger] entries[j],
            (#[trigger] entries[i]).category,
            entries[i].product_id,
        )
}

/// Storing a belief leaves every product with one belief at most.
pub proof fn lemma_with_preference_keeps_once(
    entries: Seq<PreferenceEntry>,
    category: ProductCategory,
    product_id: u64,
    preference: Preference,
)
    requires
        each_product_once(entries),
    ensures
        each_product_once(with_preference(entries, category, product_id, preference)),
{
    let after = with_preference(entries, category, product_id, preference);
    match position(entries, category, product_id) {
        Some(at) => {
            assert(first_entry_at(entries, category, product_id, at));
            assert forall|i: int, j: int| 0 <= i < j < after.len() implies !entry_is_for(
                #[trigger] after[j],
                (#[trigger] after[i]).category,
                after[i].product_id,
            ) by {
                assert(after[i].category == entries[i].category);
                assert(after[i].product_id == entries[i].product_id);
                assert(after[j].category == entries[j].category);
                assert(after[j].product_id == entries[j].product_id);
                assert(!entry_is_for(entries[j], entries[i].category, entries[i].product_id));
            }
        },
        None => {
            let n = entries.len() as int;
            assert forall|i: int, j: int| 0 <= i < j < after.len() implies !entry_is_for(
                #[trigger] after[j],
                (#[trigger] after[i]).category,
                after[i].product_id,
            ) by {
                assert(after[i] == entries[i]);
                if j < n {
                    assert(after[j] == entries[j]);
                    assert(!entry_is_for(entries[j], entries[i].category, entries[i].product_id));
                } else {
                    if entry_is_for(entries[i], category, product_id) {
                        lemma_has_first_entry(entries, category, product_id, i);
                    }
                }
            }
        },
    }
}

/// Finds where the belief about the given product stands among `entries`.
pub fn find_entry(entries: &Vec<PreferenceEntry>, category: ProductCategory, product_id: u64) -> (r:
    Option<usize>)
    ensures
        match r {
            Some(i) => position(entries@, category, product_id) == Some(i as int),
            None => position(entries@, category, product_id) is None,
        },
{
    let mut i: usize = 0;
    while i < entries.len()
        invariant
            i <= entries.len(),
            forall|j: int| 0 <= j < i ==> !entry_is_for(#[trigger] entries@[j], category, product_id),
        decreases entries.len() - i,
    {
        if entries[i].category == category && entries[i].product_id == product_id {
            proof {
                assert(first_entry_at(entries@, category, product_id, i as int));
                lemma_first_entry_unique(entries@, category, product_id, i as int);
            }
            return Some(i);
        }
        i = i + 1;
    }
    proof {
        if exists|k: int| first_entry_at(entries@, category, product_id, k) {
            let k = choose|k: int| first_entry_at(entries@, category, product_id, k);
            assert(!entry_is_for(entries@[k], category, product_id));
        }
    }
    None
}

/// Stores `preference` as the belief about the given product.
pub fn store_entry(
    entries: &mut Vec<PreferenceEntry>,
    category: ProductCategory,
    product_id: u64,
    preference: Preference,
)
    ensures
        final(entries)@ == with_preference(old(entries)@, category, product_id, preference),
        each_product_once(old(entries)@) ==> each_product_once(final(entries)@),
{
    proof {
        if each_product_once(entries@) {
            lemma_with_preference_keeps_once(entries@, category, product_id, preference);
        }
    }
    let entry = PreferenceEntry { category, product_id, preference };
    match find_entry(entries, category, product_id) {
        Some(i) => {
            entries.set(i, entry);
        },
        None => {
            entries.push(entry);
        },
    }
}

} // verus!
