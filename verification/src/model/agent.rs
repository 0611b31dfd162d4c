//! The consumers of the market and what a negotiation can come to.
pub mod preference;

use crate::fixed::{clamp_range, clamp_range_exec, lemma_clamp_range_valid, max_int, sat_add};
use crate::fixed::valid_range;
use crate::fixed::{Money, Ratio, MAX_PRICE, RATIO_ONE, TENTH};
use crate::logging::agent_demand_removal_log::AgentDemandRemovalLogView;
use crate::logging::agent_range_adjustment_log::AgentRangeAdjustmentLogView;
use crate::logging::{LogRecordView, Logger, LoggerView};
use crate::model::agent::preference::{entry_is_for, find_entry, first_entry_at, lookup, position};
use crate::model::agent::preference::{store_entry, with_preference, Preference, PreferenceEntry};
use crate::model::agent::preference::{each_product_once, lemma_with_preference_keeps_once};
use crate::model::product::{Product, ProductCategory};
use crate::model::util::{gen_new_range_with_price, get_range_change_info, shift_range_by_ratio};
use crate::model::util::{spec_gen_new_range_with_price, spec_range_change};
use crate::model::util::spec_shift_range_by_ratio;
use crate::random::{random_in_range, shuffle};
use std::collections::HashSet;
use vstd::prelude::*;

verus! {

broadcast use vstd::std_specs::hash::group_hash_axioms;

/// How an offered price lies to the range of prices that an agent accepts.
#[derive(Clone, Copy, Debug, PartialEq, Eq, Structural)]
pub enum IntervalRelation {
    /// The price lies within the range; it is the price of the trade.
    Overlapping(Money),
    /// The price lies above the range: the agent stands below the factory.
    AgentBelowFactory,
    /// The price lies below the range: the agent stands above the factory.
    AgentAboveFactory,
    /// The agent cannot pay the price.
    CashBurnedOut,
}

/// How an attempt to trade ended.
#[derive(Clone, Copy, Debug, PartialEq, Eq, Structural)]
pub enum TradeResult {
    /// Nothing was attempted yet.
    NotYet,
    /// The agent did not want the product.
    NotMatched,
    /// The trade was made at this price.
    Success(Money),
    /// The trade was not made.
    Failed,
}

/// The share of the old width that is left after a failure with offers on
/// both sides of the range: a fifth.
pub const RESHAPE_MIXED: u64 = 200_000;

/// The share of the old width that is left after a failure with offers on
/// one side of the range: a tenth.
pub const RESHAPE_ONE_SIDED: u64 = 100_000;

/// The share by which the range is moved toward one-sided offers: a tenth.
pub const FAILURE_SHIFT: i64 = 100_000;

/// The lower end of the draws against which the wish for a product is
/// rolled: one hundredth.
pub const DESIRE_DRAW_MIN: u64 = 10_000;

/// The upper end, exclusive, of those draws: ninety-nine hundredths.
pub const DESIRE_DRAW_MAX: u64 = 990_000;

/// Whether some offer lies above `bound`.
pub open spec fn has_offer_above(offers: Seq<Money>, bound: Money) -> bool {
    exists|i: int| 0 <= i < offers.len() && #[trigger] offers[i] > bound
}

/// Whether some offer lies below `bound`.
pub open spec fn has_offer_below(offers: Seq<Money>, bound: Money) -> bool {
    exists|i: int| 0 <= i < offers.len() && #[trigger] offers[i] < bound
}

/// The lowest of `start` and all `offers`.
pub open spec fn lowest_price(start: Money, offers: Seq<Money>) -> Money
    decreases offers.len(),
{
    if offers.len() == 0 {
        start
    } else {
        let rest = lowest_price(start, offers.drop_last());
        if offers.last() < rest {
            offers.last()
        } else {
            rest
        }
    }
}

/// The lowest price is no higher than the starting price or any offer, and
/// it is one of them.
pub proof fn lemma_lowest_price_is_minimum(start: Money, offers: Seq<Money>)
    ensures
        lowest_price(start, offers) <= start,
        forall|i: int| 0 <= i < offers.len() ==> lowest_price(start, offers) <= #[trigger] offers[i],
        lowest_price(start, offers) == start || exists|i: int|
            0 <= i < offers.len() && #[trigger] offers[i] == lowest_price(start, offers),
    decreases offers.len(),
{
    if offers.len() > 0 {
        let front = offers.drop_last();
        lemma_lowest_price_is_minimum(start, front);
        assert forall|i: int| 0 <= i < offers.len() implies lowest_price(start, offers)
            <= #[trigger] offers[i] by {
            if i < front.len() {
                assert(front[i] == offers[i]);
            }
        }
        if lowest_price(start, offers) != start {
            if lowest_price(start, offers) == offers.last() {
                assert(offers[offers.len() - 1] == lowest_price(start, offers));
            } else {
                let i = choose|i: int|
                    0 <= i < front.len() && #[trigger] front[i] == lowest_price(start, front);
                assert(offers[i] == lowest_price(start, offers));
            }
        }
    }
}

/// The price around which a failure rebuilds the range: the lowest offer,
/// or the price believed in last where there was no offer.
pub open spec fn lowest_seen(current_price: Money, offers: Seq<Money>) -> Money {
    if offers.len() == 0 {
        current_price
    } else {
        lowest_price(offers[0], offers)
    }
}

/// Where there is an offer, the lowest offer is one of the offers and no
/// offer lies below it, whatever the price believed in last.
pub proof fn lemma_lowest_seen_is_lowest_offer(current_price: Money, offers: Seq<Money>)
    requires
        offers.len() > 0,
    ensures
        forall|i: int|
            0 <= i < offers.len() ==> lowest_seen(current_price, offers) <= #[trigger] offers[i],
        exists|i: int|
            0 <= i < offers.len() && #[trigger] offers[i] == lowest_seen(current_price, offers),
{
    lemma_lowest_price_is_minimum(offers[0], offers);
    if lowest_price(offers[0], offers) == offers[0] {
        assert(offers[0] == lowest_seen(current_price, offers));
    }
}

/// The range of accepted prices after a trade at `price`: nine tenths as
/// wide as before, but at least a twentieth of the price and a tenth of a
/// unit wide, centred on the price, with the lower bound kept at zero or
/// above and the upper bound at least a tenth of a unit above the lower.
pub open spec fn success_range(range: (Money, Money), price: Money) -> (Money, Money) {
    let old_length = max_int(0, range.1 - range.0);
    let min_len = max_int((price / 20) as int, TENTH as int);
    let new_length = max_int(old_length * 9 / 10, min_len);
    let half = new_length / 2;
    clamp_range(max_int(price - half, 0), price + half, TENTH as int)
}

/// The range of accepted prices after a failure whose lowest offer was
/// `lowest`. With offers on both sides of the range it is rebuilt around
/// the lowest offer at a fifth of its width; with offers only below (above)
/// it is moved down (up) by a tenth and rebuilt around the lowest offer at a
/// tenth of its width; with no offer outside the range it stays.
pub open spec fn failure_range(range: (Money, Money), above: bool, below: bool, lowest: Money) -> (
    Money,
    Money,
) {
    if above && below {
        spec_gen_new_range_with_price(lowest, range, RESHAPE_MIXED as int)
    } else if below {
        spec_gen_new_range_with_price(
            lowest,
            spec_shift_range_by_ratio(range, -FAILURE_SHIFT),
            RESHAPE_ONE_SIDED as int,
        )
    } else if above {
        spec_gen_new_range_with_price(
            lowest,
            spec_shift_range_by_ratio(range, FAILURE_SHIFT as int),
            RESHAPE_ONE_SIDED as int,
        )
    } else {
        range
    }
}

/// The range after a trade is a proper range at least a tenth of a unit wide,
/// whatever the range before.
pub proof fn lemma_success_range_is_proper(range: (Money, Money), price: Money)
    ensures
        valid_range(success_range(range, price)),
        success_range(range, price).1 - success_range(range, price).0 >= TENTH,
{
    let old_length = max_int(0, range.1 - range.0);
    let min_len = max_int((price / 20) as int, TENTH as int);
    let new_length = max_int(old_length * 9 / 10, min_len);
    let half = new_length / 2;
    lemma_clamp_range_valid(max_int(price - half, 0), price + half, TENTH as int);
}

/// The range after a failure is a proper range where the range before was
/// one, and in any case where an offer lay outside the range before.
pub proof fn lemma_failure_range_is_proper(
    range: (Money, Money),
    above: bool,
    below: bool,
    lowest: Money,
)
    ensures
        above || below ==> valid_range(failure_range(range, above, below, lowest)),
        valid_range(range) ==> valid_range(failure_range(range, above, below, lowest)),
{
    crate::model::util::lemma_rebuilt_range_is_proper(lowest, range, RESHAPE_MIXED as int);
    crate::model::util::lemma_rebuilt_range_is_proper(
        lowest,
        spec_shift_range_by_ratio(range, -FAILURE_SHIFT),
        RESHAPE_ONE_SIDED as int,
    );
    crate::model::util::lemma_rebuilt_range_is_proper(
        lowest,
        spec_shift_range_by_ratio(range, FAILURE_SHIFT as int),
        RESHAPE_ONE_SIDED as int,
    );
}

/// Settling an attempt leaves every belief with a proper range where every
/// belief had one before.
pub proof fn lemma_settling_keeps_ranges_proper(
    agent: AgentView,
    draw: Ratio,
    product_id: u64,
    category: ProductCategory,
    result: TradeResult,
    relation: IntervalRelation,
    offers: Seq<Money>,
)
    requires
        all_ranges_proper(agent.preferences),
    ensures
        all_ranges_proper(
            after_settling(agent, draw, product_id, category, result, relation, offers).preferences,
        ),
{
    match lookup(agent.preferences, category, product_id) {
        Some(p) => {
            let i = position(agent.preferences, category, product_id)->0;
            assert(first_entry_at(agent.preferences, category, product_id, i));
            assert(agent.preferences[i].preference.range_is_proper());
            match settlement_of(agent, product_id, category, result, relation) {
                Settlement::Nothing => {},
                Settlement::Success(price) => {
                    lemma_success_range_is_proper(p.current_range, price);
                    let q = Preference {
                        current_price: price,
                        current_range: success_range(p.current_range, price),
                        ..p
                    };
                    lemma_with_preference_proper(agent.preferences, category, product_id, q);
                },
                Settlement::Failure(r) => {
                    let lowest = lowest_seen(p.current_price, offers);
                    lemma_failure_range_is_proper(
                        p.current_range,
                        has_offer_above(offers, p.current_range.1),
                        has_offer_below(offers, p.current_range.0),
                        lowest,
                    );
                    lemma_with_preference_proper(
                        agent.preferences,
                        category,
                        product_id,
                        belief_after_failure(p, offers),
                    );
                },
            }
        },
        None => {},
    }
}

/// After a settled trade the belief about the traded product has a range
/// that starts at zero or above and is at least a tenth of a unit wide,
/// whatever the range before, the price and the cash of the agent.
pub proof fn lemma_success_leaves_proper_belief(
    agent: AgentView,
    product_id: u64,
    category: ProductCategory,
    price: Money,
)
    requires
        lookup(agent.preferences, category, product_id) is Some,
    ensures
        lookup(after_success(agent, product_id, category, price).preferences, category, product_id)
            is Some,
        ({
            let belief = lookup(
                after_success(agent, product_id, category, price).preferences,
                category,
                product_id,
            )->0;
            &&& belief.current_price == price
            &&& 0 <= belief.current_range.0
            &&& belief.current_range.0 + TENTH <= belief.current_range.1
            &&& belief.current_range.1 <= MAX_PRICE
        }),
{
    let p = lookup(agent.preferences, category, product_id)->0;
    let q = Preference {
        current_price: price,
        current_range: success_range(p.current_range, price),
        ..p
    };
    lemma_success_range_is_proper(p.current_range, price);
    crate::model::agent::preference::lemma_with_preference_lookup(
        agent.preferences,
        category,
        product_id,
        q,
        category,
        product_id,
    );
}

/// Whether every belief has a proper range of accepted prices.
pub open spec fn all_ranges_proper(entries: Seq<PreferenceEntry>) -> bool {
    forall|i: int| 0 <= i < entries.len() ==> (#[trigger] entries[i]).preference.range_is_proper()
}

/// Storing a belief with a proper range among beliefs with proper ranges
/// leaves all ranges proper.
pub proof fn lemma_with_preference_proper(
    entries: Seq<PreferenceEntry>,
    category: ProductCategory,
    product_id: u64,
    preference: Preference,
)
    requires
        all_ranges_proper(entries),
        preference.range_is_proper(),
    ensures
        all_ranges_proper(with_preference(entries, category, product_id, preference)),
{
    let after = with_preference(entries, category, product_id, preference);
    assert forall|i: int| 0 <= i < after.len() implies (#[trigger] after[i]).preference.range_is_proper() by {
        if i < entries.len() && after[i] != (PreferenceEntry { category, product_id, preference }) {
            assert(after[i] == entries[i]);
        }
    }
}

/// A consumer: it holds cash, wants some products, and has a belief about
/// what each product of the catalogue is worth. The beliefs stand in a list
/// in the order in which they were formed; a new agent has one belief for
/// each product and kind, and no method gives a product a second one.
pub struct Agent {
    id: u64,
    name: String,
    preferences: Vec<PreferenceEntry>,
    cash: Money,
    demand: HashSet<u64>,
    auto_demand: bool,
}

/// What an [`Agent`] holds.
pub struct AgentView {
    /// The id.
    pub id: u64,
    /// The name.
    pub name: Seq<char>,
    /// The beliefs, in the order in which they were formed.
    pub preferences: Seq<PreferenceEntry>,
    /// The cash.
    pub cash: Money,
    /// The products that the agent wants at present.
    pub demand: Set<u64>,
    /// Whether the agent forms new wishes by itself.
    pub auto_demand: bool,
}

impl View for Agent {
    type V = AgentView;

    closed spec fn view(&self) -> AgentView {
        AgentView {
            id: self.id,
            name: self.name@,
            preferences: self.preferences@,
            cash: self.cash,
            demand: self.demand@,
            auto_demand: self.auto_demand,
        }
    }
}

/// Whether `entry` is a first belief about one of `products`, formed from
/// the samples that stand at the product's place.
pub open spec fn entry_from_catalogue(
    entry: PreferenceEntry,
    products: Seq<Product>,
    samples: Seq<(Money, Ratio)>,
) -> bool {
    exists|j: int|
        {
            &&& 0 <= j < products.len()
            &&& j < samples.len()
            &&& entry_is_for(
                entry,
                (#[trigger] products[j]).spec_product_category(),
                products[j].spec_id(),
            )
            &&& Preference::first_belief(samples[j].0, samples[j].1, entry.preference)
        }
}

/// Whether `entries` hold a belief about each of `products` and nothing else.
pub open spec fn beliefs_cover(
    entries: Seq<PreferenceEntry>,
    products: Seq<Product>,
    samples: Seq<(Money, Ratio)>,
) -> bool {
    &&& forall|j: int|
        0 <= j < products.len() ==> lookup(
            entries,
            (#[trigger] products[j]).spec_product_category(),
            products[j].spec_id(),
        ) is Some
    &&& forall|k: int|
        0 <= k < entries.len() ==> entry_from_catalogue(#[trigger] entries[k], products, samples)
}

/// What a negotiation comes to for an agent in the state `agent`.
pub open spec fn spec_negotiate(
    agent: AgentView,
    product_id: u64,
    category: ProductCategory,
    price: Money,
) -> (TradeResult, IntervalRelation) {
    if !agent.demand.contains(product_id) {
        (TradeResult::NotMatched, IntervalRelation::AgentBelowFactory)
    } else if agent.cash < price {
        (TradeResult::Failed, IntervalRelation::CashBurnedOut)
    } else {
        match lookup(agent.preferences, category, product_id) {
            None => (TradeResult::NotMatched, IntervalRelation::AgentBelowFactory),
            Some(p) => if price < p.current_range.0 {
                (TradeResult::Failed, IntervalRelation::AgentAboveFactory)
            } else if price > p.current_range.1 {
                (TradeResult::Failed, IntervalRelation::AgentBelowFactory)
            } else {
                (TradeResult::Success(price), IntervalRelation::Overlapping(price))
            },
        }
    }
}

/// The logger `logger` after `record`, if there is one, was added.
pub open spec fn logger_with(logger: LoggerView, record: Option<LogRecordView>) -> LoggerView {
    match record {
        Some(r) => LoggerView { records: logger.records.push(r), ..logger },
        None => logger,
    }
}

/// The record of the agent `agent` giving up its wish for a product: there
/// is one where the agent has a belief about the product.
pub open spec fn removal_record(
    agent: AgentView,
    logger: LoggerView,
    product_id: u64,
    category: ProductCategory,
    round: u64,
    reason: Seq<char>,
) -> Option<LogRecordView> {
    match lookup(agent.preferences, category, product_id) {
        Some(p) => Some(
            LogRecordView::AgentDemandRemoval(
                AgentDemandRemovalLogView {
                    timestamp: logger.timestamp,
                    round,
                    task_id: logger.task_id,
                    agent_id: agent.id,
                    agent_name: agent.name,
                    product_id,
                    agent_cash: agent.cash,
                    agent_pref_original_price: Some(p.original_price),
                    agent_pref_original_elastic: Some(p.original_elastic),
                    agent_pref_current_price: Some(p.current_price),
                    agent_pref_current_range_lower: Some(p.current_range.0),
                    agent_pref_current_range_upper: Some(p.current_range.1),
                    removal_reason: reason,
                },
            ),
        ),
        None => None,
    }
}

/// The record of the agent `agent` moving its range for a product after a
/// failure, from `old_range` to `new_range` built around `center`.
pub open spec fn adjustment_record(
    agent: AgentView,
    logger: LoggerView,
    product_id: u64,
    round: u64,
    old_range: (Money, Money),
    new_range: (Money, Money),
    center: Money,
) -> LogRecordView {
    let change = spec_range_change(old_range, new_range);
    LogRecordView::AgentRangeAdjustment(
        AgentRangeAdjustmentLogView {
            timestamp: logger.timestamp,
            round,
            task_id: logger.task_id,
            agent_id: agent.id,
            agent_name: agent.name,
            product_id,
            old_range_lower: old_range.0,
            old_range_upper: old_range.1,
            new_range_lower: new_range.0,
            new_range_upper: new_range.1,
            lower_change: change.lower_change,
            upper_change: change.upper_change,
            min_change_ratio: change.lower_change_ratio,
            max_change_ratio: change.upper_change_ratio,
            center,
            adjustment_type: "trade_failed"@,
            price: None,
        },
    )
}

/// The agent after its belief about a product and its cash were brought up
/// to date with a trade at `price`, its wish for the product still standing.
pub open spec fn after_payment(
    agent: AgentView,
    product_id: u64,
    category: ProductCategory,
    price: Money,
) -> AgentView {
    let p = lookup(agent.preferences, category, product_id)->0;
    let q = Preference {
        current_price: price,
        current_range: success_range(p.current_range, price),
        ..p
    };
    AgentView {
        preferences: with_preference(agent.preferences, category, product_id, q),
        cash: (agent.cash - price) as u64,
        ..agent
    }
}

/// The agent after a trade at `price` was settled: it paid the price, it
/// believes in the price, its range is the [`success_range`], and it no
/// longer wants the product.
pub open spec fn after_success(
    agent: AgentView,
    product_id: u64,
    category: ProductCategory,
    price: Money,
) -> AgentView {
    let paid = after_payment(agent, product_id, category, price);
    AgentView { demand: paid.demand.remove(product_id), ..paid }
}

/// The logger after a trade at `price` was settled: it holds the record of
/// the wish that the trade fulfilled.
pub open spec fn logger_after_success(
    logger: LoggerView,
    agent: AgentView,
    product_id: u64,
    category: ProductCategory,
    round: u64,
    price: Money,
) -> LoggerView {
    logger_with(
        logger,
        removal_record(
            after_payment(agent, product_id, category, price),
            logger,
            product_id,
            category,
            round,
            "successful_trade"@,
        ),
    )
}

/// The belief `p` after a failure that did not end the wish: the agent
/// believes in the lowest offer, and its range is the [`failure_range`]
/// around that offer. Without an offer the belief stays as it is.
pub open spec fn belief_after_failure(p: Preference, offers: Seq<Money>) -> Preference {
    let lowest = lowest_seen(p.current_price, offers);
    Preference {
        current_price: lowest,
        current_range: failure_range(
            p.current_range,
            has_offer_above(offers, p.current_range.1),
            has_offer_below(offers, p.current_range.0),
            lowest,
        ),
        ..p
    }
}

/// The agent after a failed attempt was settled with the elasticity draw
/// `draw`. A draw below the agent's elasticity ends the wish. Otherwise,
/// unless the agent was short of cash, the belief about the product
/// becomes the [`belief_after_failure`].
pub open spec fn after_failure(
    agent: AgentView,
    draw: Ratio,
    product_id: u64,
    category: ProductCategory,
    relation: IntervalRelation,
    offers: Seq<Money>,
) -> AgentView {
    let p = lookup(agent.preferences, category, product_id)->0;
    if draw < p.original_elastic {
        AgentView { demand: agent.demand.remove(product_id), ..agent }
    } else if relation == IntervalRelation::CashBurnedOut {
        agent
    } else {
        AgentView {
            preferences: with_preference(
                agent.preferences,
                category,
                product_id,
                belief_after_failure(p, offers),
            ),
            ..agent
        }
    }
}

/// The logger after a failed attempt was settled with the elasticity draw
/// `draw`: it holds the record of the wish that ended, or of the range that
/// was adjusted, or nothing new where the agent was short of cash.
pub open spec fn logger_after_failure(
    logger: LoggerView,
    agent: AgentView,
    draw: Ratio,
    product_id: u64,
    category: ProductCategory,
    round: u64,
    relation: IntervalRelation,
    offers: Seq<Money>,
) -> LoggerView {
    let p = lookup(agent.preferences, category, product_id)->0;
    if draw < p.original_elastic {
        logger_with(
            logger,
            removal_record(agent, logger, product_id, category, round, "remove_by_elasticity"@),
        )
    } else if relation == IntervalRelation::CashBurnedOut {
        logger
    } else {
        let q = belief_after_failure(p, offers);
        logger_with(
            logger,
            Some(
                adjustment_record(
                    agent,
                    logger,
                    product_id,
                    round,
                    p.current_range,
                    q.current_range,
                    q.current_price,
                ),
            ),
        )
    }
}

/// Whether `new_agent` and `new_logger` are what a failed attempt can leave
/// behind: the state after a failure for some elasticity draw.
pub open spec fn failure_outcome(
    agent: AgentView,
    logger: LoggerView,
    product_id: u64,
    category: ProductCategory,
    round: u64,
    relation: IntervalRelation,
    offers: Seq<Money>,
    new_agent: AgentView,
    new_logger: LoggerView,
) -> bool {
    exists|draw: Ratio|
        {
            &&& draw < RATIO_ONE
            &&& new_agent == #[trigger] after_failure(
                agent,
                draw,
                product_id,
                category,
                relation,
                offers,
            )
            &&& new_logger == logger_after_failure(
                logger,
                agent,
                draw,
                product_id,
                category,
                round,
                relation,
                offers,
            )
        }
}

/// How an attempt is settled. An agent without a belief about the product
/// is left alone, and so is one whose attempt neither succeeded nor failed.
/// A success that the agent can pay is settled as a success; one that it
/// cannot pay any more is settled as a failure for want of cash; a failure is
/// settled as one.
pub enum Settlement {
    /// Nothing is done.
    Nothing,
    /// A trade at this price is settled.
    Success(Money),
    /// A failure that came with this relation is settled.
    Failure(IntervalRelation),
}

/// How the attempt of the agent `agent` is settled.
pub open spec fn settlement_of(
    agent: AgentView,
    product_id: u64,
    category: ProductCategory,
    result: TradeResult,
    relation: IntervalRelation,
) -> Settlement {
    if lookup(agent.preferences, category, product_id) is None {
        Settlement::Nothing
    } else {
        match result {
            TradeResult::Success(price) => if agent.cash >= price {
                Settlement::Success(price)
            } else {
                Settlement::Failure(IntervalRelation::CashBurnedOut)
            },
            TradeResult::Failed => Settlement::Failure(relation),
            _ => Settlement::Nothing,
        }
    }
}

/// The agent after its attempt was settled, with the elasticity draw `draw`
/// where a failure is settled.
pub open spec fn after_settling(
    agent: AgentView,
    draw: Ratio,
    product_id: u64,
    category: ProductCategory,
    result: TradeResult,
    relation: IntervalRelation,
    offers: Seq<Money>,
) -> AgentView {
    match settlement_of(agent, product_id, category, result, relation) {
        Settlement::Nothing => agent,
        Settlement::Success(price) => after_success(agent, product_id, category, price),
        Settlement::Failure(r) => after_failure(agent, draw, product_id, category, r, offers),
    }
}

/// The logger after the attempt of the agent `agent` was settled, with the
/// elasticity draw `draw` where a failure is settled.
pub open spec fn logger_after_settling(
    logger: LoggerView,
    agent: AgentView,
    draw: Ratio,
    product_id: u64,
    category: ProductCategory,
    round: u64,
    result: TradeResult,
    relation: IntervalRelation,
    offers: Seq<Money>,
) -> LoggerView {
    match settlement_of(agent, product_id, category, result, relation) {
        Settlement::Nothing => logger,
        Settlement::Success(price) => logger_after_success(
            logger,
            agent,
            product_id,
            category,
            round,
            price,
        ),
        Settlement::Failure(r) => logger_after_failure(
            logger,
            agent,
            draw,
            product_id,
            category,
            round,
            r,
            offers,
        ),
    }
}

/// Whether `new_agent` and `new_logger` are what settling an attempt can
/// leave behind: the state after settling for some elasticity draw.
pub open spec fn settled(
    agent: AgentView,
    logger: LoggerView,
    product_id: u64,
    category: ProductCategory,
    round: u64,
    result: TradeResult,
    relation: IntervalRelation,
    offers: Seq<Money>,
    new_agent: AgentView,
    new_logger: LoggerView,
) -> bool {
    exists|draw: Ratio|
        {
            &&& draw < RATIO_ONE
            &&& new_agent == #[trigger] after_settling(
                agent,
                draw,
                product_id,
                category,
                result,
                relation,
                offers,
            )
            &&& new_logger == logger_after_settling(
                logger,
                agent,
                draw,
                product_id,
                category,
                round,
                result,
                relation,
                offers,
            )
        }
}

/// The agent after it received `amount`: its cash grew by the amount, up to
/// the largest amount that can be held.
pub open spec fn after_income(agent: AgentView, amount: Money) -> AgentView {
    AgentView { cash: sat_add(agent.cash as int, amount as int) as u64, ..agent }
}

/// Tells whether some offer lies above `bound`.
pub fn any_offer_above(offers: &Vec<Money>, bound: Money) -> (r: bool)
    ensures
        r == has_offer_above(offers@, bound),
{
    let mut i: usize = 0;
    while i < offers.len()
        invariant
            i <= offers.len(),
            forall|j: int| 0 <= j < i ==> #[trigger] offers@[j] <= bound,
        decreases offers.len() - i,
    {
        if offers[i] > bound {
            return true;
        }
        i = i + 1;
    }
    false
}

/// Tells whether some offer lies below `bound`.
pub fn any_offer_below(offers: &Vec<Money>, bound: Money) -> (r: bool)
    ensures
        r == has_offer_below(offers@, bound),
{
    let mut i: usize = 0;
    while i < offers.len()
        invariant
            i <= offers.len(),
            forall|j: int| 0 <= j < i ==> #[trigger] offers@[j] >= bound,
        decreases offers.len() - i,
    {
        if offers[i] < bound {
            return true;
        }
        i = i + 1;
    }
    false
}

/// The lowest of `start` and all `offers`.
pub fn lowest_offer(start: Money, offers: &Vec<Money>) -> (r: Money)
    ensures
        r == lowest_price(start, offers@),
{
    let mut low = start;
    let mut i: usize = 0;
    while i < offers.len()
        invariant
            i <= offers.len(),
            low == lowest_price(start, offers@.take(i as int)),
        decreases offers.len() - i,
    {
        proof {
            assert(offers@.take(i + 1).drop_last() =~= offers@.take(i as int));
        }
        if offers[i] < low {
            low = offers[i];
        }
        i = i + 1;
    }
    proof {
        assert(offers@.take(offers.len() as int) =~= offers@);
    }
    low
}

/// The lowest offer, or `current_price` where there is no offer.
pub fn lowest_offer_seen(current_price: Money, offers: &Vec<Money>) -> (r: Money)
    ensures
        r == lowest_seen(current_price, offers@),
{
    if offers.len() == 0 {
        current_price
    } else {
        lowest_offer(offers[0], offers)
    }
}

/// Computes the [`success_range`].
pub fn range_after_success(range: (Money, Money), price: Money) -> (r: (Money, Money))
    ensures
        r == success_range(range, price),
        r.0 < r.1 <= MAX_PRICE,
        r.1 - r.0 >= TENTH,
{
    let old_length: u64 = if range.1 > range.0 { range.1 - range.0 } else { 0 };
    let by_price: u64 = price / 20;
    let min_len: u64 = if by_price > TENTH { by_price } else { TENTH };
    let shrunk: u128 = (old_length as u128) * 9 / 10;
    let new_length: u128 = if shrunk > min_len as u128 { shrunk } else { min_len as u128 };
    let half: u128 = new_length / 2;
    let lower: u128 = if price as u128 > half { price as u128 - half } else { 0 };
    proof {
        lemma_clamp_range_valid(
            max_int(price - half, 0),
            price + half,
            TENTH as int,
        );
    }
    clamp_range_exec(lower, price as u128 + half, TENTH)
}

/// Computes the [`failure_range`].
pub fn range_after_failure(range: (Money, Money), above: bool, below: bool, lowest: Money) -> (r: (
    Money,
    Money,
))
    ensures
        r == failure_range(range, above, below, lowest),
        (above || below) ==> r.0 < r.1 <= MAX_PRICE,
{
    if above && below {
        gen_new_range_with_price(lowest, range, RESHAPE_MIXED)
    } else if below {
        let moved = shift_range_by_ratio(range, -FAILURE_SHIFT);
        gen_new_range_with_price(lowest, moved, RESHAPE_ONE_SIDED)
    } else if above {
        let moved = shift_range_by_ratio(range, FAILURE_SHIFT);
        gen_new_range_with_price(lowest, moved, RESHAPE_ONE_SIDED)
    } else {
        range
    }
}

impl Agent {
    /// An agent with a first belief about each product. `samples` holds, at
    /// each product's place, the price and the elasticity that were sampled
    /// for it from the product's distributions. The agent wants nothing yet.
    pub fn new(
        id: u64,
        name: String,
        cash: Money,
        products: &Vec<Product>,
        samples: &Vec<(Money, Ratio)>,
        auto_demand: bool,
    ) -> (agent: Self)
        requires
            samples.len() == products.len(),
        ensures
            agent@.id == id,
            agent@.name == name@,
            agent@.cash == cash,
            agent@.demand == Set::<u64>::empty(),
            agent@.auto_demand == auto_demand,
            beliefs_cover(agent@.preferences, products@, samples@),
            all_ranges_proper(agent@.preferences),
            each_product_once(agent@.preferences),
    {
        let mut preferences: Vec<PreferenceEntry> = Vec::new();
        let mut i: usize = 0;
        while i < products.len()
            invariant
                i <= products.len(),
                samples.len() == products.len(),
                all_ranges_proper(preferences@),
                each_product_once(preferences@),
                forall|j: int|
                    0 <= j < i ==> lookup(
                        preferences@,
                        (#[trigger] products@[j]).spec_product_category(),
                        products@[j].spec_id(),
                    ) is Some,
                forall|k: int|
                    0 <= k < preferences.len() ==> entry_from_catalogue(
                        #[trigger] preferences@[k],
                        products@,
                        samples@,
                    ),
            decreases products.len() - i,
        {
            let category = products[i].product_category();
            let product_id = products[i].id();
            let belief = Preference::from_product(samples[i].0, samples[i].1);
            let ghost before = preferences@;
            store_entry(&mut preferences, category, product_id, belief);
            proof {
                let entry = PreferenceEntry { category, product_id, preference: belief };
                lemma_with_preference_proper(before, category, product_id, belief);
                assert(entry_from_catalogue(entry, products@, samples@)) by {
                    assert(entry_is_for(
                        entry,
                        products@[i as int].spec_product_category(),
                        products@[i as int].spec_id(),
                    ));
                }
                assert forall|k: int| 0 <= k < preferences.len() implies entry_from_catalogue(
                    #[trigger] preferences@[k],
                    products@,
                    samples@,
                ) by {
                    if preferences@[k] != entry {
                        assert(preferences@[k] == before[k]);
                    }
                }
                assert forall|j: int| 0 <= j < i + 1 implies lookup(
                    preferences@,
                    (#[trigger] products@[j]).spec_product_category(),
                    products@[j].spec_id(),
                ) is Some by {
                    crate::model::agent::preference::lemma_with_preference_lookup(
                        before,
                        category,
                        product_id,
                        belief,
                        products@[j].spec_product_category(),
                        products@[j].spec_id(),
                    );
                }
            }
            i = i + 1;
        }
        Agent { id, name, preferences, cash, demand: HashSet::new(), auto_demand }
    }

    /// The id.
    pub fn id(&self) -> (i: u64)
        ensures
            i == self@.id,
    {
        self.id
    }

    /// The name.
    pub fn name(&self) -> (n: &str)
        ensures
            n@ == self@.name,
    {
        self.name.as_str()
    }

    /// The beliefs, in the order in which they were formed.
    pub fn preferences(&self) -> (p: &Vec<PreferenceEntry>)
        ensures
            p@ == self@.preferences,
    {
        &self.preferences
    }

    /// The cash.
    pub fn cash(&self) -> (c: Money)
        ensures
            c == self@.cash,
    {
        self.cash
    }

    /// Whether the agent forms new wishes by itself.
    pub fn auto_demand(&self) -> (b: bool)
        ensures
            b == self@.auto_demand,
    {
        self.auto_demand
    }

    /// Sets the cash.
    pub fn set_cash(&mut self, cash: Money)
        ensures
            final(self)@ == (AgentView { cash, ..old(self)@ }),
    {
        self.cash = cash;
    }

    /// Whether the agent wants the product at present.
    pub fn has_demand(&self, product_id: u64) -> (b: bool)
        ensures
            b == self@.demand.contains(product_id),
    {
        self.demand.contains(&product_id)
    }

    /// Makes the agent want the product.
    pub fn add_demand(&mut self, product_id: u64)
        ensures
            final(self)@ == (AgentView {
                demand: old(self)@.demand.insert(product_id),
                ..old(self)@
            }),
    {
        self.demand.insert(product_id);
    }

    /// Stores `preference` as the belief about the given product.
    pub fn set_preference(
        &mut self,
        product_category: ProductCategory,
        product_id: u64,
        preference: Preference,
    )
        ensures
            final(self)@ == (AgentView {
                preferences: with_preference(
                    old(self)@.preferences,
                    product_category,
                    product_id,
                    preference,
                ),
                ..old(self)@
            }),
            each_product_once(old(self)@.preferences) ==> each_product_once(
                final(self)@.preferences,
            ),
    {
        store_entry(&mut self.preferences, product_category, product_id, preference);
    }

    /// The belief about the given product, if the agent has one.
    pub fn find_preference(&self, product_id: u64, product_category: ProductCategory) -> (r: Option<
        Preference,
    >)
        ensures
            r == lookup(self@.preferences, product_category, product_id),
    {
        match find_entry(&self.preferences, product_category, product_id) {
            Some(i) => Some(self.preferences[i].preference),
            None => None,
        }
    }

    /// The belief about the given product, which the agent must have.
    pub fn get_specific_preference(&self, product_id: u64, product_category: ProductCategory) -> (p:
        Preference)
        requires
            lookup(self@.preferences, product_category, product_id) is Some,
        ensures
            Some(p) == lookup(self@.preferences, product_category, product_id),
    {
        match find_entry(&self.preferences, product_category, product_id) {
            Some(i) => self.preferences[i].preference,
            None => Preference::new(0, 0),
        }
    }

    /// Answers an offer of the product at `price`. The agent turns down a
    /// product that it does not want or has no belief about, fails for want
    /// of cash where it cannot pay, and else accepts exactly the prices of
    /// its range. Nothing changes.
    pub fn negotiate(
        &self,
        round: u64,
        product_id: u64,
        product_category: ProductCategory,
        price: Money,
    ) -> (r: (TradeResult, IntervalRelation))
        ensures
            r == spec_negotiate(self@, product_id, product_category, price),
    {
        if !self.has_demand(product_id) {
            return (TradeResult::NotMatched, IntervalRelation::AgentBelowFactory);
        }
        if self.cash < price {
            return (TradeResult::Failed, IntervalRelation::CashBurnedOut);
        }
        match self.find_preference(product_id, product_category) {
            None => (TradeResult::NotMatched, IntervalRelation::AgentBelowFactory),
            Some(p) => {
                let (lower, upper) = p.current_range;
                if price < lower {
                    (TradeResult::Failed, IntervalRelation::AgentAboveFactory)
                } else if price > upper {
                    (TradeResult::Failed, IntervalRelation::AgentBelowFactory)
                } else {
                    (TradeResult::Success(price), IntervalRelation::Overlapping(price))
                }
            },
        }
    }

    /// Replaces the current price, the current range, or both, of the belief
    /// about the given product, which the agent must have unless nothing is
    /// to be replaced.
    pub fn set_preference_detail(
        &mut self,
        product_category: ProductCategory,
        product_id: u64,
        price: Option<Money>,
        range: Option<(Money, Money)>,
    )
        requires
            price is Some || range is Some ==> lookup(
                old(self)@.preferences,
                product_category,
                product_id,
            ) is Some,
        ensures
            price is None && range is None ==> final(self)@ == old(self)@,
            price is Some || range is Some ==> final(self)@ == (AgentView {
                preferences: with_preference(
                    old(self)@.preferences,
                    product_category,
                    product_id,
                    Preference {
                        current_price: if price is Some {
                            price->0
                        } else {
                            lookup(
                                old(self)@.preferences,
                                product_category,
                                product_id,
                            )->0.current_price
                        },
                        current_range: if range is Some {
                            range->0
                        } else {
                            lookup(
                                old(self)@.preferences,
                                product_category,
                                product_id,
                            )->0.current_range
                        },
                        ..lookup(old(self)@.preferences, product_category, product_id)->0
                    },
                ),
                ..old(self)@
            }),
            each_product_once(old(self)@.preferences) ==> each_product_once(
                final(self)@.preferences,
            ),
    {
        if price.is_none() && range.is_none() {
            return;
        }
        let mut preference = self.get_specific_preference(product_id, product_category);
        if let Some(p) = price {
            preference.current_price = p;
        }
        if let Some(r) = range {
            preference.current_range = r;
        }
        store_entry(&mut self.preferences, product_category, product_id, preference);
    }

    /// Ends the wish for a product and, where the agent has a belief about
    /// the product, records that it did, with the reason.
    pub fn remove_demand(
        &mut self,
        product_id: u64,
        product_category: ProductCategory,
        round: u64,
        reason: &str,
        logger: &mut Logger,
    )
        ensures
            final(self)@ == (AgentView {
                demand: old(self)@.demand.remove(product_id),
                ..old(self)@
            }),
            final(logger)@ == logger_with(
                old(logger)@,
                removal_record(
                    old(self)@,
                    old(logger)@,
                    product_id,
                    product_category,
                    round,
                    reason@,
                ),
            ),
    {
        self.demand.remove(&product_id);
        match find_entry(&self.preferences, product_category, product_id) {
            Some(i) => {
                let p = self.preferences[i].preference;
                logger.log_agent_demand_removal(
                    round,
                    self.id,
                    self.name.clone(),
                    product_id,
                    self.cash,
                    Some(p.original_price),
                    Some(p.original_elastic),
                    Some(p.current_price),
                    Some(p.current_range.0),
                    Some(p.current_range.1),
                    reason,
                );
            },
            None => {},
        }
    }

    /// Settles a trade at `price`: the agent pays, its belief follows the
    /// price, and its wish for the product ends. The agent must have a
    /// belief about the product and the cash to pay.
    pub fn handle_trade_success(
        &mut self,
        round: u64,
        product_id: u64,
        product_category: ProductCategory,
        price: Money,
        logger: &mut Logger,
    )
        requires
            lookup(old(self)@.preferences, product_category, product_id) is Some,
            old(self)@.cash >= price,
        ensures
            final(self)@ == after_success(old(self)@, product_id, product_category, price),
            final(logger)@ == logger_after_success(
                old(logger)@,
                old(self)@,
                product_id,
                product_category,
                round,
                price,
            ),
            lookup(final(self)@.preferences, product_category, product_id) is Some,
            lookup(final(self)@.preferences, product_category, product_id)->0.range_is_proper(),
            lookup(final(self)@.preferences, product_category, product_id)->0.current_range.1
                - lookup(
                final(self)@.preferences,
                product_category,
                product_id,
            )->0.current_range.0 >= TENTH,
            all_ranges_proper(old(self)@.preferences) ==> all_ranges_proper(
                final(self)@.preferences,
            ),
            each_product_once(old(self)@.preferences) ==> each_product_once(
                final(self)@.preferences,
            ),
    {
        let mut preference = self.get_specific_preference(product_id, product_category);
        preference.current_price = price;
        preference.current_range = range_after_success(preference.current_range, price);
        proof {
            crate::model::agent::preference::lemma_with_preference_lookup(
                self@.preferences,
                product_category,
                product_id,
                preference,
                product_category,
                product_id,
            );
            if all_ranges_proper(self@.preferences) {
                lemma_with_preference_proper(
                    self@.preferences,
                    product_category,
                    product_id,
                    preference,
                );
            }
        }
        store_entry(&mut self.preferences, product_category, product_id, preference);
        self.cash = self.cash - price;
        self.remove_demand(product_id, product_category, round, "successful_trade", logger);
    }

    /// Settles a failed attempt with the elasticity draw `draw`. The agent
    /// must have a belief about the product.
    pub fn apply_trade_failure(
        &mut self,
        draw: Ratio,
        product_id: u64,
        product_category: ProductCategory,
        round: u64,
        interval_relation: IntervalRelation,
        offered_price: &Vec<Money>,
        logger: &mut Logger,
    )
        requires
            lookup(old(self)@.preferences, product_category, product_id) is Some,
        ensures
            final(self)@ == after_failure(
                old(self)@,
                draw,
                product_id,
                product_category,
                interval_relation,
                offered_price@,
            ),
            final(logger)@ == logger_after_failure(
                old(logger)@,
                old(self)@,
                draw,
                product_id,
                product_category,
                round,
                interval_relation,
                offered_price@,
            ),
            lookup(final(self)@.preferences, product_category, product_id) is Some,
            all_ranges_proper(old(self)@.preferences) ==> all_ranges_proper(
                final(self)@.preferences,
            ),
            each_product_once(old(self)@.preferences) ==> each_product_once(
                final(self)@.preferences,
            ),
    {
        let preference = self.get_specific_preference(product_id, product_category);
        if draw < preference.original_elastic {
            self.remove_demand(product_id, product_category, round, "remove_by_elasticity", logger);
            return;
        }
        match interval_relation {
            IntervalRelation::CashBurnedOut => {
                return;
            },
            _ => {},
        }
        let old_range = preference.current_range;
        let above = any_offer_above(offered_price, old_range.1);
        let below = any_offer_below(offered_price, old_range.0);
        let min_price = lowest_offer_seen(preference.current_price, offered_price);
        let new_range = range_after_failure(old_range, above, below, min_price);
        let mut updated = preference;
        updated.current_price = min_price;
        updated.current_range = new_range;
        proof {
            assert(updated == belief_after_failure(preference, offered_price@));
            crate::model::agent::preference::lemma_with_preference_lookup(
                self@.preferences,
                product_category,
                product_id,
                updated,
                product_category,
                product_id,
            );
            if all_ranges_proper(self@.preferences) {
                let i = position(self@.preferences, product_category, product_id)->0;
                assert(first_entry_at(self@.preferences, product_category, product_id, i));
                assert(self@.preferences[i].preference.range_is_proper());
                lemma_with_preference_proper(
                    self@.preferences,
                    product_category,
                    product_id,
                    updated,
                );
            }
        }
        store_entry(&mut self.preferences, product_category, product_id, updated);
        let change = get_range_change_info(old_range, new_range);
        logger.log_agent_range_adjustment(
            round,
            self.id,
            self.name.clone(),
            product_id,
            old_range,
            new_range,
            change.lower_change,
            change.upper_change,
            change.lower_change_ratio,
            change.upper_change_ratio,
            min_price,
            "trade_failed",
            None,
        );
    }

    /// Settles a failed attempt: rolls the agent's elasticity and applies
    /// [`Agent::apply_trade_failure`] with the draw. The agent must have a
    /// belief about the product.
    pub fn handle_trade_failure(
        &mut self,
        product_id: u64,
        product_category: ProductCategory,
        round: u64,
        interval_relation: IntervalRelation,
        offered_price: &Vec<Money>,
        logger: &mut Logger,
    )
        requires
            lookup(old(self)@.preferences, product_category, product_id) is Some,
        ensures
            failure_outcome(
                old(self)@,
                old(logger)@,
                product_id,
                product_category,
                round,
                interval_relation,
                offered_price@,
                final(self)@,
                final(logger)@,
            ),
            lookup(final(self)@.preferences, product_category, product_id) is Some,
            all_ranges_proper(old(self)@.preferences) ==> all_ranges_proper(
                final(self)@.preferences,
            ),
            each_product_once(old(self)@.preferences) ==> each_product_once(
                final(self)@.preferences,
            ),
    {
        let draw = random_in_range(0, RATIO_ONE);
        self.apply_trade_failure(
            draw,
            product_id,
            product_category,
            round,
            interval_relation,
            offered_price,
            logger,
        );
    }
    /// Settles the attempt of a round to buy the product with the
    /// elasticity draw `draw`, as [`after_settling`] tells: by
    /// [`Agent::handle_trade_success`] after a success, by
    /// [`Agent::apply_trade_failure`] after a failure. `offered_prices` holds
    /// every price that the agent was offered in the round.
    pub fn apply_settling(
        &mut self,
        draw: Ratio,
        product_id: u64,
        product_category: ProductCategory,
        round: u64,
        result: TradeResult,
        interval_relation: IntervalRelation,
        offered_prices: &Vec<Money>,
        logger: &mut Logger,
    )
        ensures
            final(self)@ == after_settling(
                old(self)@,
                draw,
                product_id,
                product_category,
                result,
                interval_relation,
                offered_prices@,
            ),
            final(logger)@ == logger_after_settling(
                old(logger)@,
                old(self)@,
                draw,
                product_id,
                product_category,
                round,
                result,
                interval_relation,
                offered_prices@,
            ),
            all_ranges_proper(old(self)@.preferences) ==> all_ranges_proper(
                final(self)@.preferences,
            ),
            each_product_once(old(self)@.preferences) ==> each_product_once(
                final(self)@.preferences,
            ),
    {
        if self.find_preference(product_id, product_category).is_none() {
            return;
        }
        match result {
            TradeResult::Success(price) => {
                if self.cash >= price {
                    self.handle_trade_success(round, product_id, product_category, price, logger);
                } else {
                    self.apply_trade_failure(
                        draw,
                        product_id,
                        product_category,
                        round,
                        IntervalRelation::CashBurnedOut,
                        offered_prices,
                        logger,
                    );
                }
            },
            TradeResult::Failed => {
                self.apply_trade_failure(
                    draw,
                    product_id,
                    product_category,
                    round,
                    interval_relation,
                    offered_prices,
                    logger,
                );
            },
            _ => {},
        }
    }

    /// Settles the attempt of a round to buy the product: rolls the agent's
    /// elasticity and applies [`Agent::apply_settling`] with the draw.
    pub fn settling(
        &mut self,
        product_id: u64,
        product_category: ProductCategory,
        round: u64,
        result: TradeResult,
        interval_relation: IntervalRelation,
        offered_prices: &Vec<Money>,
        logger: &mut Logger,
    )
        ensures
            settled(
                old(self)@,
                old(logger)@,
                product_id,
                product_category,
                round,
                result,
                interval_relation,
                offered_prices@,
                final(self)@,
                final(logger)@,
            ),
            all_ranges_proper(old(self)@.preferences) ==> all_ranges_proper(
                final(self)@.preferences,
            ),
            each_product_once(old(self)@.preferences) ==> each_product_once(
                final(self)@.preferences,
            ),
    {
        let draw = random_in_range(0, RATIO_ONE);
        self.apply_settling(
            draw,
            product_id,
            product_category,
            round,
            result,
            interval_relation,
            offered_prices,
            logger,
        );
    }

    /// Adds `amount` to the cash.
    pub fn receive(&mut self, amount: Money)
        ensures
            final(self)@ == after_income(old(self)@, amount),
    {
        self.cash = self.cash.saturating_add(amount);
    }

    /// Adds an amount drawn at random from `range`, which must hold a value,
    /// to the cash.
    pub fn income(&mut self, range: (Money, Money))
        requires
            range.0 < range.1,
        ensures
            exists|amount: Money|
                range.0 <= amount < range.1 && final(self)@ == #[trigger] after_income(
                    old(self)@,
                    amount,
                ),
    {
        let amount = random_in_range(range.0, range.1);
        self.receive(amount);
    }

    /// One turn of the agent's wishing: for each kind of product in turn,
    /// [`insert_demand`] may pick one product that the agent did not want
    /// when the turn began, and the agent then wants all that were picked.
    /// Nothing else changes.
    pub fn desire(&mut self)
        ensures
            wished(old(self)@, final(self)@),
            old(self)@.demand.subset_of(final(self)@.demand),
            final(self)@.preferences == old(self)@.preferences,
    {
        let food = insert_demand(&self.preferences, ProductCategory::Food, &self.demand);
        let clothing = insert_demand(&self.preferences, ProductCategory::Clothing, &self.demand);
        let water = insert_demand(&self.preferences, ProductCategory::Water, &self.demand);
        let fun = insert_demand(&self.preferences, ProductCategory::Entertainment, &self.demand);
        self.add_wish(food);
        self.add_wish(clothing);
        self.add_wish(water);
        self.add_wish(fun);
        assert(self@ == after_wishes(old(self)@, food, clothing, water, fun));
    }

    /// Lets the agent have its turn of wishing if it wishes by itself and
    /// its time has come, and tells when its next turn is due, as
    /// [`spec_wish_schedule`] tells. Times are counted in milliseconds.
    pub fn wish_when_due(&mut self, due_at: u64, now: u64) -> (next_due: u64)
        ensures
            old(self)@.auto_demand ==> exists|wait: u64|
                WISH_WAIT_MIN <= wait < WISH_WAIT_MAX && next_due == (#[trigger] spec_wish_schedule(
                    due_at,
                    now,
                    wait,
                )).1,
            !old(self)@.auto_demand ==> next_due == due_at,
            old(self)@.auto_demand && due_at <= now ==> wished(old(self)@, final(self)@),
            !(old(self)@.auto_demand && due_at <= now) ==> final(self)@ == old(self)@,
    {
        if !self.auto_demand {
            return due_at;
        }
        let (wishes, next_due) = wish_turn(due_at, now);
        if wishes {
            self.desire();
        }
        next_due
    }

    /// Makes the agent want the product that was picked, if one was.
    fn add_wish(&mut self, pick: Option<u64>)
        ensures
            final(self)@ == (AgentView { demand: with_wish(old(self)@.demand, pick), ..old(self)@ }),
    {
        match pick {
            Some(product_id) => {
                self.demand.insert(product_id);
            },
            None => {},
        }
    }
}

/// The shortest wait between two turns of wishing, in milliseconds.
pub const WISH_WAIT_MIN: u64 = 100;

/// The upper end, exclusive, of the waits between two turns of wishing, in
/// milliseconds.
pub const WISH_WAIT_MAX: u64 = 500;

/// Whether an agent whose turn of wishing is due at `due_at` has its turn
/// at the time `now`, and when its next turn is due: a turn that is due is
/// taken, and the next is due `wait` later; a turn that is not due stays due
/// when it was.
pub open spec fn spec_wish_schedule(due_at: u64, now: u64, wait: u64) -> (bool, u64) {
    if due_at <= now {
        (true, sat_add(now as int, wait as int) as u64)
    } else {
        (false, due_at)
    }
}

/// Computes the [`spec_wish_schedule`].
pub fn wish_schedule(due_at: u64, now: u64, wait: u64) -> (r: (bool, u64))
    ensures
        r == spec_wish_schedule(due_at, now, wait),
{
    if due_at <= now {
        (true, now.saturating_add(wait))
    } else {
        (false, due_at)
    }
}

/// Decides whether a turn of wishing is taken at the time `now`, with a wait
/// drawn from `WISH_WAIT_MIN` up to `WISH_WAIT_MAX`.
pub fn wish_turn(due_at: u64, now: u64) -> (r: (bool, u64))
    ensures
        exists|wait: u64|
            WISH_WAIT_MIN <= wait < WISH_WAIT_MAX && r == #[trigger] spec_wish_schedule(
                due_at,
                now,
                wait,
            ),
{
    let wait = random_in_range(WISH_WAIT_MIN, WISH_WAIT_MAX);
    wish_schedule(due_at, now, wait)
}

/// Whether `after` is the agent `before` after one turn of wishing: for each
/// kind of product one product may have been picked, as [`wish_outcome`]
/// tells, and the agent wants what it wanted and what was picked.
pub open spec fn wished(before: AgentView, after: AgentView) -> bool {
    exists|food: Option<u64>, clothing: Option<u64>, water: Option<u64>, fun: Option<u64>|
        {
            &&& wish_outcome(before.preferences, ProductCategory::Food, before.demand, food)
            &&& wish_outcome(before.preferences, ProductCategory::Clothing, before.demand, clothing)
            &&& wish_outcome(before.preferences, ProductCategory::Water, before.demand, water)
            &&& wish_outcome(before.preferences, ProductCategory::Entertainment, before.demand, fun)
            &&& after == #[trigger] after_wishes(before, food, clothing, water, fun)
        }
}

/// Whether `pick` can be what [`insert_demand`] picks. A product that is
/// picked was not wanted, the agent has a belief of the kind about it, and
/// its elasticity lies below some draw. Nothing is picked only where every
/// product of the kind that is not wanted has an elasticity that some draw
/// does not exceed.
pub open spec fn wish_outcome(
    entries: Seq<PreferenceEntry>,
    category: ProductCategory,
    demand: Set<u64>,
    pick: Option<u64>,
) -> bool {
    match pick {
        Some(product_id) => {
            &&& !demand.contains(product_id)
            &&& lookup(entries, category, product_id) is Some
            &&& lookup(entries, category, product_id)->0.original_elastic + 1 < DESIRE_DRAW_MAX
        },
        None => forall|i: int|
            0 <= i < entries.len() && (#[trigger] entries[i]).category == category
                && !demand.contains(entries[i].product_id) ==> lookup(
                entries,
                category,
                entries[i].product_id,
            )->0.original_elastic >= DESIRE_DRAW_MIN,
    }
}

/// The wishes with the product that was picked, if one was.
pub open spec fn with_wish(demand: Set<u64>, pick: Option<u64>) -> Set<u64> {
    match pick {
        Some(product_id) => demand.insert(product_id),
        None => demand,
    }
}

/// The agent after a turn of wishing in which the given products were
/// picked.
pub open spec fn after_wishes(
    agent: AgentView,
    food: Option<u64>,
    clothing: Option<u64>,
    water: Option<u64>,
    fun: Option<u64>,
) -> AgentView {
    AgentView {
        demand: with_wish(with_wish(with_wish(with_wish(agent.demand, food), clothing), water), fun),
        ..agent
    }
}

/// Whether the agent has a belief of the kind `category` about the product.
pub open spec fn of_kind(entries: Seq<PreferenceEntry>, category: ProductCategory, product_id: u64) -> bool {
    exists|i: int| 0 <= i < entries.len() && entry_is_for(#[trigger] entries[i], category, product_id)
}

/// Whether the product at the place `k` of `order` can be picked: it is not
/// wanted, the agent has a belief of the kind about it, and the draw at the
/// place exceeds its elasticity.
pub open spec fn wish_at(
    entries: Seq<PreferenceEntry>,
    category: ProductCategory,
    demand: Set<u64>,
    order: Seq<u64>,
    draws: Seq<u64>,
    k: int,
) -> bool {
    &&& 0 <= k < order.len()
    &&& k < draws.len()
    &&& !demand.contains(order[k])
    &&& lookup(entries, category, order[k]) is Some
    &&& draws[k] > lookup(entries, category, order[k])->0.original_elastic
}

/// Whether the place `k` is the first whose product can be picked.
pub open spec fn first_wish_at(
    entries: Seq<PreferenceEntry>,
    category: ProductCategory,
    demand: Set<u64>,
    order: Seq<u64>,
    draws: Seq<u64>,
    k: int,
) -> bool {
    &&& wish_at(entries, category, demand, order, draws, k)
    &&& forall|j: int| 0 <= j < k ==> !wish_at(entries, category, demand, order, draws, j)
}

/// The product that is picked when the products are gone through in the
/// order `order`, each with the draw at its place: the first that can be
/// picked, if any can.
pub open spec fn picked_wish(
    entries: Seq<PreferenceEntry>,
    category: ProductCategory,
    demand: Set<u64>,
    order: Seq<u64>,
    draws: Seq<u64>,
) -> Option<u64> {
    if exists|k: int| first_wish_at(entries, category, demand, order, draws, k) {
        Some(order[choose|k: int| first_wish_at(entries, category, demand, order, draws, k)])
    } else {
        None
    }
}

/// Only one place can be the first whose product can be picked.
pub proof fn lemma_first_wish_unique(
    entries: Seq<PreferenceEntry>,
    category: ProductCategory,
    demand: Set<u64>,
    order: Seq<u64>,
    draws: Seq<u64>,
    k: int,
)
    requires
        first_wish_at(entries, category, demand, order, draws, k),
    ensures
        picked_wish(entries, category, demand, order, draws) == Some(order[k]),
{
    let c = choose|c: int| first_wish_at(entries, category, demand, order, draws, c);
    if c < k {
        assert(!wish_at(entries, category, demand, order, draws, c));
    } else if k < c {
        assert(!wish_at(entries, category, demand, order, draws, k));
    }
}

/// Goes through the products in the order `order`, each with the draw at its
/// place, and picks the first that is not wanted, that the agent has a
/// belief of the kind about, and whose elasticity lies below its draw.
pub fn pick_wish(
    preferences: &Vec<PreferenceEntry>,
    category: ProductCategory,
    demand: &HashSet<u64>,
    order: &Vec<u64>,
    draws: &Vec<u64>,
) -> (r: Option<u64>)
    ensures
        r == picked_wish(preferences@, category, demand@, order@, draws@),
{
    let mut k: usize = 0;
    while k < order.len() && k < draws.len()
        invariant
            k <= order.len(),
            k <= draws.len(),
            forall|j: int|
                0 <= j < k ==> !wish_at(preferences@, category, demand@, order@, draws@, j),
        decreases order.len() - k,
    {
        let product_id = order[k];
        if !demand.contains(&product_id) {
            match find_entry(preferences, category, product_id) {
                Some(at) => {
                    if draws[k] > preferences[at].preference.original_elastic {
                        proof {
                            assert(first_wish_at(
                                preferences@,
                                category,
                                demand@,
                                order@,
                                draws@,
                                k as int,
                            ));
                            lemma_first_wish_unique(
                                preferences@,
                                category,
                                demand@,
                                order@,
                                draws@,
                                k as int,
                            );
                        }
                        return Some(product_id);
                    }
                },
                None => {},
            }
        }
        k = k + 1;
    }
    proof {
        if exists|c: int| first_wish_at(preferences@, category, demand@, order@, draws@, c) {
            let c = choose|c: int|
                first_wish_at(preferences@, category, demand@, order@, draws@, c);
            assert(wish_at(preferences@, category, demand@, order@, draws@, c));
            assert(c < k);
        }
    }
    None
}

/// Whether `order` and `draws` are an order and draws that
/// [`insert_demand`] may go by: the order holds the products that the agent
/// has a belief of the kind about, and no others, and there is a draw from
/// `DESIRE_DRAW_MIN` up to `DESIRE_DRAW_MAX` for each place.
pub open spec fn wish_draws(
    entries: Seq<PreferenceEntry>,
    category: ProductCategory,
    order: Seq<u64>,
    draws: Seq<u64>,
) -> bool {
    &&& draws.len() == order.len()
    &&& forall|k: int| 0 <= k < draws.len() ==> DESIRE_DRAW_MIN <= #[trigger] draws[k] < DESIRE_DRAW_MAX
    &&& forall|k: int| 0 <= k < order.len() ==> of_kind(entries, category, #[trigger] order[k])
    &&& forall|i: int|
        0 <= i < entries.len() && (#[trigger] entries[i]).category == category ==> order.contains(
            entries[i].product_id,
        )
}

/// What is picked by some order and some draws is a [`wish_outcome`].
pub proof fn lemma_picked_wish_is_outcome(
    entries: Seq<PreferenceEntry>,
    category: ProductCategory,
    demand: Set<u64>,
    order: Seq<u64>,
    draws: Seq<u64>,
)
    requires
        wish_draws(entries, category, order, draws),
    ensures
        wish_outcome(
            entries,
            category,
            demand,
            picked_wish(entries, category, demand, order, draws),
        ),
{
    if exists|k: int| first_wish_at(entries, category, demand, order, draws, k) {
        let k = choose|k: int| first_wish_at(entries, category, demand, order, draws, k);
        assert(wish_at(entries, category, demand, order, draws, k));
        assert(draws[k] < DESIRE_DRAW_MAX);
    } else {
        assert forall|i: int|
            0 <= i < entries.len() && (#[trigger] entries[i]).category == category
                && !demand.contains(entries[i].product_id) implies lookup(
            entries,
            category,
            entries[i].product_id,
        )->0.original_elastic >= DESIRE_DRAW_MIN by {
            let id = entries[i].product_id;
            crate::model::agent::preference::lemma_has_first_entry(entries, category, id, i);
            assert(order.contains(id));
            let m = choose|m: int| 0 <= m < order.len() && order[m] == id;
            assert(draws[m] >= DESIRE_DRAW_MIN);
            if wish_at(entries, category, demand, order, draws, m) {
                lemma_some_wish_has_first(entries, category, demand, order, draws, m);
            }
        }
    }
}

/// Where some place holds a product that can be picked, one place is the
/// first to do so.
proof fn lemma_some_wish_has_first(
    entries: Seq<PreferenceEntry>,
    category: ProductCategory,
    demand: Set<u64>,
    order: Seq<u64>,
    draws: Seq<u64>,
    m: int,
)
    requires
        wish_at(entries, category, demand, order, draws, m),
    ensures
        exists|k: int| first_wish_at(entries, category, demand, order, draws, k),
    decreases m,
{
    if exists|j: int| 0 <= j < m && wish_at(entries, category, demand, order, draws, j) {
        let j = choose|j: int| 0 <= j < m && wish_at(entries, category, demand, order, draws, j);
        lemma_some_wish_has_first(entries, category, demand, order, draws, j);
    } else {
        assert(first_wish_at(entries, category, demand, order, draws, m));
    }
}

/// Picks a product of the kind `category` that the agent may start to want:
/// the products that the agent has a belief of that kind about are put in a
/// random order, a draw from one hundredth to ninety-nine hundredths is made
/// for each, and [`pick_wish`] picks by that order and those draws.
pub fn insert_demand(
    preferences: &Vec<PreferenceEntry>,
    category: ProductCategory,
    demand: &HashSet<u64>,
) -> (r: Option<u64>)
    ensures
        exists|order: Seq<u64>, draws: Seq<u64>|
            wish_draws(preferences@, category, order, draws) && r == #[trigger] picked_wish(
                preferences@,
                category,
                demand@,
                order,
                draws,
            ),
        wish_outcome(preferences@, category, demand@, r),
{
    let mut product_ids: Vec<u64> = Vec::new();
    let mut i: usize = 0;
    while i < preferences.len()
        invariant
            i <= preferences.len(),
            forall|j: int|
                0 <= j < i && (#[trigger] preferences@[j]).category == category
                    ==> product_ids@.contains(preferences@[j].product_id),
            forall|m: int|
                0 <= m < product_ids.len() ==> of_kind(
                    preferences@,
                    category,
                    #[trigger] product_ids@[m],
                ),
        decreases preferences.len() - i,
    {
        let ghost before = product_ids@;
        if preferences[i].category == category {
            product_ids.push(preferences[i].product_id);
            proof {
                assert(product_ids@[before.len() as int] == preferences@[i as int].product_id);
                assert(entry_is_for(
                    preferences@[i as int],
                    category,
                    preferences@[i as int].product_id,
                ));
                assert forall|j: int|
                    0 <= j < i + 1 && (#[trigger] preferences@[j]).category
                        == category implies product_ids@.contains(preferences@[j].product_id) by {
                    if j < i {
                        let at = choose|at: int|
                            0 <= at < before.len() && before[at] == preferences@[j].product_id;
                        assert(product_ids@[at] == preferences@[j].product_id);
                    }
                }
                assert forall|m: int| 0 <= m < product_ids.len() implies of_kind(
                    preferences@,
                    category,
                    #[trigger] product_ids@[m],
                ) by {
                    if m < before.len() {
                        assert(product_ids@[m] == before[m]);
                    }
                }
            }
        }
        i = i + 1;
    }
    let ghost gathered = product_ids@;
    shuffle(&mut product_ids);
    proof {
        gathered.to_multiset_ensures();
        product_ids@.to_multiset_ensures();
        assert forall|j: int|
            0 <= j < preferences.len() && (#[trigger] preferences@[j]).category
                == category implies product_ids@.contains(preferences@[j].product_id) by {
            assert(gathered.contains(preferences@[j].product_id));
            assert(gathered.to_multiset().count(preferences@[j].product_id) > 0);
        }
        assert forall|m: int| 0 <= m < product_ids.len() implies of_kind(
            preferences@,
            category,
            #[trigger] product_ids@[m],
        ) by {
            assert(product_ids@.contains(product_ids@[m]));
            assert(product_ids@.to_multiset().count(product_ids@[m]) > 0);
            assert(gathered.contains(product_ids@[m]));
            let at = choose|at: int| 0 <= at < gathered.len() && gathered[at] == product_ids@[m];
            assert(of_kind(preferences@, category, gathered[at]));
        }
    }
    let mut draws: Vec<u64> = Vec::new();
    let mut k: usize = 0;
    while k < product_ids.len()
        invariant
            k <= product_ids.len(),
            draws.len() == k,
            forall|m: int|
                0 <= m < draws.len() ==> DESIRE_DRAW_MIN <= #[trigger] draws@[m] < DESIRE_DRAW_MAX,
        decreases product_ids.len() - k,
    {
        let draw = random_in_range(DESIRE_DRAW_MIN, DESIRE_DRAW_MAX);
        let ghost before = draws@;
        draws.push(draw);
        proof {
            assert forall|m: int| 0 <= m < draws.len() implies DESIRE_DRAW_MIN
                <= #[trigger] draws@[m] < DESIRE_DRAW_MAX by {
                if m < before.len() {
                    assert(draws@[m] == before[m]);
                }
            }
        }
        k = k + 1;
    }
    proof {
        assert(wish_draws(preferences@, category, product_ids@, draws@));
        lemma_picked_wish_is_outcome(preferences@, category, demand@, product_ids@, draws@);
    }
    pick_wish(preferences, category, demand, &product_ids, &draws)
}

} // verus!
