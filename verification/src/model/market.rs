//! The market: who offers to whom, what each side learns from a round, and
//! when the run ends.
use crate::fixed::{round_cent, sat_add, Money, Ratio, RATIO_ONE};
use crate::logging::{LogRecordView, Logger, LoggerView};
use crate::logging::agent_cash_log::AgentCashLogView;
use crate::logging::factory_end_of_round_log::FactoryEndOfRoundLogView;
use crate::logging::trade_log::{price_of, relation_name, relation_text, result_name};
use crate::logging::trade_log::TradeLogView;
use crate::model::factory::accountant::bill_or_default;
use crate::model::agent::preference::{each_product_once, lookup};
use crate::model::agent::{after_income, after_settling, all_ranges_proper, beliefs_cover};
use crate::model::agent::logger_after_settling;
use crate::model::agent::{spec_negotiate, Agent, AgentView, IntervalRelation, TradeResult};
use crate::model::factory::{asked_from, logger_after_deal, Factory, FactoryStatus, FactoryView};
use crate::model::product::{category_name, Product, ProductCategory};
use crate::random::{random_in_range, shuffle};
use crate::text::{concat, decimal_digits, with_number};
use std::collections::HashMap;
use vstd::prelude::*;

verus! {

broadcast use vstd::std_specs::hash::group_hash_axioms;

/// The number of factories that an agent asks for a price in one round, at
/// most.
pub const MAX_OFFERS: usize = 3;

/// Whether the factory makes offers in `round`: it takes part in the market
/// and has units left.
pub open spec fn can_offer(factory: FactoryView, round: u64) -> bool {
    factory.status == FactoryStatus::Active && factory.stock(round) > 0
}

/// The number of factories that make offers in `round`.
pub open spec fn offering_count(factories: Seq<FactoryView>, round: u64) -> nat
    decreases factories.len(),
{
    if factories.len() == 0 {
        0
    } else {
        offering_count(factories.drop_last(), round) + if can_offer(factories.last(), round) {
            1nat
        } else {
            0nat
        }
    }
}

/// Whether `price` can be an asking price of the factory: a point drawn
/// from its range of asking prices, rounded to the cent.
pub open spec fn is_offer_of(price: Money, factory: FactoryView) -> bool {
    exists|draw: u64|
        #![trigger round_cent(draw as int)]
        asked_from(draw, factory.supply_price_range) && price == round_cent(draw as int)
}

/// Whether the offers are in ascending order of price.
pub open spec fn cheapest_first(offers: Seq<(Money, usize)>) -> bool {
    forall|a: int, b: int|
        0 <= a < b < offers.len() ==> (#[trigger] offers[a]).0 <= (#[trigger] offers[b]).0
}

/// Whether each offer names, by its place among `factories`, a factory that
/// makes offers in `round` and could ask the price, no factory is named
/// twice, and the cheapest offer stands first.
pub open spec fn offers_are_sound(
    offers: Seq<(Money, usize)>,
    factories: Seq<FactoryView>,
    round: u64,
) -> bool {
    &&& forall|k: int|
        0 <= k < offers.len() ==> {
            &&& (#[trigger] offers[k]).1 < factories.len()
            &&& can_offer(factories[offers[k].1 as int], round)
            &&& is_offer_of(offers[k].0, factories[offers[k].1 as int])
        }
    &&& forall|a: int, b: int|
        0 <= a < b < offers.len() ==> (#[trigger] offers[a]).1 != (#[trigger] offers[b]).1
    &&& cheapest_first(offers)
}

/// The number of offers that an agent gets in `round`: one from each
/// factory that makes offers, but `MAX_OFFERS` at most.
pub open spec fn offers_count(factories: Seq<FactoryView>, round: u64) -> nat {
    if offering_count(factories, round) <= MAX_OFFERS {
        offering_count(factories, round)
    } else {
        MAX_OFFERS as nat
    }
}

/// Puts `entry` among offers that stand cheapest first, behind every offer
/// that is no dearer. Returns the place where it stands.
fn insert_offer(offers: &mut Vec<(Money, usize)>, entry: (Money, usize)) -> (pos: usize)
    requires
        cheapest_first(old(offers)@),
    ensures
        pos <= old(offers).len(),
        final(offers).len() == old(offers).len() + 1,
        forall|m: int| 0 <= m < pos ==> final(offers)@[m] == old(offers)@[m],
        final(offers)@[pos as int] == entry,
        forall|m: int| pos < m < final(offers).len() ==> final(offers)@[m] == old(offers)@[m - 1],
        cheapest_first(final(offers)@),
{
    let mut pos: usize = 0;
    while pos < offers.len() && offers[pos].0 <= entry.0
        invariant
            pos <= offers.len(),
            *offers == *old(offers),
            forall|m: int| 0 <= m < pos ==> (#[trigger] offers@[m]).0 <= entry.0,
        decreases offers.len() - pos,
    {
        pos = pos + 1;
    }
    offers.insert(pos, entry);
    proof {
        let before = old(offers)@;
        let after = offers@;
        assert(after == before.insert(pos as int, entry));
        assert forall|m: int| 0 <= m < pos implies after[m] == before[m] by {}
        assert forall|m: int| pos < m < after.len() implies after[m] == before[m - 1] by {}
        assert forall|a: int, b: int| 0 <= a < b < after.len() implies (#[trigger] after[a]).0 <= (
        #[trigger] after[b]).0 by {
            if b < pos {
                assert(after[a] == before[a] && after[b] == before[b]);
            } else if b == pos {
                assert(after[a] == before[a]);
            } else if a < pos {
                assert(after[a] == before[a] && after[b] == before[b - 1]);
            } else if a == pos {
                assert(after[b] == before[b - 1]);
                assert(before[pos as int].0 > entry.0);
                if b - 1 > pos {
                    assert(before[pos as int].0 <= before[b - 1].0);
                }
            } else {
                assert(after[a] == before[a - 1] && after[b] == before[b - 1]);
            }
        }
    }
    pos
}

/// The offers that an agent gets in `round`: up to `MAX_OFFERS` of the
/// factories that make offers are picked at random, each is asked for a
/// price, and the offers are put in ascending order of price. Each offer
/// holds the price and the place of the factory among `factories`.
#[verifier::rlimit(40)]
pub fn range_factory_list(factories: &Vec<Factory>, round: u64) -> (offers: Vec<(Money, usize)>)
    ensures
        offers_are_sound(offers@, factory_views(factories@), round),
        offers.len() == offers_count(factory_views(factories@), round),
{
    let ghost views = factory_views(factories@);
    let mut candidates: Vec<usize> = Vec::new();
    let mut i: usize = 0;
    while i < factories.len()
        invariant
            i <= factories.len(),
            views == factory_views(factories@),
            candidates.len() == offering_count(views.take(i as int), round),
            forall|k: int|
                0 <= k < candidates.len() ==> (#[trigger] candidates@[k]) < i && can_offer(
                    views[candidates@[k] as int],
                    round,
                ),
            forall|a: int, b: int|
                0 <= a < b < candidates.len() ==> (#[trigger] candidates@[a]) != (
                #[trigger] candidates@[b]),
        decreases factories.len() - i,
    {
        proof {
            assert(views.take(i + 1).drop_last() =~= views.take(i as int));
            assert(views.take(i + 1).last() == factories@[i as int]@);
        }
        let offering = match factories[i].status() {
            FactoryStatus::Active => factories[i].get_stock(round) > 0,
            FactoryStatus::Inactive => false,
        };
        if offering {
            candidates.push(i);
        }
        i = i + 1;
    }
    proof {
        assert(views.take(factories.len() as int) =~= views);
    }
    let total: usize = candidates.len();
    let n: usize = if total <= MAX_OFFERS { total } else { MAX_OFFERS };
    let mut k: usize = 0;
    while k < n
        invariant
            k <= n <= total,
            candidates.len() == total,
            views == factory_views(factories@),
            forall|m: int|
                0 <= m < candidates.len() ==> (#[trigger] candidates@[m]) < factories.len()
                    && can_offer(views[candidates@[m] as int], round),
            forall|a: int, b: int|
                0 <= a < b < candidates.len() ==> (#[trigger] candidates@[a]) != (
                #[trigger] candidates@[b]),
        decreases n - k,
    {
        let j = random_in_range(k as u64, total as u64) as usize;
        let first = candidates[k];
        let second = candidates[j];
        candidates.set(k, second);
        candidates.set(j, first);
        k = k + 1;
    }
    let mut offers: Vec<(Money, usize)> = Vec::new();
    let mut k: usize = 0;
    while k < n
        invariant
            k <= n <= total,
            candidates.len() == total,
            offers.len() == k,
            views == factory_views(factories@),
            forall|m: int|
                0 <= m < candidates.len() ==> (#[trigger] candidates@[m]) < factories.len()
                    && can_offer(views[candidates@[m] as int], round),
            forall|a: int, b: int|
                0 <= a < b < candidates.len() ==> (#[trigger] candidates@[a]) != (
                #[trigger] candidates@[b]),
            offers_are_sound(offers@, views, round),
            forall|m: int|
                0 <= m < offers.len() ==> exists|c: int|
                    0 <= c < k && (#[trigger] offers@[m]).1 == #[trigger] candidates@[c],
        decreases n - k,
    {
        let at = candidates[k];
        let price = factories[at].offer_price(round);
        let ghost before = offers@;
        let pos = insert_offer(&mut offers, (price, at));
        proof {
            assert(views[at as int] == factories@[at as int]@);
            assert(is_offer_of(price, views[at as int]));
            assert forall|m: int| 0 <= m < offers.len() implies exists|c: int|
                0 <= c < k + 1 && (#[trigger] offers@[m]).1 == #[trigger] candidates@[c] by {
                if m < pos {
                    assert(offers@[m] == before[m]);
                    let c = choose|c: int| 0 <= c < k && before[m].1 == #[trigger] candidates@[c];
                    assert(0 <= c < k + 1 && offers@[m].1 == candidates@[c]);
                } else if m == pos {
                    assert(offers@[m].1 == candidates@[k as int]);
                } else {
                    assert(offers@[m] == before[m - 1]);
                    let c = choose|c: int|
                        0 <= c < k && before[m - 1].1 == #[trigger] candidates@[c];
                    assert(0 <= c < k + 1 && offers@[m].1 == candidates@[c]);
                }
            }
            assert forall|m: int| 0 <= m < offers.len() implies {
                &&& (#[trigger] offers@[m]).1 < views.len()
                &&& can_offer(views[offers@[m].1 as int], round)
                &&& is_offer_of(offers@[m].0, views[offers@[m].1 as int])
            } by {
                if m < pos {
                    assert(offers@[m] == before[m]);
                } else if m > pos {
                    assert(offers@[m] == before[m - 1]);
                }
            }
            assert forall|a: int, b: int| 0 <= a < b < offers.len() implies (#[trigger] offers@[a]).1
                != (#[trigger] offers@[b]).1 by {
                let ca = choose|c: int| 0 <= c < k + 1 && offers@[a].1 == #[trigger] candidates@[c];
                let cb = choose|c: int| 0 <= c < k + 1 && offers@[b].1 == #[trigger] candidates@[c];
                if a != pos && b != pos {
                    let a0 = if a < pos { a } else { a - 1 };
                    let b0 = if b < pos { b } else { b - 1 };
                    assert(offers@[a] == before[a0] && offers@[b] == before[b0]);
                    assert(a0 < b0);
                } else if a == pos {
                    assert(offers@[b] == before[b - 1]);
                    let c = choose|c: int|
                        0 <= c < k && before[b - 1].1 == #[trigger] candidates@[c];
                    assert(candidates@[c] != candidates@[k as int]);
                } else {
                    assert(offers@[a] == before[a]);
                    let c = choose|c: int| 0 <= c < k && before[a].1 == #[trigger] candidates@[c];
                    assert(candidates@[c] != candidates@[k as int]);
                }
            }
        }
        k = k + 1;
    }
    offers
}

/// What each factory holds, place by place.
pub open spec fn factory_views(factories: Seq<Factory>) -> Seq<FactoryView> {
    Seq::new(factories.len(), |i: int| factories[i]@)
}

/// Whether every factory is sound.
pub open spec fn all_factories_sound(factories: Seq<Factory>) -> bool {
    forall|i: int| 0 <= i < factories.len() ==> (#[trigger] factories[i]).wf()
}

/// Whether every offer names a factory by a place that exists.
pub open spec fn offers_in_bounds(offers: Seq<(Money, usize)>, factories: int) -> bool {
    forall|k: int| 0 <= k < offers.len() ==> (#[trigger] offers[k]).1 < factories
}

/// Whether the agent accepts the product at `price`.
pub open spec fn accepts(
    agent: AgentView,
    product_id: u64,
    category: ProductCategory,
    price: Money,
) -> bool {
    spec_negotiate(agent, product_id, category, price).0 is Success
}

/// Whether the offer at `i` is the first that the agent accepts.
pub open spec fn first_success_at(
    agent: AgentView,
    product_id: u64,
    category: ProductCategory,
    offers: Seq<(Money, usize)>,
    i: int,
) -> bool {
    &&& 0 <= i < offers.len()
    &&& accepts(agent, product_id, category, offers[i].0)
    &&& forall|j: int| 0 <= j < i ==> !accepts(agent, product_id, category, (#[trigger] offers[j]).0)
}

/// The place of the first offer that the agent accepts, if it accepts one.
pub open spec fn deal_index_of(
    agent: AgentView,
    product_id: u64,
    category: ProductCategory,
    offers: Seq<(Money, usize)>,
) -> Option<int> {
    if exists|i: int| first_success_at(agent, product_id, category, offers, i) {
        Some(choose|i: int| first_success_at(agent, product_id, category, offers, i))
    } else {
        None
    }
}

/// The number of offers that the agent answers: all up to the first that it
/// accepts, or all where it accepts none.
pub open spec fn attempts_of(
    agent: AgentView,
    product_id: u64,
    category: ProductCategory,
    offers: Seq<(Money, usize)>,
) -> int {
    match deal_index_of(agent, product_id, category, offers) {
        Some(i) => i + 1,
        None => offers.len() as int,
    }
}

/// The agent's answers to the offers that it answers, in order.
pub open spec fn results_of(
    agent: AgentView,
    product_id: u64,
    category: ProductCategory,
    offers: Seq<(Money, usize)>,
) -> Seq<(TradeResult, IntervalRelation)> {
    Seq::new(
        attempts_of(agent, product_id, category, offers) as nat,
        |k: int| spec_negotiate(agent, product_id, category, offers[k].0),
    )
}

/// The prices of the offers that the agent answers, in order.
pub open spec fn prices_of(
    agent: AgentView,
    product_id: u64,
    category: ProductCategory,
    offers: Seq<(Money, usize)>,
) -> Seq<Money> {
    Seq::new(attempts_of(agent, product_id, category, offers) as nat, |k: int| offers[k].0)
}

/// Only one offer can be the first that the agent accepts.
pub proof fn lemma_first_success_unique(
    agent: AgentView,
    product_id: u64,
    category: ProductCategory,
    offers: Seq<(Money, usize)>,
    i: int,
)
    requires
        first_success_at(agent, product_id, category, offers, i),
    ensures
        deal_index_of(agent, product_id, category, offers) == Some(i),
{
    let k = choose|k: int| first_success_at(agent, product_id, category, offers, k);
    if k < i {
        assert(!accepts(agent, product_id, category, offers[k].0));
    } else if i < k {
        assert(!accepts(agent, product_id, category, offers[i].0));
    }
}

/// What came of an agent's going through its offers.
pub struct Negotiation {
    /// The agent's answers, in the order of the offers.
    pub results: Vec<(TradeResult, IntervalRelation)>,
    /// The prices that the agent answered.
    pub offered_prices: Vec<Money>,
    /// The place of the offer that the agent accepted, if it accepted one.
    pub deal_index: Option<usize>,
}

/// A place in a list as a specification value.
pub open spec fn place(index: Option<usize>) -> Option<int> {
    match index {
        Some(i) => Some(i as int),
        None => None,
    }
}

/// Lets the agent answer its offers, cheapest first, until it accepts one.
pub fn negotiate_offers(
    agent: &Agent,
    round: u64,
    product_id: u64,
    product_category: ProductCategory,
    offers: &Vec<(Money, usize)>,
) -> (n: Negotiation)
    ensures
        n.results@ == results_of(agent@, product_id, product_category, offers@),
        n.offered_prices@ == prices_of(agent@, product_id, product_category, offers@),
        place(n.deal_index) == deal_index_of(agent@, product_id, product_category, offers@),
{
    let mut results: Vec<(TradeResult, IntervalRelation)> = Vec::new();
    let mut offered_prices: Vec<Money> = Vec::new();
    let mut i: usize = 0;
    while i < offers.len()
        invariant
            i <= offers.len(),
            results.len() == i,
            offered_prices.len() == i,
            forall|j: int|
                0 <= j < i ==> !accepts(agent@, product_id, product_category, (#[trigger] offers@[j]).0),
            forall|j: int|
                0 <= j < i ==> #[trigger] results@[j] == spec_negotiate(
                    agent@,
                    product_id,
                    product_category,
                    offers@[j].0,
                ),
            forall|j: int| 0 <= j < i ==> #[trigger] offered_prices@[j] == offers@[j].0,
        decreases offers.len() - i,
    {
        let price = offers[i].0;
        let answer = agent.negotiate(round, product_id, product_category, price);
        offered_prices.push(price);
        results.push(answer);
        match answer.0 {
            TradeResult::Success(_) => {
                proof {
                    assert(first_success_at(agent@, product_id, product_category, offers@, i as int));
                    lemma_first_success_unique(
                        agent@,
                        product_id,
                        product_category,
                        offers@,
                        i as int,
                    );
                    assert(results@ =~= results_of(agent@, product_id, product_category, offers@));
                    assert(offered_prices@ =~= prices_of(
                        agent@,
                        product_id,
                        product_category,
                        offers@,
                    ));
                }
                return Negotiation { results, offered_prices, deal_index: Some(i) };
            },
            _ => {},
        }
        i = i + 1;
    }
    proof {
        if exists|k: int| first_success_at(agent@, product_id, product_category, offers@, k) {
            let k = choose|k: int| first_success_at(agent@, product_id, product_category, offers@, k);
            assert(!accepts(agent@, product_id, product_category, offers@[k].0));
        }
        assert(results@ =~= results_of(agent@, product_id, product_category, offers@));
        assert(offered_prices@ =~= prices_of(agent@, product_id, product_category, offers@));
    }
    Negotiation { results, offered_prices, deal_index: None }
}

/// What the factory of the offer at `k` is told. A factory whose offer was
/// answered hears the answer. After a deal, the factories whose offers were
/// not answered any more hear of a failure of an agent that stands below
/// them. A factory whose offer was turned down unmatched hears nothing.
pub open spec fn outcome_for_factory(
    k: int,
    results: Seq<(TradeResult, IntervalRelation)>,
    deal_index: Option<int>,
) -> Option<(TradeResult, Option<IntervalRelation>)> {
    let answered = 0 <= k < results.len();
    let result = if answered { results[k].0 } else { TradeResult::Failed };
    let relation = if answered { Some(results[k].1) } else { None };
    match result {
        TradeResult::NotMatched => None,
        TradeResult::NotYet => None,
        TradeResult::Failed => match deal_index {
            Some(index) => if k <= index {
                Some((result, relation))
            } else {
                Some((result, Some(IntervalRelation::AgentBelowFactory)))
            },
            None => Some((result, relation)),
        },
        TradeResult::Success(_) => Some((result, relation)),
    }
}

/// Computes the [`outcome_for_factory`].
pub fn factory_outcome(
    k: usize,
    results: &Vec<(TradeResult, IntervalRelation)>,
    deal_index: Option<usize>,
) -> (r: Option<(TradeResult, Option<IntervalRelation>)>)
    ensures
        r == outcome_for_factory(k as int, results@, place(deal_index)),
{
    let (result, relation) = if k < results.len() {
        (results[k].0, Some(results[k].1))
    } else {
        (TradeResult::Failed, None)
    };
    match result {
        TradeResult::NotMatched => None,
        TradeResult::NotYet => None,
        TradeResult::Failed => match deal_index {
            Some(index) => {
                if k <= index {
                    Some((result, relation))
                } else {
                    Some((result, Some(IntervalRelation::AgentBelowFactory)))
                }
            },
            None => Some((result, relation)),
        },
        TradeResult::Success(_) => Some((result, relation)),
    }
}

/// The factories and the logger after the factories of the first `upto`
/// offers were told their outcomes, in the order of the offers.
pub open spec fn after_deals(
    factories: Seq<FactoryView>,
    logger: LoggerView,
    offers: Seq<(Money, usize)>,
    results: Seq<(TradeResult, IntervalRelation)>,
    deal_index: Option<int>,
    round: u64,
    upto: int,
) -> (Seq<FactoryView>, LoggerView)
    decreases upto,
{
    if upto <= 0 {
        (factories, logger)
    } else {
        let before = after_deals(factories, logger, offers, results, deal_index, round, upto - 1);
        let at = offers[upto - 1].1 as int;
        match outcome_for_factory(upto - 1, results, deal_index) {
            Some((result, relation)) => if 0 <= at < before.0.len() {
                (
                    before.0.update(at, before.0[at].after_deal(result, round, relation)),
                    logger_after_deal(before.1, before.0[at], result, round, relation),
                )
            } else {
                before
            },
            None => before,
        }
    }
}

/// Tells the factory of each offer its outcome, in the order of the offers.
#[verifier::rlimit(40)]
pub fn deal_with_factories(
    factories: &mut Vec<Factory>,
    offers: &Vec<(Money, usize)>,
    results: &Vec<(TradeResult, IntervalRelation)>,
    deal_index: Option<usize>,
    round: u64,
    logger: &mut Logger,
)
    requires
        all_factories_sound(old(factories)@),
        offers_in_bounds(offers@, old(factories).len() as int),
    ensures
        final(factories).len() == old(factories).len(),
        all_factories_sound(final(factories)@),
        (factory_views(final(factories)@), final(logger)@) == after_deals(
            factory_views(old(factories)@),
            old(logger)@,
            offers@,
            results@,
            place(deal_index),
            round,
            offers.len() as int,
        ),
        forall|i: int|
            0 <= i < old(factories).len() && (#[trigger] old(factories)@[i])@.prices_in_order()
                ==> final(factories)@[i]@.prices_in_order(),
{
    let mut k: usize = 0;
    while k < offers.len()
        invariant
            k <= offers.len(),
            factories.len() == old(factories).len(),
            all_factories_sound(factories@),
            offers_in_bounds(offers@, factories.len() as int),
            (factory_views(factories@), logger@) == after_deals(
                factory_views(old(factories)@),
                old(logger)@,
                offers@,
                results@,
                place(deal_index),
                round,
                k as int,
            ),
            forall|i: int|
                0 <= i < old(factories).len() && (#[trigger] old(factories)@[i])@.prices_in_order()
                    ==> factories@[i]@.prices_in_order(),
        decreases offers.len() - k,
    {
        let at = offers[k].1;
        let ghost views_before = factory_views(factories@);
        let ghost logger_before = logger@;
        let ghost vec_before = factories@;
        match factory_outcome(k, results, deal_index) {
            Some((result, relation)) => {
                factories[at].deal(&result, round, relation, logger);
                proof {
                    assert(factory_views(factories@) =~= views_before.update(
                        at as int,
                        views_before[at as int].after_deal(result, round, relation),
                    ));
                }
            },
            None => {},
        }
        k = k + 1;
    }
}

/// The record of an attempt of the agent to buy `product` from the factory
/// in `round`. The beliefs of an agent that has none about the product
/// count as zero.
pub open spec fn trade_round_record(
    timestamp: i64,
    round: u64,
    factory: FactoryView,
    product: Product,
    agent: AgentView,
    logger: LoggerView,
    result: TradeResult,
    relation: Option<IntervalRelation>,
) -> LogRecordView {
    let belief = lookup(agent.preferences, product.spec_product_category(), product.spec_id());
    LogRecordView::Trade(
        TradeLogView {
            timestamp,
            round,
            trade_id: 0,
            task_id: logger.task_id,
            agent_id: agent.id,
            agent_name: agent.name,
            agent_cash: agent.cash,
            factory_id: factory.id,
            factory_name: factory.name,
            product_id: product.spec_id(),
            product_name: product.spec_name(),
            trade_result: result_name(result),
            interval_relation: relation_name(relation),
            price: price_of(result),
            factory_supply_range_lower: factory.supply_price_range.0,
            factory_supply_range_upper: factory.supply_price_range.1,
            factory_stock: factory.stock(round),
            agent_pref_original_price: if belief is Some { belief->0.original_price } else { 0 },
            agent_pref_original_elastic: if belief is Some { belief->0.original_elastic } else { 0 },
            agent_pref_current_price: if belief is Some { belief->0.current_price } else { 0 },
            agent_pref_current_range_lower: if belief is Some {
                belief->0.current_range.0
            } else {
                0
            },
            agent_pref_current_range_upper: if belief is Some {
                belief->0.current_range.1
            } else {
                0
            },
        },
    )
}

/// Records an attempt of the agent to buy `product` from `factory`, with
/// what the agent believed and held when it answered.
pub fn log_trade_round(
    timestamp: i64,
    round: u64,
    factory: &Factory,
    product: &Product,
    agent: &Agent,
    result: &TradeResult,
    interval_relation: Option<IntervalRelation>,
    price: Money,
    logger: &mut Logger,
)
    ensures
        final(logger)@ == (LoggerView {
            records: old(logger)@.records.push(
                trade_round_record(
                    timestamp,
                    round,
                    factory@,
                    *product,
                    agent@,
                    old(logger)@,
                    *result,
                    interval_relation,
                ),
            ),
            ..old(logger)@
        }),
{
    let belief = agent.find_preference(product.id(), product.product_category());
    let (original_price, original_elastic, current_price, lower, upper) = match belief {
        Some(p) => (
            p.original_price,
            p.original_elastic,
            p.current_price,
            p.current_range.0,
            p.current_range.1,
        ),
        None => (0, 0, 0, 0, 0),
    };
    logger.log_trade(
        timestamp,
        round,
        0,
        agent.id(),
        agent.name().to_owned(),
        agent.cash(),
        original_price,
        original_elastic,
        current_price,
        lower,
        upper,
        factory,
        product,
        result,
        relation_text(interval_relation),
    );
}

/// What the agent settles after it went through its offers: the deal where
/// it made one, and else a failure that comes with the relation of the
/// cheapest offer, or of an agent below the factory where there was no
/// offer.
pub open spec fn settling_input(
    results: Seq<(TradeResult, IntervalRelation)>,
    deal_index: Option<int>,
) -> (TradeResult, IntervalRelation) {
    match deal_index {
        Some(i) => results[i],
        None => (
            TradeResult::Failed,
            if results.len() > 0 {
                results[0].1
            } else {
                IntervalRelation::AgentBelowFactory
            },
        ),
    }
}

/// Computes the [`settling_input`].
pub fn outcome_to_settle(
    results: &Vec<(TradeResult, IntervalRelation)>,
    deal_index: Option<usize>,
) -> (r: (TradeResult, IntervalRelation))
    requires
        deal_index is Some ==> deal_index->0 < results.len(),
    ensures
        r == settling_input(results@, place(deal_index)),
{
    match deal_index {
        Some(i) => results[i],
        None => {
            if results.len() > 0 {
                (TradeResult::Failed, results[0].1)
            } else {
                (TradeResult::Failed, IntervalRelation::AgentBelowFactory)
            }
        },
    }
}

/// The logger after the deal, if there was one, was recorded.
pub open spec fn logger_after_negotiation(
    logger: LoggerView,
    agent: AgentView,
    factories: Seq<FactoryView>,
    product: Product,
    offers: Seq<(Money, usize)>,
    timestamp: i64,
    round: u64,
) -> LoggerView {
    let product_id = product.spec_id();
    let category = product.spec_product_category();
    match deal_index_of(agent, product_id, category, offers) {
        Some(i) => LoggerView {
            records: logger.records.push(
                trade_round_record(
                    timestamp,
                    round,
                    factories[offers[i].1 as int],
                    product,
                    agent,
                    logger,
                    results_of(agent, product_id, category, offers)[i].0,
                    Some(results_of(agent, product_id, category, offers)[i].1),
                ),
            ),
            ..logger
        },
        None => logger,
    }
}

/// The agent, the factories and the logger after the agent went through
/// `offers` for `product` in `round` and both sides learned from it: the
/// agent answers the offers, cheapest first, until it accepts one; a deal is
/// recorded; the agent settles the deal, or the failure with the elasticity
/// draw `draw`; and the factory of each offer is told its outcome.
pub open spec fn after_offers(
    agent: AgentView,
    factories: Seq<FactoryView>,
    logger: LoggerView,
    product: Product,
    offers: Seq<(Money, usize)>,
    draw: Ratio,
    timestamp: i64,
    round: u64,
) -> (AgentView, Seq<FactoryView>, LoggerView) {
    let product_id = product.spec_id();
    let category = product.spec_product_category();
    let deal_index = deal_index_of(agent, product_id, category, offers);
    let results = results_of(agent, product_id, category, offers);
    let prices = prices_of(agent, product_id, category, offers);
    let recorded = logger_after_negotiation(
        logger,
        agent,
        factories,
        product,
        offers,
        timestamp,
        round,
    );
    let input = settling_input(results, deal_index);
    let settled_agent = after_settling(
        agent,
        draw,
        product_id,
        category,
        input.0,
        input.1,
        prices,
    );
    let settled_logger = logger_after_settling(
        recorded,
        agent,
        draw,
        product_id,
        category,
        round,
        input.0,
        input.1,
        prices,
    );
    let dealt = after_deals(
        factories,
        settled_logger,
        offers,
        results,
        deal_index,
        round,
        offers.len() as int,
    );
    (settled_agent, dealt.0, dealt.1)
}

/// Lets the agent go through `offers` for `product`, settles what came of
/// it with the elasticity draw `draw`, and tells the factories, as
/// [`after_offers`] tells. Returns whether a deal was made.
#[verifier::rlimit(40)]
pub fn settle_offers_with_draw(
    draw: Ratio,
    timestamp: i64,
    round: u64,
    product: &Product,
    agent: &mut Agent,
    factories: &mut Vec<Factory>,
    offers: &Vec<(Money, usize)>,
    logger: &mut Logger,
) -> (traded: bool)
    requires
        all_factories_sound(old(factories)@),
        offers_in_bounds(offers@, old(factories).len() as int),
    ensures
        (final(agent)@, factory_views(final(factories)@), final(logger)@) == after_offers(
            old(agent)@,
            factory_views(old(factories)@),
            old(logger)@,
            *product,
            offers@,
            draw,
            timestamp,
            round,
        ),
        traded == (deal_index_of(
            old(agent)@,
            product.spec_id(),
            product.spec_product_category(),
            offers@,
        ) is Some),
        final(factories).len() == old(factories).len(),
        all_factories_sound(final(factories)@),
        all_ranges_proper(old(agent)@.preferences) ==> all_ranges_proper(final(agent)@.preferences),
        forall|i: int|
            0 <= i < old(factories).len() && (#[trigger] old(factories)@[i])@.prices_in_order()
                ==> final(factories)@[i]@.prices_in_order(),
{
    let product_id = product.id();
    let category = product.product_category();
    let n = negotiate_offers(agent, round, product_id, category, offers);
    match n.deal_index {
        Some(i) => {
            proof {
                assert(first_success_at(agent@, product_id, category, offers@, i as int));
            }
            let answer = n.results[i];
            log_trade_round(
                timestamp,
                round,
                &factories[offers[i].1],
                product,
                agent,
                &answer.0,
                Some(answer.1),
                offers[i].0,
                logger,
            );
        },
        None => {},
    }
    let input = outcome_to_settle(&n.results, n.deal_index);
    agent.apply_settling(
        draw,
        product_id,
        category,
        round,
        input.0,
        input.1,
        &n.offered_prices,
        logger,
    );
    deal_with_factories(factories, offers, &n.results, n.deal_index, round, logger);
    n.deal_index.is_some()
}

/// Whether the agent, the factories and the logger are what an agent's turn
/// can leave behind. An agent that does not want the product leaves all as
/// it was. Else the state is the one after some sound set of offers, one
/// from each factory that makes offers but `MAX_OFFERS` at most, for some
/// elasticity draw, and a deal was made where the agent accepted one of
/// them.
#[verifier::opaque]
pub open spec fn turn_outcome(
    agent: AgentView,
    factories: Seq<FactoryView>,
    logger: LoggerView,
    product: Product,
    timestamp: i64,
    round: u64,
    new_agent: AgentView,
    new_factories: Seq<FactoryView>,
    new_logger: LoggerView,
    traded: bool,
) -> bool {
    if !agent.demand.contains(product.spec_id()) {
        &&& new_agent == agent
        &&& new_factories == factories
        &&& new_logger == logger
        &&& !traded
    } else {
        exists|offers: Seq<(Money, usize)>, draw: Ratio|
            {
                &&& offers_are_sound(offers, factories, round)
                &&& offers.len() == offers_count(factories, round)
                &&& draw < RATIO_ONE
                &&& (new_agent, new_factories, new_logger) == #[trigger] after_offers(
                    agent,
                    factories,
                    logger,
                    product,
                    offers,
                    draw,
                    timestamp,
                    round,
                )
                &&& traded == (deal_index_of(
                    agent,
                    product.spec_id(),
                    product.spec_product_category(),
                    offers,
                ) is Some)
            }
    }
}

/// The number of deals among the turns.
pub open spec fn count_deals(deals: Seq<bool>) -> nat
    decreases deals.len(),
{
    if deals.len() == 0 {
        0
    } else {
        count_deals(deals.drop_last()) + if deals.last() {
            1nat
        } else {
            0nat
        }
    }
}

/// There are no more deals than turns.
pub proof fn lemma_count_deals_bounded(deals: Seq<bool>)
    ensures
        count_deals(deals) <= deals.len(),
    decreases deals.len(),
{
    if deals.len() > 0 {
        lemma_count_deals_bounded(deals.drop_last());
    }
}

/// What each agent holds, place by place.
pub open spec fn agent_views(agents: Seq<Agent>) -> Seq<AgentView> {
    Seq::new(agents.len(), |i: int| agents[i]@)
}

/// Whether the agents had their turns one after the other, in their order:
/// `states` holds the factories and the logger before the first turn and
/// after each turn, `deals` whether each turn ended in a deal, and each
/// turn is a [`turn_outcome`] of the agent as it was and of the state that
/// the turn before left behind.
pub open spec fn turns_taken(
    old_agents: Seq<AgentView>,
    new_agents: Seq<AgentView>,
    product: Product,
    timestamp: i64,
    round: u64,
    states: Seq<(Seq<FactoryView>, LoggerView)>,
    deals: Seq<bool>,
) -> bool {
    &&& states.len() == old_agents.len() + 1
    &&& deals.len() == old_agents.len()
    &&& new_agents.len() == old_agents.len()
    &&& forall|i: int|
        0 <= i < old_agents.len() ==> turn_outcome(
            old_agents[i],
            states[i].0,
            states[i].1,
            product,
            timestamp,
            round,
            new_agents[i],
            states[i + 1].0,
            states[i + 1].1,
            #[trigger] deals[i],
        )
}

/// Whether the factories, the agents and the logger are what the trading of
/// `product` in `round` can leave behind: every factory started the round,
/// then the agents had their turns in order, and `trades` counts the turns
/// that ended in a deal.
pub open spec fn product_traded(
    old_factories: Seq<FactoryView>,
    old_agents: Seq<AgentView>,
    old_logger: LoggerView,
    product: Product,
    timestamp: i64,
    round: u64,
    new_factories: Seq<FactoryView>,
    new_agents: Seq<AgentView>,
    new_logger: LoggerView,
    trades: nat,
) -> bool {
    exists|states: Seq<(Seq<FactoryView>, LoggerView)>, deals: Seq<bool>|
        {
            &&& #[trigger] turns_taken(
                old_agents,
                new_agents,
                product,
                timestamp,
                round,
                states,
                deals,
            )
            &&& states[0] == (
                Seq::new(old_factories.len(), |j: int| old_factories[j].after_start_round(round)),
                old_logger,
            )
            &&& states[states.len() - 1] == (new_factories, new_logger)
            &&& trades == count_deals(deals)
        }
}

/// The turn of one agent in the trading of `product` in `round`: an agent
/// that wants the product gets its offers, goes through them, and both
/// sides learn from what came of it. Returns whether a deal was made.
pub fn trade_for_agent(
    timestamp: i64,
    round: u64,
    product: &Product,
    agent: &mut Agent,
    factories: &mut Vec<Factory>,
    logger: &mut Logger,
) -> (traded: bool)
    requires
        all_factories_sound(old(factories)@),
    ensures
        turn_outcome(
            old(agent)@,
            factory_views(old(factories)@),
            old(logger)@,
            *product,
            timestamp,
            round,
            final(agent)@,
            factory_views(final(factories)@),
            final(logger)@,
            traded,
        ),
        final(factories).len() == old(factories).len(),
        all_factories_sound(final(factories)@),
        all_ranges_proper(old(agent)@.preferences) ==> all_ranges_proper(final(agent)@.preferences),
        forall|i: int|
            0 <= i < old(factories).len() && (#[trigger] old(factories)@[i])@.prices_in_order()
                ==> final(factories)@[i]@.prices_in_order(),
{
    proof {
        reveal(turn_outcome);
    }
    if !agent.has_demand(product.id()) {
        assert(factory_views(factories@) =~= factory_views(old(factories)@));
        return false;
    }
    let offers = range_factory_list(factories, round);
    let draw = random_in_range(0, RATIO_ONE);
    settle_offers_with_draw(draw, timestamp, round, product, agent, factories, &offers, logger)
}

/// Whether `new` is the agent `old` at a later time: the same id, name and
/// way of wishing.
pub open spec fn same_agent(old: AgentView, new: AgentView) -> bool {
    &&& new.id == old.id
    &&& new.name == old.name
    &&& new.auto_demand == old.auto_demand
}

/// Whether `new` can be the agent `old` after its turn: the same agent, with
/// no more cash and no more wishes than before.
pub open spec fn agent_after_turn(old: AgentView, new: AgentView) -> bool {
    &&& same_agent(old, new)
    &&& new.cash <= old.cash
    &&& new.demand.subset_of(old.demand)
}

/// Whether `new` is the factory `old` at a later time: all that a round
/// does not touch is the same.
pub open spec fn same_factory(old: FactoryView, new: FactoryView) -> bool {
    &&& new.id == old.id
    &&& new.name == old.name
    &&& new.product_id == old.product_id
    &&& new.product_category == old.product_category
    &&& new.durability == old.durability
    &&& new.product_cost == old.product_cost
    &&& new.risk_appetite == old.risk_appetite
    &&& new.status == old.status
}

/// Whether `new` can be the factory `old` after some attempts at it: the
/// same factory with the same books and the same rounds remembered, and
/// with no less cash.
pub open spec fn dealt_from(old: FactoryView, new: FactoryView) -> bool {
    &&& same_factory(old, new)
    &&& new.accountant == old.accountant
    &&& new.initial_stock == old.initial_stock
    &&& new.amount.order == old.amount.order
    &&& new.amount.capacity == old.amount.capacity
    &&& new.amount.entries.dom() == old.amount.entries.dom()
    &&& new.cash >= old.cash
}

/// Whether `new` is the logger `old` with more records, if any.
pub open spec fn logger_extended(old: LoggerView, new: LoggerView) -> bool {
    &&& new.task_id == old.task_id
    &&& new.timestamp == old.timestamp
    &&& old.records.is_prefix_of(new.records)
}

/// Telling factories their outcomes changes no factory but in its prices,
/// its stock of the round and its cash, which does not shrink, and only
/// adds records.
pub proof fn lemma_after_deals_frame(
    factories: Seq<FactoryView>,
    logger: LoggerView,
    offers: Seq<(Money, usize)>,
    results: Seq<(TradeResult, IntervalRelation)>,
    deal_index: Option<int>,
    round: u64,
    upto: int,
)
    ensures
        after_deals(factories, logger, offers, results, deal_index, round, upto).0.len()
            == factories.len(),
        forall|i: int|
            0 <= i < factories.len() ==> dealt_from(
                #[trigger] factories[i],
                after_deals(factories, logger, offers, results, deal_index, round, upto).0[i],
            ),
        logger_extended(
            logger,
            after_deals(factories, logger, offers, results, deal_index, round, upto).1,
        ),
    decreases upto,
{
    if upto > 0 {
        lemma_after_deals_frame(factories, logger, offers, results, deal_index, round, upto - 1);
        let before = after_deals(factories, logger, offers, results, deal_index, round, upto - 1);
        let after = after_deals(factories, logger, offers, results, deal_index, round, upto);
        let at = offers[upto - 1].1 as int;
        match outcome_for_factory(upto - 1, results, deal_index) {
            Some((result, relation)) => {
                if 0 <= at < before.0.len() {
                    let f = before.0[at];
                    let g = f.after_deal(result, round, relation);
                    assert(dealt_from(f, g)) by {
                        assert(g.amount.entries.dom() =~= f.amount.entries.dom());
                    }
                    assert forall|i: int| 0 <= i < factories.len() implies dealt_from(
                        #[trigger] factories[i],
                        after.0[i],
                    ) by {
                        assert(dealt_from(factories[i], before.0[i]));
                        if i == at {
                            assert(after.0[i] == g);
                        } else {
                            assert(after.0[i] == before.0[i]);
                        }
                    }
                    assert(logger_extended(logger, after.1)) by {
                        assert(before.1.records.is_prefix_of(after.1.records));
                    }
                }
            },
            None => {},
        }
    }
}

/// An agent's turn leaves the agent the same agent with no more cash and no
/// more wishes, changes no factory but in its prices, its stock of the round
/// and its cash, and only adds records.
pub proof fn lemma_after_offers_frame(
    agent: AgentView,
    factories: Seq<FactoryView>,
    logger: LoggerView,
    product: Product,
    offers: Seq<(Money, usize)>,
    draw: Ratio,
    timestamp: i64,
    round: u64,
)
    ensures
        agent_after_turn(
            agent,
            after_offers(agent, factories, logger, product, offers, draw, timestamp, round).0,
        ),
        after_offers(agent, factories, logger, product, offers, draw, timestamp, round).1.len()
            == factories.len(),
        forall|i: int|
            0 <= i < factories.len() ==> dealt_from(
                #[trigger] factories[i],
                after_offers(agent, factories, logger, product, offers, draw, timestamp, round).1[i],
            ),
        logger_extended(
            logger,
            after_offers(agent, factories, logger, product, offers, draw, timestamp, round).2,
        ),
{
    let product_id = product.spec_id();
    let category = product.spec_product_category();
    let deal_index = deal_index_of(agent, product_id, category, offers);
    let results = results_of(agent, product_id, category, offers);
    let prices = prices_of(agent, product_id, category, offers);
    let recorded = logger_after_negotiation(
        logger,
        agent,
        factories,
        product,
        offers,
        timestamp,
        round,
    );
    let input = settling_input(results, deal_index);
    let settled_logger = logger_after_settling(
        recorded,
        agent,
        draw,
        product_id,
        category,
        round,
        input.0,
        input.1,
        prices,
    );
    assert(logger_extended(logger, recorded)) by {
        assert(logger.records.is_prefix_of(recorded.records));
    }
    assert(logger_extended(recorded, settled_logger)) by {
        assert(recorded.records.is_prefix_of(settled_logger.records));
    }
    lemma_after_deals_frame(
        factories,
        settled_logger,
        offers,
        results,
        deal_index,
        round,
        offers.len() as int,
    );
    let dealt = after_deals(
        factories,
        settled_logger,
        offers,
        results,
        deal_index,
        round,
        offers.len() as int,
    );
    assert(logger.records.is_prefix_of(dealt.1.records));
}

/// Whether the product at `i` is the first of the catalogue with the id
/// `product_id`.
pub open spec fn first_product_at(products: Seq<Product>, product_id: u64, i: int) -> bool {
    &&& 0 <= i < products.len()
    &&& products[i].spec_id() == product_id
    &&& forall|j: int| 0 <= j < i ==> (#[trigger] products[j]).spec_id() != product_id
}

/// Whether the catalogue holds a product with the id `product_id`.
pub open spec fn in_catalogue(products: Seq<Product>, product_id: u64) -> bool {
    exists|i: int| 0 <= i < products.len() && (#[trigger] products[i]).spec_id() == product_id
}

/// Finds the first product of the catalogue with the id `product_id`.
pub fn find_product(products: &Vec<Product>, product_id: u64) -> (r: Option<usize>)
    ensures
        match r {
            Some(i) => first_product_at(products@, product_id, i as int),
            None => !in_catalogue(products@, product_id),
        },
{
    let mut i: usize = 0;
    while i < products.len()
        invariant
            i <= products.len(),
            forall|j: int| 0 <= j < i ==> (#[trigger] products@[j]).spec_id() != product_id,
        decreases products.len() - i,
    {
        if products[i].id() == product_id {
            return Some(i);
        }
        i = i + 1;
    }
    None
}

/// Starts `round` at every factory.
pub fn start_round_for_all(factories: &mut Vec<Factory>, round: u64)
    requires
        all_factories_sound(old(factories)@),
        round >= 1,
    ensures
        final(factories).len() == old(factories).len(),
        all_factories_sound(final(factories)@),
        forall|i: int|
            0 <= i < old(factories).len() ==> (#[trigger] final(factories)@[i])@ == old(factories)@[i]@.after_start_round(round),
{
    let mut i: usize = 0;
    while i < factories.len()
        invariant
            i <= factories.len(),
            round >= 1,
            factories.len() == old(factories).len(),
            all_factories_sound(factories@),
            forall|j: int|
                0 <= j < i ==> (#[trigger] factories@[j])@ == old(factories)@[j]@.after_start_round(
                    round,
                ),
            forall|j: int| i <= j < factories.len() ==> #[trigger] factories@[j] == old(factories)@[j],
        decreases factories.len() - i,
    {
        factories[i].start_round(round);
        i = i + 1;
    }
}

/// The trading of one product in `round`: every factory starts the round,
/// and then every agent has its turn, in the order of `agents`. Returns the
/// number of deals. Where the catalogue does not hold the product, nothing
/// happens. Rounds are counted from one.
///
/// What is left behind is told by [`product_traded`], for the first product
/// of the catalogue with the id. It follows, whatever the draws: each agent
/// is the same agent with no more cash and no more wishes than before, and
/// one that did not want the product is as before; each factory is what it
/// was when it had started the round, but for its prices, its stock of the
/// round and its cash, which did not shrink since; beliefs with proper
/// ranges and prices in order stay so; and the logger holds its old records
/// and, behind them, new ones.
#[verifier::rlimit(40)]
pub fn process_product_trades(
    timestamp: i64,
    products: &Vec<Product>,
    factories: &mut Vec<Factory>,
    agents: &mut Vec<Agent>,
    round: u64,
    product_id: u64,
    logger: &mut Logger,
) -> (trades_count: u64)
    requires
        all_factories_sound(old(factories)@),
        round >= 1,
    ensures
        final(factories).len() == old(factories).len(),
        final(agents).len() == old(agents).len(),
        all_factories_sound(final(factories)@),
        trades_count <= old(agents).len(),
        !in_catalogue(products@, product_id) ==> {
            &&& trades_count == 0
            &&& final(logger)@ == old(logger)@
            &&& factory_views(final(factories)@) == factory_views(old(factories)@)
            &&& agent_views(final(agents)@) == agent_views(old(agents)@)
        },
        forall|place: int|
            first_product_at(products@, product_id, place) ==> product_traded(
                factory_views(old(factories)@),
                agent_views(old(agents)@),
                old(logger)@,
                #[trigger] products@[place],
                timestamp,
                round,
                factory_views(final(factories)@),
                agent_views(final(agents)@),
                final(logger)@,
                trades_count as nat,
            ),
        in_catalogue(products@, product_id) ==> forall|i: int|
            0 <= i < old(factories).len() ==> dealt_from(
                (#[trigger] old(factories)@[i])@.after_start_round(round),
                final(factories)@[i]@,
            ),
        forall|i: int|
            0 <= i < old(factories).len() && (#[trigger] old(factories)@[i])@.prices_in_order()
                ==> final(factories)@[i]@.prices_in_order(),
        forall|i: int|
            0 <= i < old(agents).len() ==> agent_after_turn(
                (#[trigger] old(agents)@[i])@,
                final(agents)@[i]@,
            ),
        forall|i: int|
            0 <= i < old(agents).len() && !(#[trigger] old(agents)@[i])@.demand.contains(product_id)
                ==> final(agents)@[i]@ == old(agents)@[i]@,
        forall|i: int|
            0 <= i < old(agents).len() && all_ranges_proper(
                (#[trigger] old(agents)@[i])@.preferences,
            ) ==> all_ranges_proper(final(agents)@[i]@.preferences),
        logger_extended(old(logger)@, final(logger)@),
{
    let found = find_product(products, product_id);
    let at = match found {
        Some(at) => at,
        None => {
            proof {
                assert(old(logger)@.records.is_prefix_of(logger@.records));
                assert(factory_views(factories@) =~= factory_views(old(factories)@));
                assert(agent_views(agents@) =~= agent_views(old(agents)@));
                assert forall|place: int|
                    first_product_at(products@, product_id, place) implies false by {
                    assert(products@[place].spec_id() == product_id);
                }
            }
            return 0;
        },
    };
    let product = &products[at];
    start_round_for_all(factories, round);
    proof {
        assert(old(logger)@.records.is_prefix_of(logger@.records));
    }
    let ghost started = factories@;
    let ghost first_state = (factory_views(started), logger@);
    let ghost mut states: Seq<(Seq<FactoryView>, LoggerView)> = seq![first_state];
    let ghost mut deals: Seq<bool> = Seq::empty();
    let mut trades_count: u64 = 0;
    let mut i: usize = 0;
    while i < agents.len()
        invariant
            i <= agents.len(),
            agents.len() == old(agents).len(),
            factories.len() == started.len(),
            started.len() == old(factories).len(),
            product.spec_id() == product_id,
            all_factories_sound(factories@),
            trades_count == count_deals(deals),
            trades_count <= i,
            states.len() == i + 1,
            deals.len() == i,
            states[0] == first_state,
            first_state == (factory_views(started), old(logger)@),
            states[i as int] == (factory_views(factories@), logger@),
            forall|j: int|
                0 <= j < i ==> turn_outcome(
                    old(agents)@[j]@,
                    states[j].0,
                    states[j].1,
                    *product,
                    timestamp,
                    round,
                    agents@[j]@,
                    states[j + 1].0,
                    states[j + 1].1,
                    #[trigger] deals[j],
                ),
            forall|j: int|
                0 <= j < started.len() ==> (#[trigger] started[j])@ == old(factories)@[j]@.after_start_round(round),
            forall|j: int|
                0 <= j < started.len() ==> dealt_from((#[trigger] started[j])@, factories@[j]@),
            forall|j: int|
                0 <= j < started.len() && (#[trigger] started[j])@.prices_in_order()
                    ==> factories@[j]@.prices_in_order(),
            forall|j: int| i <= j < agents.len() ==> #[trigger] agents@[j] == old(agents)@[j],
            forall|j: int|
                0 <= j < agents.len() ==> agent_after_turn(
                    (#[trigger] old(agents)@[j])@,
                    agents@[j]@,
                ),
            forall|j: int|
                0 <= j < agents.len() && !(#[trigger] old(agents)@[j])@.demand.contains(product_id)
                    ==> agents@[j]@ == old(agents)@[j]@,
            forall|j: int|
                0 <= j < agents.len() && all_ranges_proper(
                    (#[trigger] old(agents)@[j])@.preferences,
                ) ==> all_ranges_proper(agents@[j]@.preferences),
            logger_extended(old(logger)@, logger@),
        decreases agents.len() - i,
    {
        let ghost agent_before = agents@[i as int]@;
        let ghost factories_before = factories@;
        let ghost logger_before = logger@;
        let ghost agents_before = agents@;
        let ghost states_before = states;
        let ghost deals_before = deals;
        let traded = trade_for_agent(timestamp, round, product, &mut agents[i], factories, logger);
        proof {
            assert(agent_before == old(agents)@[i as int]@);
            assert(turn_outcome(
                agent_before,
                factory_views(factories_before),
                logger_before,
                *product,
                timestamp,
                round,
                agents@[i as int]@,
                factory_views(factories@),
                logger@,
                traded,
            ));
            states = states.push((factory_views(factories@), logger@));
            deals = deals.push(traded);
            assert(deals.drop_last() =~= deals_before);
            assert forall|j: int| 0 <= j < i + 1 implies turn_outcome(
                old(agents)@[j]@,
                states[j].0,
                states[j].1,
                *product,
                timestamp,
                round,
                agents@[j]@,
                states[j + 1].0,
                states[j + 1].1,
                #[trigger] deals[j],
            ) by {
                if j < i {
                    assert(deals[j] == deals_before[j]);
                    assert(states[j] == states_before[j]);
                    assert(states[j + 1] == states_before[j + 1]);
                    assert(agents@[j] == agents_before[j]);
                } else {
                    assert(states[j] == states_before[i as int]);
                }
            }
            reveal(turn_outcome);
            if agent_before.demand.contains(product_id) {
                let (offers, draw) = choose|offers: Seq<(Money, usize)>, draw: Ratio|
                    {
                        &&& offers_are_sound(offers, factory_views(factories_before), round)
                        &&& offers.len() == offers_count(factory_views(factories_before), round)
                        &&& draw < RATIO_ONE
                        &&& (agents@[i as int]@, factory_views(factories@), logger@)
                            == #[trigger] after_offers(
                            agent_before,
                            factory_views(factories_before),
                            logger_before,
                            *product,
                            offers,
                            draw,
                            timestamp,
                            round,
                        )
                        &&& traded == (deal_index_of(
                            agent_before,
                            product.spec_id(),
                            product.spec_product_category(),
                            offers,
                        ) is Some)
                    };
                lemma_after_offers_frame(
                    agent_before,
                    factory_views(factories_before),
                    logger_before,
                    *product,
                    offers,
                    draw,
                    timestamp,
                    round,
                );
                assert forall|j: int| 0 <= j < started.len() implies dealt_from(
                    (#[trigger] started[j])@,
                    factories@[j]@,
                ) by {
                    assert(dealt_from(started[j]@, factories_before[j]@));
                    assert(factory_views(factories_before)[j] == factories_before[j]@);
                    assert(factory_views(factories@)[j] == factories@[j]@);
                    assert(dealt_from(factories_before[j]@, factories@[j]@));
                }
                assert(logger_before.records.is_prefix_of(logger@.records));
                assert(old(logger)@.records.is_prefix_of(logger@.records));
            } else {
                assert forall|j: int| 0 <= j < started.len() implies dealt_from(
                    (#[trigger] started[j])@,
                    factories@[j]@,
                ) by {
                    assert(dealt_from(started[j]@, factories_before[j]@));
                    assert(factory_views(factories_before)[j] == factories_before[j]@);
                    assert(factory_views(factories@)[j] == factories@[j]@);
                }
            }
            assert forall|j: int| 0 <= j < started.len() && (#[trigger] started[j])@.prices_in_order()
                implies factories@[j]@.prices_in_order() by {
                assert(factories_before[j]@.prices_in_order());
            }
        }
        if traded {
            trades_count = trades_count + 1;
        }
        i = i + 1;
    }
    proof {
        assert forall|j: int| 0 <= j < old(factories).len() implies dealt_from(
            (#[trigger] old(factories)@[j])@.after_start_round(round),
            factories@[j]@,
        ) by {
            assert(dealt_from(started[j]@, factories@[j]@));
        }
        assert forall|j: int|
            0 <= j < old(factories).len() && (#[trigger] old(factories)@[j])@.prices_in_order()
            implies factories@[j]@.prices_in_order() by {
            crate::model::factory::lemma_rounds_keep_prices(old(factories)@[j]@, round);
            assert(started[j]@.prices_in_order());
        }
        assert forall|place: int|
            first_product_at(products@, product_id, place) implies product_traded(
            factory_views(old(factories)@),
            agent_views(old(agents)@),
            old(logger)@,
            #[trigger] products@[place],
            timestamp,
            round,
            factory_views(factories@),
            agent_views(agents@),
            logger@,
            trades_count as nat,
        ) by {
            if place < at {
                assert(products@[place].spec_id() != product_id);
            }
            if at < place {
                assert(products@[at as int].spec_id() != product_id);
            }
            assert(place == at);
            assert(factory_views(started) =~= Seq::new(
                factory_views(old(factories)@).len(),
                |j: int| factory_views(old(factories)@)[j].after_start_round(round),
            )) by {
                assert forall|j: int| 0 <= j < started.len() implies factory_views(started)[j]
                    == factory_views(old(factories)@)[j].after_start_round(round) by {
                    assert(started[j]@ == old(factories)@[j]@.after_start_round(round));
                }
            }
            assert(turns_taken(
                agent_views(old(agents)@),
                agent_views(agents@),
                *product,
                timestamp,
                round,
                states,
                deals,
            ));
        }
    }
    trades_count
}

/// The round after which a run ends at the latest.
pub const MAX_ROUND: u64 = 8000;

/// The number of rounds without a deal, one after the other, that end a run.
pub const MAX_IDLE_ROUNDS: u32 = 20;

/// The cash below which an agent counts as broke: one cent.
pub const BROKE_BELOW: u64 = 10_000;

/// The number of agents that a market is meant to have.
pub const AGENT_COUNT: usize = 100;

/// The cash that every agent of a new market starts with: ten thousand
/// units.
pub const AGENT_STARTING_CASH: u64 = 10_000_000_000;

/// The lower end of the income that every agent gets after a round: eight
/// hundred units.
pub const UBI_MIN: u64 = 800_000_000;

/// The upper end, exclusive, of that income: twelve hundred units.
pub const UBI_MAX: u64 = 1_200_000_000;

/// The least number of factories that a new market has for a product.
pub const MIN_FACTORIES: usize = 3;

/// The greatest number of factories that a new market has for a product.
pub const MAX_FACTORIES: usize = 4;

/// Why a run ends.
#[derive(Clone, Copy, Debug, PartialEq, Eq, Structural)]
pub enum StopReason {
    /// Every agent is broke.
    AllAgentsBroke,
    /// The last round was played.
    MaxRoundReached,
    /// No deal was made for `MAX_IDLE_ROUNDS` rounds.
    NoTrades,
}

/// Whether every agent has less cash than one cent.
pub open spec fn all_broke(agents: Seq<Agent>) -> bool {
    forall|i: int| 0 <= i < agents.len() ==> (#[trigger] agents[i])@.cash < BROKE_BELOW
}

/// The record of the cash that the agent holds at the end of `round`.
pub open spec fn cash_record(
    agent: AgentView,
    task_id: Seq<char>,
    timestamp: i64,
    round: u64,
    total_trades: u64,
) -> LogRecordView {
    LogRecordView::AgentCash(
        AgentCashLogView {
            timestamp,
            round,
            task_id,
            agent_id: agent.id,
            agent_name: agent.name,
            cash: agent.cash,
            total_trades,
        },
    )
}

/// The record of the state of the factory at the end of `round`, with what
/// its bill of the round holds.
pub open spec fn end_of_round_record(
    factory: FactoryView,
    task_id: Seq<char>,
    timestamp: i64,
    round: u64,
) -> LogRecordView {
    let bill = bill_or_default(factory.accountant, round);
    LogRecordView::FactoryEndOfRound(
        FactoryEndOfRoundLogView {
            timestamp,
            round,
            task_id,
            factory_id: factory.id,
            factory_name: factory.name,
            product_id: factory.product_id,
            product_category: category_name(factory.product_category),
            cash: factory.cash,
            initial_stock: bill.initial_stock,
            remaining_stock: bill.remaining_stock,
            supply_range_lower: factory.supply_price_range.0,
            supply_range_upper: factory.supply_price_range.1,
            units_sold: bill.units_sold,
            revenue: bill.revenue,
            total_stock: bill.total_stock,
            total_production: bill.total_production,
            rot_stock: bill.rot_stock,
            production_cost: bill.production_cost,
            profit: bill.profit,
            status: factory.status,
        },
    )
}

/// Records the cash of every agent at the end of `round`, in the order of
/// `agents`.
pub fn log_agents_cash(
    agents: &Vec<Agent>,
    round: u64,
    timestamp: i64,
    total_trades: u64,
    logger: &mut Logger,
)
    ensures
        final(logger)@ == (LoggerView {
            records: old(logger)@.records + Seq::new(
                agents.len() as nat,
                |i: int| cash_record(agents@[i]@, old(logger)@.task_id, timestamp, round, total_trades),
            ),
            ..old(logger)@
        }),
{
    let mut i: usize = 0;
    assert(logger@.records =~= old(logger)@.records + Seq::new(
        0,
        |i: int| cash_record(agents@[i]@, old(logger)@.task_id, timestamp, round, total_trades),
    ));
    while i < agents.len()
        invariant
            i <= agents.len(),
            logger@ == (LoggerView {
                records: old(logger)@.records + Seq::new(
                    i as nat,
                    |i: int|
                        cash_record(
                            agents@[i]@,
                            old(logger)@.task_id,
                            timestamp,
                            round,
                            total_trades,
                        ),
                ),
                ..old(logger)@
            }),
        decreases agents.len() - i,
    {
        let agent = &agents[i];
        logger.log_agent_cash(
            timestamp,
            round,
            agent.id(),
            agent.name().to_owned(),
            agent.cash(),
            total_trades,
        );
        assert(logger@.records =~= old(logger)@.records + Seq::new(
            (i + 1) as nat,
            |i: int| cash_record(agents@[i]@, old(logger)@.task_id, timestamp, round, total_trades),
        ));
        i = i + 1;
    }
}

/// Records the state of every factory at the end of `round`, in the order
/// of `factories`.
pub fn log_factories_end_of_round(
    factories: &Vec<Factory>,
    round: u64,
    timestamp: i64,
    logger: &mut Logger,
)
    ensures
        final(logger)@ == (LoggerView {
            records: old(logger)@.records + Seq::new(
                factories.len() as nat,
                |i: int| end_of_round_record(factories@[i]@, old(logger)@.task_id, timestamp, round),
            ),
            ..old(logger)@
        }),
{
    let mut i: usize = 0;
    assert(logger@.records =~= old(logger)@.records + Seq::new(
        0,
        |i: int| end_of_round_record(factories@[i]@, old(logger)@.task_id, timestamp, round),
    ));
    while i < factories.len()
        invariant
            i <= factories.len(),
            logger@ == (LoggerView {
                records: old(logger)@.records + Seq::new(
                    i as nat,
                    |i: int|
                        end_of_round_record(factories@[i]@, old(logger)@.task_id, timestamp, round),
                ),
                ..old(logger)@
            }),
        decreases factories.len() - i,
    {
        let factory = &factories[i];
        let bill = factory.get_round_bill(round);
        let (lower, upper) = factory.supply_price_range();
        logger.log_factory_end_of_round(
            timestamp,
            round,
            factory.id(),
            factory.name().to_owned(),
            factory.product_id(),
            factory.product_category().name().to_owned(),
            factory.cash(),
            bill.initial_stock,
            bill.remaining_stock,
            lower,
            upper,
            bill.units_sold,
            bill.revenue,
            bill.total_stock,
            bill.total_production,
            bill.rot_stock,
            bill.production_cost,
            bill.profit,
            factory.status(),
        );
        assert(logger@.records =~= old(logger)@.records + Seq::new(
            (i + 1) as nat,
            |i: int| end_of_round_record(factories@[i]@, old(logger)@.task_id, timestamp, round),
        ));
        i = i + 1;
    }
}

/// Settles `round` at every factory.
pub fn settle_round_for_all(factories: &mut Vec<Factory>, round: u64)
    requires
        all_factories_sound(old(factories)@),
    ensures
        final(factories).len() == old(factories).len(),
        all_factories_sound(final(factories)@),
        forall|i: int|
            0 <= i < old(factories).len() ==> (#[trigger] final(factories)@[i])@ == old(factories)@[i]@.after_settling(round),
{
    let mut i: usize = 0;
    while i < factories.len()
        invariant
            i <= factories.len(),
            factories.len() == old(factories).len(),
            all_factories_sound(factories@),
            forall|j: int|
                0 <= j < i ==> (#[trigger] factories@[j])@ == old(factories)@[j]@.after_settling(
                    round,
                ),
            forall|j: int| i <= j < factories.len() ==> #[trigger] factories@[j] == old(factories)@[j],
        decreases factories.len() - i,
    {
        factories[i].settling_after_round(round);
        i = i + 1;
    }
}

/// Whatever holds of every item of a list holds of every item of a list
/// that holds the same items.
pub proof fn lemma_same_items<T>(a: Seq<T>, b: Seq<T>, holds: spec_fn(T) -> bool)
    requires
        a.to_multiset() == b.to_multiset(),
        forall|i: int| 0 <= i < a.len() ==> holds(#[trigger] a[i]),
    ensures
        forall|i: int| 0 <= i < b.len() ==> holds(#[trigger] b[i]),
        a.len() == b.len(),
{
    a.to_multiset_ensures();
    b.to_multiset_ensures();
    assert forall|i: int| 0 <= i < b.len() implies holds(#[trigger] b[i]) by {
        assert(b.contains(b[i]));
        assert(b.to_multiset().count(b[i]) > 0);
        assert(a.contains(b[i]));
        let j = choose|j: int| 0 <= j < a.len() && a[j] == b[i];
        assert(holds(a[j]));
    }
}

/// Whether the factories of `new` are those of `old` after `round` was
/// settled at each.
pub open spec fn list_settled(old: Seq<Factory>, new: Seq<Factory>, round: u64) -> bool {
    &&& new.len() == old.len()
    &&& forall|j: int| 0 <= j < old.len() ==> (#[trigger] new[j])@ == old[j]@.after_settling(round)
}

/// Whether the first place of the product in the catalogue lies before
/// `upto`.
pub open spec fn first_place_before(products: Seq<Product>, product_id: u64, upto: int) -> bool {
    exists|j: int| 0 <= j < upto && first_product_at(products, product_id, j)
}

/// Whether the list `new` is the list `old` with the round settled at every
/// factory, where `done` holds, and the list `old` itself where not.
pub open spec fn settled_so_far(old: Vec<Factory>, new: Vec<Factory>, done: bool, round: u64) -> bool {
    if done {
        list_settled(old@, new@, round) && all_factories_sound(new@)
    } else {
        new == old
    }
}

/// A product of the catalogue has a first place there.
pub proof fn lemma_catalogue_has_first(products: Seq<Product>, product_id: u64)
    requires
        in_catalogue(products, product_id),
    ensures
        exists|j: int| 0 <= j < products.len() && first_product_at(products, product_id, j),
{
    let i = choose|i: int| 0 <= i < products.len() && (#[trigger] products[i]).spec_id() == product_id;
    lemma_first_place_at_or_before(products, product_id, i);
}

/// A product that stands at `i` has its first place at `i` or before.
proof fn lemma_first_place_at_or_before(products: Seq<Product>, product_id: u64, i: int)
    requires
        0 <= i < products.len(),
        products[i].spec_id() == product_id,
    ensures
        exists|j: int| 0 <= j <= i && first_product_at(products, product_id, j),
    decreases i,
{
    if exists|k: int| 0 <= k < i && (#[trigger] products[k]).spec_id() == product_id {
        let k = choose|k: int| 0 <= k < i && (#[trigger] products[k]).spec_id() == product_id;
        lemma_first_place_at_or_before(products, product_id, k);
        let j = choose|j: int| 0 <= j <= k && first_product_at(products, product_id, j);
        assert(0 <= j <= i && first_product_at(products, product_id, j));
    } else {
        assert(first_product_at(products, product_id, i));
    }
}

/// Why the run ends after `round`, if it does. The reasons are tried in
/// this order: all agents are broke, the round lies beyond `MAX_ROUND`, no
/// deal was made for `MAX_IDLE_ROUNDS` rounds.
pub open spec fn stop_reason_of(agents: Seq<Agent>, round: u64, idle_rounds: u32) -> Option<
    StopReason,
> {
    if all_broke(agents) {
        Some(StopReason::AllAgentsBroke)
    } else if round > MAX_ROUND {
        Some(StopReason::MaxRoundReached)
    } else if idle_rounds >= MAX_IDLE_ROUNDS {
        Some(StopReason::NoTrades)
    } else {
        None
    }
}

/// Whether the factories of `list` were made for `product`, in a new market:
/// there are three or four, each sound, active and without stock, each named
/// after the product and its place in the list, with ids that count up and
/// with asking prices that start at the unit cost or above.
pub open spec fn made_for_product(list: Seq<Factory>, product: Product) -> bool {
    &&& MIN_FACTORIES <= list.len() <= MAX_FACTORIES
    &&& forall|j: int|
        0 <= j < list.len() ==> {
            &&& (#[trigger] list[j]).wf()
            &&& list[j]@.product_id == product.spec_id()
            &&& list[j]@.product_category == product.spec_product_category()
            &&& list[j]@.durability == product.spec_durability()
            &&& list[j]@.status == FactoryStatus::Active
            &&& list[j]@.initial_stock == 0
            &&& list[j]@.name == product.spec_name() + "_"@ + decimal_digits(j as nat)
            &&& list[j]@.id == list[0]@.id + j
            &&& list[j]@.id >= 1
            &&& list[j]@.prices_in_order()
        }
}

/// Whether `agent` is the agent at the place `place` of a new market with
/// the catalogue `products`: it is numbered from one, named after its
/// number, holds the starting cash, wants nothing yet, wishes by itself, and
/// has a first belief about each product.
pub open spec fn made_as_consumer(
    agent: AgentView,
    place: int,
    products: Seq<Product>,
    samples: Seq<(Money, Ratio)>,
) -> bool {
    &&& agent.id == place + 1
    &&& agent.name == "Consumer_"@ + decimal_digits((place + 1) as nat)
    &&& agent.cash == AGENT_STARTING_CASH
    &&& agent.demand == Set::<u64>::empty()
    &&& agent.auto_demand
    &&& beliefs_cover(agent.preferences, products, samples)
    &&& all_ranges_proper(agent.preferences)
    &&& each_product_once(agent.preferences)
}

/// The count of rounds without a deal after a round with `round_trades`
/// deals: one more after a round without a deal, up to the largest count
/// that fits, and zero after any other round.
pub open spec fn idle_rounds_after(idle_rounds: u32, round_trades: u64) -> u32 {
    if round_trades != 0 {
        0
    } else if idle_rounds < u32::MAX {
        (idle_rounds + 1) as u32
    } else {
        idle_rounds
    }
}

/// What came of one round.
pub struct RoundReport {
    /// The number of deals of the round.
    pub round_trades: u64,
    /// The number of deals of this round and of all rounds before.
    pub total_trades: u64,
    /// Why the run ends after this round, if it does.
    pub stop: Option<StopReason>,
}

/// The sum of the counts, each addition stopping at the largest number that
/// fits.
pub open spec fn sum_capped(counts: Seq<u64>) -> int
    decreases counts.len(),
{
    if counts.len() == 0 {
        0
    } else {
        sat_add(sum_capped(counts.drop_last()), counts.last() as int)
    }
}

/// What the trading of a round goes through: the factories by product, the
/// agents, and the logger.
pub struct TradingState {
    /// The factories by product.
    pub factories: Map<u64, Vec<Factory>>,
    /// The agents.
    pub agents: Seq<Agent>,
    /// The logger.
    pub logger: LoggerView,
}

/// Whether `after` is what the trading of the product at the place `place`
/// of the catalogue can make of `before`, with `count` deals. Where there
/// are factories for the product's id, they and the agents trade the first
/// product of the catalogue with that id, as [`product_traded`] tells, and
/// all other factories stay as they are. Where there are none, nothing
/// happens.
#[verifier::opaque]
pub open spec fn product_step(
    products: Seq<Product>,
    place: int,
    before: TradingState,
    after: TradingState,
    count: u64,
    timestamp: i64,
    round: u64,
) -> bool {
    let id = products[place].spec_id();
    if before.factories.contains_key(id) {
        &&& after.factories == before.factories.insert(id, after.factories[id])
        &&& forall|first: int|
            first_product_at(products, id, first) ==> product_traded(
                factory_views(before.factories[id]@),
                agent_views(before.agents),
                before.logger,
                #[trigger] products[first],
                timestamp,
                round,
                factory_views(after.factories[id]@),
                agent_views(after.agents),
                after.logger,
                count as nat,
            )
    } else {
        after == before && count == 0
    }
}

/// Whether `after` is what the trading of a round can make of `before`, with
/// `trades` deals: the products are traded one after the other, in the
/// order of the catalogue, each as [`product_step`] tells.
pub open spec fn products_traded(
    products: Seq<Product>,
    before: TradingState,
    after: TradingState,
    trades: u64,
    timestamp: i64,
    round: u64,
) -> bool {
    exists|states: Seq<TradingState>, counts: Seq<u64>|
        {
            &&& states.len() == products.len() + 1
            &&& counts.len() == products.len()
            &&& states[0] == before
            &&& states[states.len() - 1] == after
            &&& trades == sum_capped(counts)
            &&& #[trigger] steps_taken(products, states, counts, timestamp, round)
        }
}

/// Whether each state comes of the state before it by the trading of the
/// product at its place.
pub open spec fn steps_taken(
    products: Seq<Product>,
    states: Seq<TradingState>,
    counts: Seq<u64>,
    timestamp: i64,
    round: u64,
) -> bool {
    forall|i: int|
        0 <= i < products.len() && i < counts.len() && i + 1 < states.len() ==> product_step(
            products,
            i,
            states[i],
            states[i + 1],
            #[trigger] counts[i],
            timestamp,
            round,
        )
}

/// Whether `new` is the agent `old` after it got its income of a round: an
/// amount from `UBI_MIN` up to `UBI_MAX`.
pub open spec fn got_income(old: AgentView, new: AgentView) -> bool {
    exists|amount: Money| UBI_MIN <= amount < UBI_MAX && new == #[trigger] after_income(old, amount)
}

/// The records of the state of the factories of a list at the end of
/// `round`, in the order of the list.
pub open spec fn list_records(
    list: Seq<Factory>,
    task_id: Seq<char>,
    timestamp: i64,
    round: u64,
) -> Seq<LogRecordView> {
    Seq::new(list.len(), |j: int| end_of_round_record(list[j]@, task_id, timestamp, round))
}

/// The records of the agents' cash at the end of `round`, in the order of
/// the agents.
pub open spec fn cash_records(
    agents: Seq<Agent>,
    task_id: Seq<char>,
    timestamp: i64,
    round: u64,
    total_trades: u64,
) -> Seq<LogRecordView> {
    Seq::new(
        agents.len(),
        |i: int| cash_record(agents[i]@, task_id, timestamp, round, total_trades),
    )
}

/// The records of the state of all factories at the end of `round`, for the
/// first `upto` products of the catalogue: the products are gone through in
/// order, and each product that stands at the first place of its id brings
/// the records of the factories of that id.
pub open spec fn factory_records(
    products: Seq<Product>,
    factories: Map<u64, Vec<Factory>>,
    task_id: Seq<char>,
    timestamp: i64,
    round: u64,
    upto: int,
) -> Seq<LogRecordView>
    decreases upto,
{
    if upto <= 0 {
        Seq::empty()
    } else {
        let id = products[upto - 1].spec_id();
        let before = factory_records(products, factories, task_id, timestamp, round, upto - 1);
        if first_product_at(products, id, upto - 1) && factories.contains_key(id) {
            before + list_records(factories[id]@, task_id, timestamp, round)
        } else {
            before
        }
    }
}

/// The market: the catalogue, the factories of each product, the agents,
/// and the number of rounds that have gone by without a deal.
pub struct Market {
    factories: HashMap<u64, Vec<Factory>>,
    products: Vec<Product>,
    agents: Vec<Agent>,
    consecutive_zero_trades: u32,
}

impl Market {
    /// The factories by product, as a specification value.
    pub closed spec fn spec_factories(&self) -> Map<u64, Vec<Factory>> {
        self.factories@
    }

    /// The catalogue, as a specification value.
    pub closed spec fn spec_products(&self) -> Seq<Product> {
        self.products@
    }

    /// The agents, as a specification value.
    pub closed spec fn spec_agents(&self) -> Seq<Agent> {
        self.agents@
    }

    /// The number of rounds gone by without a deal, as a specification
    /// value.
    pub closed spec fn spec_idle_rounds(&self) -> u32 {
        self.consecutive_zero_trades
    }

    /// The factories, the agents and the logger as the trading of a round
    /// finds them.
    pub open spec fn trading_state(&self, logger: LoggerView) -> TradingState {
        TradingState { factories: self.spec_factories(), agents: self.spec_agents(), logger }
    }

    /// Whether the market is sound: every factory is, and the factories
    /// make products of the catalogue.
    pub open spec fn wf(&self) -> bool {
        forall|k: u64| #[trigger]
            self.spec_factories().contains_key(k) ==> all_factories_sound(
                self.spec_factories()[k]@,
            ) && in_catalogue(self.spec_products(), k)
    }

    /// Whether every belief of every agent has a proper range.
    pub open spec fn beliefs_proper(&self) -> bool {
        forall|i: int|
            0 <= i < self.spec_agents().len() ==> all_ranges_proper(
                (#[trigger] self.spec_agents()[i])@.preferences,
            )
    }

    /// Whether the asking prices of every factory are in order.
    pub open spec fn prices_in_order(&self) -> bool {
        forall|k: u64, j: int|
            #![trigger self.spec_factories()[k]@[j]]
            self.spec_factories().contains_key(k) && 0 <= j < self.spec_factories()[k]@.len()
                ==> self.spec_factories()[k]@[j]@.prices_in_order()
    }

    /// A new market for the catalogue `products`. Each product gets three or
    /// four factories, as chance has it; `factory_samples` holds, at each
    /// product's place, the price, the unit cost and the cash sampled for
    /// each of up to four factories. There is one agent for each row of
    /// `agent_samples`, which holds, at each product's place, the price and
    /// the elasticity sampled for the agent: the caller decides how many
    /// agents there are, and `AGENT_COUNT` is the number that a market is
    /// meant to have. Every factory asks its unit cost or more.
    #[verifier::rlimit(40)]
    pub fn new(
        products: Vec<Product>,
        factory_samples: &Vec<Vec<(Money, Money, Money)>>,
        agent_samples: &Vec<Vec<(Money, Ratio)>>,
    ) -> (market: Self)
        requires
            factory_samples.len() == products.len(),
            forall|i: int|
                0 <= i < factory_samples.len() ==> (#[trigger] factory_samples@[i]).len()
                    >= MAX_FACTORIES,
            forall|a: int|
                0 <= a < agent_samples.len() ==> (#[trigger] agent_samples@[a]).len()
                    == products.len(),
            products.len() < 0x1000_0000_0000_0000,
        ensures
            market.wf(),
            market.beliefs_proper(),
            market.prices_in_order(),
            market.spec_products() == products@,
            market.spec_idle_rounds() == 0,
            market.spec_agents().len() == agent_samples.len(),
            forall|a: int|
                0 <= a < agent_samples.len() ==> made_as_consumer(
                    (#[trigger] market.spec_agents()[a])@,
                    a,
                    products@,
                    agent_samples@[a]@,
                ),
            forall|i: int|
                0 <= i < products.len() ==> market.spec_factories().contains_key(
                    (#[trigger] products@[i]).spec_id(),
                ),
            forall|k: u64| #[trigger]
                market.spec_factories().contains_key(k) ==> exists|i: int|
                    0 <= i < products.len() && (#[trigger] products@[i]).spec_id() == k
                        && made_for_product(market.spec_factories()[k]@, products@[i]),
    {
        let mut factories: HashMap<u64, Vec<Factory>> = HashMap::new();
        let mut factory_id_counter: u64 = 1;
        let mut i: usize = 0;
        while i < products.len()
            invariant
                i <= products.len(),
                products.len() < 0x1000_0000_0000_0000,
                factory_samples.len() == products.len(),
                forall|i: int|
                    0 <= i < factory_samples.len() ==> (#[trigger] factory_samples@[i]).len()
                        >= MAX_FACTORIES,
                1 <= factory_id_counter <= 1 + 4 * i,
                forall|j: int|
                    0 <= j < i ==> factories@.contains_key((#[trigger] products@[j]).spec_id()),
                forall|k: u64| #[trigger]
                    factories@.contains_key(k) ==> exists|j: int|
                        0 <= j < i && (#[trigger] products@[j]).spec_id() == k && made_for_product(
                            factories@[k]@,
                            products@[j],
                        ),
            decreases products.len() - i,
        {
            let product = &products[i];
            let factory_count: usize = random_in_range(MIN_FACTORIES as u64, MAX_FACTORIES as u64 + 1) as usize;
            let mut product_factories: Vec<Factory> = Vec::new();
            let ghost first_id = factory_id_counter;
            let mut j: usize = 0;
            while j < factory_count
                invariant
                    j <= factory_count <= MAX_FACTORIES,
                    i < products.len(),
                    i < factory_samples.len(),
                    factory_samples@[i as int].len() >= MAX_FACTORIES,
                    *product == products@[i as int],
                    product_factories.len() == j,
                    factory_id_counter == first_id + j,
                    1 <= first_id <= 1 + 4 * i,
                    products.len() < 0x1000_0000_0000_0000,
                    forall|m: int|
                        0 <= m < j ==> {
                            &&& (#[trigger] product_factories@[m]).wf()
                            &&& product_factories@[m]@.product_id == product.spec_id()
                            &&& product_factories@[m]@.product_category
                                == product.spec_product_category()
                            &&& product_factories@[m]@.durability == product.spec_durability()
                            &&& product_factories@[m]@.status == FactoryStatus::Active
                            &&& product_factories@[m]@.initial_stock == 0
                            &&& product_factories@[m]@.name == product.spec_name() + "_"@
                                + decimal_digits(m as nat)
                            &&& product_factories@[m]@.id == first_id + m
                            &&& product_factories@[m]@.prices_in_order()
                        },
                decreases factory_count - j,
            {
                let sample = factory_samples[i][j];
                let prefix = concat(product.name(), "_");
                let name = with_number(prefix.as_str(), j as u64);
                let factory = Factory::new(
                    factory_id_counter,
                    name,
                    product,
                    sample.0,
                    sample.1,
                    sample.2,
                );
                product_factories.push(factory);
                factory_id_counter = factory_id_counter + 1;
                j = j + 1;
            }
            let ghost before = factories@;
            let ghost list = product_factories@;
            proof {
                assert(made_for_product(list, *product));
            }
            factories.insert(product.id(), product_factories);
            proof {
                assert forall|k: u64| #[trigger] factories@.contains_key(k) implies exists|j: int|
                    0 <= j < i + 1 && (#[trigger] products@[j]).spec_id() == k && made_for_product(
                        factories@[k]@,
                        products@[j],
                    ) by {
                    if k == product.spec_id() {
                        assert(products@[i as int].spec_id() == k);
                        assert(factories@[k]@ == list);
                    } else {
                        assert(before.contains_key(k));
                        let j = choose|j: int|
                            0 <= j < i && (#[trigger] products@[j]).spec_id() == k
                                && made_for_product(before[k]@, products@[j]);
                        assert(0 <= j < i + 1 && products@[j].spec_id() == k && made_for_product(
                            factories@[k]@,
                            products@[j],
                        ));
                    }
                }
            }
            i = i + 1;
        }
        let mut agents: Vec<Agent> = Vec::new();
        let mut a: usize = 0;
        while a < agent_samples.len()
            invariant
                a <= agent_samples.len(),
                agents.len() == a,
                forall|a: int|
                    0 <= a < agent_samples.len() ==> (#[trigger] agent_samples@[a]).len()
                        == products.len(),
                forall|b: int|
                    0 <= b < a ==> made_as_consumer(
                        (#[trigger] agents@[b])@,
                        b,
                        products@,
                        agent_samples@[b]@,
                    ),
            decreases agent_samples.len() - a,
        {
            let agent_id: u64 = a as u64 + 1;
            let agent = Agent::new(
                agent_id,
                with_number("Consumer_", agent_id),
                AGENT_STARTING_CASH,
                &products,
                &agent_samples[a],
                true,
            );
            agents.push(agent);
            a = a + 1;
        }
        let market = Market { factories, products, agents, consecutive_zero_trades: 0 };
        proof {
            assert forall|k: u64| #[trigger] market.spec_factories().contains_key(
                k,
            ) implies all_factories_sound(market.spec_factories()[k]@) && in_catalogue(
                market.spec_products(),
                k,
            ) by {
                let j = choose|j: int|
                    0 <= j < market.products.len() && (#[trigger] market.products@[j]).spec_id() == k
                        && made_for_product(market.factories@[k]@, market.products@[j]);
                assert(made_for_product(market.factories@[k]@, market.products@[j]));
            }
            assert forall|k: u64, m: int|
                #![trigger market.spec_factories()[k]@[m]]
                market.spec_factories().contains_key(k) && 0 <= m
                    < market.spec_factories()[k]@.len() implies market.spec_factories()[k]@[m]@.prices_in_order() by {
                let j = choose|j: int|
                    0 <= j < market.products.len() && (#[trigger] market.products@[j]).spec_id() == k
                        && made_for_product(market.factories@[k]@, market.products@[j]);
                assert(made_for_product(market.factories@[k]@, market.products@[j]));
            }
        }
        market
    }

    /// The catalogue.
    pub fn products(&self) -> (p: &Vec<Product>)
        ensures
            p@ == self.spec_products(),
    {
        &self.products
    }

    /// The agents.
    pub fn agents(&self) -> (a: &Vec<Agent>)
        ensures
            a@ == self.spec_agents(),
    {
        &self.agents
    }

    /// The factories of the product with the id `product_id`, if the market
    /// has any.
    pub fn factories_of(&self, product_id: u64) -> (r: Option<&Vec<Factory>>)
        ensures
            match r {
                Some(list) => self.spec_factories().contains_key(product_id) && *list
                    == self.spec_factories()[product_id],
                None => !self.spec_factories().contains_key(product_id),
            },
    {
        self.factories.get(&product_id)
    }

    /// The number of rounds that have gone by without a deal.
    pub fn consecutive_zero_trades(&self) -> (n: u32)
        ensures
            n == self.spec_idle_rounds(),
    {
        self.consecutive_zero_trades
    }

    /// Gives every agent its income of the round: an amount drawn from
    /// `UBI_MIN` up to `UBI_MAX`.
    pub fn ubi(&mut self)
        ensures
            final(self).spec_factories() == old(self).spec_factories(),
            final(self).spec_products() == old(self).spec_products(),
            final(self).spec_idle_rounds() == old(self).spec_idle_rounds(),
            final(self).spec_agents().len() == old(self).spec_agents().len(),
            forall|i: int|
                0 <= i < old(self).spec_agents().len() ==> got_income(
                    old(self).spec_agents()[i]@,
                    (#[trigger] final(self).spec_agents()[i])@,
                ),
    {
        let mut i: usize = 0;
        while i < self.agents.len()
            invariant
                i <= self.agents.len(),
                self.factories == old(self).factories,
                self.products == old(self).products,
                self.consecutive_zero_trades == old(self).consecutive_zero_trades,
                self.agents.len() == old(self).agents.len(),
                forall|j: int|
                    0 <= j < i ==> got_income(old(self).agents@[j]@, (#[trigger] self.agents@[j])@),
                forall|j: int|
                    i <= j < self.agents.len() ==> #[trigger] self.agents@[j] == old(self).agents@[j],
            decreases self.agents.len() - i,
        {
            self.agents[i].income((UBI_MIN, UBI_MAX));
            i = i + 1;
        }
    }

    /// Puts the factories of every product, and the agents, in a random
    /// order. Nothing else changes: every list holds the same factories, and
    /// the market the same agents, as before.
    #[verifier::rlimit(40)]
    pub fn shuffle_before_round(&mut self)
        requires
            old(self).wf(),
        ensures
            final(self).wf(),
            final(self).spec_products() == old(self).spec_products(),
            final(self).spec_idle_rounds() == old(self).spec_idle_rounds(),
            final(self).spec_factories().dom() == old(self).spec_factories().dom(),
            forall|k: u64| #[trigger]
                old(self).spec_factories().contains_key(k) ==> final(self).spec_factories()[k]@.to_multiset() == old(self).spec_factories()[k]@.to_multiset(),
            final(self).spec_agents().to_multiset() == old(self).spec_agents().to_multiset(),
            final(self).spec_agents().len() == old(self).spec_agents().len(),
            old(self).beliefs_proper() ==> final(self).beliefs_proper(),
            old(self).prices_in_order() ==> final(self).prices_in_order(),
            shuffled(*old(self), *final(self)),
    {
        let mut i: usize = 0;
        while i < self.products.len()
            invariant
                i <= self.products.len(),
                self.products == old(self).products,
                self.agents == old(self).agents,
                self.consecutive_zero_trades == old(self).consecutive_zero_trades,
                self.factories@.dom() == old(self).factories@.dom(),
                forall|k: u64| #[trigger]
                    old(self).factories@.contains_key(k) ==> self.factories@[k]@.to_multiset()
                        == old(self).factories@[k]@.to_multiset(),
            decreases self.products.len() - i,
        {
            let product_id = self.products[i].id();
            let taken = self.factories.remove(&product_id);
            match taken {
                Some(mut list) => {
                    shuffle(&mut list);
                    self.factories.insert(product_id, list);
                    assert(self.factories@.dom() =~= old(self).factories@.dom());
                },
                None => {
                    assert(self.factories@.dom() =~= old(self).factories@.dom());
                },
            }
            i = i + 1;
        }
        shuffle(&mut self.agents);
        proof {
            assert forall|k: u64| #[trigger] self.spec_factories().contains_key(
                k,
            ) implies all_factories_sound(self.spec_factories()[k]@) && in_catalogue(
                self.spec_products(),
                k,
            ) by {
                assert(old(self).spec_factories().contains_key(k));
                lemma_same_items(
                    old(self).factories@[k]@,
                    self.factories@[k]@,
                    |f: Factory| f.wf(),
                );
            }
            if old(self).prices_in_order() {
                assert forall|k: u64, j: int|
                    #![trigger self.spec_factories()[k]@[j]]
                    self.spec_factories().contains_key(k) && 0 <= j
                        < self.spec_factories()[k]@.len() implies self.spec_factories()[k]@[j]@.prices_in_order() by {
                    assert(old(self).spec_factories().contains_key(k));
                    assert forall|m: int| 0 <= m < old(self).factories@[k]@.len() implies (
                    #[trigger] old(self).factories@[k]@[m])@.prices_in_order() by {
                        assert(old(self).spec_factories()[k]@[m]@.prices_in_order());
                    }
                    lemma_same_items(
                        old(self).factories@[k]@,
                        self.factories@[k]@,
                        |f: Factory| f@.prices_in_order(),
                    );
                }
            }
            if old(self).beliefs_proper() {
                assert forall|m: int| 0 <= m < old(self).agents@.len() implies all_ranges_proper(
                    (#[trigger] old(self).agents@[m])@.preferences,
                ) by {
                    assert(all_ranges_proper(old(self).spec_agents()[m]@.preferences));
                }
                lemma_same_items(
                    old(self).agents@,
                    self.agents@,
                    |a: Agent| all_ranges_proper(a@.preferences),
                );
            }
            lemma_same_items(old(self).agents@, self.agents@, |a: Agent| true);
        }
    }

    /// Records the cash of every agent at the end of `round`, in the order
    /// of the agents.
    pub fn set_agent_log_after_round(
        &self,
        round: u64,
        timestamp: i64,
        total_trades: u64,
        logger: &mut Logger,
    )
        ensures
            final(logger)@ == (LoggerView {
                records: old(logger)@.records + cash_records(
                    self.spec_agents(),
                    old(logger)@.task_id,
                    timestamp,
                    round,
                    total_trades,
                ),
                ..old(logger)@
            }),
    {
        log_agents_cash(&self.agents, round, timestamp, total_trades, logger);
    }

    /// Records the state of every factory at the end of `round`: the
    /// products are gone through in the order of the catalogue, and the
    /// factories of each in their order, as [`factory_records`] tells.
    #[verifier::rlimit(40)]
    pub fn factory_log_after_round(
        &self,
        round: u64,
        timestamp: i64,
        total_trades: u64,
        logger: &mut Logger,
    )
        ensures
            final(logger)@ == (LoggerView {
                records: old(logger)@.records + factory_records(
                    self.spec_products(),
                    self.spec_factories(),
                    old(logger)@.task_id,
                    timestamp,
                    round,
                    self.spec_products().len() as int,
                ),
                ..old(logger)@
            }),
    {
        let mut i: usize = 0;
        assert(logger@.records =~= old(logger)@.records + factory_records(
            self.products@,
            self.factories@,
            old(logger)@.task_id,
            timestamp,
            round,
            0,
        ));
        while i < self.products.len()
            invariant
                i <= self.products.len(),
                logger@ == (LoggerView {
                    records: old(logger)@.records + factory_records(
                        self.products@,
                        self.factories@,
                        old(logger)@.task_id,
                        timestamp,
                        round,
                        i as int,
                    ),
                    ..old(logger)@
                }),
            decreases self.products.len() - i,
        {
            let product_id = self.products[i].id();
            let first = find_product(&self.products, product_id);
            let is_first = match first {
                Some(f) => f == i,
                None => false,
            };
            proof {
                assert(in_catalogue(self.products@, product_id)) by {
                    assert(self.products@[i as int].spec_id() == product_id);
                }
                let f = first->0 as int;
                if f != i && first_product_at(self.products@, product_id, i as int) {
                    if f < i {
                        assert(self.products@[f].spec_id() != product_id);
                    } else {
                        assert(self.products@[i as int].spec_id() != product_id);
                    }
                }
                assert(is_first == first_product_at(self.products@, product_id, i as int));
            }
            let ghost before = logger@;
            if is_first {
                match self.factories.get(&product_id) {
                    Some(list) => {
                        log_factories_end_of_round(list, round, timestamp, logger);
                        assert(logger@.records =~= old(logger)@.records + factory_records(
                            self.products@,
                            self.factories@,
                            old(logger)@.task_id,
                            timestamp,
                            round,
                            i + 1,
                        ));
                    },
                    None => {},
                }
            }
            i = i + 1;
        }
    }

    /// Settles `round` at every factory.
    #[verifier::rlimit(40)]
    pub fn settle_factories(&mut self, round: u64)
        requires
            old(self).wf(),
        ensures
            final(self).wf(),
            final(self).spec_products() == old(self).spec_products(),
            final(self).spec_agents() == old(self).spec_agents(),
            final(self).spec_idle_rounds() == old(self).spec_idle_rounds(),
            final(self).spec_factories().dom() == old(self).spec_factories().dom(),
            forall|k: u64| #[trigger]
                old(self).spec_factories().contains_key(k) ==> list_settled(
                    old(self).spec_factories()[k]@,
                    final(self).spec_factories()[k]@,
                    round,
                ),
            old(self).prices_in_order() ==> final(self).prices_in_order(),
    {
        let mut i: usize = 0;
        while i < self.products.len()
            invariant
                i <= self.products.len(),
                self.products == old(self).products,
                self.agents == old(self).agents,
                self.consecutive_zero_trades == old(self).consecutive_zero_trades,
                self.factories@.dom() == old(self).factories@.dom(),
                old(self).wf(),
                forall|k: u64| #[trigger]
                    old(self).factories@.contains_key(k) ==> settled_so_far(
                        old(self).factories@[k],
                        self.factories@[k],
                        first_place_before(self.products@, k, i as int),
                        round,
                    ),
            decreases self.products.len() - i,
        {
            let product_id = self.products[i].id();
            let first = find_product(&self.products, product_id);
            let is_first = match first {
                Some(f) => f == i,
                None => false,
            };
            let ghost before = self.factories@;
            proof {
                assert(in_catalogue(self.products@, product_id)) by {
                    assert(self.products@[i as int].spec_id() == product_id);
                }
                let f = first->0 as int;
                assert(first_product_at(self.products@, product_id, f));
                if f > i {
                    assert(self.products@[i as int].spec_id() != product_id);
                }
                if f < i {
                    assert(first_place_before(self.products@, product_id, i as int));
                } else {
                    if first_place_before(self.products@, product_id, i as int) {
                        let j = choose|j: int|
                            0 <= j < i && first_product_at(self.products@, product_id, j);
                        assert(self.products@[j].spec_id() != product_id);
                    }
                }
                assert(first_place_before(self.products@, product_id, i + 1));
            }
            if is_first {
                let taken = self.factories.remove(&product_id);
                match taken {
                    Some(mut list) => {
                        assert(old(self).spec_factories().contains_key(product_id));
                        assert(list == before[product_id]);
                        assert(list == old(self).factories@[product_id]);
                        settle_round_for_all(&mut list, round);
                        self.factories.insert(product_id, list);
                        assert(self.factories@.dom() =~= old(self).factories@.dom());
                    },
                    None => {
                        assert(self.factories@.dom() =~= old(self).factories@.dom());
                    },
                }
            }
            proof {
                assert forall|k: u64| #[trigger]
                    old(self).factories@.contains_key(k) implies settled_so_far(
                    old(self).factories@[k],
                    self.factories@[k],
                    first_place_before(self.products@, k, i + 1),
                    round,
                ) by {
                    assert(before.contains_key(k));
                    assert(settled_so_far(
                        old(self).factories@[k],
                        before[k],
                        first_place_before(self.products@, k, i as int),
                        round,
                    ));
                    if k != product_id {
                        assert(self.factories@[k] == before[k]);
                        if first_place_before(self.products@, k, i as int) {
                            let j = choose|j: int|
                                0 <= j < i && first_product_at(self.products@, k, j);
                            assert(0 <= j < i + 1 && first_product_at(self.products@, k, j));
                        }
                        if first_place_before(self.products@, k, i + 1) {
                            let j = choose|j: int|
                                0 <= j < i + 1 && first_product_at(self.products@, k, j);
                            assert(self.products@[j].spec_id() == k);
                            assert(0 <= j < i && first_product_at(self.products@, k, j));
                        }
                    }
                }
            }
            i = i + 1;
        }
        proof {
            assert forall|k: u64| #[trigger]
                old(self).spec_factories().contains_key(k) implies list_settled(
                old(self).spec_factories()[k]@,
                self.spec_factories()[k]@,
                round,
            ) && all_factories_sound(self.spec_factories()[k]@) by {
                assert(old(self).factories@.contains_key(k));
                lemma_catalogue_has_first(self.products@, k);
                let j = choose|j: int|
                    0 <= j < self.products@.len() && first_product_at(self.products@, k, j);
                assert(first_place_before(self.products@, k, self.products@.len() as int));
            }
            if old(self).prices_in_order() {
                assert forall|k: u64, j: int|
                    #![trigger self.spec_factories()[k]@[j]]
                    self.spec_factories().contains_key(k) && 0 <= j
                        < self.spec_factories()[k]@.len() implies self.spec_factories()[k]@[j]@.prices_in_order() by {
                    assert(old(self).spec_factories().contains_key(k));
                    assert(old(self).spec_factories()[k]@[j]@.prices_in_order());
                    crate::model::factory::lemma_rounds_keep_prices(
                        old(self).spec_factories()[k]@[j]@,
                        round,
                    );
                }
            }
        }
    }

    /// Takes the factories of a product out of the market, for as long as
    /// one round of trading takes.
    pub fn take_factories(&mut self, product_id: u64) -> (r: Option<Vec<Factory>>)
        requires
            old(self).wf(),
        ensures
            final(self).wf(),
            final(self).spec_products() == old(self).spec_products(),
            final(self).spec_agents() == old(self).spec_agents(),
            final(self).spec_idle_rounds() == old(self).spec_idle_rounds(),
            final(self).spec_factories() == old(self).spec_factories().remove(product_id),
            match r {
                Some(list) => old(self).spec_factories().contains_key(product_id) && list == old(self).spec_factories()[product_id] && all_factories_sound(list@),
                None => !old(self).spec_factories().contains_key(product_id),
            },
    {
        let taken = self.factories.remove(&product_id);
        proof {
            assert forall|k: u64| #[trigger] self.spec_factories().contains_key(
                k,
            ) implies all_factories_sound(self.spec_factories()[k]@) && in_catalogue(
                self.spec_products(),
                k,
            ) by {
                assert(old(self).spec_factories().contains_key(k));
            }
            if taken is Some {
                assert(old(self).spec_factories().contains_key(product_id));
            }
        }
        taken
    }

    /// Puts the factories of a product of the catalogue into the market, in
    /// place of those that it has for the product, if any.
    pub fn put_factories(&mut self, product_id: u64, list: Vec<Factory>)
        requires
            old(self).wf(),
            all_factories_sound(list@),
            in_catalogue(old(self).spec_products(), product_id),
        ensures
            final(self).wf(),
            final(self).spec_products() == old(self).spec_products(),
            final(self).spec_agents() == old(self).spec_agents(),
            final(self).spec_idle_rounds() == old(self).spec_idle_rounds(),
            final(self).spec_factories() == old(self).spec_factories().insert(product_id, list),
    {
        self.factories.insert(product_id, list);
        proof {
            assert forall|k: u64| #[trigger] self.spec_factories().contains_key(
                k,
            ) implies all_factories_sound(self.spec_factories()[k]@) && in_catalogue(
                self.spec_products(),
                k,
            ) by {
                if k != product_id {
                    assert(old(self).spec_factories().contains_key(k));
                }
            }
        }
    }

    /// Takes the agents out of the market, for as long as one round of
    /// trading takes.
    pub fn take_agents(&mut self) -> (agents: Vec<Agent>)
        ensures
            agents@ == old(self).spec_agents(),
            final(self).spec_agents() == Seq::<Agent>::empty(),
            final(self).spec_products() == old(self).spec_products(),
            final(self).spec_factories() == old(self).spec_factories(),
            final(self).spec_idle_rounds() == old(self).spec_idle_rounds(),
    {
        let mut agents: Vec<Agent> = Vec::new();
        std::mem::swap(&mut agents, &mut self.agents);
        agents
    }

    /// Puts `agents` into the market, in place of those that it holds.
    pub fn put_agents(&mut self, agents: Vec<Agent>)
        ensures
            final(self).spec_agents() == agents@,
            final(self).spec_products() == old(self).spec_products(),
            final(self).spec_factories() == old(self).spec_factories(),
            final(self).spec_idle_rounds() == old(self).spec_idle_rounds(),
    {
        self.agents = agents;
    }

    /// The trading of the product at the place `place` of the catalogue in
    /// `round`, as [`product_step`] tells: where the market has factories
    /// for the product's id, [`process_product_trades`] is run on them and
    /// on all agents. Returns the number of deals.
    #[verifier::rlimit(40)]
    pub fn trade_product_at(
        &mut self,
        place: usize,
        round: u64,
        timestamp: i64,
        logger: &mut Logger,
    ) -> (count: u64)
        requires
            old(self).wf(),
            round >= 1,
            place < old(self).spec_products().len(),
        ensures
            final(self).wf(),
            final(self).spec_products() == old(self).spec_products(),
            final(self).spec_idle_rounds() == old(self).spec_idle_rounds(),
            final(self).spec_factories().dom() == old(self).spec_factories().dom(),
            final(self).spec_agents().len() == old(self).spec_agents().len(),
            forall|i: int|
                0 <= i < old(self).spec_agents().len() ==> agent_after_turn(
                    (#[trigger] old(self).spec_agents()[i])@,
                    final(self).spec_agents()[i]@,
                ),
            forall|k: u64| #[trigger]
                old(self).spec_factories().contains_key(k) ==> final(self).spec_factories()[k]@.len()
                    == old(self).spec_factories()[k]@.len(),
            old(self).beliefs_proper() ==> final(self).beliefs_proper(),
            old(self).prices_in_order() ==> final(self).prices_in_order(),
            logger_extended(old(logger)@, final(logger)@),
            product_step(
                old(self).spec_products(),
                place as int,
                old(self).trading_state(old(logger)@),
                final(self).trading_state(final(logger)@),
                count,
                timestamp,
                round,
            ),
    {
        proof {
            reveal(product_step);
        }
        let product_id = self.products[place].id();
        let taken = self.factories.remove(&product_id);
        match taken {
            Some(mut list) => {
                proof {
                    assert(old(self).spec_factories().contains_key(product_id));
                    assert(list == old(self).factories@[product_id]);
                    if old(self).prices_in_order() {
                        assert forall|m: int| 0 <= m < list@.len() implies (
                        #[trigger] list@[m])@.prices_in_order() by {
                            assert(old(self).spec_factories()[product_id]@[m]@.prices_in_order());
                        }
                    }
                    if old(self).beliefs_proper() {
                        assert forall|j: int| 0 <= j < self.agents@.len() implies all_ranges_proper(
                            (#[trigger] self.agents@[j])@.preferences,
                        ) by {
                            assert(all_ranges_proper(old(self).spec_agents()[j]@.preferences));
                        }
                    }
                }
                let ghost list_before = list@;
                let traded = process_product_trades(
                    timestamp,
                    &self.products,
                    &mut list,
                    &mut self.agents,
                    round,
                    product_id,
                    logger,
                );
                let ghost list_after = list@;
                let ghost list_value = list;
                self.factories.insert(product_id, list);
                proof {
                    assert(self.factories@ =~= old(self).factories@.insert(product_id, list_value));
                    assert(self.factories@[product_id] == list_value);
                    assert(self.factories@.dom() =~= old(self).factories@.dom());
                    assert forall|k: u64| #[trigger] self.spec_factories().contains_key(
                        k,
                    ) implies all_factories_sound(self.spec_factories()[k]@) && in_catalogue(
                        self.spec_products(),
                        k,
                    ) by {
                        assert(old(self).spec_factories().contains_key(k));
                    }
                    assert forall|k: u64| #[trigger]
                        old(self).spec_factories().contains_key(k) implies self.spec_factories()[k]@.len()
                        == old(self).spec_factories()[k]@.len() by {}
                    if old(self).beliefs_proper() {
                        assert forall|j: int|
                            0 <= j < self.spec_agents().len() implies all_ranges_proper(
                            (#[trigger] self.spec_agents()[j])@.preferences,
                        ) by {
                            assert(all_ranges_proper(old(self).agents@[j]@.preferences));
                            assert(all_ranges_proper(self.agents@[j]@.preferences));
                        }
                    }
                    if old(self).prices_in_order() {
                        assert forall|k: u64, j: int|
                            #![trigger self.spec_factories()[k]@[j]]
                            self.spec_factories().contains_key(k) && 0 <= j
                                < self.spec_factories()[k]@.len() implies self.spec_factories()[k]@[j]@.prices_in_order() by {
                            if k == product_id {
                                assert(list_before[j]@.prices_in_order());
                                assert(list_after[j]@.prices_in_order());
                            } else {
                                assert(old(self).spec_factories().contains_key(k));
                                assert(old(self).spec_factories()[k]@[j]@.prices_in_order());
                            }
                        }
                    }
                }
                traded
            },
            None => {
                proof {
                    assert(self.factories@ =~= old(self).factories@);
                    assert(old(logger)@.records.is_prefix_of(logger@.records));
                    assert forall|k: u64| #[trigger] self.spec_factories().contains_key(
                        k,
                    ) implies all_factories_sound(self.spec_factories()[k]@) && in_catalogue(
                        self.spec_products(),
                        k,
                    ) by {
                        assert(old(self).spec_factories().contains_key(k));
                    }
                    if old(self).beliefs_proper() {
                        assert forall|j: int|
                            0 <= j < self.spec_agents().len() implies all_ranges_proper(
                            (#[trigger] self.spec_agents()[j])@.preferences,
                        ) by {
                            assert(all_ranges_proper(old(self).spec_agents()[j]@.preferences));
                        }
                    }
                    if old(self).prices_in_order() {
                        assert forall|k: u64, j: int|
                            #![trigger self.spec_factories()[k]@[j]]
                            self.spec_factories().contains_key(k) && 0 <= j
                                < self.spec_factories()[k]@.len() implies self.spec_factories()[k]@[j]@.prices_in_order() by {
                            assert(old(self).spec_factories()[k]@[j]@.prices_in_order());
                        }
                    }
                }
                0
            },
        }
    }

    /// The trading of `round`: the products are gone through in the order of
    /// the catalogue, each as [`Market::trade_product_at`] tells. Returns
    /// the number of deals, counted up to the largest number that fits.
    /// Rounds are counted from one.
    ///
    /// What is left behind is told by [`products_traded`]. It follows,
    /// whatever the draws: the market stays sound, with the same catalogue,
    /// the same products with factories and as many agents; each agent is
    /// the same agent with no more cash and no more wishes than before;
    /// beliefs with proper ranges and prices in order stay so; and the logger
    /// holds its old records and, behind them, new ones.
    #[verifier::rlimit(40)]
    pub fn trade_all_products(&mut self, round: u64, timestamp: i64, logger: &mut Logger) -> (trades:
        u64)
        requires
            old(self).wf(),
            round >= 1,
        ensures
            final(self).wf(),
            final(self).spec_products() == old(self).spec_products(),
            final(self).spec_idle_rounds() == old(self).spec_idle_rounds(),
            final(self).spec_factories().dom() == old(self).spec_factories().dom(),
            final(self).spec_agents().len() == old(self).spec_agents().len(),
            forall|i: int|
                0 <= i < old(self).spec_agents().len() ==> agent_after_turn(
                    (#[trigger] old(self).spec_agents()[i])@,
                    final(self).spec_agents()[i]@,
                ),
            forall|k: u64| #[trigger]
                old(self).spec_factories().contains_key(k) ==> final(self).spec_factories()[k]@.len()
                    == old(self).spec_factories()[k]@.len(),
            old(self).beliefs_proper() ==> final(self).beliefs_proper(),
            old(self).prices_in_order() ==> final(self).prices_in_order(),
            logger_extended(old(logger)@, final(logger)@),
            products_traded(
                old(self).spec_products(),
                old(self).trading_state(old(logger)@),
                final(self).trading_state(final(logger)@),
                trades,
                timestamp,
                round,
            ),
    {
        let mut trades: u64 = 0;
        let mut i: usize = 0;
        assert(old(logger)@.records.is_prefix_of(logger@.records));
        let ghost mut states: Seq<TradingState> = seq![self.trading_state(logger@)];
        let ghost mut counts: Seq<u64> = Seq::empty();
        while i < self.products.len()
            invariant
                i <= self.products.len(),
                round >= 1,
                self.wf(),
                states.len() == i + 1,
                counts.len() == i,
                states[0] == old(self).trading_state(old(logger)@),
                states[i as int] == self.trading_state(logger@),
                trades == sum_capped(counts),
                forall|j: int|
                    0 <= j < i ==> product_step(
                        self.spec_products(),
                        j,
                        states[j],
                        states[j + 1],
                        #[trigger] counts[j],
                        timestamp,
                        round,
                    ),
                self.spec_products() == old(self).spec_products(),
                self.spec_idle_rounds() == old(self).spec_idle_rounds(),
                self.spec_factories().dom() == old(self).spec_factories().dom(),
                self.spec_agents().len() == old(self).spec_agents().len(),
                forall|j: int|
                    0 <= j < old(self).spec_agents().len() ==> agent_after_turn(
                        (#[trigger] old(self).spec_agents()[j])@,
                        self.spec_agents()[j]@,
                    ),
                forall|k: u64| #[trigger]
                    old(self).spec_factories().contains_key(k) ==> self.spec_factories()[k]@.len()
                        == old(self).spec_factories()[k]@.len(),
                old(self).beliefs_proper() ==> self.beliefs_proper(),
                old(self).prices_in_order() ==> self.prices_in_order(),
                logger_extended(old(logger)@, logger@),
            decreases self.products.len() - i,
        {
            let ghost market_before = *self;
            let ghost logger_before = logger@;
            let ghost states_before = states;
            let ghost counts_before = counts;
            let count = self.trade_product_at(i, round, timestamp, logger);
            trades = trades.saturating_add(count);
            proof {
                states = states.push(self.trading_state(logger@));
                counts = counts.push(count);
                assert(counts.drop_last() =~= counts_before);
                assert forall|j: int| 0 <= j < i + 1 implies product_step(
                    self.spec_products(),
                    j,
                    states[j],
                    states[j + 1],
                    #[trigger] counts[j],
                    timestamp,
                    round,
                ) by {
                    if j < i {
                        assert(counts[j] == counts_before[j]);
                        assert(states[j] == states_before[j]);
                        assert(states[j + 1] == states_before[j + 1]);
                    } else {
                        assert(states[j] == market_before.trading_state(logger_before));
                        assert(states[j + 1] == self.trading_state(logger@));
                    }
                }
                assert forall|j: int| 0 <= j < old(self).spec_agents().len() implies agent_after_turn(
                    (#[trigger] old(self).spec_agents()[j])@,
                    self.spec_agents()[j]@,
                ) by {
                    assert(agent_after_turn(
                        old(self).spec_agents()[j]@,
                        market_before.spec_agents()[j]@,
                    ));
                    assert(agent_after_turn(
                        market_before.spec_agents()[j]@,
                        self.spec_agents()[j]@,
                    ));
                }
                assert forall|k: u64| #[trigger]
                    old(self).spec_factories().contains_key(k) implies self.spec_factories()[k]@.len()
                    == old(self).spec_factories()[k]@.len() by {
                    assert(market_before.spec_factories().contains_key(k));
                }
                assert(logger_before.records.is_prefix_of(logger@.records));
                assert(old(logger)@.records.is_prefix_of(logger@.records));
            }
            i = i + 1;
        }
        proof {
            assert(steps_taken(self.spec_products(), states, counts, timestamp, round));
        }
        trades
    }

    /// The end of `round`, after `round_trades` deals: the count of rounds
    /// without a deal is brought up to date, every factory settles the
    /// round, the cash of every agent and the state of every factory are
    /// recorded, every agent gets its income, and the market tells whether
    /// the run ends. `total_trades` is the number of deals of the rounds
    /// before.
    #[verifier::rlimit(40)]
    pub fn finish_round(
        &mut self,
        round: u64,
        timestamp: i64,
        round_trades: u64,
        total_trades: u64,
        logger: &mut Logger,
    ) -> (report: RoundReport)
        requires
            old(self).wf(),
        ensures
            final(self).wf(),
            final(self).spec_products() == old(self).spec_products(),
            final(self).spec_factories().dom() == old(self).spec_factories().dom(),
            forall|k: u64| #[trigger]
                old(self).spec_factories().contains_key(k) ==> list_settled(
                    old(self).spec_factories()[k]@,
                    final(self).spec_factories()[k]@,
                    round,
                ),
            final(self).spec_agents().len() == old(self).spec_agents().len(),
            forall|i: int|
                0 <= i < old(self).spec_agents().len() ==> got_income(
                    old(self).spec_agents()[i]@,
                    (#[trigger] final(self).spec_agents()[i])@,
                ),
            final(self).spec_idle_rounds() == idle_rounds_after(
                old(self).spec_idle_rounds(),
                round_trades,
            ),
            report.round_trades == round_trades,
            report.total_trades == sat_add(total_trades as int, round_trades as int),
            report.stop == stop_reason_of(
                final(self).spec_agents(),
                round,
                final(self).spec_idle_rounds(),
            ),
            old(self).beliefs_proper() ==> final(self).beliefs_proper(),
            old(self).prices_in_order() ==> final(self).prices_in_order(),
            final(logger)@ == (LoggerView {
                records: old(logger)@.records + cash_records(
                    old(self).spec_agents(),
                    old(logger)@.task_id,
                    timestamp,
                    round,
                    report.total_trades,
                ) + factory_records(
                    final(self).spec_products(),
                    final(self).spec_factories(),
                    old(logger)@.task_id,
                    timestamp,
                    round,
                    final(self).spec_products().len() as int,
                ),
                ..old(logger)@
            }),
            round_finished(
                *old(self),
                old(logger)@,
                round,
                timestamp,
                round_trades,
                total_trades,
                *final(self),
                final(logger)@,
                report,
            ),
    {
        if round_trades == 0 {
            if self.consecutive_zero_trades < u32::MAX {
                self.consecutive_zero_trades = self.consecutive_zero_trades + 1;
            }
        } else {
            self.consecutive_zero_trades = 0;
        }
        proof {
            assert(self.spec_factories() == old(self).spec_factories());
            assert(self.spec_products() == old(self).spec_products());
            assert forall|k: u64| #[trigger] self.spec_factories().contains_key(
                k,
            ) implies all_factories_sound(self.spec_factories()[k]@) && in_catalogue(
                self.spec_products(),
                k,
            ) by {
                assert(old(self).spec_factories().contains_key(k));
            }
            if old(self).prices_in_order() {
                assert forall|k: u64, j: int|
                    #![trigger self.spec_factories()[k]@[j]]
                    self.spec_factories().contains_key(k) && 0 <= j
                        < self.spec_factories()[k]@.len() implies self.spec_factories()[k]@[j]@.prices_in_order() by {
                    assert(old(self).spec_factories()[k]@[j]@.prices_in_order());
                }
            }
        }
        self.settle_factories(round);
        let total = total_trades.saturating_add(round_trades);
        let ghost settled = *self;
        self.set_agent_log_after_round(round, timestamp, total, logger);
        let ghost cash_logged = logger@;
        self.factory_log_after_round(round, timestamp, total, logger);
        self.ubi();
        let stop = self.stop_reason(round, self.consecutive_zero_trades);
        proof {
            assert(settled.spec_agents() == old(self).spec_agents());
            assert(self.spec_factories() == settled.spec_factories());
            assert(self.spec_products() == settled.spec_products());
            assert(cash_logged.records == old(logger)@.records + cash_records(
                old(self).spec_agents(),
                old(logger)@.task_id,
                timestamp,
                round,
                total,
            ));
            if old(self).beliefs_proper() {
                assert forall|i: int| 0 <= i < self.spec_agents().len() implies all_ranges_proper(
                    (#[trigger] self.spec_agents()[i])@.preferences,
                ) by {
                    assert(all_ranges_proper(old(self).spec_agents()[i]@.preferences));
                    assert(got_income(settled.spec_agents()[i]@, self.spec_agents()[i]@));
                }
            }
            if old(self).prices_in_order() {
                assert(settled.prices_in_order());
                assert forall|k: u64, j: int|
                    #![trigger self.spec_factories()[k]@[j]]
                    self.spec_factories().contains_key(k) && 0 <= j
                        < self.spec_factories()[k]@.len() implies self.spec_factories()[k]@[j]@.prices_in_order() by {
                    assert(settled.spec_factories()[k]@[j]@.prices_in_order());
                }
            }
            assert forall|k: u64| #[trigger] self.spec_factories().contains_key(
                k,
            ) implies all_factories_sound(self.spec_factories()[k]@) && in_catalogue(
                self.spec_products(),
                k,
            ) by {
                assert(settled.spec_factories().contains_key(k));
            }
        }
        RoundReport { round_trades, total_trades: total, stop }
    }

    /// One round: the logger's time is set to `timestamp`, factories and
    /// agents are put in a random order, the products are traded, and the
    /// round is finished. `total_trades` is the number of deals of the
    /// rounds before. Rounds are counted from one.
    ///
    /// Whatever the draws: the market stays sound, with the same catalogue,
    /// the same products with factories and as many agents; the count of
    /// rounds without a deal goes up by one after a round without a deal and
    /// back to zero after any other; the report tells the deals of the round,
    /// the deals so far, and whether and why the run ends; beliefs with
    /// proper ranges and prices in order stay so; and the logger holds its
    /// old records and, behind them, new ones.
    #[verifier::rlimit(40)]
    pub fn run_round(&mut self, round: u64, timestamp: i64, total_trades: u64, logger: &mut Logger) -> (report:
        RoundReport)
        requires
            old(self).wf(),
            round >= 1,
        ensures
            final(self).wf(),
            final(self).spec_products() == old(self).spec_products(),
            final(self).spec_factories().dom() == old(self).spec_factories().dom(),
            final(self).spec_agents().len() == old(self).spec_agents().len(),
            final(self).spec_idle_rounds() == idle_rounds_after(
                old(self).spec_idle_rounds(),
                report.round_trades,
            ),
            report.total_trades == sat_add(total_trades as int, report.round_trades as int),
            report.stop == stop_reason_of(
                final(self).spec_agents(),
                round,
                final(self).spec_idle_rounds(),
            ),
            old(self).beliefs_proper() ==> final(self).beliefs_proper(),
            old(self).prices_in_order() ==> final(self).prices_in_order(),
            final(logger)@.task_id == old(logger)@.task_id,
            final(logger)@.timestamp == timestamp,
            old(logger)@.records.is_prefix_of(final(logger)@.records),
            round_played(
                *old(self),
                old(logger)@,
                round,
                timestamp,
                total_trades,
                *final(self),
                final(logger)@,
                report,
            ),
    {
        logger.set_timestamp(timestamp);
        let ghost stamped = logger@;
        self.shuffle_before_round();
        let ghost mixed = *self;
        let round_trades = self.trade_all_products(round, timestamp, logger);
        let ghost traded = *self;
        let ghost traded_logger = logger@;
        let report = self.finish_round(round, timestamp, round_trades, total_trades, logger);
        proof {
            reveal(round_played);
            assert(stamped.records.is_prefix_of(traded_logger.records));
            assert(old(logger)@.records.is_prefix_of(logger@.records));
            assert(stamped == (LoggerView { timestamp, ..old(logger)@ }));
            assert(products_traded(
                mixed.spec_products(),
                mixed.trading_state(LoggerView { timestamp, ..old(logger)@ }),
                traded.trading_state(traded_logger),
                report.round_trades,
                timestamp,
                round,
            ));
        }
        report
    }

    /// The whole run: rounds are played from round one on, each with the
    /// time that the logger holds, until the market tells that the run ends.
    /// Returns the number of the last round, which is `MAX_ROUND + 1` at
    /// most. The rounds only read what the agents want: no agent forms a
    /// wish in here, so whoever wants wishes to come up while the market
    /// runs calls [`Agent::wish_when_due`] between rounds and plays the
    /// rounds by [`Market::run_round`].
    #[verifier::rlimit(40)]
    pub fn run(&mut self, logger: &mut Logger) -> (rounds: u64)
        requires
            old(self).wf(),
        ensures
            final(self).wf(),
            1 <= rounds <= MAX_ROUND + 1,
            stop_reason_of(final(self).spec_agents(), rounds, final(self).spec_idle_rounds())
                is Some,
            final(self).spec_products() == old(self).spec_products(),
            final(self).spec_factories().dom() == old(self).spec_factories().dom(),
            final(self).spec_agents().len() == old(self).spec_agents().len(),
            old(self).beliefs_proper() ==> final(self).beliefs_proper(),
            old(self).prices_in_order() ==> final(self).prices_in_order(),
            final(logger)@.task_id == old(logger)@.task_id,
            final(logger)@.timestamp == old(logger)@.timestamp,
            old(logger)@.records.is_prefix_of(final(logger)@.records),
            run_played(*old(self), old(logger)@, *final(self), final(logger)@, rounds),
    {
        let mut round: u64 = 1;
        let mut total_trades: u64 = 0;
        assert(old(logger)@.records.is_prefix_of(logger@.records));
        let ghost mut markets: Seq<Market> = seq![*self];
        let ghost mut loggers: Seq<LoggerView> = seq![logger@];
        let ghost mut reports: Seq<RoundReport> = Seq::empty();
        loop
            invariant
                1 <= round <= MAX_ROUND + 1,
                self.wf(),
                markets.len() == round,
                loggers.len() == round,
                reports.len() == round - 1,
                markets[0] == *old(self),
                loggers[0] == old(logger)@,
                markets[round - 1] == *self,
                loggers[round - 1] == logger@,
                total_trades == total_before(reports, round - 1),
                forall|r: int|
                    0 <= r < round - 1 ==> {
                        &&& round_played(
                            markets[r],
                            loggers[r],
                            (r + 1) as u64,
                            loggers[r].timestamp,
                            total_before(reports, r),
                            markets[r + 1],
                            loggers[r + 1],
                            #[trigger] reports[r],
                        )
                        &&& reports[r].stop is None
                    },
                self.spec_products() == old(self).spec_products(),
                self.spec_factories().dom() == old(self).spec_factories().dom(),
                self.spec_agents().len() == old(self).spec_agents().len(),
                old(self).beliefs_proper() ==> self.beliefs_proper(),
                old(self).prices_in_order() ==> self.prices_in_order(),
                logger@.task_id == old(logger)@.task_id,
                logger@.timestamp == old(logger)@.timestamp,
                old(logger)@.records.is_prefix_of(logger@.records),
            decreases MAX_ROUND + 1 - round,
        {
            let ghost before = logger@;
            let ghost markets_before = markets;
            let ghost loggers_before = loggers;
            let ghost reports_before = reports;
            let now = logger.timestamp();
            let report = self.run_round(round, now, total_trades, logger);
            total_trades = report.total_trades;
            proof {
                assert(before.records.is_prefix_of(logger@.records));
                assert(old(logger)@.records.is_prefix_of(logger@.records));
                markets = markets.push(*self);
                loggers = loggers.push(logger@);
                reports = reports.push(report);
                assert forall|r: int| 0 <= r < round implies round_played(
                    markets[r],
                    loggers[r],
                    (r + 1) as u64,
                    loggers[r].timestamp,
                    total_before(reports, r),
                    markets[r + 1],
                    loggers[r + 1],
                    #[trigger] reports[r],
                ) by {
                    if r < round - 1 {
                        assert(reports[r] == reports_before[r]);
                        assert(markets[r] == markets_before[r]);
                        assert(markets[r + 1] == markets_before[r + 1]);
                        assert(loggers[r] == loggers_before[r]);
                        assert(loggers[r + 1] == loggers_before[r + 1]);
                        assert(total_before(reports, r) == total_before(reports_before, r));
                    } else {
                        assert(total_before(reports, r) == total_before(reports_before, r));
                    }
                }
                assert forall|r: int| 0 <= r < round - 1 implies (
                #[trigger] reports[r]).stop is None by {
                    assert(reports[r] == reports_before[r]);
                }
            }
            if report.stop.is_some() {
                proof {
                    assert(rounds_played(markets, loggers, reports, round as int));
                }
                return round;
            }
            round = round + 1;
        }
    }

    /// Why the run ends after `round`, if it does.
    pub fn stop_reason(&self, round: u64, consecutive_zero_trades: u32) -> (r: Option<StopReason>)
        ensures
            r == stop_reason_of(self.spec_agents(), round, consecutive_zero_trades),
    {
        let mut broke = true;
        let mut i: usize = 0;
        while i < self.agents.len()
            invariant
                i <= self.agents.len(),
                broke == (forall|j: int|
                    0 <= j < i ==> (#[trigger] self.agents@[j])@.cash < BROKE_BELOW),
            decreases self.agents.len() - i,
        {
            if self.agents[i].cash() >= BROKE_BELOW {
                broke = false;
            }
            i = i + 1;
        }
        if broke {
            Some(StopReason::AllAgentsBroke)
        } else if round > MAX_ROUND {
            Some(StopReason::MaxRoundReached)
        } else if consecutive_zero_trades >= MAX_IDLE_ROUNDS {
            Some(StopReason::NoTrades)
        } else {
            None
        }
    }

    /// Whether the run ends after `round`: it does when every agent is
    /// broke, when the round lies beyond `MAX_ROUND`, or when no deal was
    /// made for `MAX_IDLE_ROUNDS` rounds.
    pub fn break_simulation_loop(&self, round: u64, consecutive_zero_trades: u32) -> (stop: bool)
        ensures
            stop == (all_broke(self.spec_agents()) || round > MAX_ROUND || consecutive_zero_trades
                >= MAX_IDLE_ROUNDS),
    {
        self.stop_reason(round, consecutive_zero_trades).is_some()
    }
}

/// Whether `after` is the market `before` with the factories of every
/// product, and the agents, put in another order: every list holds the same
/// factories, and the market the same agents, as before; nothing else
/// differs.
pub open spec fn shuffled(before: Market, after: Market) -> bool {
    &&& after.spec_products() == before.spec_products()
    &&& after.spec_idle_rounds() == before.spec_idle_rounds()
    &&& after.spec_factories().dom() == before.spec_factories().dom()
    &&& forall|k: u64| #[trigger]
        before.spec_factories().contains_key(k) ==> after.spec_factories()[k]@.to_multiset()
            == before.spec_factories()[k]@.to_multiset()
    &&& after.spec_agents().to_multiset() == before.spec_agents().to_multiset()
    &&& after.spec_agents().len() == before.spec_agents().len()
}

/// Whether `after`, `logger_after` and `report` are what the end of `round`
/// can make of `before` and `logger_before` after `round_trades` deals: the
/// count of rounds without a deal is brought up to date; every factory has
/// settled the round; the logger holds, behind its old records, the cash of
/// every agent, in the order of the agents and as it was before the income,
/// and then the state of the factories after settling; every agent has got
/// its income; and the report tells the deals of the round, the deals so
/// far, and why the run ends, if it does.
pub open spec fn round_finished(
    before: Market,
    logger_before: LoggerView,
    round: u64,
    timestamp: i64,
    round_trades: u64,
    total_trades: u64,
    after: Market,
    logger_after: LoggerView,
    report: RoundReport,
) -> bool {
    &&& after.spec_products() == before.spec_products()
    &&& after.spec_factories().dom() == before.spec_factories().dom()
    &&& forall|k: u64| #[trigger]
        before.spec_factories().contains_key(k) ==> list_settled(
            before.spec_factories()[k]@,
            after.spec_factories()[k]@,
            round,
        )
    &&& after.spec_agents().len() == before.spec_agents().len()
    &&& forall|i: int|
        0 <= i < before.spec_agents().len() ==> got_income(
            before.spec_agents()[i]@,
            (#[trigger] after.spec_agents()[i])@,
        )
    &&& after.spec_idle_rounds() == idle_rounds_after(before.spec_idle_rounds(), round_trades)
    &&& report.round_trades == round_trades
    &&& report.total_trades == sat_add(total_trades as int, round_trades as int)
    &&& report.stop == stop_reason_of(after.spec_agents(), round, after.spec_idle_rounds())
    &&& logger_after == (LoggerView {
        records: logger_before.records + cash_records(
            before.spec_agents(),
            logger_before.task_id,
            timestamp,
            round,
            report.total_trades,
        ) + factory_records(
            after.spec_products(),
            after.spec_factories(),
            logger_before.task_id,
            timestamp,
            round,
            after.spec_products().len() as int,
        ),
        ..logger_before
    })
}

/// Whether `after`, `logger_after` and `report` are what one round can make
/// of `before` and `logger_before`: the logger's time is set, the market is
/// shuffled, the products are traded in the order of the catalogue, and the
/// round is finished.
#[verifier::opaque]
pub open spec fn round_played(
    before: Market,
    logger_before: LoggerView,
    round: u64,
    timestamp: i64,
    total_trades: u64,
    after: Market,
    logger_after: LoggerView,
    report: RoundReport,
) -> bool {
    exists|mixed: Market, traded: Market, traded_logger: LoggerView|
        {
            &&& shuffled(before, mixed)
            &&& #[trigger] products_traded(
                mixed.spec_products(),
                mixed.trading_state(LoggerView { timestamp, ..logger_before }),
                traded.trading_state(traded_logger),
                report.round_trades,
                timestamp,
                round,
            )
            &&& traded.spec_products() == mixed.spec_products()
            &&& traded.spec_idle_rounds() == mixed.spec_idle_rounds()
            &&& round_finished(
                traded,
                traded_logger,
                round,
                timestamp,
                report.round_trades,
                total_trades,
                after,
                logger_after,
                report,
            )
        }
}

/// The deals made before the round at the place `r` of a run: those that
/// the report of the round before tells, and none before the first round.
pub open spec fn total_before(reports: Seq<RoundReport>, r: int) -> u64 {
    if r <= 0 {
        0
    } else {
        reports[r - 1].total_trades
    }
}

/// Whether the markets, loggers and reports are those of a run of `rounds`
/// rounds: each round is played on what the round before left behind, with
/// the time that the logger holds, and only the last round says that the
/// run ends.
pub open spec fn rounds_played(
    markets: Seq<Market>,
    loggers: Seq<LoggerView>,
    reports: Seq<RoundReport>,
    rounds: int,
) -> bool {
    &&& markets.len() == rounds + 1
    &&& loggers.len() == rounds + 1
    &&& reports.len() == rounds
    &&& forall|r: int|
        0 <= r < rounds ==> {
            &&& round_played(
                markets[r],
                loggers[r],
                (r + 1) as u64,
                loggers[r].timestamp,
                total_before(reports, r),
                markets[r + 1],
                loggers[r + 1],
                #[trigger] reports[r],
            )
            &&& (reports[r].stop is Some <==> r == rounds - 1)
        }
}

/// Whether `after` and `logger_after` are what a whole run of `rounds`
/// rounds can make of `before` and `logger_before`.
pub open spec fn run_played(
    before: Market,
    logger_before: LoggerView,
    after: Market,
    logger_after: LoggerView,
    rounds: u64,
) -> bool {
    exists|markets: Seq<Market>, loggers: Seq<LoggerView>, reports: Seq<RoundReport>|
        {
            &&& #[trigger] rounds_played(markets, loggers, reports, rounds as int)
            &&& markets[0] == before
            &&& markets[rounds as int] == after
            &&& loggers[0] == logger_before
            &&& loggers[rounds as int] == logger_after
        }
}

} // verus!
