//! The record of one attempt to trade.
use crate::fixed::{Money, Ratio};
use crate::model::agent::{IntervalRelation, TradeResult};
use crate::model::factory::Factory;
use crate::model::product::Product;
use vstd::prelude::*;

verus! {

/// One attempt of an agent to buy from a factory.
#[derive(Clone, Debug)]
pub struct TradeLog {
    /// When the round began, in milliseconds since the epoch.
    pub timestamp: i64,
    /// The round of the attempt.
    pub round: u64,
    /// The number of the trade.
    pub trade_id: u64,
    /// The run that the record belongs to.
    pub task_id: String,
    /// The agent.
    pub agent_id: u64,
    /// The agent's name.
    pub agent_name: String,
    /// The cash that the agent held.
    pub agent_cash: Money,
    /// The factory.
    pub factory_id: u64,
    /// The factory's name.
    pub factory_name: String,
    /// The product.
    pub product_id: u64,
    /// The product's name.
    pub product_name: String,
    /// How the attempt ended, by name.
    pub trade_result: String,
    /// How the price lay to the agent's range, in words.
    pub interval_relation: String,
    /// The price of the trade, where there was one.
    pub price: Option<Money>,
    /// The lower bound of the factory's asking prices.
    pub factory_supply_range_lower: Money,
    /// The upper bound of the factory's asking prices.
    pub factory_supply_range_upper: Money,
    /// The units that the factory had left in the round.
    pub factory_stock: u16,
    /// The price that the agent first believed in.
    pub agent_pref_original_price: Money,
    /// The agent's elasticity for the product.
    pub agent_pref_original_elastic: Ratio,
    /// The price that the agent believed in last.
    pub agent_pref_current_price: Money,
    /// The lower bound of the agent's acceptable prices.
    pub agent_pref_current_range_lower: Money,
    /// The upper bound of the agent's acceptable prices.
    pub agent_pref_current_range_upper: Money,
}

/// What a [`TradeLog`] holds, with each text as its characters.
pub struct TradeLogView {
    pub timestamp: i64,
    pub round: u64,
    pub trade_id: u64,
    pub task_id: Seq<char>,
    pub agent_id: u64,
    pub agent_name: Seq<char>,
    pub agent_cash: Money,
    pub factory_id: u64,
    pub factory_name: Seq<char>,
    pub product_id: u64,
    pub product_name: Seq<char>,
    pub trade_result: Seq<char>,
    pub interval_relation: Seq<char>,
    pub price: Option<Money>,
    pub factory_supply_range_lower: Money,
    pub factory_supply_range_upper: Money,
    pub factory_stock: u16,
    pub agent_pref_original_price: Money,
    pub agent_pref_original_elastic: Ratio,
    pub agent_pref_current_price: Money,
    pub agent_pref_current_range_lower: Money,
    pub agent_pref_current_range_upper: Money,
}

impl View for TradeLog {
    type V = TradeLogView;

    open spec fn view(&self) -> TradeLogView {
        TradeLogView {
            timestamp: self.timestamp,
            round: self.round,
            trade_id: self.trade_id,
            task_id: self.task_id@,
            agent_id: self.agent_id,
            agent_name: self.agent_name@,
            agent_cash: self.agent_cash,
            factory_id: self.factory_id,
            factory_name: self.factory_name@,
            product_id: self.product_id,
            product_name: self.product_name@,
            trade_result: self.trade_result@,
            interval_relation: self.interval_relation@,
            price: self.price,
            factory_supply_range_lower: self.factory_supply_range_lower,
            factory_supply_range_upper: self.factory_supply_range_upper,
            factory_stock: self.factory_stock,
            agent_pref_original_price: self.agent_pref_original_price,
            agent_pref_original_elastic: self.agent_pref_original_elastic,
            agent_pref_current_price: self.agent_pref_current_price,
            agent_pref_current_range_lower: self.agent_pref_current_range_lower,
            agent_pref_current_range_upper: self.agent_pref_current_range_upper,
        }
    }
}

/// The name of an outcome.
pub open spec fn result_name(result: TradeResult) -> Seq<char> {
    match result {
        TradeResult::NotMatched => "NotMatched"@,
        TradeResult::Failed => "Failed"@,
        TradeResult::Success(_) => "Success"@,
        TradeResult::NotYet => "NotYet"@,
    }
}

/// The name of a relation, or `None` where there is no relation.
pub open spec fn relation_name(relation: Option<IntervalRelation>) -> Seq<char> {
    match relation {
        None => "None"@,
        Some(IntervalRelation::Overlapping(_)) => "Overlapping"@,
        Some(IntervalRelation::AgentBelowFactory) => "AgentBelowFactory"@,
        Some(IntervalRelation::AgentAboveFactory) => "AgentAboveFactory"@,
        Some(IntervalRelation::CashBurnedOut) => "CashBurnedOut"@,
    }
}

/// The name of a relation as text.
pub fn relation_text(relation: Option<IntervalRelation>) -> (name: &'static str)
    ensures
        name@ == relation_name(relation),
{
    match relation {
        None => "None",
        Some(IntervalRelation::Overlapping(_)) => "Overlapping",
        Some(IntervalRelation::AgentBelowFactory) => "AgentBelowFactory",
        Some(IntervalRelation::AgentAboveFactory) => "AgentAboveFactory",
        Some(IntervalRelation::CashBurnedOut) => "CashBurnedOut",
    }
}

/// The price of a trade: that of a success, and none for any other outcome.
pub open spec fn price_of(result: TradeResult) -> Option<Money> {
    match result {
        TradeResult::Success(p) => Some(p),
        _ => None,
    }
}

impl TradeLog {
    /// The record of an attempt of the agent to buy `product` from
    /// `factory` in `round`, with the factory's range of asking prices and
    /// what it had left for the round.
    pub fn new(
        timestamp: i64,
        round: u64,
        trade_id: u64,
        task_id: String,
        agent_id: u64,
        agent_name: String,
        agent_cash: Money,
        agent_pref_original_price: Money,
        agent_pref_original_elastic: Ratio,
        agent_pref_current_price: Money,
        agent_pref_current_range_lower: Money,
        agent_pref_current_range_upper: Money,
        factory: &Factory,
        product: &Product,
        trade_result: &TradeResult,
        interval_relation: &str,
    ) -> (log: Self)
        ensures
            log@ == (TradeLogView {
                timestamp,
                round,
                trade_id,
                task_id: task_id@,
                agent_id,
                agent_name: agent_name@,
                agent_cash,
                factory_id: factory@.id,
                factory_name: factory@.name,
                product_id: product.spec_id(),
                product_name: product.spec_name(),
                trade_result: result_name(*trade_result),
                interval_relation: interval_relation@,
                price: price_of(*trade_result),
                factory_supply_range_lower: factory@.supply_price_range.0,
                factory_supply_range_upper: factory@.supply_price_range.1,
                factory_stock: factory@.stock(round),
                agent_pref_original_price,
                agent_pref_original_elastic,
                agent_pref_current_price,
                agent_pref_current_range_lower,
                agent_pref_current_range_upper,
            }),
    {
        let (result_str, price) = match *trade_result {
            TradeResult::NotMatched => ("NotMatched", None),
            TradeResult::Failed => ("Failed", None),
            TradeResult::Success(p) => ("Success", Some(p)),
            TradeResult::NotYet => ("NotYet", None),
        };
        let (lower, upper) = factory.supply_price_range();
        TradeLog {
            timestamp,
            round,
            trade_id,
            task_id,
            agent_id,
            agent_name,
            agent_cash,
            factory_id: factory.id(),
            factory_name: factory.name().to_owned(),
            product_id: product.id(),
            product_name: product.name().to_owned(),
            trade_result: result_str.to_owned(),
            interval_relation: interval_relation.to_owned(),
            price,
            factory_supply_range_lower: lower,
            factory_supply_range_upper: upper,
            factory_stock: factory.get_stock(round),
            agent_pref_original_price,
            agent_pref_original_elastic,
            agent_pref_current_price,
            agent_pref_current_range_lower,
            agent_pref_current_range_upper,
        }
    }
}

} // verus!
