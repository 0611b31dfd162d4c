//! The record of an agent that moves its range of acceptable prices.
use crate::fixed::Money;
use vstd::prelude::*;

verus! {

/// An agent moved its range of acceptable prices.
#[derive(Clone, Debug)]
pub struct AgentRangeAdjustmentLog {
    /// When the range was adjusted, in milliseconds since the epoch.
    pub timestamp: i64,
    /// The round in which the range was adjusted.
    pub round: u64,
    /// The run that the record belongs to.
    pub task_id: String,
    /// The agent.
    pub agent_id: u64,
    /// The agent's name.
    pub agent_name: String,
    /// The product whose acceptable prices changed.
    pub product_id: u64,
    /// The lower bound before.
    pub old_range_lower: Money,
    /// The upper bound before.
    pub old_range_upper: Money,
    /// The lower bound after.
    pub new_range_lower: Money,
    /// The upper bound after.
    pub new_range_upper: Money,
    /// By how much the lower bound moved.
    pub lower_change: i128,
    /// By how much the upper bound moved.
    pub upper_change: i128,
    /// The move of the lower bound as a share of the old width, in parts per million.
    pub min_change_ratio: i128,
    /// The move of the upper bound as a share of the old width, in parts per million.
    pub max_change_ratio: i128,
    /// The price around which the new range was built.
    pub center: Money,
    /// What caused the adjustment.
    pub adjustment_type: String,
    /// The price of the trade, where there was one.
    pub price: Option<Money>,
}

/// What a [`AgentRangeAdjustmentLog`] holds, with each text as its characters.
pub struct AgentRangeAdjustmentLogView {
    pub timestamp: i64,
    pub round: u64,
    pub task_id: Seq<char>,
    pub agent_id: u64,
    pub agent_name: Seq<char>,
    pub product_id: u64,
    pub old_range_lower: Money,
    pub old_range_upper: Money,
    pub new_range_lower: Money,
    pub new_range_upper: Money,
    pub lower_change: i128,
    pub upper_change: i128,
    pub min_change_ratio: i128,
    pub max_change_ratio: i128,
    pub center: Money,
    pub adjustment_type: Seq<char>,
    pub price: Option<Money>,
}

impl View for AgentRangeAdjustmentLog {
    type V = AgentRangeAdjustmentLogView;

    open spec fn view(&self) -> AgentRangeAdjustmentLogView {
        AgentRangeAdjustmentLogView {
            timestamp: self.timestamp,
            round: self.round,
            task_id: self.task_id@,
            agent_id: self.agent_id,
            agent_name: self.agent_name@,
            product_id: self.product_id,
            old_range_lower: self.old_range_lower,
            old_range_upper: self.old_range_upper,
            new_range_lower: self.new_range_lower,
            new_range_upper: self.new_range_upper,
            lower_change: self.lower_change,
            upper_change: self.upper_change,
            min_change_ratio: self.min_change_ratio,
            max_change_ratio: self.max_change_ratio,
            center: self.center,
            adjustment_type: self.adjustment_type@,
            price: self.price,
        }
    }
}

impl AgentRangeAdjustmentLog {
    /// A record with the given parts.
    pub fn new(
        timestamp: i64,
        round: u64,
        task_id: String,
        agent_id: u64,
        agent_name: String,
        product_id: u64,
        old_range: (Money, Money),
        new_range: (Money, Money),
        lower_change: i128,
        upper_change: i128,
        min_change_ratio: i128,
        max_change_ratio: i128,
        center: Money,
        adjustment_type: &str,
        price: Option<Money>,
    ) -> (log: Self)
        ensures
            log@ == (AgentRangeAdjustmentLogView {
                timestamp: timestamp,
                round: round,
                task_id: task_id@,
                agent_id: agent_id,
                agent_name: agent_name@,
                product_id: product_id,
                old_range_lower: old_range.0,
                old_range_upper: old_range.1,
                new_range_lower: new_range.0,
                new_range_upper: new_range.1,
                lower_change: lower_change,
                upper_change: upper_change,
                min_change_ratio: min_change_ratio,
                max_change_ratio: max_change_ratio,
                center: center,
                adjustment_type: adjustment_type@,
                price: price,
            }),
    {
        AgentRangeAdjustmentLog {
            timestamp,
            round,
            task_id,
            agent_id,
            agent_name,
            product_id,
            old_range_lower: old_range.0,
            old_range_upper: old_range.1,
            new_range_lower: new_range.0,
            new_range_upper: new_range.1,
            lower_change,
            upper_change,
            min_change_ratio,
            max_change_ratio,
            center,
            adjustment_type: adjustment_type.to_owned(),
            price,
        }
    }
}

} // verus!
