//! The record of a factory that moves its range of asking prices.
use crate::fixed::Money;
use vstd::prelude::*;

verus! {

/// A factory moved its range of asking prices.
#[derive(Clone, Debug)]
pub struct FactoryRangeOptimizationLog {
    /// When the range was moved, in milliseconds since the epoch.
    pub timestamp: i64,
    /// The round in which the range was moved.
    pub round: u64,
    /// The run that the record belongs to.
    pub task_id: String,
    /// The factory.
    pub factory_id: u64,
    /// The factory's name.
    pub factory_name: String,
    /// The product that the factory makes.
    pub product_id: u64,
    /// The kind of that product, by name.
    pub product_category: String,
    /// The lower bound before.
    pub old_range_lower: Money,
    /// The upper bound before.
    pub old_range_upper: Money,
    /// The lower bound after.
    pub new_range_lower: Money,
    /// The upper bound after.
    pub new_range_upper: Money,
    /// By how much the lower bound moved.
    pub lower_change: i128,
    /// By how much the upper bound moved.
    pub upper_change: i128,
    /// By how much the sum of both bounds moved.
    pub total_change: i128,
    /// The move of the lower bound as a share of the old width, in parts per million.
    pub lower_change_ratio: i128,
    /// The move of the upper bound as a share of the old width, in parts per million.
    pub upper_change_ratio: i128,
    /// The outcome that caused the move.
    pub trade_result: String,
}

/// What a [`FactoryRangeOptimizationLog`] holds, with each text as its characters.
pub struct FactoryRangeOptimizationLogView {
    pub timestamp: i64,
    pub round: u64,
    pub task_id: Seq<char>,
    pub factory_id: u64,
    pub factory_name: Seq<char>,
    pub product_id: u64,
    pub product_category: Seq<char>,
    pub old_range_lower: Money,
    pub old_range_upper: Money,
    pub new_range_lower: Money,
    pub new_range_upper: Money,
    pub lower_change: i128,
    pub upper_change: i128,
    pub total_change: i128,
    pub lower_change_ratio: i128,
    pub upper_change_ratio: i128,
    pub trade_result: Seq<char>,
}

impl View for FactoryRangeOptimizationLog {
    type V = FactoryRangeOptimizationLogView;

    open spec fn view(&self) -> FactoryRangeOptimizationLogView {
        FactoryRangeOptimizationLogView {
            timestamp: self.timestamp,
            round: self.round,
            task_id: self.task_id@,
            factory_id: self.factory_id,
            factory_name: self.factory_name@,
            product_id: self.product_id,
            product_category: self.product_category@,
            old_range_lower: self.old_range_lower,
            old_range_upper: self.old_range_upper,
            new_range_lower: self.new_range_lower,
            new_range_upper: self.new_range_upper,
            lower_change: self.lower_change,
            upper_change: self.upper_change,
            total_change: self.total_change,
            lower_change_ratio: self.lower_change_ratio,
            upper_change_ratio: self.upper_change_ratio,
            trade_result: self.trade_result@,
        }
    }
}

impl FactoryRangeOptimizationLog {
    /// A record with the given parts.
    pub fn new(
        timestamp: i64,
        round: u64,
        task_id: String,
        factory_id: u64,
        factory_name: String,
        product_id: u64,
        product_category: String,
        old_range: (Money, Money),
        new_range: (Money, Money),
        lower_change: i128,
        upper_change: i128,
        total_change: i128,
        lower_change_ratio: i128,
        upper_change_ratio: i128,
        trade_result: &str,
    ) -> (log: Self)
        ensures
            log@ == (FactoryRangeOptimizationLogView {
                timestamp: timestamp,
                round: round,
                task_id: task_id@,
                factory_id: factory_id,
                factory_name: factory_name@,
                product_id: product_id,
                product_category: product_category@,
                old_range_lower: old_range.0,
                old_range_upper: old_range.1,
                new_range_lower: new_range.0,
                new_range_upper: new_range.1,
                lower_change: lower_change,
                upper_change: upper_change,
                total_change: total_change,
                lower_change_ratio: lower_change_ratio,
                upper_change_ratio: upper_change_ratio,
                trade_result: trade_result@,
            }),
    {
        FactoryRangeOptimizationLog {
            timestamp,
            round,
            task_id,
            factory_id,
            factory_name,
            product_id,
            product_category,
            old_range_lower: old_range.0,
            old_range_upper: old_range.1,
            new_range_lower: new_range.0,
            new_range_upper: new_range.1,
            lower_change,
            upper_change,
            total_change,
            lower_change_ratio,
            upper_change_ratio,
            trade_result: trade_result.to_owned(),
        }
    }
}

} // verus!
