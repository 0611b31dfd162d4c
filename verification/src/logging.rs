//! The records that the market hands to whoever stores them.
//!
//! A [`Logger`] collects records in the order in which they were made; its
//! owner takes them out and writes them where it likes.
pub mod agent_cash_log;
pub mod agent_demand_removal_log;
pub mod agent_range_adjustment_log;
pub mod factory_end_of_round_log;
pub mod factory_range_optimization_log;
pub mod trade_log;

use crate::fixed::{Money, Ratio};
use crate::logging::agent_cash_log::{AgentCashLog, AgentCashLogView};
use crate::logging::agent_demand_removal_log::{AgentDemandRemovalLog, AgentDemandRemovalLogView};
use crate::logging::agent_range_adjustment_log::{
    AgentRangeAdjustmentLog, AgentRangeAdjustmentLogView,
};
use crate::logging::factory_end_of_round_log::{FactoryEndOfRoundLog, FactoryEndOfRoundLogView};
use crate::logging::factory_range_optimization_log::{
    FactoryRangeOptimizationLog, FactoryRangeOptimizationLogView,
};
use crate::logging::trade_log::{price_of, result_name, TradeLog, TradeLogView};
use crate::model::agent::TradeResult;
use crate::model::factory::{Factory, FactoryStatus};
use crate::model::product::Product;
use vstd::prelude::*;

verus! {

/// One record of any kind.
#[derive(Clone, Debug)]
pub enum LogRecord {
    Trade(TradeLog),
    FactoryRangeOptimization(FactoryRangeOptimizationLog),
    AgentRangeAdjustment(AgentRangeAdjustmentLog),
    AgentCash(AgentCashLog),
    AgentDemandRemoval(AgentDemandRemovalLog),
    FactoryEndOfRound(FactoryEndOfRoundLog),
}

/// What a [`LogRecord`] holds, with each text as its characters.
pub enum LogRecordView {
    Trade(TradeLogView),
    FactoryRangeOptimization(FactoryRangeOptimizationLogView),
    AgentRangeAdjustment(AgentRangeAdjustmentLogView),
    AgentCash(AgentCashLogView),
    AgentDemandRemoval(AgentDemandRemovalLogView),
    FactoryEndOfRound(FactoryEndOfRoundLogView),
}

impl View for LogRecord {
    type V = LogRecordView;

    open spec fn view(&self) -> LogRecordView {
        match *self {
            LogRecord::Trade(r) => LogRecordView::Trade(r@),
            LogRecord::FactoryRangeOptimization(r) => LogRecordView::FactoryRangeOptimization(r@),
            LogRecord::AgentRangeAdjustment(r) => LogRecordView::AgentRangeAdjustment(r@),
            LogRecord::AgentCash(r) => LogRecordView::AgentCash(r@),
            LogRecord::AgentDemandRemoval(r) => LogRecordView::AgentDemandRemoval(r@),
            LogRecord::FactoryEndOfRound(r) => LogRecordView::FactoryEndOfRound(r@),
        }
    }
}

/// Collects the records of one run.
pub struct Logger {
    task_id: String,
    timestamp: i64,
    records: Vec<LogRecord>,
}

/// What a [`Logger`] holds: the name of the run, the time with which it
/// stamps the records that bring none, and the records made so far.
pub struct LoggerView {
    pub task_id: Seq<char>,
    pub timestamp: i64,
    pub records: Seq<LogRecordView>,
}

impl View for Logger {
    type V = LoggerView;

    closed spec fn view(&self) -> LoggerView {
        LoggerView {
            task_id: self.task_id@,
            timestamp: self.timestamp,
            records: self.records@.map_values(|r: LogRecord| r@),
        }
    }
}

impl Logger {
    /// A logger for the run `task_id`, with no record and the time zero.
    pub fn new(task_id: String) -> (logger: Self)
        ensures
            logger@.task_id == task_id@,
            logger@.timestamp == 0,
            logger@.records == Seq::<LogRecordView>::empty(),
    {
        let logger = Logger { task_id, timestamp: 0, records: Vec::new() };
        assert(logger.records@.map_values(|r: LogRecord| r@) =~= Seq::<LogRecordView>::empty());
        logger
    }

    /// Names the run that later records belong to.
    pub fn set_task_id(&mut self, task_id: String)
        ensures
            final(self)@.task_id == task_id@,
            final(self)@.timestamp == old(self)@.timestamp,
            final(self)@.records == old(self)@.records,
    {
        self.task_id = task_id;
    }

    /// Sets the time with which later records are stamped.
    pub fn set_timestamp(&mut self, timestamp: i64)
        ensures
            final(self)@.task_id == old(self)@.task_id,
            final(self)@.timestamp == timestamp,
            final(self)@.records == old(self)@.records,
    {
        self.timestamp = timestamp;
    }

    /// The name of the run.
    pub fn task_id(&self) -> (t: &str)
        ensures
            t@ == self@.task_id,
    {
        self.task_id.as_str()
    }

    /// The time with which records are stamped.
    pub fn timestamp(&self) -> (t: i64)
        ensures
            t == self@.timestamp,
    {
        self.timestamp
    }

    /// The number of records that wait to be taken out.
    pub fn len(&self) -> (n: usize)
        ensures
            n == self@.records.len(),
    {
        self.records.len()
    }

    /// Appends one record.
    fn push(&mut self, record: LogRecord)
        ensures
            final(self)@.task_id == old(self)@.task_id,
            final(self)@.timestamp == old(self)@.timestamp,
            final(self)@.records == old(self)@.records.push(record@),
    {
        self.records.push(record);
        assert(self.records@.map_values(|r: LogRecord| r@) =~= old(self).records@.map_values(
            |r: LogRecord| r@,
        ).push(record@));
    }

    /// Hands out the records made so far, oldest first, and forgets them.
    pub fn take_records(&mut self) -> (taken: Vec<LogRecord>)
        ensures
            taken@.map_values(|r: LogRecord| r@) == old(self)@.records,
            final(self)@.task_id == old(self)@.task_id,
            final(self)@.timestamp == old(self)@.timestamp,
            final(self)@.records == Seq::<LogRecordView>::empty(),
    {
        let mut taken: Vec<LogRecord> = Vec::new();
        std::mem::swap(&mut taken, &mut self.records);
        assert(self.records@.map_values(|r: LogRecord| r@) =~= Seq::<LogRecordView>::empty());
        taken
    }

    /// Records an attempt of an agent to buy `product` from `factory`.
    pub fn log_trade(
        &mut self,
        timestamp: i64,
        round: u64,
        trade_id: u64,
        agent_id: u64,
        agent_name: String,
        agent_cash: Money,
        agent_pref_original_price: Money,
        agent_pref_original_elastic: Ratio,
        agent_pref_current_price: Money,
        agent_pref_current_range_lower: Money,
        agent_pref_current_range_upper: Money,
        factory: &Factory,
        product: &Product,
        trade_result: &TradeResult,
        interval_relation: &str,
    )
        ensures
            final(self)@.task_id == old(self)@.task_id,
            final(self)@.timestamp == old(self)@.timestamp,
            final(self)@.records == old(self)@.records.push(
                LogRecordView::Trade(
                    TradeLogView {
                        timestamp,
                        round,
                        trade_id,
                        task_id: old(self)@.task_id,
                        agent_id,
                        agent_name: agent_name@,
                        agent_cash,
                        factory_id: factory@.id,
                        factory_name: factory@.name,
                        product_id: product.spec_id(),
                        product_name: product.spec_name(),
                        trade_result: result_name(*trade_result),
                        interval_relation: interval_relation@,
                        price: price_of(*trade_result),
                        factory_supply_range_lower: factory@.supply_price_range.0,
                        factory_supply_range_upper: factory@.supply_price_range.1,
                        factory_stock: factory@.stock(round),
                        agent_pref_original_price,
                        agent_pref_original_elastic,
                        agent_pref_current_price,
                        agent_pref_current_range_lower,
                        agent_pref_current_range_upper,
                    },
                ),
            ),
    {
        let log = TradeLog::new(
            timestamp,
            round,
            trade_id,
            self.task_id.clone(),
            agent_id,
            agent_name,
            agent_cash,
            agent_pref_original_price,
            agent_pref_original_elastic,
            agent_pref_current_price,
            agent_pref_current_range_lower,
            agent_pref_current_range_upper,
            factory,
            product,
            trade_result,
            interval_relation,
        );
        self.push(LogRecord::Trade(log));
    }

    /// Records the cash of an agent at the end of a round.
    pub fn log_agent_cash(
        &mut self,
        timestamp: i64,
        round: u64,
        agent_id: u64,
        agent_name: String,
        cash: Money,
        total_trades: u64,
    )
        ensures
            final(self)@.task_id == old(self)@.task_id,
            final(self)@.timestamp == old(self)@.timestamp,
            final(self)@.records == old(self)@.records.push(
                LogRecordView::AgentCash(
                    AgentCashLogView {
                        timestamp,
                        round,
                        task_id: old(self)@.task_id,
                        agent_id,
                        agent_name: agent_name@,
                        cash,
                        total_trades,
                    },
                ),
            ),
    {
        let log = AgentCashLog::new(
            timestamp,
            round,
            self.task_id.clone(),
            agent_id,
            agent_name,
            cash,
            total_trades,
        );
        self.push(LogRecord::AgentCash(log));
    }

    /// Records that an agent stopped wanting a product. The record is
    /// stamped with the logger's time.
    pub fn log_agent_demand_removal(
        &mut self,
        round: u64,
        agent_id: u64,
        agent_name: String,
        product_id: u64,
        agent_cash: Money,
        agent_pref_original_price: Option<Money>,
        agent_pref_original_elastic: Option<Ratio>,
        agent_pref_current_price: Option<Money>,
        agent_pref_current_range_lower: Option<Money>,
        agent_pref_current_range_upper: Option<Money>,
        removal_reason: &str,
    )
        ensures
            final(self)@.task_id == old(self)@.task_id,
            final(self)@.timestamp == old(self)@.timestamp,
            final(self)@.records == old(self)@.records.push(
                LogRecordView::AgentDemandRemoval(
                    AgentDemandRemovalLogView {
                        timestamp: old(self)@.timestamp,
                        round,
                        task_id: old(self)@.task_id,
                        agent_id,
                        agent_name: agent_name@,
                        product_id,
                        agent_cash,
                        agent_pref_original_price,
                        agent_pref_original_elastic,
                        agent_pref_current_price,
                        agent_pref_current_range_lower,
                        agent_pref_current_range_upper,
                        removal_reason: removal_reason@,
                    },
                ),
            ),
    {
        let log = AgentDemandRemovalLog::new(
            self.timestamp,
            round,
            self.task_id.clone(),
            agent_id,
            agent_name,
            product_id,
            agent_cash,
            agent_pref_original_price,
            agent_pref_original_elastic,
            agent_pref_current_price,
            agent_pref_current_range_lower,
            agent_pref_current_range_upper,
            removal_reason,
        );
        self.push(LogRecord::AgentDemandRemoval(log));
    }

    /// Records that an agent moved its range of acceptable prices. The
    /// record is stamped with the logger's time.
    pub fn log_agent_range_adjustment(
        &mut self,
        round: u64,
        agent_id: u64,
        agent_name: String,
        product_id: u64,
        old_range: (Money, Money),
        new_range: (Money, Money),
        lower_change: i128,
        upper_change: i128,
        min_change_ratio: i128,
        max_change_ratio: i128,
        center: Money,
        adjustment_type: &str,
        price: Option<Money>,
    )
        ensures
            final(self)@.task_id == old(self)@.task_id,
            final(self)@.timestamp == old(self)@.timestamp,
            final(self)@.records == old(self)@.records.push(
                LogRecordView::AgentRangeAdjustment(
                    AgentRangeAdjustmentLogView {
                        timestamp: old(self)@.timestamp,
                        round,
                        task_id: old(self)@.task_id,
                        agent_id,
                        agent_name: agent_name@,
                        product_id,
                        old_range_lower: old_range.0,
                        old_range_upper: old_range.1,
                        new_range_lower: new_range.0,
                        new_range_upper: new_range.1,
                        lower_change,
                        upper_change,
                        min_change_ratio,
                        max_change_ratio,
                        center,
                        adjustment_type: adjustment_type@,
                        price,
                    },
                ),
            ),
    {
        let log = AgentRangeAdjustmentLog::new(
            self.timestamp,
            round,
            self.task_id.clone(),
            agent_id,
            agent_name,
            product_id,
            old_range,
            new_range,
            lower_change,
            upper_change,
            min_change_ratio,
            max_change_ratio,
            center,
            adjustment_type,
            price,
        );
        self.push(LogRecord::AgentRangeAdjustment(log));
    }

    /// Records that a factory moved its range of asking prices. The record
    /// is stamped with the logger's time.
    pub fn log_factory_range_optimization(
        &mut self,
        round: u64,
        factory_id: u64,
        factory_name: String,
        product_id: u64,
        product_category: String,
        old_range: (Money, Money),
        new_range: (Money, Money),
        lower_change: i128,
        upper_change: i128,
        total_change: i128,
        lower_change_ratio: i128,
        upper_change_ratio: i128,
        trade_result: &str,
    )
        ensures
            final(self)@.task_id == old(self)@.task_id,
            final(self)@.timestamp == old(self)@.timestamp,
            final(self)@.records == old(self)@.records.push(
                LogRecordView::FactoryRangeOptimization(
                    FactoryRangeOptimizationLogView {
                        timestamp: old(self)@.timestamp,
                        round,
                        task_id: old(self)@.task_id,
                        factory_id,
                        factory_name: factory_name@,
                        product_id,
                        product_category: product_category@,
                        old_range_lower: old_range.0,
                        old_range_upper: old_range.1,
                        new_range_lower: new_range.0,
                        new_range_upper: new_range.1,
                        lower_change,
                        upper_change,
                        total_change,
                        lower_change_ratio,
                        upper_change_ratio,
                        trade_result: trade_result@,
                    },
                ),
            ),
    {
        let log = FactoryRangeOptimizationLog::new(
            self.timestamp,
            round,
            self.task_id.clone(),
            factory_id,
            factory_name,
            product_id,
            product_category,
            old_range,
            new_range,
            lower_change,
            upper_change,
            total_change,
            lower_change_ratio,
            upper_change_ratio,
            trade_result,
        );
        self.push(LogRecord::FactoryRangeOptimization(log));
    }

    /// Records the state of a factory at the end of a round.
    pub fn log_factory_end_of_round(
        &mut self,
        timestamp: i64,
        round: u64,
        factory_id: u64,
        factory_name: String,
        product_id: u64,
        product_category: String,
        cash: Money,
        initial_stock: u16,
        remaining_stock: u16,
        supply_range_lower: Money,
        supply_range_upper: Money,
        units_sold: u16,
        revenue: i128,
        total_stock: u16,
        total_production: u16,
        rot_stock: u16,
        production_cost: Money,
        profit: i128,
        status: FactoryStatus,
    )
        ensures
            final(self)@.task_id == old(self)@.task_id,
            final(self)@.timestamp == old(self)@.timestamp,
            final(self)@.records == old(self)@.records.push(
                LogRecordView::FactoryEndOfRound(
                    FactoryEndOfRoundLogView {
                        timestamp,
                        round,
                        task_id: old(self)@.task_id,
                        factory_id,
                        factory_name: factory_name@,
                        product_id,
                        product_category: product_category@,
                        cash,
                        initial_stock,
                        remaining_stock,
                        supply_range_lower,
                        supply_range_upper,
                        units_sold,
                        revenue,
                        total_stock,
                        total_production,
                        rot_stock,
                        production_cost,
                        profit,
                        status,
                    },
                ),
            ),
    {
        let log = FactoryEndOfRoundLog::new(
            timestamp,
            round,
            self.task_id.clone(),
            factory_id,
            factory_name,
            product_id,
            product_category,
            cash,
            initial_stock,
            remaining_stock,
            supply_range_lower,
            supply_range_upper,
            units_sold,
            revenue,
            total_stock,
            total_production,
            rot_stock,
            production_cost,
            profit,
            status,
        );
        self.push(LogRecord::FactoryEndOfRound(log));
    }
}

} // verus!
