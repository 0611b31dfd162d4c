//! The producers of the market.
pub mod accountant;
pub mod financial_bill;
pub mod window;

use crate::fixed::{clamp_range, clamp_range_exec, lemma_mul_le, lemma_mul_nonneg, min_int};
use crate::fixed::{round_cent, sat_add, valid_range};
use crate::fixed::{Money, Ratio, CENT, MAX_PRICE, RATIO_ONE, TENTH};
use crate::logging::factory_range_optimization_log::FactoryRangeOptimizationLogView;
use crate::logging::{LogRecordView, Logger, LoggerView};
use crate::model::agent::{IntervalRelation, TradeResult};
use crate::model::factory::accountant::{bill_or_default, books_after_lookup, Accountant};
use crate::model::factory::accountant::MAX_BILLS;
use crate::model::factory::financial_bill::FinancialBill;
use crate::model::factory::window::{lemma_window_is_bounded, Window, WindowView};
use crate::model::product::{category_name, Product, ProductCategory};
use crate::model::util::{get_range_change_info, round_to_nearest_cent};
use crate::model::util::{shift_range_by_ratio, spec_range_change, spec_shift_range_by_ratio};
use crate::random::random_in_range;
use vstd::prelude::*;

verus! {

/// The number of rounds whose stock a factory remembers.
pub const STOCK_ROUNDS: usize = 3;

/// The stock that a factory reports for a round it does not remember.
pub const DEFAULT_STOCK: u16 = 10;

/// The share by which one outcome moves the range of asking prices: one
/// hundredth.
pub const SHIFT_STEP: i64 = 10_000;

/// The largest unit cost: one cent below `MAX_PRICE`, so that a range of
/// asking prices fits above it.
pub const MAX_COST: u64 = 999_999_999_990_000;

/// The lowest reference price from which a new factory draws its range: one
/// unit.
pub const MIN_REFERENCE_PRICE: u64 = 1_000_000;

/// The highest such reference price: two thirds of `MAX_PRICE`, so that one
/// and a half times the reference is still a price.
pub const MAX_REFERENCE_PRICE: u64 = 666_666_666_666_666;

/// The least cash, before it is multiplied by ten, that a new factory
/// starts with: ten units.
pub const MIN_STARTING_CASH: u64 = 10_000_000;

/// The lower end of the risk appetites of new factories: one tenth.
pub const MIN_RISK_APPETITE: u64 = 100_000;

/// The upper end, exclusive, of those risk appetites: nine tenths.
pub const MAX_RISK_APPETITE: u64 = 900_000;

/// Whether a factory takes part in the market.
#[derive(Clone, Copy, Debug, PartialEq, Eq, Structural)]
pub enum FactoryStatus {
    /// The factory makes offers.
    Active,
    /// The factory makes no offers.
    Inactive,
}

/// The share by which a failed attempt moves the range of asking prices:
/// down by a hundredth where the price was within or above the agent's
/// range or where nothing is known, up by a hundredth where it was below,
/// and not at all where the agent was short of cash.
pub open spec fn spec_range_change_ratio(relation: Option<IntervalRelation>) -> int {
    match relation {
        None => -SHIFT_STEP,
        Some(IntervalRelation::Overlapping(_)) => -SHIFT_STEP,
        Some(IntervalRelation::AgentBelowFactory) => -SHIFT_STEP,
        Some(IntervalRelation::AgentAboveFactory) => SHIFT_STEP as int,
        Some(IntervalRelation::CashBurnedOut) => 0,
    }
}

/// Computes [`spec_range_change_ratio`].
pub fn get_range_change_ratio(interval_relation: Option<IntervalRelation>) -> (ratio: i64)
    ensures
        ratio == spec_range_change_ratio(interval_relation),
{
    match interval_relation {
        None => -SHIFT_STEP,
        Some(IntervalRelation::Overlapping(_)) => -SHIFT_STEP,
        Some(IntervalRelation::AgentBelowFactory) => -SHIFT_STEP,
        Some(IntervalRelation::AgentAboveFactory) => SHIFT_STEP,
        Some(IntervalRelation::CashBurnedOut) => 0,
    }
}

/// A range lifted to the cost floor: where its lower bound lies below
/// `min_cost`, it starts at the cost and is as wide as before, within
/// `MAX_PRICE`; else it stays.
pub open spec fn lifted_to_cost(range: (Money, Money), min_cost: Money) -> (Money, Money) {
    if range.0 < min_cost {
        (min_cost, min_int(min_cost + (range.1 - range.0), MAX_PRICE as int) as u64)
    } else {
        range
    }
}

/// A proper range that was lifted to a cost floor of at most `MAX_COST`
/// starts at the cost or above and is a proper range.
pub proof fn lemma_lifted_range_in_order(range: (Money, Money), min_cost: Money)
    requires
        valid_range(range),
        range.1 - range.0 >= CENT,
        min_cost <= MAX_COST,
    ensures
        lifted_to_cost(range, min_cost).0 >= min_cost,
        lifted_to_cost(range, min_cost).0 < lifted_to_cost(range, min_cost).1,
        lifted_to_cost(range, min_cost).1 <= MAX_PRICE,
{
}

/// Lifts a proper range to the cost floor.
pub fn lift_to_cost(range: (Money, Money), min_cost: Money) -> (r: (Money, Money))
    requires
        valid_range(range),
        range.1 - range.0 >= CENT,
        min_cost <= MAX_COST,
    ensures
        r == lifted_to_cost(range, min_cost),
        r.0 >= min_cost,
        r.0 < r.1 <= MAX_PRICE,
{
    let (lower, upper) = range;
    if lower < min_cost {
        let length: u64 = upper - lower;
        let lifted: u64 = if length <= MAX_PRICE - min_cost { min_cost + length } else { MAX_PRICE };
        (min_cost, lifted)
    } else {
        (lower, upper)
    }
}

/// A range moved by `ratio` parts per million and then lifted to the cost
/// floor `min_cost`.
pub open spec fn spec_factory_shift(range: (Money, Money), min_cost: Money, ratio: int) -> (
    Money,
    Money,
) {
    lifted_to_cost(spec_shift_range_by_ratio(range, ratio), min_cost)
}

/// Moves a range of asking prices by `ratio` parts per million without
/// letting it start below `min_cost`.
pub fn factory_shift_range_by_ratio(range: (Money, Money), min_cost: Money, ratio: i64) -> (r: (
    Money,
    Money,
))
    requires
        min_cost <= MAX_COST,
    ensures
        r == spec_factory_shift(range, min_cost, ratio as int),
        r.0 >= min_cost,
        r.0 < r.1 <= MAX_PRICE,
{
    let moved = shift_range_by_ratio(range, ratio);
    lift_to_cost(moved, min_cost)
}

/// The production that follows a sold-out round: the stock of that round
/// times 1.1 plus four tenths of the risk appetite, rounded down, within
/// what a stock can count.
pub open spec fn scaled_production(initial_stock: u16, risk_appetite: Ratio) -> int {
    min_int((initial_stock * (5_500_000 + 2 * risk_appetite)) / 5_000_000, u16::MAX as int)
}

/// The production that the last bill calls for: one unit where the last
/// round had no stock, the [`scaled_production`] where it sold out, and else
/// as much as was made last, but at least one unit.
pub open spec fn planned_production(last: FinancialBill, risk_appetite: Ratio) -> int {
    if last.initial_stock == 0 {
        1
    } else if last.remaining_stock == 0 {
        scaled_production(last.initial_stock, risk_appetite)
    } else if last.total_production >= 1 {
        last.total_production as int
    } else {
        1
    }
}

/// The production that the factory can pay for: the share `risk_appetite`
/// of the cash divided by the unit cost, rounded down, within what a stock
/// can count.
pub open spec fn affordable_production(cash: Money, risk_appetite: Ratio, product_cost: Money) -> int {
    min_int((cash * risk_appetite) / (product_cost * RATIO_ONE), u16::MAX as int)
}

/// The unsold units lost at the end of a round: the share of `remaining`
/// that the durability does not save, rounded down.
pub open spec fn rot_of(remaining: u16, durability: Ratio) -> int {
    (remaining * (RATIO_ONE - min_int(durability as int, RATIO_ONE as int))) / (RATIO_ONE as int)
}

/// The production never costs more than the cash at hand.
pub proof fn lemma_production_is_affordable(cash: int, risk: int, cost: int, need: int)
    requires
        0 <= cash,
        0 <= risk <= RATIO_ONE,
        0 < cost,
        0 <= need <= (cash * risk) / (cost * RATIO_ONE),
    ensures
        0 <= need * cost <= cash,
{
    let d = cost * RATIO_ONE;
    let n = cash * risk;
    lemma_mul_nonneg(cash, risk);
    lemma_mul_nonneg(need, cost);
    assert(d > 0) by (nonlinear_arith)
        requires
            d == cost * RATIO_ONE,
            cost > 0,
    ;
    assert((n / d) * d <= n) by (nonlinear_arith)
        requires
            d > 0,
            n >= 0,
    ;
    assert(need * d <= (n / d) * d) by (nonlinear_arith)
        requires
            0 <= need <= n / d,
            d > 0,
    ;
    assert(n <= cash * RATIO_ONE) by (nonlinear_arith)
        requires
            n == cash * risk,
            0 <= cash,
            0 <= risk <= RATIO_ONE,
    ;
    assert(need * d == (need * cost) * RATIO_ONE) by (nonlinear_arith)
        requires
            d == cost * RATIO_ONE,
    ;
}

/// A producer of one product: it plans its stock round by round, asks a
/// price from its range of asking prices, and moves that range with every
/// outcome.
pub struct Factory {
    id: u64,
    name: String,
    product_id: u64,
    accountant: Accountant,
    product_category: ProductCategory,
    supply_price_range: (Money, Money),
    amount: Window<u16>,
    durability: Ratio,
    product_cost: Money,
    cash: Money,
    initial_stock: u16,
    risk_appetite: Ratio,
    status: FactoryStatus,
}

/// What a [`Factory`] holds.
pub struct FactoryView {
    /// The id.
    pub id: u64,
    /// The name.
    pub name: Seq<char>,
    /// The product that the factory makes.
    pub product_id: u64,
    /// The kind of that product.
    pub product_category: ProductCategory,
    /// The books.
    pub accountant: WindowView<FinancialBill>,
    /// The lowest and the highest price that the factory asks.
    pub supply_price_range: (Money, Money),
    /// The units left, by round, for the rounds remembered.
    pub amount: WindowView<u16>,
    /// The share of unsold units that keeps, in parts per million.
    pub durability: Ratio,
    /// The cost of making one unit.
    pub product_cost: Money,
    /// The cash.
    pub cash: Money,
    /// The units on offer at the start of the round planned last.
    pub initial_stock: u16,
    /// The share of the cash that the factory puts into a round's
    /// production, in parts per million.
    pub risk_appetite: Ratio,
    /// Whether the factory takes part in the market.
    pub status: FactoryStatus,
}

impl FactoryView {
    /// Whether the factory is sound: it remembers the stock of at most
    /// `STOCK_ROUNDS` rounds and keeps the bills of at most `MAX_BILLS`, its
    /// unit cost is an amount above zero that leaves room for a price, and
    /// its risk appetite is at most 1.
    pub open spec fn wf(self) -> bool {
        &&& self.amount.wf()
        &&& self.amount.capacity == STOCK_ROUNDS
        &&& self.accountant.wf()
        &&& self.accountant.capacity == MAX_BILLS
        &&& 0 < self.product_cost <= MAX_COST
        &&& self.risk_appetite <= RATIO_ONE
    }

    /// Whether the asking prices are in order: the range starts at the unit
    /// cost or above and its upper bound lies strictly above its lower one.
    pub open spec fn prices_in_order(self) -> bool {
        &&& self.supply_price_range.0 >= self.product_cost
        &&& self.supply_price_range.1 > self.supply_price_range.0
    }

    /// The units that the factory reports for `round`: what it remembers,
    /// or `DEFAULT_STOCK`.
    pub open spec fn stock(self, round: u64) -> u16 {
        if self.amount.entries.contains_key(round) {
            self.amount.entries[round]
        } else {
            DEFAULT_STOCK
        }
    }

    /// Whether the factory remembers that nothing is left for `round`.
    pub open spec fn sold_out(self, round: u64) -> bool {
        self.amount.entries.contains_key(round) && self.amount.entries[round] == 0
    }

    /// The units that the factory makes at the start of `round`: what the
    /// last bill calls for, as far as the factory can pay for it.
    pub open spec fn production(self, round: u64) -> int {
        let last = bill_or_default(self.accountant, (round - 1) as u64);
        min_int(
            planned_production(last, self.risk_appetite),
            affordable_production(self.cash, self.risk_appetite, self.product_cost),
        )
    }

    /// The factory after it started `round`: the production was paid, the
    /// stock is what the last round left plus the production, and the stock
    /// stands in the books of the round and among the stocks remembered. A
    /// round that is started again keeps its place among the rounds
    /// remembered and gets the new stock.
    pub open spec fn after_start_round(self, round: u64) -> FactoryView {
        let before = (round - 1) as u64;
        let last = bill_or_default(self.accountant, before);
        let need = self.production(round);
        let stock = min_int(last.remaining_stock + need, u16::MAX as int) as u16;
        let cash = (self.cash - need * self.product_cost) as u64;
        let asked = books_after_lookup(self.accountant, before);
        let opened = books_after_lookup(asked, round);
        let bill = FinancialBill {
            cash,
            initial_stock: stock,
            total_production: need as u16,
            ..bill_or_default(asked, round)
        };
        FactoryView {
            accountant: opened.replaced(round, bill),
            cash,
            initial_stock: stock,
            amount: self.amount.recorded(round, stock),
            ..self
        }
    }

    /// The range of asking prices after an attempt of `round` ended with
    /// `result`: moved up by a hundredth after a success, moved by the
    /// [`spec_range_change_ratio`] after a failure, and else as before. A
    /// factory that is sold out for the round does not move its range.
    pub open spec fn range_after_deal(
        self,
        result: TradeResult,
        round: u64,
        relation: Option<IntervalRelation>,
    ) -> (Money, Money) {
        if self.sold_out(round) {
            self.supply_price_range
        } else {
            match result {
                TradeResult::Failed => spec_factory_shift(
                    self.supply_price_range,
                    self.product_cost,
                    spec_range_change_ratio(relation),
                ),
                TradeResult::Success(_) => spec_factory_shift(
                    self.supply_price_range,
                    self.product_cost,
                    SHIFT_STEP as int,
                ),
                _ => self.supply_price_range,
            }
        }
    }

    /// The factory after an attempt of `round` ended with `result`. Its
    /// range is the [`FactoryView::range_after_deal`]. After a success,
    /// unless it was sold out, it has one unit less for the round and the
    /// price more in cash.
    pub open spec fn after_deal(
        self,
        result: TradeResult,
        round: u64,
        relation: Option<IntervalRelation>,
    ) -> FactoryView {
        let range = self.range_after_deal(result, round, relation);
        match result {
            TradeResult::Success(price) => if self.sold_out(round) {
                self
            } else {
                FactoryView {
                    supply_price_range: range,
                    amount: if self.amount.entries.contains_key(round) {
                        self.amount.replaced(round, (self.amount.entries[round] - 1) as u16)
                    } else {
                        self.amount
                    },
                    cash: sat_add(self.cash as int, price as int) as u64,
                    ..self
                }
            },
            _ => FactoryView { supply_price_range: range, ..self },
        }
    }

    /// Whether an attempt of `round` that ended with `result` moves the
    /// range of asking prices.
    pub open spec fn deal_moves_range(self, result: TradeResult, round: u64) -> bool {
        !self.sold_out(round) && (result is Failed || result is Success)
    }

    /// The bill of `round` as the end of the round closes it.
    pub open spec fn closed_bill(self, round: u64) -> FinancialBill {
        let bill = bill_or_default(self.accountant, round);
        let remaining: u16 = if self.amount.entries.contains_key(round) {
            self.amount.entries[round]
        } else {
            0
        };
        let rot = rot_of(remaining, self.durability);
        let sold: int = if bill.initial_stock >= remaining {
            bill.initial_stock - remaining
        } else {
            0
        };
        let revenue = bill.cash - self.cash;
        FinancialBill {
            rot_stock: rot as u16,
            units_sold: sold as u16,
            revenue: revenue as i128,
            cash: self.cash,
            remaining_stock: (remaining - rot) as u16,
            profit: (revenue - (sold + rot) * self.product_cost) as i128,
            ..bill
        }
    }

    /// The factory after `round` was settled: the bill of the round is the
    /// [`FactoryView::closed_bill`].
    pub open spec fn after_settling(self, round: u64) -> FactoryView {
        let opened = books_after_lookup(self.accountant, round);
        FactoryView { accountant: opened.replaced(round, self.closed_bill(round)), ..self }
    }
}

/// The record of a factory moving its range to `new_range` after an outcome
/// named `outcome`.
pub open spec fn shift_record(
    factory: FactoryView,
    logger: LoggerView,
    round: u64,
    new_range: (Money, Money),
    outcome: Seq<char>,
) -> LogRecordView {
    let change = spec_range_change(factory.supply_price_range, new_range);
    LogRecordView::FactoryRangeOptimization(
        FactoryRangeOptimizationLogView {
            timestamp: logger.timestamp,
            round,
            task_id: logger.task_id,
            factory_id: factory.id,
            factory_name: factory.name,
            product_id: factory.product_id,
            product_category: category_name(factory.product_category),
            old_range_lower: factory.supply_price_range.0,
            old_range_upper: factory.supply_price_range.1,
            new_range_lower: new_range.0,
            new_range_upper: new_range.1,
            lower_change: change.lower_change,
            upper_change: change.upper_change,
            total_change: change.total_change,
            lower_change_ratio: change.lower_change_ratio,
            upper_change_ratio: change.upper_change_ratio,
            trade_result: outcome,
        },
    )
}

/// The logger after an attempt of `round` ended with `result` at the
/// factory: every move of the range is recorded, with the outcome that
/// caused it.
pub open spec fn logger_after_deal(
    logger: LoggerView,
    factory: FactoryView,
    result: TradeResult,
    round: u64,
    relation: Option<IntervalRelation>,
) -> LoggerView {
    if !factory.deal_moves_range(result, round) {
        logger
    } else {
        let outcome = if result is Failed { "Failed"@ } else { "Success"@ };
        LoggerView {
            records: logger.records.push(
                shift_record(
                    factory,
                    logger,
                    round,
                    factory.range_after_deal(result, round, relation),
                    outcome,
                ),
            ),
            ..logger
        }
    }
}

/// Computes the [`planned_production`].
pub fn plan_production(last: &FinancialBill, risk_appetite: Ratio) -> (units: u16)
    ensures
        units == planned_production(*last, risk_appetite),
{
    if last.initial_stock == 0 {
        1
    } else if last.remaining_stock == 0 {
        proof {
            lemma_mul_nonneg(last.initial_stock as int, 5_500_000 + 2 * risk_appetite);
            lemma_mul_le(
                last.initial_stock as int,
                5_500_000 + 2 * risk_appetite,
                u16::MAX as int,
                5_500_000 + 2 * u64::MAX,
            );
        }
        let factor: u128 = 5_500_000 + 2 * (risk_appetite as u128);
        let scaled: u128 = ((last.initial_stock as u128) * factor) / 5_000_000;
        if scaled <= u16::MAX as u128 {
            scaled as u16
        } else {
            u16::MAX
        }
    } else if last.total_production >= 1 {
        last.total_production
    } else {
        1
    }
}

/// Computes the [`affordable_production`].
pub fn production_under_budget(cash: Money, risk_appetite: Ratio, product_cost: Money) -> (units:
    u16)
    requires
        product_cost > 0,
    ensures
        units == affordable_production(cash, risk_appetite, product_cost),
{
    proof {
        lemma_mul_nonneg(cash as int, risk_appetite as int);
        lemma_mul_le(cash as int, risk_appetite as int, u64::MAX as int, u64::MAX as int);
        lemma_mul_nonneg(product_cost as int, RATIO_ONE as int);
        lemma_mul_le(product_cost as int, RATIO_ONE as int, u64::MAX as int, RATIO_ONE as int);
        assert(product_cost * RATIO_ONE > 0) by (nonlinear_arith)
            requires
                product_cost > 0,
        ;
    }
    let budget: u128 = (cash as u128) * (risk_appetite as u128);
    let price: u128 = (product_cost as u128) * (RATIO_ONE as u128);
    let units: u128 = budget / price;
    if units <= u16::MAX as u128 {
        units as u16
    } else {
        u16::MAX
    }
}

/// Computes the [`rot_of`] a stock, which is never more than the stock.
pub fn rot_stock(remaining: u16, durability: Ratio) -> (rot: u16)
    ensures
        rot == rot_of(remaining, durability),
        rot <= remaining,
{
    let kept: u64 = if durability < RATIO_ONE { durability } else { RATIO_ONE };
    let lost: u64 = RATIO_ONE - kept;
    proof {
        lemma_mul_nonneg(remaining as int, lost as int);
        lemma_mul_le(remaining as int, lost as int, remaining as int, RATIO_ONE as int);
        assert((remaining * lost) / (RATIO_ONE as int) <= remaining) by (nonlinear_arith)
            requires
                0 <= remaining * lost <= remaining * RATIO_ONE,
        ;
    }
    let rot: u64 = ((remaining as u64) * lost) / RATIO_ONE;
    rot as u16
}

/// A sound factory remembers the stock of at most `STOCK_ROUNDS` rounds and
/// keeps at most `MAX_BILLS` bills.
pub proof fn lemma_factory_is_bounded(factory: FactoryView)
    requires
        factory.wf(),
    ensures
        factory.amount.entries.dom().finite(),
        factory.amount.entries.dom().len() <= STOCK_ROUNDS,
        factory.accountant.entries.dom().finite(),
        factory.accountant.entries.dom().len() <= MAX_BILLS,
{
    lemma_window_is_bounded(factory.amount);
    lemma_window_is_bounded(factory.accountant);
}

/// Every attempt that moves the range of asking prices leaves the prices in
/// order, and no attempt brings prices out of order.
pub proof fn lemma_deal_keeps_prices_in_order(
    factory: FactoryView,
    result: TradeResult,
    round: u64,
    relation: Option<IntervalRelation>,
)
    requires
        factory.wf(),
    ensures
        factory.deal_moves_range(result, round) ==> factory.after_deal(
            result,
            round,
            relation,
        ).prices_in_order(),
        factory.prices_in_order() ==> factory.after_deal(result, round, relation).prices_in_order(),
{
    lemma_factory_shift_in_order(
        factory.supply_price_range,
        factory.product_cost,
        spec_range_change_ratio(relation),
    );
    lemma_factory_shift_in_order(
        factory.supply_price_range,
        factory.product_cost,
        SHIFT_STEP as int,
    );
}

/// A range moved for a factory starts at the unit cost or above, and its
/// upper bound lies strictly above its lower one.
pub proof fn lemma_factory_shift_in_order(range: (Money, Money), min_cost: Money, ratio: int)
    requires
        min_cost <= MAX_COST,
    ensures
        spec_factory_shift(range, min_cost, ratio).0 >= min_cost,
        spec_factory_shift(range, min_cost, ratio).0 < spec_factory_shift(range, min_cost, ratio).1,
        spec_factory_shift(range, min_cost, ratio).1 <= MAX_PRICE,
{
    let moved = spec_shift_range_by_ratio(range, ratio);
    crate::fixed::lemma_clamp_range_valid(
        round_cent(crate::model::util::scaled_by_rate(range.0 as int, ratio)),
        round_cent(crate::model::util::scaled_by_rate(range.1 as int, ratio)),
        CENT as int,
    );
}

/// Starting a round and settling it leave the asking prices as they were.
pub proof fn lemma_rounds_keep_prices(factory: FactoryView, round: u64)
    ensures
        factory.after_start_round(round).supply_price_range == factory.supply_price_range,
        factory.after_start_round(round).product_cost == factory.product_cost,
        factory.after_settling(round).supply_price_range == factory.supply_price_range,
        factory.after_settling(round).product_cost == factory.product_cost,
        factory.prices_in_order() ==> factory.after_start_round(round).prices_in_order(),
        factory.prices_in_order() ==> factory.after_settling(round).prices_in_order(),
{
}

/// An attempt that was not matched, or not made yet, changes nothing: not
/// the asking prices, not the cash, not the stock, not the records.
pub proof fn lemma_idle_deal_changes_nothing(
    factory: FactoryView,
    logger: LoggerView,
    result: TradeResult,
    round: u64,
    relation: Option<IntervalRelation>,
)
    requires
        result is NotMatched || result is NotYet,
    ensures
        factory.after_deal(result, round, relation) == factory,
        logger_after_deal(logger, factory, result, round, relation) == logger,
{
}

/// A success takes exactly one unit from the stock of the round and adds
/// exactly the price to the cash, of every factory that remembers a stock
/// above zero for the round. Cash is an amount of 64 bits: where the sum
/// would pass the largest such amount, the cash stops there, and only there.
pub proof fn lemma_success_sells_one_unit(
    factory: FactoryView,
    price: Money,
    round: u64,
    relation: Option<IntervalRelation>,
)
    requires
        factory.amount.entries.contains_key(round),
        factory.amount.entries[round] > 0,
    ensures
        factory.after_deal(TradeResult::Success(price), round, relation).stock(round)
            == factory.stock(round) - 1,
        factory.cash + price <= u64::MAX ==> factory.after_deal(
            TradeResult::Success(price),
            round,
            relation,
        ).cash == factory.cash + price,
        factory.cash + price > u64::MAX ==> factory.after_deal(
            TradeResult::Success(price),
            round,
            relation,
        ).cash == u64::MAX,
{
}

impl View for Factory {
    type V = FactoryView;

    closed spec fn view(&self) -> FactoryView {
        FactoryView {
            id: self.id,
            name: self.name@,
            product_id: self.product_id,
            product_category: self.product_category,
            accountant: self.accountant@,
            supply_price_range: self.supply_price_range,
            amount: self.amount@,
            durability: self.durability,
            product_cost: self.product_cost,
            cash: self.cash,
            initial_stock: self.initial_stock,
            risk_appetite: self.risk_appetite,
            status: self.status,
        }
    }
}

/// The reference price of a new factory: the sampled price, kept between
/// `MIN_REFERENCE_PRICE` and `MAX_REFERENCE_PRICE`.
pub open spec fn reference_price(price_sample: Money) -> Money {
    if price_sample < MIN_REFERENCE_PRICE {
        MIN_REFERENCE_PRICE
    } else if price_sample > MAX_REFERENCE_PRICE {
        MAX_REFERENCE_PRICE
    } else {
        price_sample
    }
}

/// The unit cost of a new factory: the sampled cost, kept between a tenth of
/// a unit and `MAX_COST`.
pub open spec fn starting_cost(cost_sample: Money) -> Money {
    if cost_sample < TENTH {
        TENTH
    } else if cost_sample > MAX_COST {
        MAX_COST
    } else {
        cost_sample
    }
}

/// The cash of a new factory: ten times the sampled amount, which counts as
/// ten units at least; the largest amount where that does not fit.
pub open spec fn starting_cash(cash_sample: Money) -> Money {
    let base = if cash_sample < MIN_STARTING_CASH { MIN_STARTING_CASH } else { cash_sample };
    min_int(base * 10, u64::MAX as int) as u64
}

/// The first range of asking prices that comes of the draws `low` and
/// `high`: the range from `low` to `high`, kept at least one cent wide and
/// lifted to the cost floor.
pub open spec fn first_range(low: int, high: int, product_cost: Money) -> (Money, Money) {
    lifted_to_cost(clamp_range(low, high, CENT as int), product_cost)
}

/// Whether `range` can be the first range of asking prices of a factory
/// with the reference price `reference` and the unit cost `product_cost`:
/// the lower bound is drawn below the reference, the upper bound between
/// the lower bound and one and a half times the reference, and the range is
/// the [`first_range`] of the two draws.
pub open spec fn first_supply_range(
    reference: Money,
    product_cost: Money,
    range: (Money, Money),
) -> bool {
    exists|low: int, high: int|
        {
            &&& 0 <= low < reference
            &&& low <= high < reference + reference / 2
            &&& range == #[trigger] first_range(low, high, product_cost)
        }
}

/// Computes the [`first_range`] of two draws.
pub fn first_range_from_draws(low: Money, high: Money, product_cost: Money) -> (r: (Money, Money))
    requires
        product_cost <= MAX_COST,
    ensures
        r == first_range(low as int, high as int, product_cost),
        r.0 >= product_cost,
        r.0 < r.1 <= MAX_PRICE,
{
    let drawn = clamp_range_exec(low as u128, high as u128, CENT);
    lift_to_cost(drawn, product_cost)
}

impl Factory {
    /// Whether the factory is sound, as [`FactoryView::wf`] tells.
    pub open spec fn wf(&self) -> bool {
        self@.wf()
    }

    /// A factory for `product`, from a price, a unit cost and an amount of
    /// cash sampled from the product's distributions. The range of asking
    /// prices and the risk appetite are drawn at random; the range starts at
    /// the unit cost or above. The factory has no stock, and its books hold
    /// its cash under round zero.
    pub fn new(
        id: u64,
        name: String,
        product: &Product,
        price_sample: Money,
        cost_sample: Money,
        cash_sample: Money,
    ) -> (f: Self)
        ensures
            f.wf(),
            f@.id == id,
            f@.name == name@,
            f@.product_id == product.spec_id(),
            f@.product_category == product.spec_product_category(),
            f@.durability == product.spec_durability(),
            f@.product_cost == starting_cost(cost_sample),
            f@.cash == starting_cash(cash_sample),
            f@.initial_stock == 0,
            f@.status == FactoryStatus::Active,
            MIN_RISK_APPETITE <= f@.risk_appetite < MAX_RISK_APPETITE,
            first_supply_range(
                reference_price(price_sample),
                starting_cost(cost_sample),
                f@.supply_price_range,
            ),
            valid_range(f@.supply_price_range),
            f@.prices_in_order(),
            f@.amount.entries == Map::<u64, u16>::empty(),
            f@.amount.order == Seq::<u64>::empty(),
            f@.accountant.entries == Map::<u64, FinancialBill>::empty().insert(
                0,
                FinancialBill::spec_new(starting_cash(cash_sample)),
            ),
            f@.accountant.order == seq![0u64],
    {
        let reference: u64 = if price_sample < MIN_REFERENCE_PRICE {
            MIN_REFERENCE_PRICE
        } else if price_sample > MAX_REFERENCE_PRICE {
            MAX_REFERENCE_PRICE
        } else {
            price_sample
        };
        let lower = random_in_range(0, reference);
        let upper_bound: u64 = reference + reference / 2;
        let upper = random_in_range(lower, upper_bound);
        let product_cost: u64 = if cost_sample < TENTH {
            TENTH
        } else if cost_sample > MAX_COST {
            MAX_COST
        } else {
            cost_sample
        };
        let supply_price_range = first_range_from_draws(lower, upper, product_cost);
        assert(supply_price_range == first_range(lower as int, upper as int, product_cost));
        let base: u64 = if cash_sample < MIN_STARTING_CASH { MIN_STARTING_CASH } else { cash_sample };
        let cash: u64 = if base <= u64::MAX / 10 { base * 10 } else { u64::MAX };
        let risk_appetite = random_in_range(MIN_RISK_APPETITE, MAX_RISK_APPETITE);
        Factory {
            id,
            name,
            product_id: product.id(),
            accountant: Accountant::new(cash),
            product_category: product.product_category(),
            supply_price_range,
            amount: Window::new(STOCK_ROUNDS),
            durability: product.durability(),
            product_cost,
            cash,
            initial_stock: 0,
            risk_appetite,
            status: FactoryStatus::Active,
        }
    }

    /// The cash.
    pub fn cash(&self) -> (c: Money)
        ensures
            c == self@.cash,
    {
        self.cash
    }

    /// The id.
    pub fn id(&self) -> (i: u64)
        ensures
            i == self@.id,
    {
        self.id
    }

    /// The name.
    pub fn name(&self) -> (n: &str)
        ensures
            n@ == self@.name,
    {
        self.name.as_str()
    }

    /// The product that the factory makes.
    pub fn product_id(&self) -> (i: u64)
        ensures
            i == self@.product_id,
    {
        self.product_id
    }

    /// The kind of the product that the factory makes.
    pub fn product_category(&self) -> (c: ProductCategory)
        ensures
            c == self@.product_category,
    {
        self.product_category
    }

    /// The lowest and the highest price that the factory asks.
    pub fn supply_price_range(&self) -> (r: (Money, Money))
        ensures
            r == self@.supply_price_range,
    {
        self.supply_price_range
    }

    /// The cost of making one unit.
    pub fn product_cost(&self) -> (c: Money)
        ensures
            c == self@.product_cost,
    {
        self.product_cost
    }

    /// The share of unsold units that keeps, in parts per million.
    pub fn durability(&self) -> (d: Ratio)
        ensures
            d == self@.durability,
    {
        self.durability
    }

    /// The share of the cash that goes into a round's production, in parts
    /// per million.
    pub fn risk_appetite(&self) -> (r: Ratio)
        ensures
            r == self@.risk_appetite,
    {
        self.risk_appetite
    }

    /// Whether the factory takes part in the market.
    pub fn status(&self) -> (s: FactoryStatus)
        ensures
            s == self@.status,
    {
        self.status
    }

    /// Lets the factory take part in the market, or keeps it out.
    pub fn set_status(&mut self, status: FactoryStatus)
        ensures
            final(self)@ == (FactoryView { status, ..old(self)@ }),
    {
        self.status = status;
    }

    /// Sets the cash.
    pub fn set_cash(&mut self, cash: Money)
        ensures
            final(self)@ == (FactoryView { cash, ..old(self)@ }),
    {
        self.cash = cash;
    }

    /// Sets the cost of making one unit, which must be an amount above zero
    /// and at most `MAX_COST`.
    pub fn set_product_cost(&mut self, product_cost: Money)
        requires
            0 < product_cost <= MAX_COST,
        ensures
            final(self)@ == (FactoryView { product_cost, ..old(self)@ }),
    {
        self.product_cost = product_cost;
    }

    /// Sets the risk appetite, which must be at most 1.
    pub fn set_risk_appetite(&mut self, risk_appetite: Ratio)
        requires
            risk_appetite <= RATIO_ONE,
        ensures
            final(self)@ == (FactoryView { risk_appetite, ..old(self)@ }),
    {
        self.risk_appetite = risk_appetite;
    }

    /// Sets the range of asking prices.
    pub fn set_supply_price_range(&mut self, supply_price_range: (Money, Money))
        ensures
            final(self)@ == (FactoryView { supply_price_range, ..old(self)@ }),
    {
        self.supply_price_range = supply_price_range;
    }

    /// Writes `bill` into the books as the bill of `round`: over the bill
    /// that the books hold for the round, or as the bill of a new round.
    pub fn set_round_bill(&mut self, round: u64, bill: FinancialBill)
        requires
            old(self).wf(),
        ensures
            final(self).wf(),
            final(self)@ == (FactoryView {
                accountant: old(self)@.accountant.recorded(round, bill),
                ..old(self)@
            }),
    {
        self.accountant.add_bill(round, bill);
    }

    /// The units left for `round`, if the factory remembers the round.
    pub fn stock_of(&self, round: u64) -> (r: Option<u16>)
        ensures
            r == (if self@.amount.entries.contains_key(round) {
                Some(self@.amount.entries[round])
            } else {
                None
            }),
    {
        self.amount.get(round)
    }

    /// The rounds whose stock the factory remembers, oldest first: never
    /// more than `STOCK_ROUNDS`.
    pub fn stock_rounds(&self) -> (rounds: Vec<u64>)
        requires
            self.wf(),
        ensures
            rounds@ == self@.amount.order,
            rounds.len() <= STOCK_ROUNDS,
    {
        self.amount.order()
    }

    /// The number of bills in the books: never more than `MAX_BILLS`.
    pub fn bills_len(&self) -> (n: usize)
        requires
            self.wf(),
        ensures
            n == self@.accountant.entries.dom().len(),
            n <= MAX_BILLS,
    {
        self.accountant.bills_len()
    }

    /// The units left for `round`, or `DEFAULT_STOCK` for a round that the
    /// factory does not remember.
    pub fn get_stock(&self, round: u64) -> (s: u16)
        ensures
            s == self@.stock(round),
    {
        match self.amount.get(round) {
            Some(s) => s,
            None => DEFAULT_STOCK,
        }
    }

    /// The units on offer at the start of the round planned last.
    pub fn get_initial_stock(&self) -> (s: u16)
        ensures
            s == self@.initial_stock,
    {
        self.initial_stock
    }

    /// The bill of `round`, or an empty bill where the books hold none.
    pub fn get_round_bill(&self, round: u64) -> (bill: FinancialBill)
        ensures
            bill == bill_or_default(self@.accountant, round),
    {
        match self.accountant.get_bill(round) {
            Some(bill) => bill,
            None => FinancialBill::new(0),
        }
    }

    /// Sets the units left for `round`: the stock of a round that the
    /// factory remembers is replaced, that of another round is entered as a
    /// new round.
    pub fn set_stock(&mut self, round: u64, stock: u16)
        requires
            old(self).wf(),
        ensures
            final(self).wf(),
            final(self)@ == (FactoryView {
                amount: old(self)@.amount.recorded(round, stock),
                ..old(self)@
            }),
    {
        self.amount.record(round, stock);
    }

    /// Records that the range of asking prices moves to `new_range`.
    fn log_shift(&self, round: u64, new_range: (Money, Money), outcome: &str, logger: &mut Logger)
        ensures
            final(logger)@ == (LoggerView {
                records: old(logger)@.records.push(
                    shift_record(self@, old(logger)@, round, new_range, outcome@),
                ),
                ..old(logger)@
            }),
    {
        let change = get_range_change_info(self.supply_price_range, new_range);
        logger.log_factory_range_optimization(
            round,
            self.id,
            self.name.clone(),
            self.product_id,
            self.product_category.name().to_owned(),
            self.supply_price_range,
            new_range,
            change.lower_change,
            change.upper_change,
            change.total_change,
            change.lower_change_ratio,
            change.upper_change_ratio,
            outcome,
        );
    }

    /// Starts `round`: plans the production from the bill of the round
    /// before, pays for it, and enters the stock in the books of the round
    /// and among the stocks remembered. Rounds are counted from one.
    pub fn start_round(&mut self, round: u64)
        requires
            old(self).wf(),
            round >= 1,
        ensures
            final(self).wf(),
            final(self)@ == old(self)@.after_start_round(round),
            final(self)@.amount.entries.contains_key(round),
            final(self)@.stock(round) == final(self)@.initial_stock,
            bill_or_default(final(self)@.accountant, round).initial_stock == final(self)@.initial_stock,
    {
        let last_bill = self.accountant.get_bill_or_default(round - 1);
        let planned = plan_production(&last_bill, self.risk_appetite);
        let budget = production_under_budget(self.cash, self.risk_appetite, self.product_cost);
        let need: u16 = if planned <= budget { planned } else { budget };
        let stock: u16 = if need <= u16::MAX - last_bill.remaining_stock {
            last_bill.remaining_stock + need
        } else {
            u16::MAX
        };
        proof {
            lemma_production_is_affordable(
                self.cash as int,
                self.risk_appetite as int,
                self.product_cost as int,
                need as int,
            );
        }
        let cost: u128 = (need as u128) * (self.product_cost as u128);
        self.cash = self.cash - (cost as u64);
        self.initial_stock = stock;
        let mut bill = self.accountant.get_bill_or_default(round);
        bill.set_cash(self.cash);
        bill.set_initial_stock(stock);
        bill.set_total_production(need);
        self.accountant.store_bill(round, bill);
        self.amount.record(round, stock);
    }

    /// Takes in the outcome of one attempt of `round`, as
    /// [`FactoryView::after_deal`] tells, and records every move of the
    /// range of asking prices.
    pub fn deal(
        &mut self,
        result: &TradeResult,
        round: u64,
        interval_relation: Option<IntervalRelation>,
        logger: &mut Logger,
    )
        requires
            old(self).wf(),
        ensures
            final(self).wf(),
            final(self)@ == old(self)@.after_deal(*result, round, interval_relation),
            final(logger)@ == logger_after_deal(
                old(logger)@,
                old(self)@,
                *result,
                round,
                interval_relation,
            ),
            old(self)@.deal_moves_range(*result, round) ==> final(self)@.prices_in_order(),
            old(self)@.prices_in_order() ==> final(self)@.prices_in_order(),
    {
        proof {
            lemma_deal_keeps_prices_in_order(self@, *result, round, interval_relation);
        }
        let left = self.amount.get(round);
        match left {
            Some(units) => {
                if units == 0 {
                    return;
                }
            },
            None => {},
        }
        match *result {
            TradeResult::NotMatched => {},
            TradeResult::NotYet => {},
            TradeResult::Failed => {
                let ratio = get_range_change_ratio(interval_relation);
                let new_range = factory_shift_range_by_ratio(
                    self.supply_price_range,
                    self.product_cost,
                    ratio,
                );
                self.log_shift(round, new_range, "Failed", logger);
                self.supply_price_range = new_range;
            },
            TradeResult::Success(price) => {
                let new_range = factory_shift_range_by_ratio(
                    self.supply_price_range,
                    self.product_cost,
                    SHIFT_STEP,
                );
                self.log_shift(round, new_range, "Success", logger);
                self.supply_price_range = new_range;
                match left {
                    Some(units) => {
                        self.amount.replace(round, units - 1);
                    },
                    None => {},
                }
                self.cash = self.cash.saturating_add(price);
            },
        }
    }

    /// Settles `round`: closes the bill of the round, as
    /// [`FactoryView::closed_bill`] tells.
    pub fn settling_after_round(&mut self, round: u64)
        requires
            old(self).wf(),
        ensures
            final(self).wf(),
            final(self)@ == old(self)@.after_settling(round),
    {
        let mut bill = self.accountant.get_bill_or_default(round);
        let remaining: u16 = match self.amount.get(round) {
            Some(units) => units,
            None => 0,
        };
        let rot = rot_stock(remaining, self.durability);
        let sold: u16 = if bill.initial_stock >= remaining {
            bill.initial_stock - remaining
        } else {
            0
        };
        let revenue: i128 = bill.cash as i128 - self.cash as i128;
        let units_gone: u32 = sold as u32 + rot as u32;
        proof {
            lemma_mul_nonneg(units_gone as int, self.product_cost as int);
            lemma_mul_le(
                units_gone as int,
                self.product_cost as int,
                0x2_0000,
                MAX_COST as int,
            );
        }
        let cost_of_goods_gone: i128 = (units_gone as i128) * (self.product_cost as i128);
        bill.set_rot_stock(rot);
        bill.set_units_sold(sold);
        bill.set_revenue(revenue);
        bill.set_cash(self.cash);
        bill.set_remaining_stock(remaining - rot);
        bill.set_profit(revenue - cost_of_goods_gone);
        self.accountant.store_bill(round, bill);
    }

    /// A price drawn at random from the range of asking prices and rounded
    /// to the cent.
    pub fn offer_price(&self, round: u64) -> (price: Money)
        ensures
            exists|draw: u64|
                #![trigger round_cent(draw as int)]
                asked_from(draw, self@.supply_price_range) && price == round_cent(draw as int),
    {
        let (lower, upper) = self.supply_price_range;
        let draw = if lower < upper { random_in_range(lower, upper) } else { lower };
        assert(asked_from(draw, self@.supply_price_range));
        offer_from_draw(draw, self.supply_price_range)
    }
}

/// Whether `draw` can be drawn as an asking price from `range`: a point of
/// the half-open range, or the lower bound itself where the range holds no
/// point.
pub open spec fn asked_from(draw: Money, range: (Money, Money)) -> bool {
    if range.0 < range.1 {
        range.0 <= draw < range.1
    } else {
        draw == range.0
    }
}

/// The price that comes of a draw from a range of asking prices: the draw
/// rounded to the cent.
pub fn offer_from_draw(draw: Money, range: (Money, Money)) -> (price: Money)
    ensures
        price == round_cent(draw as int),
{
    round_to_nearest_cent(draw)
}

} // verus!
