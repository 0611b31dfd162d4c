//! The books of one factory for one round.
use crate::fixed::{lemma_mul_le, lemma_mul_nonneg, Money, RATIO_ONE};
use vstd::prelude::*;

verus! {

/// What a factory booked for one round. Stocks are counted in units, money
/// in millionths; revenue and profit are signed.
#[derive(Debug, Clone, Copy)]
pub struct FinancialBill {
    /// The cash of the factory when the bill was last written.
    pub cash: Money,
    /// The units sold in the round.
    pub units_sold: u16,
    /// The revenue of the round.
    pub revenue: i128,
    /// The total stock of the round.
    pub total_stock: u16,
    /// The units made for the round.
    pub total_production: u16,
    /// The units on offer when the round began.
    pub initial_stock: u16,
    /// The unsold units that were lost at the end of the round.
    pub rot_stock: u16,
    /// The units carried over to the next round.
    pub remaining_stock: u16,
    /// The production cost of the round.
    pub production_cost: Money,
    /// The profit of the round.
    pub profit: i128,
}

/// The largest revenue, either way, for which the margin can be computed.
pub const LEDGER_LIMIT: i128 = 0x10_0000_0000_0000_0000_0000_0000;

/// The absolute value of an integer.
pub open spec fn magnitude(x: int) -> int {
    if x < 0 { -x } else { x }
}

/// The share of the revenue that is left after the production cost, in parts
/// per million and rounded toward zero; zero where there is no revenue.
pub open spec fn gross_margin(revenue: int, production_cost: int) -> int {
    if revenue == 0 {
        0
    } else {
        let delta = revenue - production_cost;
        let size = (magnitude(delta) * RATIO_ONE) / magnitude(revenue);
        if (delta < 0) != (revenue < 0) {
            -size
        } else {
            size
        }
    }
}

impl FinancialBill {
    /// The bill that [`FinancialBill::new`] makes.
    pub open spec fn spec_new(cash: Money) -> FinancialBill {
        FinancialBill {
            cash,
            units_sold: 0,
            revenue: 0,
            total_stock: 0,
            total_production: 0,
            initial_stock: 0,
            rot_stock: 0,
            remaining_stock: 0,
            production_cost: 0,
            profit: 0,
        }
    }

    /// A bill with the given cash and nothing else booked.
    pub fn new(cash: Money) -> (bill: Self)
        ensures
            bill == Self::spec_new(cash),
    {
        FinancialBill {
            cash,
            units_sold: 0,
            revenue: 0,
            total_stock: 0,
            total_production: 0,
            initial_stock: 0,
            rot_stock: 0,
            remaining_stock: 0,
            production_cost: 0,
            profit: 0,
        }
    }

    /// Books the units sold.
    pub fn set_units_sold(&mut self, units_sold: u16)
        ensures
            *final(self) == (FinancialBill { units_sold, ..*old(self) }),
    {
        self.units_sold = units_sold;
    }

    /// Books the revenue.
    pub fn set_revenue(&mut self, revenue: i128)
        ensures
            *final(self) == (FinancialBill { revenue, ..*old(self) }),
    {
        self.revenue = revenue;
    }

    /// Books the total stock.
    pub fn set_total_stock(&mut self, total_stock: u16)
        ensures
            *final(self) == (FinancialBill { total_stock, ..*old(self) }),
    {
        self.total_stock = total_stock;
    }

    /// Books the units made.
    pub fn set_total_production(&mut self, total_production: u16)
        ensures
            *final(self) == (FinancialBill { total_production, ..*old(self) }),
    {
        self.total_production = total_production;
    }

    /// Books the units on offer at the start.
    pub fn set_initial_stock(&mut self, initial_stock: u16)
        ensures
            *final(self) == (FinancialBill { initial_stock, ..*old(self) }),
    {
        self.initial_stock = initial_stock;
    }

    /// Books the units lost.
    pub fn set_rot_stock(&mut self, rot_stock: u16)
        ensures
            *final(self) == (FinancialBill { rot_stock, ..*old(self) }),
    {
        self.rot_stock = rot_stock;
    }

    /// Books the units carried over.
    pub fn set_remaining_stock(&mut self, remaining_stock: u16)
        ensures
            *final(self) == (FinancialBill { remaining_stock, ..*old(self) }),
    {
        self.remaining_stock = remaining_stock;
    }

    /// Books the production cost.
    pub fn set_production_cost(&mut self, production_cost: Money)
        ensures
            *final(self) == (FinancialBill { production_cost, ..*old(self) }),
    {
        self.production_cost = production_cost;
    }

    /// Books the profit.
    pub fn set_profit(&mut self, profit: i128)
        ensures
            *final(self) == (FinancialBill { profit, ..*old(self) }),
    {
        self.profit = profit;
    }

    /// Books the cash.
    pub fn set_cash(&mut self, cash: Money)
        ensures
            *final(self) == (FinancialBill { cash, ..*old(self) }),
    {
        self.cash = cash;
    }

    /// The [`gross_margin`] of the round. The revenue must lie within
    /// `LEDGER_LIMIT` either way, so that the margin fits the result.
    pub fn get_cogs(&self) -> (rate: i128)
        requires
            -LEDGER_LIMIT <= self.revenue <= LEDGER_LIMIT,
        ensures
            rate == gross_margin(self.revenue as int, self.production_cost as int),
    {
        if self.revenue == 0 {
            return 0;
        }
        let delta: i128 = self.revenue - self.production_cost as i128;
        let delta_size: u128 = if delta < 0 { (-delta) as u128 } else { delta as u128 };
        let revenue_size: u128 = if self.revenue < 0 {
            (-self.revenue) as u128
        } else {
            self.revenue as u128
        };
        proof {
            lemma_mul_nonneg(delta_size as int, RATIO_ONE as int);
            lemma_mul_le(
                delta_size as int,
                RATIO_ONE as int,
                0x20_0000_0000_0000_0000_0000_0000,
                RATIO_ONE as int,
            );
        }
        let size: u128 = (delta_size * (RATIO_ONE as u128)) / revenue_size;
        if (delta < 0) != (self.revenue < 0) {
            -(size as i128)
        } else {
            size as i128
        }
    }
}

} // verus!
