//! The state of a factory at the end of a round.
use crate::fixed::Money;
use crate::model::factory::FactoryStatus;
use vstd::prelude::*;

verus! {

/// A snapshot of a factory and of its bill for the round.
#[derive(Clone, Debug)]
pub struct FactoryEndOfRoundLog {
    /// When the snapshot was taken, in milliseconds since the epoch.
    pub timestamp: i64,
    /// The round that had just ended.
    pub round: u64,
    /// The run that the record belongs to.
    pub task_id: String,
    /// The factory.
    pub factory_id: u64,
    /// The factory's name.
    pub factory_name: String,
    /// The product that the factory makes.
    pub product_id: u64,
    /// The kind of that product, by name.
    pub product_category: String,
    /// The cash that the factory held.
    pub cash: Money,
    /// The units on offer when the round began.
    pub initial_stock: u16,
    /// The units carried over to the next round.
    pub remaining_stock: u16,
    /// The lower bound of the asking prices.
    pub supply_range_lower: Money,
    /// The upper bound of the asking prices.
    pub supply_range_upper: Money,
    /// The units sold in the round.
    pub units_sold: u16,
    /// The revenue booked for the round.
    pub revenue: i128,
    /// The total stock booked for the round.
    pub total_stock: u16,
    /// The units made in the round.
    pub total_production: u16,
    /// The unsold units that were lost.
    pub rot_stock: u16,
    /// The production cost booked for the round.
    pub production_cost: Money,
    /// The profit booked for the round.
    pub profit: i128,
    /// Whether the factory took part in the market.
    pub status: FactoryStatus,
}

/// What a [`FactoryEndOfRoundLog`] holds, with each text as its characters.
pub struct FactoryEndOfRoundLogView {
    pub timestamp: i64,
    pub round: u64,
    pub task_id: Seq<char>,
    pub factory_id: u64,
    pub factory_name: Seq<char>,
    pub product_id: u64,
    pub product_category: Seq<char>,
    pub cash: Money,
    pub initial_stock: u16,
    pub remaining_stock: u16,
    pub supply_range_lower: Money,
    pub supply_range_upper: Money,
    pub units_sold: u16,
    pub revenue: i128,
    pub total_stock: u16,
    pub total_production: u16,
    pub rot_stock: u16,
    pub production_cost: Money,
    pub profit: i128,
    pub status: FactoryStatus,
}

impl View for FactoryEndOfRoundLog {
    type V = FactoryEndOfRoundLogView;

    open spec fn view(&self) -> FactoryEndOfRoundLogView {
        FactoryEndOfRoundLogView {
            timestamp: self.timestamp,
            round: self.round,
            task_id: self.task_id@,
            factory_id: self.factory_id,
            factory_name: self.factory_name@,
            product_id: self.product_id,
            product_category: self.product_category@,
            cash: self.cash,
            initial_stock: self.initial_stock,
            remaining_stock: self.remaining_stock,
            supply_range_lower: self.supply_range_lower,
            supply_range_upper: self.supply_range_upper,
            units_sold: self.units_sold,
            revenue: self.revenue,
            total_stock: self.total_stock,
            total_production: self.total_production,
            rot_stock: self.rot_stock,
            production_cost: self.production_cost,
            profit: self.profit,
            status: self.status,
        }
    }
}

/// The text of the statement that creates the table of factory snapshots.
pub const CREATE_TABLE_SQL: &'static str = r#"
    CREATE TABLE IF NOT EXISTS factory_end_of_round_logs (
        id INT AUTO_INCREMENT PRIMARY KEY,
        timestamp BIGINT NOT NULL,
        round INT UNSIGNED NOT NULL,
        task_id VARCHAR(255) NOT NULL,
        factory_id INT UNSIGNED NOT NULL,
        factory_name VARCHAR(255) NOT NULL,
        product_id INT UNSIGNED NOT NULL,
        product_category VARCHAR(255) NOT NULL,
        cash DOUBLE NOT NULL,
        initial_stock SMALLINT NOT NULL,
        remaining_stock SMALLINT NOT NULL,
        supply_range_lower DOUBLE NOT NULL,
        supply_range_upper DOUBLE NOT NULL,
        units_sold SMALLINT NOT NULL,
        revenue DOUBLE NOT NULL,
        total_stock SMALLINT NOT NULL,
        total_production SMALLINT NOT NULL,
        rot_stock SMALLINT NOT NULL,
        production_cost DOUBLE NOT NULL,
        profit DOUBLE NOT NULL,
        created_at TIMESTAMP DEFAULT CURRENT_TIMESTAMP
    ) ENGINE=InnoDB DEFAULT CHARSET=utf8mb4;
    "#;

impl FactoryEndOfRoundLog {
    /// A snapshot with the given parts.
    pub fn new(
        timestamp: i64,
        round: u64,
        task_id: String,
        factory_id: u64,
        factory_name: String,
        product_id: u64,
        product_category: String,
        cash: Money,
        initial_stock: u16,
        remaining_stock: u16,
        supply_range_lower: Money,
        supply_range_upper: Money,
        units_sold: u16,
        revenue: i128,
        total_stock: u16,
        total_production: u16,
        rot_stock: u16,
        production_cost: Money,
        profit: i128,
        status: FactoryStatus,
    ) -> (log: Self)
        ensures
            log@ == (FactoryEndOfRoundLogView {
                timestamp: timestamp,
                round: round,
                task_id: task_id@,
                factory_id: factory_id,
                factory_name: factory_name@,
                product_id: product_id,
                product_category: product_category@,
                cash: cash,
                initial_stock: initial_stock,
                remaining_stock: remaining_stock,
                supply_range_lower: supply_range_lower,
                supply_range_upper: supply_range_upper,
                units_sold: units_sold,
                revenue: revenue,
                total_stock: total_stock,
                total_production: total_production,
                rot_stock: rot_stock,
                production_cost: production_cost,
                profit: profit,
                status: status,
            }),
    {
        FactoryEndOfRoundLog {
            timestamp,
            round,
            task_id,
            factory_id,
            factory_name,
            product_id,
            product_category,
            cash,
            initial_stock,
            remaining_stock,
            supply_range_lower,
            supply_range_upper,
            units_sold,
            revenue,
            total_stock,
            total_production,
            rot_stock,
            production_cost,
            profit,
            status,
        }
    }
}

/// The statement that creates the table of factory snapshots.
pub fn generate_create_table_sql() -> (sql: String)
    ensures
        sql@ == CREATE_TABLE_SQL@,
{
    CREATE_TABLE_SQL.to_owned()
}

} // verus!
