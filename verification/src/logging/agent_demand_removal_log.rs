//! The record of an agent that stops wanting a product.
use crate::fixed::{Money, Ratio};
use vstd::prelude::*;

verus! {

/// An agent stopped wanting a product.
#[derive(Clone, Debug)]
pub struct AgentDemandRemovalLog {
    /// When the demand was removed, in milliseconds since the epoch.
    pub timestamp: i64,
    /// The round in which the demand was removed.
    pub round: u64,
    /// The run that the record belongs to.
    pub task_id: String,
    /// The agent.
    pub agent_id: u64,
    /// The agent's name.
    pub agent_name: String,
    /// The product that the agent no longer wants.
    pub product_id: u64,
    /// The cash that the agent held.
    pub agent_cash: Money,
    /// The price that the agent first believed in.
    pub agent_pref_original_price: Option<Money>,
    /// The agent's elasticity for the product.
    pub agent_pref_original_elastic: Option<Ratio>,
    /// The price that the agent believed in last.
    pub agent_pref_current_price: Option<Money>,
    /// The lower bound of the agent's acceptable prices.
    pub agent_pref_current_range_lower: Option<Money>,
    /// The upper bound of the agent's acceptable prices.
    pub agent_pref_current_range_upper: Option<Money>,
    /// Why the demand was removed.
    pub removal_reason: String,
}

/// What a [`AgentDemandRemovalLog`] holds, with each text as its characters.
pub struct AgentDemandRemovalLogView {
    pub timestamp: i64,
    pub round: u64,
    pub task_id: Seq<char>,
    pub agent_id: u64,
    pub agent_name: Seq<char>,
    pub product_id: u64,
    pub agent_cash: Money,
    pub agent_pref_original_price: Option<Money>,
    pub agent_pref_original_elastic: Option<Ratio>,
    pub agent_pref_current_price: Option<Money>,
    pub agent_pref_current_range_lower: Option<Money>,
    pub agent_pref_current_range_upper: Option<Money>,
    pub removal_reason: Seq<char>,
}

impl View for AgentDemandRemovalLog {
    type V = AgentDemandRemovalLogView;

    open spec fn view(&self) -> AgentDemandRemovalLogView {
        AgentDemandRemovalLogView {
            timestamp: self.timestamp,
            round: self.round,
            task_id: self.task_id@,
            agent_id: self.agent_id,
            agent_name: self.agent_name@,
            product_id: self.product_id,
            agent_cash: self.agent_cash,
            agent_pref_original_price: self.agent_pref_original_price,
            agent_pref_original_elastic: self.agent_pref_original_elastic,
            agent_pref_current_price: self.agent_pref_current_price,
            agent_pref_current_range_lower: self.agent_pref_current_range_lower,
            agent_pref_current_range_upper: self.agent_pref_current_range_upper,
            removal_reason: self.removal_reason@,
        }
    }
}

/// The text of the statement that creates the table of demand removals.
pub const CREATE_TABLE_SQL: &'static str = r#"
    CREATE TABLE IF NOT EXISTS agent_demand_removal_logs (
        id INT AUTO_INCREMENT PRIMARY KEY,
        timestamp BIGINT NOT NULL,
        round INT UNSIGNED NOT NULL,
        task_id VARCHAR(255) NOT NULL,
        agent_id INT UNSIGNED NOT NULL,
        agent_name VARCHAR(255) NOT NULL,
        product_id INT UNSIGNED NOT NULL,
        agent_cash DOUBLE NOT NULL,
        agent_pref_original_price DOUBLE,
        agent_pref_original_elastic DOUBLE,
        agent_pref_current_price DOUBLE,
        agent_pref_current_range_lower DOUBLE,
        agent_pref_current_range_upper DOUBLE,
        removal_reason VARCHAR(255) NOT NULL,
        created_at TIMESTAMP DEFAULT CURRENT_TIMESTAMP
    ) ENGINE=InnoDB DEFAULT CHARSET=utf8mb4;
    "#;

impl AgentDemandRemovalLog {
    /// A record with the given parts.
    pub fn new(
        timestamp: i64,
        round: u64,
        task_id: String,
        agent_id: u64,
        agent_name: String,
        product_id: u64,
        agent_cash: Money,
        agent_pref_original_price: Option<Money>,
        agent_pref_original_elastic: Option<Ratio>,
        agent_pref_current_price: Option<Money>,
        agent_pref_current_range_lower: Option<Money>,
        agent_pref_current_range_upper: Option<Money>,
        removal_reason: &str,
    ) -> (log: Self)
        ensures
            log@ == (AgentDemandRemovalLogView {
                timestamp: timestamp,
                round: round,
                task_id: task_id@,
                agent_id: agent_id,
                agent_name: agent_name@,
                product_id: product_id,
                agent_cash: agent_cash,
                agent_pref_original_price: agent_pref_original_price,
                agent_pref_original_elastic: agent_pref_original_elastic,
                agent_pref_current_price: agent_pref_current_price,
                agent_pref_current_range_lower: agent_pref_current_range_lower,
                agent_pref_current_range_upper: agent_pref_current_range_upper,
                removal_reason: removal_reason@,
            }),
    {
        AgentDemandRemovalLog {
            timestamp,
            round,
            task_id,
            agent_id,
            agent_name,
            product_id,
            agent_cash,
            agent_pref_original_price,
            agent_pref_original_elastic,
            agent_pref_current_price,
            agent_pref_current_range_lower,
            agent_pref_current_range_upper,
            removal_reason: removal_reason.to_owned(),
        }
    }
}

/// The statement that creates the table of demand removals.
pub fn generate_create_table_sql() -> (sql: String)
    ensures
        sql@ == CREATE_TABLE_SQL@,
{
    CREATE_TABLE_SQL.to_owned()
}

} // verus!
