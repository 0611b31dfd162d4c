//! The cash that an agent holds at the end of a round.
use crate::fixed::Money;
use vstd::prelude::*;

verus! {

/// A snapshot of an agent's cash.
#[derive(Clone, Debug)]
pub struct AgentCashLog {
    /// When the snapshot was taken, in milliseconds since the epoch.
    pub timestamp: i64,
    /// The round that had just ended.
    pub round: u64,
    /// The run that the record belongs to.
    pub task_id: String,
    /// The agent.
    pub agent_id: u64,
    /// The agent's name.
    pub agent_name: String,
    /// The cash that the agent held.
    pub cash: Money,
    /// The trades made in the run so far.
    pub total_trades: u64,
}

/// What a [`AgentCashLog`] holds, with each text as its characters.
pub struct AgentCashLogView {
    pub timestamp: i64,
    pub round: u64,
    pub task_id: Seq<char>,
    pub agent_id: u64,
    pub agent_name: Seq<char>,
    pub cash: Money,
    pub total_trades: u64,
}

impl View for AgentCashLog {
    type V = AgentCashLogView;

    open spec fn view(&self) -> AgentCashLogView {
        AgentCashLogView {
            timestamp: self.timestamp,
            round: self.round,
            task_id: self.task_id@,
            agent_id: self.agent_id,
            agent_name: self.agent_name@,
            cash: self.cash,
            total_trades: self.total_trades,
        }
    }
}

impl AgentCashLog {
    /// A snapshot with the given parts.
    pub fn new(
        timestamp: i64,
        round: u64,
        task_id: String,
        agent_id: u64,
        agent_name: String,
        cash: Money,
        total_trades: u64,
    ) -> (log: Self)
        ensures
            log@ == (AgentCashLogView {
                timestamp: timestamp,
                round: round,
                task_id: task_id@,
                agent_id: agent_id,
                agent_name: agent_name@,
                cash: cash,
                total_trades: total_trades,
            }),
    {
        AgentCashLog {
            timestamp,
            round,
            task_id,
            agent_id,
            agent_name,
            cash,
            total_trades,
        }
    }
}

} // verus!
