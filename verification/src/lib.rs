//! Verified core of an agent-first Arbitrum command-line tool: calldata
//! encoding for the Create Protocol `AgentDeposit` contract, hex and decimal
//! numerals as JSON-RPC uses them, and the decisions the commands make
//! between their RPC round trips.

pub mod numeral;
pub mod rpc;
pub mod agent_deposit;
pub mod commands;
pub mod output;
pub mod laws;
