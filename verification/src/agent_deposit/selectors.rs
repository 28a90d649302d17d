//! ABI selectors of the Create Protocol `AgentDeposit` contract, as the
//! deployed Sepolia ABI (`AgentDeposit.sol`) gives them.

use vstd::prelude::*;

verus! {

/// `balanceOf(address)`: USDC the agent has on deposit.
pub const BALANCE_OF: &'static str = "0x70a08231";

/// `deposit(uint256)`: pull USDC from the caller into the agent's balance.
pub const DEPOSIT: &'static str = "0xb6b55f25";

/// `withdraw(uint256)`: push USDC back to the caller.
pub const WITHDRAW: &'static str = "0x2e1a7d4d";

/// `isRegistered(address)`: whether the address is a known agent.
pub const IS_REGISTERED: &'static str = "0xc3c5a547";

} // verus!
