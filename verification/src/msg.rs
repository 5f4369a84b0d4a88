use vstd::prelude::*;
use crate::schedule::Schedule;

verus! {

/// Configuration fixed when the ledger is instantiated.
#[derive(Clone, Debug)]
pub struct InstantiateMsg {
    /// Governance contract address.
    pub gov: String,
    /// Account which can create new allocations.
    pub owner: String,
    /// Account which will receive refunds upon allocation terminations.
    pub refund_recipient: String,
    /// Address of the token being vested.
    pub whale_token: String,
    /// Unlocking schedule used by every allocation that names none of its
    /// own.
    pub default_unlock_schedule: Schedule,
}

/// The config query returns the instantiation parameters unchanged.
pub type ConfigResponse = InstantiateMsg;

/// One allocation record per beneficiary account.
#[derive(Clone, Copy, Debug, PartialEq)]
pub struct AllocationInfo {
    /// Total number of tokens allocated to this account.
    pub total_amount: u128,
    /// Number of tokens already withdrawn by the beneficiary.
    pub withdrawn_amount: u128,
    /// Parameters controlling the vesting process.
    pub vest_schedule: Schedule,
    /// Parameters controlling the unlocking process; the ledger's default
    /// unlock schedule applies when absent.
    pub unlock_schedule: Option<Schedule>,
    /// Whether this allocation has been terminated.
    pub canceled: bool,
}

/// The allocation query returns the stored record unchanged.
pub type AllocationResponse = AllocationInfo;

/// Commands accepted inside a token-send callback: the sent tokens fund
/// the operation. The host decodes the callback's binary payload into
/// this shape before calling in.
#[derive(Debug)]
pub enum ReceiveMsg {
    /// Create new allocations, one per entry.
    CreateAllocations { allocations: Vec<(String, AllocationInfo)> },
    /// Raise the total grant of one existing allocation.
    IncreaseAllocation { allocation: (String, u128) },
}

/// Commands that mutate the ledger. The host decodes its wire format,
/// including the token contract's receive callback, into this shape.
#[derive(Debug)]
pub enum ExecuteMsg {
    /// Admin function: hand the owner role to another account.
    TransferOwnership { new_owner: String },
    /// Token-send callback carrying `amount` freshly deposited tokens from
    /// `sender` and the decoded instruction for them.
    Receive { sender: String, amount: u128, msg: ReceiveMsg },
    /// Claim whatever is withdrawable for the calling account.
    Withdraw {},
    /// Admin function: terminate an allocation, refunding the unvested
    /// remainder.
    Terminate { user_address: String },
}

/// Read-only questions about the ledger.
#[derive(Clone, Debug)]
pub enum QueryMsg {
    /// Configuration of the ledger.
    Config {},
    /// Aggregate token counters of the ledger.
    State {},
    /// Parameters and current status of one allocation.
    Allocation { account: String },
    /// How many tokens a withdrawal attempt would release.
    SimulateWithdraw { account: String, timestamp: Option<u64> },
}

/// Aggregate token counters of the ledger.
#[derive(Clone, Copy, Debug, PartialEq, Eq, Structural)]
pub struct StateResponse {
    /// Tokens ever deposited into the ledger.
    pub total_whale_deposited: u128,
    /// Tokens not yet promised to any allocation.
    pub remaining_whale_tokens: u128,
}

/// The breakdown returned by the simulate-withdraw query and used
/// internally by the withdraw operation.
#[derive(Clone, Copy, Debug, PartialEq, Eq, Structural)]
pub struct SimulateWithdrawResponse {
    /// Total number of tokens allocated to this account.
    pub total_whale_locked: u128,
    /// Tokens unlocked up to the queried time.
    pub total_whale_unlocked: u128,
    /// Tokens vested up to the queried time.
    pub total_whale_vested: u128,
    /// Tokens already withdrawn by the beneficiary.
    pub withdrawn_amount: u128,
    /// Tokens the beneficiary could withdraw at the queried time.
    pub withdrawable_amount: u128,
}

/// A token transfer the host must carry out after a successful
/// operation.
#[derive(Clone, Debug, PartialEq)]
pub struct TransferMsg {
    /// Account the tokens go to.
    pub recipient: String,
    /// Number of tokens to move; always positive.
    pub amount: u128,
}

/// Answers to `QueryMsg`, one variant per question.
#[derive(Clone, Debug)]
pub enum QueryAnswer {
    Config(ConfigResponse),
    State(StateResponse),
    Allocation(AllocationResponse),
    SimulateWithdraw(SimulateWithdrawResponse),
}

} // verus!
