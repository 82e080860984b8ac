//! The notifications that committed operations give rise to.
//!
//! An operation that commits hands back the notification to publish; one that
//! fails hands back none. Publishing is left to the caller.

use vstd::prelude::*;
use crate::types::{Account, Address, RefundMode, Settlement};

verus! {

/// The contract has been initialised.
#[derive(Clone, Copy, Debug, PartialEq, Eq, Structural)]
pub struct BountyEscrowInitialized {
    pub admin: Address,
    pub token: Address,
    pub timestamp: u64,
}

/// Funds have been locked for a bounty. `amount` is what went into custody.
#[derive(Clone, Copy, Debug, PartialEq, Eq, Structural)]
pub struct FundsLocked {
    pub bounty_id: u64,
    pub amount: i128,
    pub depositor: Address,
    pub deadline: u64,
}

/// Funds have been released. `amount` is what the recipient receives.
#[derive(Clone, Copy, Debug, PartialEq, Eq, Structural)]
pub struct FundsReleased {
    pub bounty_id: u64,
    pub amount: i128,
    pub recipient: Address,
    pub timestamp: u64,
    pub remaining_amount: i128,
}

/// Funds have been refunded.
#[derive(Clone, Copy, Debug, PartialEq, Eq, Structural)]
pub struct FundsRefunded {
    pub bounty_id: u64,
    pub amount: i128,
    pub refund_to: Address,
    pub timestamp: u64,
    pub refund_mode: RefundMode,
    pub remaining_amount: i128,
}

/// The contract has been paused.
#[derive(Clone, Copy, Debug, PartialEq, Eq, Structural)]
pub struct ContractPaused {
    pub paused_by: Address,
    pub timestamp: u64,
}

/// The pause has been lifted.
#[derive(Clone, Copy, Debug, PartialEq, Eq, Structural)]
pub struct ContractUnpaused {
    pub unpaused_by: Address,
    pub timestamp: u64,
}

/// The summary of a batch of locks.
#[derive(Clone, Copy, Debug, PartialEq, Eq, Structural)]
pub struct BatchFundsLocked {
    pub count: u32,
    pub total_amount: i128,
    pub timestamp: u64,
}

/// The summary of a batch of releases.
#[derive(Clone, Copy, Debug, PartialEq, Eq, Structural)]
pub struct BatchFundsReleased {
    pub count: u32,
    pub total_amount: i128,
    pub timestamp: u64,
}

/// A release schedule has been created.
#[derive(Clone, Copy, Debug, PartialEq, Eq, Structural)]
pub struct ScheduleCreated {
    pub bounty_id: u64,
    pub schedule_id: u32,
    pub amount: i128,
    pub timestamp: u64,
    pub created_by: Address,
    pub created_at: u64,
}

/// A release schedule has been executed. `amount` is the amount of the
/// schedule, before the fee. Execution is open to anyone, so it is put down
/// to the contract itself.
#[derive(Clone, Copy, Debug, PartialEq, Eq, Structural)]
pub struct ScheduleReleased {
    pub bounty_id: u64,
    pub schedule_id: u32,
    pub amount: i128,
    pub recipient: Address,
    pub executed_by: Account,
    pub executed_at: u64,
}

/// The fee settings have been changed.
#[derive(Clone, Copy, Debug, PartialEq, Eq, Structural)]
pub struct FeeConfigUpdated {
    pub lock_fee_rate: i128,
    pub release_fee_rate: i128,
    pub fee_recipient: Address,
    pub fee_enabled: bool,
    pub timestamp: u64,
}

/// What a committed movement of funds hands back: the transfers to make and
/// the notification to publish.
#[derive(Clone, Copy, Debug, PartialEq, Eq)]
pub struct Receipt<E> {
    pub settlement: Settlement,
    pub event: E,
}

} // verus!
