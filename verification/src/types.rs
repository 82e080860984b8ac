//! Plain data shared by every component: identities, statuses, history
//! records and the instructions handed back to whoever moves the tokens.

use vstd::prelude::*;

verus! {

/// Whether an address names an account or a contract.
#[derive(Clone, Copy, Debug, PartialEq, Eq, Structural, Hash)]
pub enum AddressKind {
    Account,
    Contract,
}

/// A ledger identity: its kind and its 256-bit key, held as two halves.
///
/// The escrow logic never looks inside an address; it only stores addresses
/// and compares them.
#[derive(Clone, Copy, Debug, PartialEq, Eq, Structural, Hash)]
pub struct Address {
    pub kind: AddressKind,
    pub key_hi: u128,
    pub key_lo: u128,
}

impl Address {
    /// The account with the given key.
    pub fn account(key_hi: u128, key_lo: u128) -> (a: Address)
        ensures
            a == (Address { kind: AddressKind::Account, key_hi, key_lo }),
    {
        Address { kind: AddressKind::Account, key_hi, key_lo }
    }

    /// The contract with the given key.
    pub fn contract(key_hi: u128, key_lo: u128) -> (a: Address)
        ensures
            a == (Address { kind: AddressKind::Contract, key_hi, key_lo }),
    {
        Address { kind: AddressKind::Contract, key_hi, key_lo }
    }
}

/// The typed, caller-visible errors. A call that returns one has changed
/// nothing and moved nothing.
#[derive(Clone, Copy, Debug, PartialEq, Eq, Structural, PartialOrd, Ord, Hash)]
pub enum Error {
    AlreadyInitialized,
    NotInitialized,
    BountyExists,
    BountyNotFound,
    FundsNotLocked,
    DeadlineNotPassed,
    Unauthorized,
    InvalidFeeRate,
    FeeRecipientNotSet,
    InvalidBatchSize,
    ContractPaused,
    DuplicateBountyId,
    InvalidAmount,
    InvalidDeadline,
    InsufficientFunds,
    RefundNotApproved,
    BatchSizeMismatch,
    ScheduleNotFound,
    ScheduleNotReady,
    ScheduleAlreadyReleased,
    InvalidScheduleTimestamp,
    TotalScheduleExceedsAmount,
    ScheduleIndexOutOfBounds,
    InvalidScheduleAmount,
}

impl Error {
    /// The number under which the error is reported on the ledger.
    pub open spec fn spec_code(self) -> u32 {
        match self {
            Error::AlreadyInitialized => 1,
            Error::NotInitialized => 2,
            Error::BountyExists => 3,
            Error::BountyNotFound => 4,
            Error::FundsNotLocked => 5,
            Error::DeadlineNotPassed => 6,
            Error::Unauthorized => 7,
            Error::InvalidFeeRate => 8,
            Error::FeeRecipientNotSet => 9,
            Error::InvalidBatchSize => 10,
            Error::ContractPaused => 11,
            Error::DuplicateBountyId => 12,
            Error::InvalidAmount => 13,
            Error::InvalidDeadline => 14,
            Error::InsufficientFunds => 16,
            Error::RefundNotApproved => 17,
            Error::BatchSizeMismatch => 18,
            Error::ScheduleNotFound => 19,
            Error::ScheduleNotReady => 20,
            Error::ScheduleAlreadyReleased => 21,
            Error::InvalidScheduleTimestamp => 22,
            Error::TotalScheduleExceedsAmount => 23,
            Error::ScheduleIndexOutOfBounds => 24,
            Error::InvalidScheduleAmount => 25,
        }
    }

    /// The number under which the error is reported on the ledger.
    #[verifier::when_used_as_spec(spec_code)]
    pub fn code(self) -> (c: u32)
        ensures
            c == self.spec_code(),
    {
        match self {
            Error::AlreadyInitialized => 1,
            Error::NotInitialized => 2,
            Error::BountyExists => 3,
            Error::BountyNotFound => 4,
            Error::FundsNotLocked => 5,
            Error::DeadlineNotPassed => 6,
            Error::Unauthorized => 7,
            Error::InvalidFeeRate => 8,
            Error::FeeRecipientNotSet => 9,
            Error::InvalidBatchSize => 10,
            Error::ContractPaused => 11,
            Error::DuplicateBountyId => 12,
            Error::InvalidAmount => 13,
            Error::InvalidDeadline => 14,
            Error::InsufficientFunds => 16,
            Error::RefundNotApproved => 17,
            Error::BatchSizeMismatch => 18,
            Error::ScheduleNotFound => 19,
            Error::ScheduleNotReady => 20,
            Error::ScheduleAlreadyReleased => 21,
            Error::InvalidScheduleTimestamp => 22,
            Error::TotalScheduleExceedsAmount => 23,
            Error::ScheduleIndexOutOfBounds => 24,
            Error::InvalidScheduleAmount => 25,
        }
    }
}

/// Why a call was cut short before any precondition was looked at. These are
/// not ordinary errors: the surrounding transaction is meant to be aborted.
#[derive(Clone, Copy, Debug, PartialEq, Eq, Structural, Hash)]
pub enum Abort {
    /// The caller's previous operation is too recent.
    Cooldown,
    /// The caller has used up the operations of the current window.
    RateLimited,
    /// Another mutating call is still in flight.
    Reentrancy,
}

/// Every way in which an entry point can decline to act.
#[derive(Clone, Copy, Debug, PartialEq, Eq, Structural, Hash)]
pub enum Failure {
    /// A precondition failed.
    Error(Error),
    /// Admission control or the reentrancy guard stopped the call.
    Abort(Abort),
}

/// Where a release schedule stands.
#[derive(Clone, Copy, Debug, PartialEq, Eq, Structural, Hash)]
pub enum ScheduleStatus {
    Pending,
    Released,
    Cancelled,
}

/// Where an escrow stands. `Released` and `Refunded` are terminal: nothing
/// remains, and nothing more can happen to the funds.
#[derive(Clone, Copy, Debug, PartialEq, Eq, Structural, Hash)]
pub enum EscrowStatus {
    Locked,
    Released,
    Refunded,
    PartiallyRefunded,
    PartiallyReleased,
    /// The escrow has release schedules.
    Scheduled,
}

impl EscrowStatus {
    /// No funds can move out of an escrow in a terminal status.
    pub open spec fn is_terminal(self) -> bool {
        self == EscrowStatus::Released || self == EscrowStatus::Refunded
    }

    /// How far the escrow has been drained: 0 for untouched, 1 for partly
    /// paid, refunded or scheduled, 2 for empty.
    pub open spec fn rank(self) -> nat {
        match self {
            EscrowStatus::Locked => 0,
            EscrowStatus::Scheduled => 1,
            EscrowStatus::PartiallyReleased => 1,
            EscrowStatus::PartiallyRefunded => 1,
            EscrowStatus::Released => 2,
            EscrowStatus::Refunded => 2,
        }
    }
}

/// The kinds of refund.
#[derive(Clone, Copy, Debug, PartialEq, Eq, Structural, Hash)]
pub enum RefundMode {
    /// Everything that remains, to the depositor, after the deadline.
    Full,
    /// A stated amount, to the depositor, after the deadline.
    Partial,
    /// A stated amount to a stated recipient; before the deadline only with
    /// a matching approval.
    Custom,
}

/// One milestone: a fixed amount that may be paid out at or after a fixed
/// time.
#[derive(Clone, Copy, Debug, PartialEq, Eq, Structural)]
pub struct ReleaseSchedule {
    pub amount: i128,
    pub timestamp: u64,
    pub status: ScheduleStatus,
    pub schedule_id: u32,
    pub released_at: Option<u64>,
    pub released_by: Option<Address>,
}

/// The audit copy of a schedule.
#[derive(Clone, Copy, Debug, PartialEq, Eq, Structural)]
pub struct ScheduleHistoryRecord {
    pub schedule_id: u32,
    pub amount: i128,
    pub timestamp: u64,
    pub status: ScheduleStatus,
    pub executed_at: Option<u64>,
    pub executed_by: Option<Address>,
}

#[derive(Clone, Copy, Debug, PartialEq, Eq, Structural)]
pub struct PayoutRecord {
    pub amount: i128,
    pub recipient: Address,
    pub timestamp: u64,
    pub schedule_id: Option<u32>,
}

#[derive(Clone, Copy, Debug, PartialEq, Eq, Structural)]
pub struct RefundRecord {
    pub amount: i128,
    pub recipient: Address,
    pub mode: RefundMode,
    pub timestamp: u64,
}

/// The administrator's consent to one refund ahead of the deadline.
#[derive(Clone, Copy, Debug, PartialEq, Eq, Structural)]
pub struct RefundApproval {
    pub bounty_id: u64,
    pub amount: i128,
    pub recipient: Address,
    pub mode: RefundMode,
    pub approved_by: Address,
    pub approved_at: u64,
}

/// One side of a token transfer.
#[derive(Clone, Copy, Debug, PartialEq, Eq, Structural)]
pub enum Account {
    /// The contract's own holdings.
    Custody,
    /// Anybody else.
    Holder(Address),
}

/// One token transfer to be made.
#[derive(Clone, Copy, Debug, PartialEq, Eq, Structural)]
pub struct Transfer {
    pub from: Account,
    pub to: Account,
    pub amount: i128,
}

/// The token movements that a committed operation asks for: the payment
/// itself and, where a fee is due, the fee.
#[derive(Clone, Copy, Debug, PartialEq, Eq, Structural)]
pub struct Settlement {
    pub payment: Transfer,
    pub fee: Option<Transfer>,
}

/// The settlement for moving `gross` from `payer` towards `payee` when `fee`
/// of it is owed to `fee_recipient`: the payee gets the rest, and a fee
/// transfer is made only where the fee is positive.
pub open spec fn settlement_of(
    payer: Account,
    payee: Account,
    gross: int,
    fee: int,
    fee_recipient: Address,
) -> Settlement {
    Settlement {
        payment: Transfer { from: payer, to: payee, amount: (gross - fee) as i128 },
        fee: if fee > 0 {
            Some(Transfer { from: payer, to: Account::Holder(fee_recipient), amount: fee as i128 })
        } else {
            None
        },
    }
}

impl Settlement {
    /// Builds the settlement for moving `gross` from `payer` towards `payee`
    /// when `fee` of it is owed to `fee_recipient`.
    pub(crate) fn new(payer: Account, payee: Account, gross: i128, fee: i128, fee_recipient: Address) -> (s:
        Settlement)
        requires
            0 <= fee <= gross,
        ensures
            s == settlement_of(payer, payee, gross as int, fee as int, fee_recipient),
    {
        Settlement {
            payment: Transfer { from: payer, to: payee, amount: gross - fee },
            fee: if fee > 0 {
                Some(Transfer { from: payer, to: Account::Holder(fee_recipient), amount: fee })
            } else {
                None
            },
        }
    }

    /// Everything that leaves the payer: the payment and the fee.
    pub open spec fn total(self) -> int {
        self.payment.amount + (if self.fee is Some {
            self.fee->0.amount as int
        } else {
            0
        })
    }
}

} // verus!
