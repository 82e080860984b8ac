//! Escrow accounting and release control for bounty funds.
//!
//! A depositor locks value under a bounty identifier. The administrator
//! releases it to a contributor, schedules milestone payouts, or approves an
//! early refund; after the deadline the depositor can be refunded without
//! approval. Every operation is a total function of the contract state, the
//! ledger time and the custody balance: it either commits a new state and
//! names the transfers to make and the notification to publish, or leaves the
//! state as it was.
//!
//! - [`types`]: identities, statuses, history records, transfers.
//! - [`fees`]: the fee engine.
//! - [`anti_abuse`]: per-caller admission control.
//! - [`escrow`]: one escrow record and the operations that drain it.
//! - [`store`]: the escrow records by bounty identifier.
//! - [`contract`]: the contract state and its entry points.
//! - [`batch`]: several locks or releases in one call.
//! - [`stats`]: aggregate figures.
//! - [`events`]: the notifications handed back by committed operations.
//! - [`monitoring`]: figures derived from the operation counters.
//! - [`restore`]: checked reconstruction of a state from stored parts.
//! - [`laws`]: what holds whatever is called and in whatever order.

pub mod anti_abuse;
pub mod batch;
pub mod contract;
pub mod escrow;
pub mod events;
pub mod fees;
pub mod laws;
pub mod monitoring;
pub mod restore;
pub mod stats;
pub mod store;
pub mod types;

pub use anti_abuse::{AddressEntry, AddressState, AntiAbuseConfig, RateLimiter};
pub use batch::{
    lock_signers, BatchLockReceipt, BatchReleaseReceipt, LockFundsItem, ReleaseFundsItem,
    MAX_BATCH_SIZE,
};
pub use contract::{BountyEscrowContract, Operation};
pub use escrow::{derive_status, Escrow, ExecutedSchedule, Movement, RefundReceipt};
pub use events::{
    BatchFundsLocked, BatchFundsReleased, BountyEscrowInitialized, ContractPaused,
    ContractUnpaused, FeeConfigUpdated, FundsLocked, FundsRefunded, FundsReleased, Receipt,
    ScheduleCreated, ScheduleReleased,
};
pub use fees::{FeeConfig, BASIS_POINTS, MAX_FEE_RATE};
pub use monitoring::{Analytics, StateSnapshot};
pub use stats::{EscrowStats, Figure};
pub use store::EscrowStore;
pub use types::{
    Abort, Account, Address, AddressKind, Error, EscrowStatus, Failure, PayoutRecord,
    RefundApproval, RefundMode, RefundRecord, ReleaseSchedule, ScheduleHistoryRecord,
    ScheduleStatus, Settlement, Transfer,
};
