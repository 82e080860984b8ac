//! One escrow record and the operations that drain it.
//!
//! Every operation first decides, from the record alone and the values handed
//! in, whether it may act. If it may not, it returns the error and leaves the
//! record as it was. If it may, it updates the record and returns the transfers
//! that have to be made.

use vstd::prelude::*;
use crate::fees::FeeConfig;
use crate::types::{
    Account, Address, Error, EscrowStatus, PayoutRecord, RefundApproval, RefundMode, RefundRecord,
    settlement_of, ReleaseSchedule, ScheduleHistoryRecord, ScheduleStatus, Settlement, Transfer,
};

verus! {

/// The funds held for one bounty and everything that has happened to them.
#[derive(Clone, Debug, PartialEq, Eq)]
pub struct Escrow {
    /// Who funded the escrow.
    pub depositor: Address,
    /// What was credited when the funds were locked, after the lock fee.
    pub amount: i128,
    pub status: EscrowStatus,
    /// From this time on the depositor can be refunded without approval.
    pub deadline: u64,
    pub refund_history: Vec<RefundRecord>,
    pub payout_history: Vec<PayoutRecord>,
    /// What can still be released, refunded or scheduled.
    pub remaining_amount: i128,
    pub release_schedules: Vec<ReleaseSchedule>,
    /// The identifier that the next schedule will get.
    pub next_schedule_id: u32,
    pub schedule_history: Vec<ScheduleHistoryRecord>,
}

/// The mathematical content of an [`Escrow`].
pub struct EscrowView {
    pub depositor: Address,
    pub amount: i128,
    pub status: EscrowStatus,
    pub deadline: u64,
    pub refund_history: Seq<RefundRecord>,
    pub payout_history: Seq<PayoutRecord>,
    pub remaining_amount: i128,
    pub release_schedules: Seq<ReleaseSchedule>,
    pub next_schedule_id: u32,
    pub schedule_history: Seq<ScheduleHistoryRecord>,
}

impl View for Escrow {
    type V = EscrowView;

    open spec fn view(&self) -> EscrowView {
        EscrowView {
            depositor: self.depositor,
            amount: self.amount,
            status: self.status,
            deadline: self.deadline,
            refund_history: self.refund_history@,
            payout_history: self.payout_history@,
            remaining_amount: self.remaining_amount,
            release_schedules: self.release_schedules@,
            next_schedule_id: self.next_schedule_id,
            schedule_history: self.schedule_history@,
        }
    }
}

/// The sum of the amounts paid out.
pub open spec fn payout_total(history: Seq<PayoutRecord>) -> int
    decreases history.len(),
{
    if history.len() == 0 {
        0
    } else {
        payout_total(history.drop_last()) + history.last().amount
    }
}

/// The sum of the amounts refunded.
pub open spec fn refund_total(history: Seq<RefundRecord>) -> int
    decreases history.len(),
{
    if history.len() == 0 {
        0
    } else {
        refund_total(history.drop_last()) + history.last().amount
    }
}

/// What a schedule still reserves: its amount while it is pending, nothing
/// once it has been released or cancelled.
pub open spec fn reserved(schedule: ReleaseSchedule) -> int {
    if schedule.status == ScheduleStatus::Pending {
        schedule.amount as int
    } else {
        0
    }
}

/// The sum of the amounts of the pending schedules.
pub open spec fn pending_total(schedules: Seq<ReleaseSchedule>) -> int
    decreases schedules.len(),
{
    if schedules.len() == 0 {
        0
    } else {
        pending_total(schedules.drop_last()) + reserved(schedules.last())
    }
}

/// The audit copy of `schedule`.
pub open spec fn mirror(schedule: ReleaseSchedule) -> ScheduleHistoryRecord {
    ScheduleHistoryRecord {
        schedule_id: schedule.schedule_id,
        amount: schedule.amount,
        timestamp: schedule.timestamp,
        status: schedule.status,
        executed_at: schedule.released_at,
        executed_by: schedule.released_by,
    }
}

/// `schedule` after it has been paid to `recipient` at time `now`.
pub open spec fn executed(schedule: ReleaseSchedule, recipient: Address, now: u64) -> ReleaseSchedule {
    ReleaseSchedule {
        status: ScheduleStatus::Released,
        released_at: Some(now),
        released_by: Some(recipient),
        ..schedule
    }
}

/// Whether `schedule` names a time and a recipient of execution exactly if it
/// has been executed.
pub open spec fn execution_on_record(schedule: ReleaseSchedule) -> bool {
    &&& schedule.released_at is Some <==> schedule.status == ScheduleStatus::Released
    &&& schedule.released_by is Some <==> schedule.status == ScheduleStatus::Released
}

/// `schedule` after it has been cancelled.
pub open spec fn cancelled(schedule: ReleaseSchedule) -> ReleaseSchedule {
    ReleaseSchedule { status: ScheduleStatus::Cancelled, ..schedule }
}

/// The transfers for a payout of `payout` from custody to `recipient`: the
/// release fee goes to the fee recipient, the rest to `recipient`.
pub open spec fn payout_settlement(fees: FeeConfig, payout: i128, recipient: Address) -> Settlement {
    settlement_of(
        Account::Custody,
        Account::Holder(recipient),
        payout as int,
        fees.release_fee(payout),
        fees.fee_recipient,
    )
}

/// The transfers for locking `amount`: the lock fee goes from the depositor to
/// the fee recipient, the rest from the depositor into custody.
pub open spec fn lock_settlement(fees: FeeConfig, amount: i128, depositor: Address) -> Settlement {
    settlement_of(
        Account::Holder(depositor),
        Account::Custody,
        amount as int,
        fees.lock_fee(amount),
        fees.fee_recipient,
    )
}

/// The transfer for a refund of `amount` from custody to `recipient`. Refunds
/// carry no fee.
pub open spec fn refund_settlement(amount: i128, recipient: Address) -> Settlement {
    Settlement {
        payment: Transfer { from: Account::Custody, to: Account::Holder(recipient), amount },
        fee: None,
    }
}

/// The schedule that a request for `request.0` at time `request.1` creates.
pub open spec fn new_schedule(request: (i128, u64), schedule_id: u32) -> ReleaseSchedule {
    ReleaseSchedule {
        amount: request.0,
        timestamp: request.1,
        status: ScheduleStatus::Pending,
        schedule_id,
        released_at: None,
        released_by: None,
    }
}

/// The sum of the requested amounts.
pub open spec fn requested_total(requests: Seq<(i128, u64)>) -> int
    decreases requests.len(),
{
    if requests.len() == 0 {
        0
    } else {
        requested_total(requests.drop_last()) + requests.last().0
    }
}

/// What is wrong with request `i`, taken with those before it: its amount is
/// not positive, its time is not in the future, or the amounts up to and
/// including it no longer fit in 128 bits.
pub open spec fn request_error(requests: Seq<(i128, u64)>, i: int, now: u64) -> Option<Error> {
    if requests[i].0 <= 0 {
        Some(Error::InvalidScheduleAmount)
    } else if requests[i].1 <= now {
        Some(Error::InvalidScheduleTimestamp)
    } else if requested_total(requests.take(i + 1)) > i128::MAX {
        Some(Error::InvalidScheduleAmount)
    } else {
        None
    }
}

/// The error of the first faulty request among the first `n`, if there is
/// one.
pub open spec fn requests_error(requests: Seq<(i128, u64)>, now: u64, n: int) -> Option<Error>
    decreases n,
{
    if n <= 0 {
        None
    } else if requests_error(requests, now, n - 1) is Some {
        requests_error(requests, now, n - 1)
    } else {
        request_error(requests, n - 1, now)
    }
}

/// Whether `schedule` can be executed at time `now`.
pub open spec fn is_ready(schedule: ReleaseSchedule, now: u64) -> bool {
    schedule.status == ScheduleStatus::Pending && schedule.timestamp <= now
}

/// The schedules that can be executed at time `now`, in their order.
pub open spec fn ready_schedules(schedules: Seq<ReleaseSchedule>, now: u64) -> Seq<ReleaseSchedule>
    decreases schedules.len(),
{
    if schedules.len() == 0 {
        Seq::empty()
    } else if is_ready(schedules.last(), now) {
        ready_schedules(schedules.drop_last(), now).push(schedules.last())
    } else {
        ready_schedules(schedules.drop_last(), now)
    }
}

/// What has just happened to an escrow when its status is derived anew.
#[derive(Clone, Copy, Debug, PartialEq, Eq, Structural)]
pub enum Movement {
    Release,
    Refund,
    ScheduleCreated,
    ScheduleExecuted,
    ScheduleCancelled,
}

/// The status of an escrow after `movement`, given the status before, what
/// remains and whether a schedule is pending.
///
/// - A terminal status stays.
/// - After a release the escrow is `Released` if nothing remains and
///   `PartiallyReleased` otherwise; after a refund, `Refunded` or
///   `PartiallyRefunded`.
/// - After the creation of schedules it is `Scheduled`.
/// - After the execution of schedules it is `Released` if nothing remains and
///   nothing is pending; otherwise the status stays.
/// - After a cancellation the status stays.
pub open spec fn derived_status(
    previous: EscrowStatus,
    movement: Movement,
    remaining_amount: i128,
    has_pending_schedules: bool,
) -> EscrowStatus {
    if previous.is_terminal() {
        previous
    } else {
        match movement {
            Movement::Release => if remaining_amount == 0 {
                EscrowStatus::Released
            } else {
                EscrowStatus::PartiallyReleased
            },
            Movement::Refund => if remaining_amount == 0 {
                EscrowStatus::Refunded
            } else {
                EscrowStatus::PartiallyRefunded
            },
            Movement::ScheduleCreated => EscrowStatus::Scheduled,
            Movement::ScheduleExecuted => if !has_pending_schedules && remaining_amount == 0 {
                EscrowStatus::Released
            } else {
                previous
            },
            Movement::ScheduleCancelled => previous,
        }
    }
}

/// Derives the status of an escrow after `movement`.
pub fn derive_status(
    previous: EscrowStatus,
    movement: Movement,
    remaining_amount: i128,
    has_pending_schedules: bool,
) -> (status: EscrowStatus)
    ensures
        status == derived_status(previous, movement, remaining_amount, has_pending_schedules),
{
    if previous == EscrowStatus::Released || previous == EscrowStatus::Refunded {
        return previous;
    }
    match movement {
        Movement::Release => if remaining_amount == 0 {
            EscrowStatus::Released
        } else {
            EscrowStatus::PartiallyReleased
        },
        Movement::Refund => if remaining_amount == 0 {
            EscrowStatus::Refunded
        } else {
            EscrowStatus::PartiallyRefunded
        },
        Movement::ScheduleCreated => EscrowStatus::Scheduled,
        Movement::ScheduleExecuted => if !has_pending_schedules && remaining_amount == 0 {
            EscrowStatus::Released
        } else {
            previous
        },
        Movement::ScheduleCancelled => previous,
    }
}

/// What the execution of one schedule hands back: which schedule it was and
/// the transfers to make.
#[derive(Clone, Copy, Debug, PartialEq, Eq, Structural)]
pub struct ExecutedSchedule {
    pub schedule_id: u32,
    /// The amount of the schedule, before the fee.
    pub amount: i128,
    pub settlement: Settlement,
}

/// What a refund hands back: the transfer to make, and whether the refund
/// rested on the approval, which is then used up.
#[derive(Clone, Copy, Debug, PartialEq, Eq, Structural)]
pub struct RefundReceipt {
    pub settlement: Settlement,
    pub recipient: Address,
    pub approval_used: bool,
}

/// Whether `approval` covers a refund of `amount` to `recipient` in `mode`.
pub open spec fn approval_matches(
    approval: Option<RefundApproval>,
    amount: i128,
    recipient: Address,
    mode: RefundMode,
) -> bool {
    &&& approval is Some
    &&& approval->0.amount == amount
    &&& approval->0.recipient == recipient
    &&& approval->0.mode == mode
}

impl EscrowView {
    /// The sum of all payouts so far.
    pub open spec fn paid_out(self) -> int {
        payout_total(self.payout_history)
    }

    /// The sum of all refunds so far.
    pub open spec fn refunded(self) -> int {
        refund_total(self.refund_history)
    }

    /// The sum still reserved by pending schedules.
    pub open spec fn pending(self) -> int {
        pending_total(self.release_schedules)
    }

    /// Whether any schedule is pending.
    pub open spec fn has_pending(self) -> bool {
        exists|i: int|
            0 <= i < self.release_schedules.len() && (#[trigger] self.release_schedules[i]).status
                == ScheduleStatus::Pending
    }

    /// Everything the escrow accounts for: what remains and what has left.
    /// No operation on an escrow changes this sum.
    pub open spec fn ledger_total(self) -> int {
        self.remaining_amount + self.paid_out() + self.refunded()
    }

    /// What remains, what was paid out and what was refunded add up to the
    /// amount credited at lock time.
    pub open spec fn conserved(self) -> bool {
        self.ledger_total() == self.amount
    }

    /// Whether `later` can be a later state of this record. From one state
    /// of a record to any later one:
    ///
    /// - the depositor, the credited amount and the deadline stay;
    /// - the ledger total stays: whatever left what remains is on record as
    ///   paid out or refunded;
    /// - what remains never grows, and the status never falls back to a less
    ///   drained one;
    /// - the histories only grow at the end, and no schedule or schedule
    ///   identifier goes away.
    pub open spec fn evolves_to(self, later: EscrowView) -> bool {
        &&& later.depositor == self.depositor
        &&& later.amount == self.amount
        &&& later.deadline == self.deadline
        &&& later.ledger_total() == self.ledger_total()
        &&& later.remaining_amount <= self.remaining_amount
        &&& later.status.rank() >= self.status.rank()
        &&& self.payout_history.is_prefix_of(later.payout_history)
        &&& self.refund_history.is_prefix_of(later.refund_history)
        &&& self.release_schedules.len() <= later.release_schedules.len()
        &&& self.schedule_history.len() <= later.schedule_history.len()
        &&& self.next_schedule_id <= later.next_schedule_id
    }

    /// The part of the invariant that holds even in the middle of a batch of
    /// schedule executions, before the status is brought up to date.
    ///
    /// - What remains and what was credited are never negative, and every
    ///   payout and refund on record has a positive amount.
    /// - Schedule identifiers count up from zero in the order of creation, so
    ///   a schedule's identifier is its index.
    /// - Every schedule has a positive amount and an exact audit copy at the
    ///   same index of the schedule history, and names a time and a recipient
    ///   of execution exactly if it has been executed.
    /// - The pending schedules together reserve no more than what remains.
    pub open spec fn ledger_ok(self) -> bool {
        &&& 0 <= self.remaining_amount
        &&& 0 <= self.amount
        &&& forall|i: int| 0 <= i < self.payout_history.len() ==> (#[trigger] self.payout_history[i]).amount > 0
        &&& forall|i: int| 0 <= i < self.refund_history.len() ==> (#[trigger] self.refund_history[i]).amount > 0
        &&& self.release_schedules.len() <= u32::MAX
        &&& self.next_schedule_id == self.release_schedules.len()
        &&& self.schedule_history.len() == self.release_schedules.len()
        &&& forall|i: int|
            0 <= i < self.release_schedules.len() ==> {
                &&& (#[trigger] self.release_schedules[i]).schedule_id == i
                &&& self.release_schedules[i].amount > 0
                &&& self.schedule_history[i] == mirror(self.release_schedules[i])
                &&& execution_on_record(self.release_schedules[i])
            }
        &&& self.pending() <= self.remaining_amount
    }

    /// The invariant of an escrow record: `ledger_ok`, and
    ///
    /// - nothing remains exactly when the status is terminal;
    /// - only an escrow in status `Scheduled` has pending schedules.
    pub open spec fn wf(self) -> bool {
        &&& self.ledger_ok()
        &&& self.status.is_terminal() <==> self.remaining_amount == 0
        &&& self.status != EscrowStatus::Scheduled ==> !self.has_pending()
    }

    /// The record created when `depositor` locks `amount` until `deadline` and
    /// `fee` of it goes to the fee recipient. The whole `amount` can be
    /// released; the credited amount is what is left after the fee.
    pub open spec fn opened(depositor: Address, amount: i128, fee: i128, deadline: u64) -> EscrowView {
        EscrowView {
            depositor,
            amount: (amount - fee) as i128,
            status: EscrowStatus::Locked,
            deadline,
            refund_history: Seq::empty(),
            payout_history: Seq::empty(),
            remaining_amount: amount,
            release_schedules: Seq::empty(),
            next_schedule_id: 0,
            schedule_history: Seq::empty(),
        }
    }

    /// The record after `payout` has left it for `recipient` at time `now`,
    /// with the status still to be set.
    pub open spec fn paid(self, payout: i128, recipient: Address, now: u64, schedule_id: Option<u32>) -> EscrowView {
        EscrowView {
            remaining_amount: (self.remaining_amount - payout) as i128,
            payout_history: self.payout_history.push(
                PayoutRecord { amount: payout, recipient, timestamp: now, schedule_id },
            ),
            ..self
        }
    }

    /// What a release request pays out, or the error it meets.
    ///
    /// The escrow must be `Locked` or `PartiallyReleased`. A stated amount
    /// must be positive and no more than what remains; without one, all that
    /// remains is paid. Custody must hold at least the payout.
    pub open spec fn release_amount(self, amount: Option<i128>, custody_balance: i128) -> Result<i128, Error> {
        if self.status != EscrowStatus::Locked && self.status != EscrowStatus::PartiallyReleased {
            Err(Error::FundsNotLocked)
        } else if amount is Some && (amount->0 <= 0 || amount->0 > self.remaining_amount) {
            Err(Error::InvalidAmount)
        } else {
            let payout = if amount is Some {
                amount->0
            } else {
                self.remaining_amount
            };
            if custody_balance < payout {
                Err(Error::InsufficientFunds)
            } else {
                Ok(payout)
            }
        }
    }

    /// The record with its status derived anew after `movement`.
    pub open spec fn restated(self, movement: Movement) -> EscrowView {
        EscrowView {
            status: derived_status(self.status, movement, self.remaining_amount, self.has_pending()),
            ..self
        }
    }

    /// The record after `payout` has been released to `contributor`.
    pub open spec fn released(self, payout: i128, contributor: Address, now: u64) -> EscrowView {
        self.paid(payout, contributor, now, None).restated(Movement::Release)
    }

    /// Why schedule `index` cannot be executed at time `now`, if it cannot.
    ///
    /// The escrow must be `Scheduled`, the index must name a schedule, the
    /// schedule must be pending and due, and its amount must not exceed what
    /// remains.
    pub open spec fn execution_error(self, index: u32, now: u64) -> Option<Error> {
        if self.status != EscrowStatus::Scheduled {
            Some(Error::FundsNotLocked)
        } else if index >= self.release_schedules.len() {
            Some(Error::ScheduleIndexOutOfBounds)
        } else if self.release_schedules[index as int].status != ScheduleStatus::Pending {
            Some(Error::ScheduleAlreadyReleased)
        } else if self.release_schedules[index as int].timestamp > now {
            Some(Error::ScheduleNotReady)
        } else if self.release_schedules[index as int].amount > self.remaining_amount {
            Some(Error::InsufficientFunds)
        } else {
            None
        }
    }

    /// The record after schedule `index` has been paid to `recipient`, with
    /// the escrow status still to be brought up to date: the amount has left
    /// the record, a payout record that names the schedule has been appended,
    /// and the schedule and its audit copy are marked as released.
    pub open spec fn with_execution(self, index: int, recipient: Address, now: u64) -> EscrowView {
        let schedule = self.release_schedules[index];
        let done = executed(schedule, recipient, now);
        let after = self.paid(schedule.amount, recipient, now, Some(schedule.schedule_id));
        EscrowView {
            release_schedules: self.release_schedules.update(index, done),
            schedule_history: self.schedule_history.update(index, mirror(done)),
            ..after
        }
    }

    /// The record with its status brought up to date after schedule
    /// executions: `Released` once nothing remains and nothing is pending.
    pub open spec fn settled(self) -> EscrowView {
        self.restated(Movement::ScheduleExecuted)
    }

    /// The record after schedule `index` has been executed.
    pub open spec fn schedule_executed(self, index: int, recipient: Address, now: u64) -> EscrowView {
        self.with_execution(index, recipient, now).settled()
    }

    /// What the execution of schedule `index` hands back.
    pub open spec fn execution_of(self, index: int, recipient: Address, fees: FeeConfig) -> ExecutedSchedule {
        ExecutedSchedule {
            schedule_id: self.release_schedules[index].schedule_id,
            amount: self.release_schedules[index].amount,
            settlement: payout_settlement(fees, self.release_schedules[index].amount, recipient),
        }
    }

    /// Whether schedule `index` is executed when the due schedules are taken
    /// in turn: it is pending, due, and what remains at that point covers it.
    pub open spec fn runs(self, index: int, now: u64) -> bool {
        &&& is_ready(self.release_schedules[index], now)
        &&& self.release_schedules[index].amount <= self.remaining_amount
    }

    /// The record after the first `upto` schedules have been taken in turn at
    /// time `now` and each one that `runs` has been paid to `recipient`. The
    /// status is still to be brought up to date.
    pub open spec fn ready_executed(self, upto: int, recipient: Address, now: u64) -> EscrowView
        decreases upto,
    {
        if upto <= 0 {
            self
        } else {
            let before = self.ready_executed(upto - 1, recipient, now);
            if before.runs(upto - 1, now) {
                before.with_execution(upto - 1, recipient, now)
            } else {
                before
            }
        }
    }

    /// What the executions among the first `upto` schedules hand back, in
    /// the order of the schedules.
    pub open spec fn ready_payouts(self, upto: int, recipient: Address, now: u64, fees: FeeConfig) -> Seq<
        ExecutedSchedule,
    >
        decreases upto,
    {
        if upto <= 0 {
            Seq::empty()
        } else {
            let before = self.ready_executed(upto - 1, recipient, now);
            let earlier = self.ready_payouts(upto - 1, recipient, now, fees);
            if before.runs(upto - 1, now) {
                earlier.push(before.execution_of(upto - 1, recipient, fees))
            } else {
                earlier
            }
        }
    }

    /// The record after every due schedule has been taken in turn.
    pub open spec fn all_ready_executed(self, recipient: Address, now: u64) -> EscrowView {
        self.ready_executed(self.release_schedules.len() as int, recipient, now).settled()
    }

    /// Why schedule `index` cannot be cancelled, if it cannot: the index must
    /// name a schedule, and the schedule must be pending.
    pub open spec fn cancellation_error(self, index: u32) -> Option<Error> {
        if index >= self.release_schedules.len() {
            Some(Error::ScheduleIndexOutOfBounds)
        } else if self.release_schedules[index as int].status != ScheduleStatus::Pending {
            Some(Error::ScheduleAlreadyReleased)
        } else {
            None
        }
    }

    /// The record after schedule `index` has been cancelled: the schedule and
    /// its audit copy are marked, and nothing else changes.
    pub open spec fn schedule_cancelled(self, index: int) -> EscrowView {
        let done = cancelled(self.release_schedules[index]);
        EscrowView {
            release_schedules: self.release_schedules.update(index, done),
            schedule_history: self.schedule_history.update(index, mirror(done)),
            ..self
        }.restated(Movement::ScheduleCancelled)
    }

    /// Why `requests` cannot be scheduled at time `now`, if they cannot.
    ///
    /// The escrow must be `Locked` or `Scheduled`. Every request must have a
    /// positive amount and a time in the future. The requested amounts,
    /// together with what the pending schedules already reserve, must fit in
    /// 128 bits and must not exceed what remains.
    pub open spec fn scheduling_error(self, requests: Seq<(i128, u64)>, now: u64) -> Option<Error> {
        if self.status != EscrowStatus::Locked && self.status != EscrowStatus::Scheduled {
            Some(Error::FundsNotLocked)
        } else if requests_error(requests, now, requests.len() as int) is Some {
            requests_error(requests, now, requests.len() as int)
        } else if self.pending() + requested_total(requests) > i128::MAX {
            Some(Error::InvalidScheduleAmount)
        } else if self.pending() + requested_total(requests) > self.remaining_amount {
            Some(Error::TotalScheduleExceedsAmount)
        } else {
            None
        }
    }

    /// The schedules that `requests` create, with identifiers counting up
    /// from the next free one.
    pub open spec fn schedules_for(self, requests: Seq<(i128, u64)>) -> Seq<ReleaseSchedule> {
        Seq::new(
            requests.len(),
            |i: int| new_schedule(requests[i], (self.next_schedule_id + i) as u32),
        )
    }

    /// The identifiers that the schedules for `count` requests get.
    pub open spec fn ids_for(self, count: nat) -> Seq<u32> {
        Seq::new(count, |i: int| (self.next_schedule_id + i) as u32)
    }

    /// The record after `requests` have been scheduled: the new schedules and
    /// their audit copies are appended as pending, and the status is
    /// `Scheduled`.
    pub open spec fn scheduled(self, requests: Seq<(i128, u64)>) -> EscrowView {
        let added = self.schedules_for(requests);
        EscrowView {
            release_schedules: self.release_schedules + added,
            schedule_history: self.schedule_history + Seq::new(added.len(), |i: int| mirror(added[i])),
            next_schedule_id: (self.next_schedule_id + requests.len()) as u32,
            ..self
        }.restated(Movement::ScheduleCreated)
    }

    /// Whether a refund can be approved: the escrow must be `Locked` or
    /// `PartiallyRefunded`, and the amount positive and no more than what
    /// remains.
    pub open spec fn approval_error(self, amount: i128) -> Option<Error> {
        if self.status != EscrowStatus::Locked && self.status != EscrowStatus::PartiallyRefunded {
            Some(Error::FundsNotLocked)
        } else if amount <= 0 || amount > self.remaining_amount {
            Some(Error::InvalidAmount)
        } else {
            None
        }
    }

    /// The last checks of every refund: the amount must be positive and no
    /// more than what remains, and custody must hold it.
    pub open spec fn refund_checked(self, amount: i128, recipient: Address, custody_balance: i128) -> Result<
        (i128, Address),
        Error,
    > {
        if amount <= 0 || amount > self.remaining_amount {
            Err(Error::InvalidAmount)
        } else if custody_balance < amount {
            Err(Error::InsufficientFunds)
        } else {
            Ok((amount, recipient))
        }
    }

    /// What a refund request pays and to whom, or the error it meets.
    ///
    /// The escrow must be `Locked` or `PartiallyRefunded`.
    /// - `Full` pays all that remains to the depositor, and `Partial` the
    ///   stated amount (all that remains if none is stated) to the depositor;
    ///   both only once the deadline has come.
    /// - `Custom` pays the stated amount to the stated recipient, and both
    ///   must be stated; before the deadline the approval must match them.
    pub open spec fn refund_plan(
        self,
        amount: Option<i128>,
        recipient: Option<Address>,
        mode: RefundMode,
        approval: Option<RefundApproval>,
        custody_balance: i128,
        now: u64,
    ) -> Result<(i128, Address), Error> {
        if self.status != EscrowStatus::Locked && self.status != EscrowStatus::PartiallyRefunded {
            Err(Error::FundsNotLocked)
        } else {
            match mode {
                RefundMode::Full => if now < self.deadline {
                    Err(Error::DeadlineNotPassed)
                } else {
                    self.refund_checked(self.remaining_amount, self.depositor, custody_balance)
                },
                RefundMode::Partial => if now < self.deadline {
                    Err(Error::DeadlineNotPassed)
                } else {
                    self.refund_checked(
                        if amount is Some {
                            amount->0
                        } else {
                            self.remaining_amount
                        },
                        self.depositor,
                        custody_balance,
                    )
                },
                RefundMode::Custom => if amount is None || recipient is None {
                    Err(Error::InvalidAmount)
                } else if now < self.deadline && !approval_matches(
                    approval,
                    amount->0,
                    recipient->0,
                    mode,
                ) {
                    Err(Error::RefundNotApproved)
                } else {
                    self.refund_checked(amount->0, recipient->0, custody_balance)
                },
            }
        }
    }

    /// Whether a refund in `mode` at time `now` rests on the approval.
    pub open spec fn uses_approval(self, mode: RefundMode, now: u64) -> bool {
        mode == RefundMode::Custom && now < self.deadline
    }

    /// The record after `amount` has been refunded to `recipient`: the amount
    /// has left the record, a refund record has been appended, and the status
    /// is `Refunded` if nothing remains and `PartiallyRefunded` otherwise.
    pub open spec fn refund_applied(self, amount: i128, recipient: Address, mode: RefundMode, now: u64) -> EscrowView {
        EscrowView {
            remaining_amount: (self.remaining_amount - amount) as i128,
            refund_history: self.refund_history.push(
                RefundRecord { amount, recipient, mode, timestamp: now },
            ),
            ..self
        }.restated(Movement::Refund)
    }
}

/// Appending a payout adds its amount to the total.
pub proof fn lemma_payout_total_push(history: Seq<PayoutRecord>, record: PayoutRecord)
    ensures
        payout_total(history.push(record)) == payout_total(history) + record.amount,
{
    assert(history.push(record).drop_last() =~= history);
}

/// Appending a refund adds its amount to the total.
pub proof fn lemma_refund_total_push(history: Seq<RefundRecord>, record: RefundRecord)
    ensures
        refund_total(history.push(record)) == refund_total(history) + record.amount,
{
    assert(history.push(record).drop_last() =~= history);
}

/// Appending a schedule adds what it reserves to the pending total.
pub proof fn lemma_pending_total_push(schedules: Seq<ReleaseSchedule>, schedule: ReleaseSchedule)
    ensures
        pending_total(schedules.push(schedule)) == pending_total(schedules) + reserved(schedule),
{
    assert(schedules.push(schedule).drop_last() =~= schedules);
}

/// Replacing one schedule changes the pending total by the difference of what
/// the two reserve.
pub proof fn lemma_pending_total_update(schedules: Seq<ReleaseSchedule>, i: int, schedule: ReleaseSchedule)
    requires
        0 <= i < schedules.len(),
    ensures
        pending_total(schedules.update(i, schedule)) == pending_total(schedules) - reserved(
            schedules[i],
        ) + reserved(schedule),
    decreases schedules.len(),
{
    let updated = schedules.update(i, schedule);
    if i == schedules.len() - 1 {
        assert(updated.drop_last() =~= schedules.drop_last());
    } else {
        lemma_pending_total_update(schedules.drop_last(), i, schedule);
        assert(updated.drop_last() =~= schedules.drop_last().update(i, schedule));
    }
}

/// Where no schedule is pending, nothing is reserved; where the amounts are
/// positive and one is pending, something is.
pub proof fn lemma_pending_total_bounds(schedules: Seq<ReleaseSchedule>)
    requires
        forall|i: int| 0 <= i < schedules.len() ==> (#[trigger] schedules[i]).amount > 0,
    ensures
        0 <= pending_total(schedules),
        pending_total(schedules) == 0 <==> forall|i: int|
            0 <= i < schedules.len() ==> (#[trigger] schedules[i]).status != ScheduleStatus::Pending,
        forall|i: int|
            0 <= i < schedules.len() ==> reserved(#[trigger] schedules[i]) <= pending_total(schedules),
    decreases schedules.len(),
{
    if schedules.len() > 0 {
        let front = schedules.drop_last();
        lemma_pending_total_bounds(front);
        assert(forall|i: int| 0 <= i < front.len() ==> front[i] == schedules[i]);
        if pending_total(schedules) == 0 {
            assert forall|i: int| 0 <= i < schedules.len() implies (#[trigger] schedules[i]).status
                != ScheduleStatus::Pending by {
                if i < front.len() {
                    assert(front[i] == schedules[i]);
                }
            }
        }
        assert forall|i: int| 0 <= i < schedules.len() implies reserved(#[trigger] schedules[i])
            <= pending_total(schedules) by {
            if i < front.len() {
                assert(front[i] == schedules[i]);
            }
        }
    }
}

impl Escrow {
    /// The invariant of the record: that of its content.
    pub open spec fn wf(&self) -> bool {
        self@.wf()
    }

    /// Creates the record for `amount` locked by `depositor` until `deadline`,
    /// of which `fee` went to the fee recipient. There is no such record
    /// unless the amount is positive and the fee lies between zero and the
    /// amount.
    pub fn open(depositor: Address, amount: i128, fee: i128, deadline: u64) -> (r: Option<Escrow>)
        ensures
            r is Some <==> amount > 0 && 0 <= fee <= amount,
            r is Some ==> {
                &&& r->0@ == EscrowView::opened(depositor, amount, fee, deadline)
                &&& r->0.wf()
                &&& r->0@.ledger_total() == amount
            },
    {
        if amount <= 0 || fee < 0 || fee > amount {
            return None;
        }
        let escrow = Escrow {
            depositor,
            amount: amount - fee,
            status: EscrowStatus::Locked,
            deadline,
            refund_history: Vec::new(),
            payout_history: Vec::new(),
            remaining_amount: amount,
            release_schedules: Vec::new(),
            next_schedule_id: 0,
            schedule_history: Vec::new(),
        };
        proof {
            assert(escrow@.refund_history =~= Seq::empty());
            assert(escrow@.payout_history =~= Seq::empty());
            assert(escrow@.release_schedules =~= Seq::empty());
            assert(escrow@.schedule_history =~= Seq::empty());
        }
        Some(escrow)
    }

    /// Releases funds to `contributor`: `amount` if one is given, all that
    /// remains otherwise.
    ///
    /// On success the payout has left the record, a payout record has been
    /// appended, the status is `Released` if nothing remains and
    /// `PartiallyReleased` otherwise, and the result names the transfers: the
    /// release fee to the fee recipient, the rest to `contributor`.
    pub fn release(
        &mut self,
        contributor: Address,
        amount: Option<i128>,
        fees: &FeeConfig,
        custody_balance: i128,
        now: u64,
    ) -> (r: Result<Settlement, Error>)
        requires
            old(self).wf(),
            fees.wf(),
        ensures
            match old(self)@.release_amount(amount, custody_balance) {
                Ok(payout) => {
                    &&& r == Ok::<Settlement, Error>(payout_settlement(*fees, payout, contributor))
                    &&& final(self)@ == old(self)@.released(payout, contributor, now)
                },
                Err(e) => r == Err::<Settlement, Error>(e) && final(self)@ == old(self)@,
            },
            final(self).wf(),
            old(self)@.evolves_to(final(self)@),
    {
        proof {
            lemma_evolves_reflexive(self@);
        }
        if self.status != EscrowStatus::Locked && self.status != EscrowStatus::PartiallyReleased {
            return Err(Error::FundsNotLocked);
        }
        let payout: i128 = match amount {
            Some(stated) => {
                if stated <= 0 || stated > self.remaining_amount {
                    return Err(Error::InvalidAmount);
                }
                stated
            },
            None => self.remaining_amount,
        };
        if custody_balance < payout {
            return Err(Error::InsufficientFunds);
        }
        let fee: i128 = fees.release_fee_amount(payout);
        proof {
            lemma_released_wf(self@, payout, contributor, now);
        }
        self.remaining_amount = self.remaining_amount - payout;
        self.payout_history.push(
            PayoutRecord { amount: payout, recipient: contributor, timestamp: now, schedule_id: None },
        );
        self.restate(Movement::Release);
        Ok(
            Settlement::new(
                Account::Custody,
                Account::Holder(contributor),
                payout,
                fee,
                fees.fee_recipient,
            ),
        )
    }

    /// Whether any schedule is pending.
    pub fn has_pending_schedules(&self) -> (b: bool)
        ensures
            b == self@.has_pending(),
    {
        let mut i: usize = 0;
        while i < self.release_schedules.len()
            invariant
                i <= self.release_schedules.len(),
                forall|j: int|
                    0 <= j < i ==> (#[trigger] self.release_schedules@[j]).status
                        != ScheduleStatus::Pending,
            decreases self.release_schedules.len() - i,
        {
            if self.release_schedules[i].status == ScheduleStatus::Pending {
                return true;
            }
            i = i + 1;
        }
        false
    }

    /// The sum of the amounts of the pending schedules.
    pub fn pending_amount(&self) -> (total: i128)
        requires
            self@.ledger_ok(),
        ensures
            total == self@.pending(),
    {
        let mut total: i128 = 0;
        let mut i: usize = 0;
        proof {
            assert(self.release_schedules@.take(0) =~= Seq::empty());
            lemma_pending_total_bounds(self@.release_schedules);
        }
        while i < self.release_schedules.len()
            invariant
                i <= self.release_schedules.len(),
                self@.ledger_ok(),
                total == pending_total(self.release_schedules@.take(i as int)),
                0 <= total <= self@.pending(),
            decreases self.release_schedules.len() - i,
        {
            let schedule = self.release_schedules[i];
            proof {
                let next = self.release_schedules@.take(i + 1);
                assert(next.drop_last() =~= self.release_schedules@.take(i as int));
                assert(next.last() == schedule);
                lemma_pending_total_prefix(self.release_schedules@, i + 1);
            }
            if schedule.status == ScheduleStatus::Pending {
                total = total + schedule.amount;
            }
            i = i + 1;
        }
        proof {
            assert(self.release_schedules@.take(i as int) =~= self.release_schedules@);
        }
        total
    }

    /// The schedules that can be executed at time `now`, in their order.
    pub fn pending_schedules(&self, now: u64) -> (ready: Vec<ReleaseSchedule>)
        ensures
            ready@ == ready_schedules(self@.release_schedules, now),
    {
        let mut ready: Vec<ReleaseSchedule> = Vec::new();
        let mut i: usize = 0;
        proof {
            assert(self.release_schedules@.take(0) =~= Seq::empty());
        }
        while i < self.release_schedules.len()
            invariant
                i <= self.release_schedules.len(),
                ready@ == ready_schedules(self.release_schedules@.take(i as int), now),
            decreases self.release_schedules.len() - i,
        {
            let schedule = self.release_schedules[i];
            proof {
                let next = self.release_schedules@.take(i + 1);
                assert(next.drop_last() =~= self.release_schedules@.take(i as int));
                assert(next.last() == schedule);
            }
            if schedule.status == ScheduleStatus::Pending && schedule.timestamp <= now {
                ready.push(schedule);
            }
            i = i + 1;
        }
        proof {
            assert(self.release_schedules@.take(i as int) =~= self.release_schedules@);
        }
        ready
    }

    /// Pays schedule `index` to `recipient`, leaving the escrow status as it
    /// is.
    fn pay_schedule(&mut self, index: usize, recipient: Address, fees: &FeeConfig, now: u64) -> (r:
        ExecutedSchedule)
        requires
            old(self)@.ledger_ok(),
            fees.wf(),
            index < old(self).release_schedules.len(),
            old(self)@.runs(index as int, now),
        ensures
            final(self)@ == old(self)@.with_execution(index as int, recipient, now),
            r == old(self)@.execution_of(index as int, recipient, *fees),
            final(self)@.ledger_ok(),
    {
        proof {
            lemma_with_execution(self@, index as int, recipient, now);
        }
        let schedule = self.release_schedules[index];
        let fee: i128 = fees.release_fee_amount(schedule.amount);
        self.remaining_amount = self.remaining_amount - schedule.amount;
        self.payout_history.push(
            PayoutRecord {
                amount: schedule.amount,
                recipient,
                timestamp: now,
                schedule_id: Some(schedule.schedule_id),
            },
        );
        let done = ReleaseSchedule {
            amount: schedule.amount,
            timestamp: schedule.timestamp,
            status: ScheduleStatus::Released,
            schedule_id: schedule.schedule_id,
            released_at: Some(now),
            released_by: Some(recipient),
        };
        self.release_schedules.set(index, done);
        self.schedule_history.set(
            index,
            ScheduleHistoryRecord {
                schedule_id: done.schedule_id,
                amount: done.amount,
                timestamp: done.timestamp,
                status: done.status,
                executed_at: done.released_at,
                executed_by: done.released_by,
            },
        );
        ExecutedSchedule {
            schedule_id: schedule.schedule_id,
            amount: schedule.amount,
            settlement: Settlement::new(
                Account::Custody,
                Account::Holder(recipient),
                schedule.amount,
                fee,
                fees.fee_recipient,
            ),
        }
    }

    /// Derives the status anew after `movement`.
    fn restate(&mut self, movement: Movement)
        ensures
            final(self)@ == old(self)@.restated(movement),
    {
        let pending = self.has_pending_schedules();
        self.status = derive_status(self.status, movement, self.remaining_amount, pending);
    }

    /// Executes schedule `schedule_index` in favour of `recipient`.
    ///
    /// On success the schedule's amount has left the record, a payout record
    /// that names the schedule has been appended, the schedule and its audit
    /// copy are marked as released at `now` by `recipient`, and the status is
    /// `Released` if nothing remains and nothing is pending. The result names
    /// the schedule and the transfers: the release fee to the fee recipient,
    /// the rest to `recipient`.
    pub fn execute_schedule(&mut self, schedule_index: u32, recipient: Address, fees: &FeeConfig, now: u64) -> (r:
        Result<ExecutedSchedule, Error>)
        requires
            old(self).wf(),
            fees.wf(),
        ensures
            match old(self)@.execution_error(schedule_index, now) {
                None => {
                    &&& r == Ok::<ExecutedSchedule, Error>(
                        old(self)@.execution_of(schedule_index as int, recipient, *fees),
                    )
                    &&& final(self)@ == old(self)@.schedule_executed(schedule_index as int, recipient, now)
                },
                Some(e) => r == Err::<ExecutedSchedule, Error>(e) && final(self)@ == old(self)@,
            },
            final(self).wf(),
            old(self)@.evolves_to(final(self)@),
    {
        proof {
            lemma_evolves_reflexive(self@);
        }
        if self.status != EscrowStatus::Scheduled {
            return Err(Error::FundsNotLocked);
        }
        let index: usize = schedule_index as usize;
        if index >= self.release_schedules.len() {
            return Err(Error::ScheduleIndexOutOfBounds);
        }
        let schedule = self.release_schedules[index];
        if schedule.status != ScheduleStatus::Pending {
            return Err(Error::ScheduleAlreadyReleased);
        }
        if schedule.timestamp > now {
            return Err(Error::ScheduleNotReady);
        }
        if schedule.amount > self.remaining_amount {
            return Err(Error::InsufficientFunds);
        }
        proof {
            lemma_schedule_executed(self@, schedule_index, recipient, now);
        }
        let done = self.pay_schedule(index, recipient, fees, now);
        self.restate(Movement::ScheduleExecuted);
        Ok(done)
    }

    /// Takes the schedules in turn and executes, in favour of `recipient`,
    /// each one that is pending and due and that what remains still covers.
    /// One that is not covered is passed over and stays pending.
    ///
    /// The result lists the executions in the order of the schedules; its
    /// length is the number executed.
    pub fn execute_all_ready(&mut self, recipient: Address, fees: &FeeConfig, now: u64) -> (r: Result<
        Vec<ExecutedSchedule>,
        Error,
    >)
        requires
            old(self).wf(),
            fees.wf(),
        ensures
            old(self).status != EscrowStatus::Scheduled ==> r == Err::<Vec<ExecutedSchedule>, Error>(
                Error::FundsNotLocked,
            ) && final(self)@ == old(self)@,
            old(self).status == EscrowStatus::Scheduled ==> {
                &&& r is Ok
                &&& r->Ok_0@ == old(self)@.ready_payouts(
                    old(self)@.release_schedules.len() as int,
                    recipient,
                    now,
                    *fees,
                )
                &&& final(self)@ == old(self)@.all_ready_executed(recipient, now)
            },
            final(self).wf(),
            old(self)@.evolves_to(final(self)@),
    {
        proof {
            lemma_evolves_reflexive(self@);
        }
        if self.status != EscrowStatus::Scheduled {
            return Err(Error::FundsNotLocked);
        }
        let mut done: Vec<ExecutedSchedule> = Vec::new();
        let count: usize = self.release_schedules.len();
        let mut i: usize = 0;
        while i < count
            invariant
                i <= count,
                fees.wf(),
                count == old(self)@.release_schedules.len(),
                self.release_schedules.len() == count,
                self@ == old(self)@.ready_executed(i as int, recipient, now),
                done@ == old(self)@.ready_payouts(i as int, recipient, now, *fees),
                self@.ledger_ok(),
                self.status == EscrowStatus::Scheduled,
            decreases count - i,
        {
            let schedule = self.release_schedules[i];
            if schedule.status == ScheduleStatus::Pending && schedule.timestamp <= now
                && schedule.amount <= self.remaining_amount {
                let item = self.pay_schedule(i, recipient, fees, now);
                done.push(item);
            }
            i = i + 1;
        }
        proof {
            lemma_all_ready_executed(old(self)@, recipient, now);
        }
        self.restate(Movement::ScheduleExecuted);
        Ok(done)
    }

    /// Cancels schedule `schedule_index`: the schedule and its audit copy are
    /// marked as cancelled. What remains is not touched.
    pub fn cancel_schedule(&mut self, schedule_index: u32) -> (r: Result<(), Error>)
        requires
            old(self).wf(),
        ensures
            match old(self)@.cancellation_error(schedule_index) {
                None => r == Ok::<(), Error>(()) && final(self)@ == old(self)@.schedule_cancelled(
                    schedule_index as int,
                ),
                Some(e) => r == Err::<(), Error>(e) && final(self)@ == old(self)@,
            },
            final(self).wf(),
            old(self)@.evolves_to(final(self)@),
    {
        proof {
            lemma_evolves_reflexive(self@);
        }
        let index: usize = schedule_index as usize;
        if index >= self.release_schedules.len() {
            return Err(Error::ScheduleIndexOutOfBounds);
        }
        let schedule = self.release_schedules[index];
        if schedule.status != ScheduleStatus::Pending {
            return Err(Error::ScheduleAlreadyReleased);
        }
        proof {
            lemma_schedule_cancelled_wf(self@, index as int);
        }
        let done = ReleaseSchedule {
            amount: schedule.amount,
            timestamp: schedule.timestamp,
            status: ScheduleStatus::Cancelled,
            schedule_id: schedule.schedule_id,
            released_at: schedule.released_at,
            released_by: schedule.released_by,
        };
        self.release_schedules.set(index, done);
        self.schedule_history.set(
            index,
            ScheduleHistoryRecord {
                schedule_id: done.schedule_id,
                amount: done.amount,
                timestamp: done.timestamp,
                status: done.status,
                executed_at: done.released_at,
                executed_by: done.released_by,
            },
        );
        self.restate(Movement::ScheduleCancelled);
        Ok(())
    }

    /// Checks `requests` one by one and adds up their amounts.
    fn check_requests(requests: &Vec<(i128, u64)>, now: u64) -> (r: Result<i128, Error>)
        ensures
            match requests_error(requests@, now, requests@.len() as int) {
                Some(e) => r == Err::<i128, Error>(e),
                None => r == Ok::<i128, Error>(requested_total(requests@) as i128) && 0
                    <= requested_total(requests@) <= i128::MAX,
            },
    {
        let mut total: i128 = 0;
        let mut i: usize = 0;
        proof {
            assert(requests@.take(0) =~= Seq::empty());
        }
        while i < requests.len()
            invariant
                i <= requests.len(),
                requests_error(requests@, now, i as int) is None,
                total == requested_total(requests@.take(i as int)),
                0 <= total,
            decreases requests.len() - i,
        {
            let (amount, timestamp) = requests[i];
            proof {
                let next = requests@.take(i + 1);
                assert(next.drop_last() =~= requests@.take(i as int));
                assert(next.last() == requests@[i as int]);
            }
            if amount <= 0 {
                proof {
                    lemma_requests_error_stays(requests@, now, i + 1, requests@.len() as int);
                }
                return Err(Error::InvalidScheduleAmount);
            }
            if timestamp <= now {
                proof {
                    lemma_requests_error_stays(requests@, now, i + 1, requests@.len() as int);
                }
                return Err(Error::InvalidScheduleTimestamp);
            }
            match total.checked_add(amount) {
                Some(sum) => {
                    total = sum;
                },
                None => {
                    proof {
                        lemma_requests_error_stays(requests@, now, i + 1, requests@.len() as int);
                    }
                    return Err(Error::InvalidScheduleAmount);
                },
            }
            i = i + 1;
        }
        proof {
            assert(requests@.take(i as int) =~= requests@);
        }
        Ok(total)
    }

    /// Creates one pending schedule for each request, a pair of an amount and
    /// the earliest time of execution.
    ///
    /// On success the schedules and their audit copies have been appended in
    /// the order of the requests, the status is `Scheduled`, and the result
    /// lists the identifiers of the new schedules.
    pub fn create_schedules(&mut self, requests: &Vec<(i128, u64)>, now: u64) -> (r: Result<Vec<u32>, Error>)
        requires
            old(self).wf(),
            old(self).release_schedules.len() + requests.len() <= u32::MAX,
        ensures
            match old(self)@.scheduling_error(requests@, now) {
                None => {
                    &&& r is Ok
                    &&& r->Ok_0@ == old(self)@.ids_for(requests@.len())
                    &&& final(self)@ == old(self)@.scheduled(requests@)
                },
                Some(e) => r == Err::<Vec<u32>, Error>(e) && final(self)@ == old(self)@,
            },
            final(self).wf(),
            old(self)@.evolves_to(final(self)@),
    {
        proof {
            lemma_evolves_reflexive(self@);
        }
        if self.status != EscrowStatus::Locked && self.status != EscrowStatus::Scheduled {
            return Err(Error::FundsNotLocked);
        }
        let requested: i128 = match Self::check_requests(requests, now) {
            Ok(total) => total,
            Err(e) => {
                return Err(e);
            },
        };
        let pending: i128 = self.pending_amount();
        match pending.checked_add(requested) {
            Some(sum) => {
                if sum > self.remaining_amount {
                    return Err(Error::TotalScheduleExceedsAmount);
                }
            },
            None => {
                return Err(Error::InvalidScheduleAmount);
            },
        }
        let mut ids: Vec<u32> = Vec::new();
        let mut i: usize = 0;
        proof {
            assert(requests@.take(0) =~= Seq::empty());
            lemma_pending_total_bounds(self@.release_schedules);
        }
        while i < requests.len()
            invariant
                i <= requests.len(),
                old(self).wf(),
                old(self).release_schedules.len() + requests.len() <= u32::MAX,
                requests_error(requests@, now, requests@.len() as int) is None,
                old(self)@.pending() + requested_total(requests@) <= old(self).remaining_amount,
                self.depositor == old(self).depositor,
                self.amount == old(self).amount,
                self.status == old(self).status,
                self.deadline == old(self).deadline,
                self.refund_history@ == old(self).refund_history@,
                self.payout_history@ == old(self).payout_history@,
                self.remaining_amount == old(self).remaining_amount,
                self.next_schedule_id == old(self).next_schedule_id + i,
                self.release_schedules@ == old(self).release_schedules@ + old(self)@.schedules_for(
                    requests@,
                ).take(i as int),
                self.schedule_history@ == old(self).schedule_history@ + Seq::new(
                    i as nat,
                    |k: int| mirror(old(self)@.schedules_for(requests@)[k]),
                ),
                ids@ == old(self)@.ids_for(i as nat),
                self@.pending() == old(self)@.pending() + requested_total(requests@.take(i as int)),
                requested_total(requests@.take(i as int)) <= requested_total(requests@),
            decreases requests.len() - i,
        {
            let (amount, timestamp) = requests[i];
            let schedule_id: u32 = self.next_schedule_id;
            let schedule = ReleaseSchedule {
                amount,
                timestamp,
                status: ScheduleStatus::Pending,
                schedule_id,
                released_at: None,
                released_by: None,
            };
            proof {
                let next = requests@.take(i + 1);
                assert(next.drop_last() =~= requests@.take(i as int));
                assert(next.last() == requests@[i as int]);
                lemma_request_ok(requests@, now, i as int, requests@.len() as int);
                lemma_requested_total_prefix(requests@, now, i + 1);
                lemma_pending_total_push(self.release_schedules@, schedule);
                let added = old(self)@.schedules_for(requests@);
                assert(added[i as int] == schedule);
                assert(added.take(i + 1) =~= added.take(i as int).push(schedule));
            }
            self.next_schedule_id = self.next_schedule_id + 1;
            self.release_schedules.push(schedule);
            self.schedule_history.push(
                ScheduleHistoryRecord {
                    schedule_id,
                    amount,
                    timestamp,
                    status: ScheduleStatus::Pending,
                    executed_at: None,
                    executed_by: None,
                },
            );
            ids.push(schedule_id);
            proof {
                let added = old(self)@.schedules_for(requests@);
                assert(self.release_schedules@ =~= old(self).release_schedules@ + added.take(i + 1));
                assert(self.schedule_history@ =~= old(self).schedule_history@ + Seq::new(
                    (i + 1) as nat,
                    |k: int| mirror(added[k]),
                ));
                assert(ids@ =~= old(self)@.ids_for((i + 1) as nat));
            }
            i = i + 1;
        }
        proof {
            let added = old(self)@.schedules_for(requests@);
            assert(added.take(i as int) =~= added);
            assert(requests@.take(i as int) =~= requests@);
            assert(self@.schedule_history =~= old(self)@.schedule_history + Seq::new(
                added.len(),
                |k: int| mirror(added[k]),
            ));
            lemma_scheduled_wf(old(self)@, requests@, now);
        }
        self.restate(Movement::ScheduleCreated);
        Ok(ids)
    }

    /// Whether a refund of `amount` can be approved.
    pub fn check_approval(&self, amount: i128) -> (r: Result<(), Error>)
        ensures
            match self@.approval_error(amount) {
                None => r == Ok::<(), Error>(()),
                Some(e) => r == Err::<(), Error>(e),
            },
    {
        if self.status != EscrowStatus::Locked && self.status != EscrowStatus::PartiallyRefunded {
            return Err(Error::FundsNotLocked);
        }
        if amount <= 0 || amount > self.remaining_amount {
            return Err(Error::InvalidAmount);
        }
        Ok(())
    }

    /// Refunds from the escrow in `mode`. `approval` is the approval on
    /// record for this escrow, if there is one.
    ///
    /// On success the amount has left the record, a refund record has been
    /// appended, and the status is `Refunded` if nothing remains and
    /// `PartiallyRefunded` otherwise. The result names the transfer and says
    /// whether the approval was needed; if so it is used up.
    pub fn refund(
        &mut self,
        amount: Option<i128>,
        recipient: Option<Address>,
        mode: RefundMode,
        approval: Option<RefundApproval>,
        custody_balance: i128,
        now: u64,
    ) -> (r: Result<RefundReceipt, Error>)
        requires
            old(self).wf(),
        ensures
            match old(self)@.refund_plan(amount, recipient, mode, approval, custody_balance, now) {
                Ok((paid, to)) => {
                    &&& r == Ok::<RefundReceipt, Error>(
                        RefundReceipt {
                            settlement: refund_settlement(paid, to),
                            recipient: to,
                            approval_used: old(self)@.uses_approval(mode, now),
                        },
                    )
                    &&& final(self)@ == old(self)@.refund_applied(paid, to, mode, now)
                },
                Err(e) => r == Err::<RefundReceipt, Error>(e) && final(self)@ == old(self)@,
            },
            final(self).wf(),
            old(self)@.evolves_to(final(self)@),
    {
        proof {
            lemma_evolves_reflexive(self@);
        }
        if self.status != EscrowStatus::Locked && self.status != EscrowStatus::PartiallyRefunded {
            return Err(Error::FundsNotLocked);
        }
        let before_deadline: bool = now < self.deadline;
        let (paid, to): (i128, Address) = match mode {
            RefundMode::Full => {
                if before_deadline {
                    return Err(Error::DeadlineNotPassed);
                }
                (self.remaining_amount, self.depositor)
            },
            RefundMode::Partial => {
                if before_deadline {
                    return Err(Error::DeadlineNotPassed);
                }
                match amount {
                    Some(stated) => (stated, self.depositor),
                    None => (self.remaining_amount, self.depositor),
                }
            },
            RefundMode::Custom => {
                let (stated, to) = match (amount, recipient) {
                    (Some(stated), Some(to)) => (stated, to),
                    _ => {
                        return Err(Error::InvalidAmount);
                    },
                };
                if before_deadline {
                    match approval {
                        Some(granted) => {
                            if granted.amount != stated || granted.recipient != to || granted.mode
                                != mode {
                                return Err(Error::RefundNotApproved);
                            }
                        },
                        None => {
                            return Err(Error::RefundNotApproved);
                        },
                    }
                }
                (stated, to)
            },
        };
        if paid <= 0 || paid > self.remaining_amount {
            return Err(Error::InvalidAmount);
        }
        if custody_balance < paid {
            return Err(Error::InsufficientFunds);
        }
        proof {
            lemma_refund_applied_wf(self@, paid, to, mode, now);
        }
        self.remaining_amount = self.remaining_amount - paid;
        self.refund_history.push(RefundRecord { amount: paid, recipient: to, mode, timestamp: now });
        self.restate(Movement::Refund);
        Ok(
            RefundReceipt {
                settlement: Settlement {
                    payment: Transfer { from: Account::Custody, to: Account::Holder(to), amount: paid },
                    fee: None,
                },
                recipient: to,
                approval_used: mode == RefundMode::Custom && before_deadline,
            },
        )
    }
}

/// The pending total of a prefix is between zero and the pending total of the
/// whole.
pub proof fn lemma_pending_total_prefix(schedules: Seq<ReleaseSchedule>, n: int)
    requires
        0 <= n <= schedules.len(),
        forall|i: int| 0 <= i < schedules.len() ==> (#[trigger] schedules[i]).amount > 0,
    ensures
        0 <= pending_total(schedules.take(n)) <= pending_total(schedules),
    decreases schedules.len(),
{
    if n == schedules.len() {
        assert(schedules.take(n) =~= schedules);
        lemma_pending_total_bounds(schedules);
    } else {
        let front = schedules.drop_last();
        assert(front.take(n) =~= schedules.take(n));
        lemma_pending_total_prefix(front, n);
    }
}

/// Once a request among the first `n` is faulty, the error stays the same
/// however many more are looked at.
pub proof fn lemma_requests_error_stays(requests: Seq<(i128, u64)>, now: u64, n: int, m: int)
    requires
        0 <= n <= m,
        requests_error(requests, now, n) is Some,
    ensures
        requests_error(requests, now, m) == requests_error(requests, now, n),
    decreases m - n,
{
    if n < m {
        lemma_requests_error_stays(requests, now, n, m - 1);
    }
}

/// Where the first `m` requests are free of faults, each of them is.
pub proof fn lemma_request_ok(requests: Seq<(i128, u64)>, now: u64, i: int, m: int)
    requires
        0 <= i < m,
        requests_error(requests, now, m) is None,
    ensures
        request_error(requests, i, now) is None,
    decreases m - i,
{
    if i + 1 < m {
        lemma_request_ok(requests, now, i, m - 1);
    }
}

/// Where the requests are free of faults, the total of a prefix is between
/// zero and the total of all.
pub proof fn lemma_requested_total_prefix(requests: Seq<(i128, u64)>, now: u64, n: int)
    requires
        0 <= n <= requests.len(),
        requests_error(requests, now, requests.len() as int) is None,
    ensures
        0 <= requested_total(requests.take(n)) <= requested_total(requests),
    decreases requests.len() - n,
{
    if n == requests.len() {
        assert(requests.take(n) =~= requests);
        lemma_requested_total_nonnegative(requests, now, n);
    } else {
        lemma_requested_total_prefix(requests, now, n + 1);
        lemma_request_ok(requests, now, n, requests.len() as int);
        assert(requests.take(n + 1).drop_last() =~= requests.take(n));
        lemma_requested_total_nonnegative(requests, now, n);
    }
}

/// Where the requests are free of faults, the total of a prefix is not
/// negative.
pub proof fn lemma_requested_total_nonnegative(requests: Seq<(i128, u64)>, now: u64, n: int)
    requires
        0 <= n <= requests.len(),
        requests_error(requests, now, requests.len() as int) is None,
    ensures
        0 <= requested_total(requests.take(n)),
    decreases n,
{
    if n > 0 {
        lemma_requested_total_nonnegative(requests, now, n - 1);
        lemma_request_ok(requests, now, n - 1, requests.len() as int);
        assert(requests.take(n).drop_last() =~= requests.take(n - 1));
    } else {
        assert(requests.take(0) =~= Seq::empty());
    }
}

/// The pending total of schedules followed by freshly requested ones is the
/// pending total of the first plus the requested total.
pub proof fn lemma_pending_total_requested(pre: EscrowView, requests: Seq<(i128, u64)>, n: int)
    requires
        0 <= n <= requests.len(),
    ensures
        pending_total(pre.release_schedules + pre.schedules_for(requests).take(n)) == pending_total(
            pre.release_schedules,
        ) + requested_total(requests.take(n)),
    decreases n,
{
    let added = pre.schedules_for(requests);
    if n == 0 {
        assert(pre.release_schedules + added.take(0) =~= pre.release_schedules);
        assert(requests.take(0) =~= Seq::empty());
    } else {
        lemma_pending_total_requested(pre, requests, n - 1);
        let front = pre.release_schedules + added.take(n - 1);
        assert(pre.release_schedules + added.take(n) =~= front.push(added[n - 1]));
        lemma_pending_total_push(front, added[n - 1]);
        assert(requests.take(n).drop_last() =~= requests.take(n - 1));
    }
}

/// Paying a schedule that is pending and covered keeps the ledger part of
/// the invariant, keeps the ledger total, and frees what the schedule
/// reserved.
pub proof fn lemma_with_execution(pre: EscrowView, index: int, recipient: Address, now: u64)
    requires
        pre.ledger_ok(),
        0 <= index < pre.release_schedules.len(),
        pre.runs(index, now),
    ensures
        pre.with_execution(index, recipient, now).ledger_ok(),
        pre.evolves_to(pre.with_execution(index, recipient, now)),
        pre.with_execution(index, recipient, now).ledger_total() == pre.ledger_total(),
        pre.with_execution(index, recipient, now).pending() == pre.pending()
            - pre.release_schedules[index].amount,
        pre.with_execution(index, recipient, now).status == pre.status,
        pre.with_execution(index, recipient, now).release_schedules.len()
            == pre.release_schedules.len(),
{
    let post = pre.with_execution(index, recipient, now);
    let schedule = pre.release_schedules[index];
    lemma_pending_total_update(pre.release_schedules, index, executed(schedule, recipient, now));
    let record = PayoutRecord {
        amount: schedule.amount,
        recipient,
        timestamp: now,
        schedule_id: Some(schedule.schedule_id),
    };
    lemma_payout_total_push(pre.payout_history, record);
    lemma_prefix_of_push(pre.payout_history, record);
    lemma_evolves_reflexive(pre);
    assert forall|i: int| 0 <= i < post.release_schedules.len() implies {
        &&& (#[trigger] post.release_schedules[i]).schedule_id == i
        &&& post.release_schedules[i].amount > 0
        &&& post.schedule_history[i] == mirror(post.release_schedules[i])
        &&& execution_on_record(post.release_schedules[i])
    } by {
        assert(pre.release_schedules[i].schedule_id == i);
    }
}

/// Taking the first `upto` schedules in turn keeps the ledger part of the
/// invariant, the status and the number of schedules, and leads to a later
/// state of the record.
pub proof fn lemma_ready_executed(pre: EscrowView, upto: int, recipient: Address, now: u64)
    requires
        pre.ledger_ok(),
        0 <= upto <= pre.release_schedules.len(),
    ensures
        pre.ready_executed(upto, recipient, now).ledger_ok(),
        pre.evolves_to(pre.ready_executed(upto, recipient, now)),
        pre.ready_executed(upto, recipient, now).status == pre.status,
        pre.ready_executed(upto, recipient, now).release_schedules.len() == pre.release_schedules.len(),
    decreases upto,
{
    if upto <= 0 {
        lemma_evolves_reflexive(pre);
    } else {
        lemma_ready_executed(pre, upto - 1, recipient, now);
        let before = pre.ready_executed(upto - 1, recipient, now);
        if before.runs(upto - 1, now) {
            lemma_with_execution(before, upto - 1, recipient, now);
            lemma_evolves_transitive(pre, before, before.with_execution(upto - 1, recipient, now));
        }
    }
}

/// Executing every due schedule keeps the record well formed and leads to a
/// later state of it.
pub proof fn lemma_all_ready_executed(pre: EscrowView, recipient: Address, now: u64)
    requires
        pre.wf(),
        pre.status == EscrowStatus::Scheduled,
    ensures
        pre.all_ready_executed(recipient, now).wf(),
        pre.evolves_to(pre.all_ready_executed(recipient, now)),
{
    let swept = pre.ready_executed(pre.release_schedules.len() as int, recipient, now);
    lemma_ready_executed(pre, pre.release_schedules.len() as int, recipient, now);
    lemma_settled_wf(swept);
    lemma_evolves_transitive(pre, swept, swept.settled());
}

/// Executing one schedule keeps the record well formed and leads to a later
/// state of it.
pub proof fn lemma_schedule_executed(pre: EscrowView, index: u32, recipient: Address, now: u64)
    requires
        pre.wf(),
        pre.execution_error(index, now) is None,
    ensures
        pre.schedule_executed(index as int, recipient, now).wf(),
        pre.evolves_to(pre.schedule_executed(index as int, recipient, now)),
{
    let paid = pre.with_execution(index as int, recipient, now);
    lemma_with_execution(pre, index as int, recipient, now);
    lemma_settled_wf(paid);
    lemma_evolves_transitive(pre, paid, paid.settled());
}

/// Bringing the status of a scheduled escrow up to date restores the whole
/// invariant.
pub proof fn lemma_settled_wf(pre: EscrowView)
    requires
        pre.ledger_ok(),
        pre.status == EscrowStatus::Scheduled,
    ensures
        pre.settled().wf(),
        pre.evolves_to(pre.settled()),
{
    let post = pre.settled();
    lemma_evolves_reflexive(pre);
    lemma_pending_total_bounds(pre.release_schedules);
    assert(post.release_schedules == pre.release_schedules);
    if pre.has_pending() {
        let i = choose|i: int|
            0 <= i < pre.release_schedules.len() && (#[trigger] pre.release_schedules[i]).status
                == ScheduleStatus::Pending;
        assert(reserved(pre.release_schedules[i]) > 0);
    }
}

/// Cancelling a pending schedule keeps the record well formed.
pub proof fn lemma_schedule_cancelled_wf(pre: EscrowView, index: int)
    requires
        pre.wf(),
        0 <= index < pre.release_schedules.len(),
        pre.release_schedules[index].status == ScheduleStatus::Pending,
    ensures
        pre.schedule_cancelled(index).wf(),
        pre.evolves_to(pre.schedule_cancelled(index)),
{
    let post = pre.schedule_cancelled(index);
    lemma_evolves_reflexive(pre);
    lemma_pending_total_update(pre.release_schedules, index, cancelled(pre.release_schedules[index]));
    assert forall|i: int| 0 <= i < post.release_schedules.len() implies {
        &&& (#[trigger] post.release_schedules[i]).schedule_id == i
        &&& post.release_schedules[i].amount > 0
        &&& post.schedule_history[i] == mirror(post.release_schedules[i])
        &&& execution_on_record(post.release_schedules[i])
    } by {
        assert(pre.release_schedules[i].schedule_id == i);
    }
    assert(pre.has_pending());
}

/// Scheduling requests that were accepted keeps the record well formed.
pub proof fn lemma_scheduled_wf(pre: EscrowView, requests: Seq<(i128, u64)>, now: u64)
    requires
        pre.wf(),
        pre.release_schedules.len() + requests.len() <= u32::MAX,
        pre.scheduling_error(requests, now) is None,
    ensures
        pre.scheduled(requests).wf(),
        pre.evolves_to(pre.scheduled(requests)),
{
    let post = pre.scheduled(requests);
    lemma_evolves_reflexive(pre);
    let added = pre.schedules_for(requests);
    assert(added.take(added.len() as int) =~= added);
    assert(requests.take(requests.len() as int) =~= requests);
    lemma_pending_total_requested(pre, requests, requests.len() as int);
    assert forall|i: int| 0 <= i < post.release_schedules.len() implies {
        &&& (#[trigger] post.release_schedules[i]).schedule_id == i
        &&& post.release_schedules[i].amount > 0
        &&& post.schedule_history[i] == mirror(post.release_schedules[i])
        &&& execution_on_record(post.release_schedules[i])
    } by {
        if i < pre.release_schedules.len() {
            assert(pre.release_schedules[i].schedule_id == i);
        } else {
            let k = i - pre.release_schedules.len();
            assert(post.release_schedules[i] == added[k]);
            lemma_request_ok(requests, now, k, requests.len() as int);
        }
    }
}

/// A refund keeps the record well formed.
pub proof fn lemma_refund_applied_wf(pre: EscrowView, amount: i128, recipient: Address, mode: RefundMode, now: u64)
    requires
        pre.wf(),
        pre.status == EscrowStatus::Locked || pre.status == EscrowStatus::PartiallyRefunded,
        0 < amount <= pre.remaining_amount,
    ensures
        pre.refund_applied(amount, recipient, mode, now).wf(),
        pre.evolves_to(pre.refund_applied(amount, recipient, mode, now)),
{
    let post = pre.refund_applied(amount, recipient, mode, now);
    let record = RefundRecord { amount, recipient, mode, timestamp: now };
    lemma_refund_total_push(pre.refund_history, record);
    lemma_prefix_of_push(pre.refund_history, record);
    lemma_evolves_reflexive(pre);
    lemma_pending_total_bounds(pre.release_schedules);
    assert(!pre.has_pending());
    assert(post.release_schedules == pre.release_schedules);
    assert(!post.has_pending());
}

/// Every state of a record can be a later state of itself.
pub proof fn lemma_evolves_reflexive(pre: EscrowView)
    ensures
        pre.evolves_to(pre),
{
    assert(pre.payout_history.subrange(0, pre.payout_history.len() as int) =~= pre.payout_history);
    assert(pre.refund_history.subrange(0, pre.refund_history.len() as int) =~= pre.refund_history);
}

/// A later state of a later state is a later state.
pub proof fn lemma_evolves_transitive(first: EscrowView, second: EscrowView, third: EscrowView)
    requires
        first.evolves_to(second),
        second.evolves_to(third),
    ensures
        first.evolves_to(third),
{
    assert(first.payout_history =~= third.payout_history.subrange(0, first.payout_history.len() as int));
    assert(first.refund_history =~= third.refund_history.subrange(0, first.refund_history.len() as int));
}

/// A list is a prefix of the list with one more element.
pub proof fn lemma_prefix_of_push<A>(list: Seq<A>, element: A)
    ensures
        list.is_prefix_of(list.push(element)),
{
    assert(list.push(element).subrange(0, list.len() as int) =~= list);
}

/// A release keeps the record well formed and leads to a later state of it.
pub proof fn lemma_released_wf(pre: EscrowView, payout: i128, contributor: Address, now: u64)
    requires
        pre.wf(),
        pre.status == EscrowStatus::Locked || pre.status == EscrowStatus::PartiallyReleased,
        0 < payout <= pre.remaining_amount,
    ensures
        pre.released(payout, contributor, now).wf(),
        pre.evolves_to(pre.released(payout, contributor, now)),
{
    let post = pre.released(payout, contributor, now);
    let record = PayoutRecord { amount: payout, recipient: contributor, timestamp: now, schedule_id: None };
    lemma_payout_total_push(pre.payout_history, record);
    lemma_prefix_of_push(pre.payout_history, record);
    lemma_evolves_reflexive(pre);
    lemma_pending_total_bounds(pre.release_schedules);
    assert(!pre.has_pending());
    assert(post.release_schedules == pre.release_schedules);
    assert(!post.has_pending());
}

} // verus!
