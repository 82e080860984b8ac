//! What holds of the contract whatever is called and in whatever order.
//!
//! Every mutating operation states that the state it leaves is a later state
//! of the one it found (`ContractView::advances_to`, `EscrowView::evolves_to`).
//! The laws below prove this of every operation on a record and of every
//! sequence of operations, say what follows for any two states so related,
//! and say what the operations refuse in all circumstances.

use vstd::prelude::*;
use crate::anti_abuse::{admission, later, AddressState, AntiAbuseConfig, RateLimiterView};
use crate::batch::{
    lemma_lock_items_error_stays, lemma_release_items_error_stays, LockFundsItem, ReleaseFundsItem,
};
use crate::contract::ContractView;
use crate::escrow::{
    executed, is_ready, lemma_all_ready_executed, lemma_evolves_reflexive, lemma_evolves_transitive,
    lemma_pending_total_bounds, lemma_ready_executed, lemma_refund_applied_wf, lemma_released_wf,
    lemma_schedule_cancelled_wf, lemma_schedule_executed, lemma_scheduled_wf, requested_total,
    reserved, EscrowView,
};
use crate::stats::{lemma_payout_total_nonnegative, lemma_refund_total_nonnegative};
use crate::types::{
    settlement_of, Abort, Account, Address, Error, EscrowStatus, Failure, RefundApproval,
    RefundMode, ReleaseSchedule,
};

verus! {

/// One operation on an escrow record, with its arguments.
pub enum EscrowOp {
    Release { contributor: Address, amount: Option<i128>, custody_balance: i128, now: u64 },
    Refund {
        amount: Option<i128>,
        recipient: Option<Address>,
        mode: RefundMode,
        approval: Option<RefundApproval>,
        custody_balance: i128,
        now: u64,
    },
    CreateSchedules { requests: Seq<(i128, u64)>, now: u64 },
    ExecuteSchedule { index: u32, recipient: Address, now: u64 },
    ExecuteAllReady { recipient: Address, now: u64 },
    CancelSchedule { index: u32 },
}

impl EscrowView {
    /// The record after `op`: what the operation commits if it succeeds, the
    /// record as it was if it fails.
    pub open spec fn step(self, op: EscrowOp) -> EscrowView {
        match op {
            EscrowOp::Release { contributor, amount, custody_balance, now } => {
                match self.release_amount(amount, custody_balance) {
                    Ok(payout) => self.released(payout, contributor, now),
                    Err(_) => self,
                }
            },
            EscrowOp::Refund { amount, recipient, mode, approval, custody_balance, now } => {
                match self.refund_plan(amount, recipient, mode, approval, custody_balance, now) {
                    Ok(plan) => self.refund_applied(plan.0, plan.1, mode, now),
                    Err(_) => self,
                }
            },
            EscrowOp::CreateSchedules { requests, now } => {
                if self.scheduling_error(requests, now) is None && self.release_schedules.len()
                    + requests.len() <= u32::MAX {
                    self.scheduled(requests)
                } else {
                    self
                }
            },
            EscrowOp::ExecuteSchedule { index, recipient, now } => {
                if self.execution_error(index, now) is None {
                    self.schedule_executed(index as int, recipient, now)
                } else {
                    self
                }
            },
            EscrowOp::ExecuteAllReady { recipient, now } => {
                if self.status == EscrowStatus::Scheduled {
                    self.all_ready_executed(recipient, now)
                } else {
                    self
                }
            },
            EscrowOp::CancelSchedule { index } => {
                if self.cancellation_error(index) is None {
                    self.schedule_cancelled(index as int)
                } else {
                    self
                }
            },
        }
    }

    /// The record after the operations `ops`, one after the other.
    pub open spec fn run(self, ops: Seq<EscrowOp>) -> EscrowView
        decreases ops.len(),
    {
        if ops.len() == 0 {
            self
        } else {
            self.run(ops.drop_last()).step(ops.last())
        }
    }
}

/// Whatever the operation and its arguments, a well-formed record stays well
/// formed and moves to a later state of itself.
pub proof fn law_step(escrow: EscrowView, op: EscrowOp)
    requires
        escrow.wf(),
    ensures
        escrow.step(op).wf(),
        escrow.evolves_to(escrow.step(op)),
{
    lemma_evolves_reflexive(escrow);
    match op {
        EscrowOp::Release { contributor, amount, custody_balance, now } => {
            if let Ok(payout) = escrow.release_amount(amount, custody_balance) {
                lemma_released_wf(escrow, payout, contributor, now);
            }
        },
        EscrowOp::Refund { amount, recipient, mode, approval, custody_balance, now } => {
            if let Ok(plan) = escrow.refund_plan(
                amount,
                recipient,
                mode,
                approval,
                custody_balance,
                now,
            ) {
                lemma_refund_applied_wf(escrow, plan.0, plan.1, mode, now);
            }
        },
        EscrowOp::CreateSchedules { requests, now } => {
            if escrow.scheduling_error(requests, now) is None && escrow.release_schedules.len()
                + requests.len() <= u32::MAX {
                lemma_scheduled_wf(escrow, requests, now);
            }
        },
        EscrowOp::ExecuteSchedule { index, recipient, now } => {
            if escrow.execution_error(index, now) is None {
                lemma_schedule_executed(escrow, index, recipient, now);
            }
        },
        EscrowOp::ExecuteAllReady { recipient, now } => {
            if escrow.status == EscrowStatus::Scheduled {
                lemma_all_ready_executed(escrow, recipient, now);
            }
        },
        EscrowOp::CancelSchedule { index } => {
            if escrow.cancellation_error(index) is None {
                lemma_schedule_cancelled_wf(escrow, index as int);
            }
        },
    }
}

/// At every point in time. Whatever operations are applied to a well-formed
/// record, in whatever order and with whatever arguments, the record stays
/// well formed, its ledger total stays what it was, what remains never grows
/// and the status never falls back.
pub proof fn law_every_history(escrow: EscrowView, ops: Seq<EscrowOp>)
    requires
        escrow.wf(),
    ensures
        escrow.run(ops).wf(),
        escrow.evolves_to(escrow.run(ops)),
        escrow.run(ops).ledger_total() == escrow.ledger_total(),
        escrow.run(ops).remaining_amount <= escrow.remaining_amount,
        escrow.run(ops).status.rank() >= escrow.status.rank(),
    decreases ops.len(),
{
    if ops.len() == 0 {
        lemma_evolves_reflexive(escrow);
    } else {
        law_every_history(escrow, ops.drop_last());
        let before = escrow.run(ops.drop_last());
        law_step(before, ops.last());
        lemma_evolves_transitive(escrow, before, before.step(ops.last()));
    }
}

/// Conservation, from the lock on. After any operations on a record that was
/// opened for `amount`, what remains, what was paid out and what was refunded
/// add up to `amount`: to the credited amount where no lock fee was taken, to
/// the credited amount and the fee otherwise.
pub proof fn law_conservation_from_lock(
    depositor: Address,
    amount: i128,
    fee: i128,
    deadline: u64,
    ops: Seq<EscrowOp>,
)
    requires
        amount > 0,
        0 <= fee <= amount,
    ensures
        EscrowView::opened(depositor, amount, fee, deadline).run(ops).ledger_total() == amount,
        EscrowView::opened(depositor, amount, fee, deadline).run(ops).amount == amount - fee,
        fee == 0 ==> EscrowView::opened(depositor, amount, fee, deadline).run(ops).conserved(),
{
    let fresh = EscrowView::opened(depositor, amount, fee, deadline);
    law_conservation_at_lock(depositor, amount, fee, deadline);
    assert(fresh.release_schedules.len() == 0);
    assert(!fresh.has_pending());
    assert(fresh.wf());
    law_every_history(fresh, ops);
}

/// Conservation. Once what remains, what was paid out and what was refunded
/// add up to the credited amount, they do so in every later state.
pub proof fn law_conservation(earlier: EscrowView, later: EscrowView)
    requires
        earlier.evolves_to(later),
        earlier.conserved(),
    ensures
        later.conserved(),
{
}

/// Conservation, from the start. A fresh record accounts for exactly the
/// amount that was locked. That is the credited amount if and only if no lock
/// fee was taken: with a fee, the record accounts for more than was credited.
pub proof fn law_conservation_at_lock(depositor: Address, amount: i128, fee: i128, deadline: u64)
    requires
        amount > 0,
        0 <= fee <= amount,
    ensures
        EscrowView::opened(depositor, amount, fee, deadline).ledger_total() == amount,
        EscrowView::opened(depositor, amount, fee, deadline).conserved() <==> fee == 0,
{
    let fresh = EscrowView::opened(depositor, amount, fee, deadline);
    assert(fresh.payout_history.len() == 0);
    assert(fresh.refund_history.len() == 0);
}

/// The bounds of what remains. In a well-formed record that adds up to its
/// credited amount, what remains lies between zero and that amount.
pub proof fn law_remaining_bounds(escrow: EscrowView)
    requires
        escrow.wf(),
        escrow.conserved(),
    ensures
        0 <= escrow.remaining_amount <= escrow.amount,
{
    lemma_payout_total_nonnegative(escrow.payout_history);
    lemma_refund_total_nonnegative(escrow.refund_history);
}

/// Conservation, for every escrow of the contract: the ledger total of an
/// escrow is the same in every later state of the contract, and an escrow
/// that adds up to its credited amount keeps doing so.
pub proof fn law_conservation_everywhere(earlier: ContractView, later: ContractView, bounty_id: u64)
    requires
        earlier.advances_to(later),
        earlier.escrows.contains_key(bounty_id),
    ensures
        later.escrows.contains_key(bounty_id),
        later.escrows[bounty_id].ledger_total() == earlier.escrows[bounty_id].ledger_total(),
        earlier.escrows[bounty_id].conserved() ==> later.escrows[bounty_id].conserved(),
{
}

/// Monotonicity. In a later state of the contract no escrow has more
/// remaining than before, and none is in a less drained status.
pub proof fn law_monotonicity(earlier: ContractView, later: ContractView, bounty_id: u64)
    requires
        earlier.advances_to(later),
        earlier.escrows.contains_key(bounty_id),
    ensures
        later.escrows.contains_key(bounty_id),
        later.escrows[bounty_id].remaining_amount <= earlier.escrows[bounty_id].remaining_amount,
        later.escrows[bounty_id].status.rank() >= earlier.escrows[bounty_id].status.rank(),
{
}

/// Terminal statuses are final: an escrow that is `Released` or `Refunded`
/// is in one of these two statuses in every later state.
pub proof fn law_terminal_stays(earlier: EscrowView, later: EscrowView)
    requires
        earlier.evolves_to(later),
        earlier.status.is_terminal(),
    ensures
        later.status.is_terminal(),
{
}

/// Terminality. An escrow that is `Released` or `Refunded` refuses every
/// release, every refund and every creation of schedules, whatever the
/// arguments.
pub proof fn law_terminal_escrow_refuses(
    escrow: EscrowView,
    amount: Option<i128>,
    recipient: Option<Address>,
    mode: RefundMode,
    approval: Option<RefundApproval>,
    requests: Seq<(i128, u64)>,
    custody_balance: i128,
    now: u64,
)
    requires
        escrow.status.is_terminal(),
    ensures
        escrow.release_amount(amount, custody_balance) is Err,
        escrow.refund_plan(amount, recipient, mode, approval, custody_balance, now) is Err,
        escrow.scheduling_error(requests, now) is Some,
{
}

/// Terminality, at the entry points. For a bounty whose escrow is `Released`
/// or `Refunded`, no call of `release_funds`, `refund` or
/// `create_release_schedules` succeeds.
pub proof fn law_terminal_refuses(
    contract: ContractView,
    bounty_id: u64,
    amount: Option<i128>,
    recipient: Option<Address>,
    mode: RefundMode,
    requests: Seq<(i128, u64)>,
    custody_balance: i128,
    now: u64,
)
    requires
        contract.escrows.contains_key(bounty_id),
        contract.escrows[bounty_id].status.is_terminal(),
    ensures
        contract.release_failure(bounty_id, amount, custody_balance, now) is Some,
        contract.refund_failure(bounty_id, amount, recipient, mode, custody_balance, now) is Some,
        contract.scheduling_failure(bounty_id, requests, now) is Some,
{
}

/// Deadline gating, before the deadline. A `Full` or `Partial` refund asked
/// for before the deadline never succeeds. Where the call gets as far as the
/// deadline (the depositor is admitted, the contract is not paused and the
/// escrow is `Locked` or `PartiallyRefunded`) the error is
/// `DeadlineNotPassed`.
pub proof fn law_refund_before_deadline(
    contract: ContractView,
    bounty_id: u64,
    amount: Option<i128>,
    recipient: Option<Address>,
    mode: RefundMode,
    custody_balance: i128,
    now: u64,
)
    requires
        contract.escrows.contains_key(bounty_id),
        mode == RefundMode::Full || mode == RefundMode::Partial,
        now < contract.escrows[bounty_id].deadline,
    ensures
        contract.refund_failure(bounty_id, amount, recipient, mode, custody_balance, now) is Some,
        ({
            let escrow = contract.escrows[bounty_id];
            &&& contract.clearance(escrow.depositor, now) is Ok
            &&& !contract.paused
            &&& (escrow.status == EscrowStatus::Locked || escrow.status == EscrowStatus::PartiallyRefunded)
        }) ==> contract.refund_failure(bounty_id, amount, recipient, mode, custody_balance, now) == Some(
            Failure::Error(Error::DeadlineNotPassed),
        ),
{
}

/// Deadline gating, from the deadline on. A `Full` refund, or a `Partial`
/// refund of an amount that is positive and no more than what remains,
/// succeeds whenever the depositor is admitted, the contract is not paused,
/// the escrow is `Locked` or `PartiallyRefunded`, and custody holds the
/// amount.
pub proof fn law_refund_after_deadline(
    contract: ContractView,
    bounty_id: u64,
    amount: Option<i128>,
    recipient: Option<Address>,
    mode: RefundMode,
    custody_balance: i128,
    now: u64,
)
    requires
        contract.wf(),
        contract.escrows.contains_key(bounty_id),
        now >= contract.escrows[bounty_id].deadline,
        mode == RefundMode::Full || (mode == RefundMode::Partial && (amount is None || 0 < amount->0
            <= contract.escrows[bounty_id].remaining_amount)),
        contract.clearance(contract.escrows[bounty_id].depositor, now) is Ok,
        !contract.paused,
        contract.escrows[bounty_id].status == EscrowStatus::Locked
            || contract.escrows[bounty_id].status == EscrowStatus::PartiallyRefunded,
        custody_balance >= (if mode == RefundMode::Partial && amount is Some {
            amount->0
        } else {
            contract.escrows[bounty_id].remaining_amount
        }),
    ensures
        contract.refund_failure(bounty_id, amount, recipient, mode, custody_balance, now) is None,
{
}

/// Schedule capacity. Requests that, together with the pending schedules,
/// ask for more than remains are refused, whatever else holds of them. (A
/// refused call leaves the record as it was: no schedule is added.)
pub proof fn law_schedule_capacity(escrow: EscrowView, requests: Seq<(i128, u64)>, now: u64)
    requires
        escrow.pending() + requested_total(requests) > escrow.remaining_amount,
    ensures
        escrow.scheduling_error(requests, now) is Some,
{
}

/// Schedule capacity, at the entry point.
pub proof fn law_schedule_capacity_enforced(contract: ContractView, bounty_id: u64, requests: Seq<(i128, u64)>, now: u64)
    requires
        contract.escrows.contains_key(bounty_id),
        contract.escrows[bounty_id].pending() + requested_total(requests)
            > contract.escrows[bounty_id].remaining_amount,
    ensures
        contract.scheduling_failure(bounty_id, requests, now) is Some,
{
}

/// Fees are taken out of an amount, never added to it: the transfers of a
/// settlement move exactly the gross amount, and the payee gets no more than
/// that.
pub proof fn law_settlement_total(payer: Account, payee: Account, gross: i128, fee: i128, fee_recipient: Address)
    requires
        0 <= fee <= gross,
    ensures
        settlement_of(payer, payee, gross as int, fee as int, fee_recipient).total() == gross,
        0 <= settlement_of(payer, payee, gross as int, fee as int, fee_recipient).payment.amount
            <= gross,
{
}

/// The sum of the amounts of the schedules that can be executed at time
/// `now`.
pub open spec fn due_total(schedules: Seq<ReleaseSchedule>, now: u64) -> int
    decreases schedules.len(),
{
    if schedules.len() == 0 {
        0
    } else {
        due_total(schedules.drop_last(), now) + (if is_ready(schedules.last(), now) {
            schedules.last().amount as int
        } else {
            0
        })
    }
}

/// No due schedule is passed over. When the schedules of a well-formed record
/// are taken in turn, what remains covers every schedule that is pending and
/// due: after the first `upto`, exactly those among them that were pending
/// and due are executed, and what remains has gone down by their amounts.
pub proof fn law_due_schedules_run(escrow: EscrowView, upto: int, recipient: Address, now: u64)
    requires
        escrow.ledger_ok(),
        0 <= upto <= escrow.release_schedules.len(),
    ensures
        escrow.ready_executed(upto, recipient, now).release_schedules.len()
            == escrow.release_schedules.len(),
        forall|i: int|
            0 <= i < escrow.release_schedules.len() ==> #[trigger] escrow.ready_executed(
                upto,
                recipient,
                now,
            ).release_schedules[i] == (if i < upto && is_ready(escrow.release_schedules[i], now) {
                executed(escrow.release_schedules[i], recipient, now)
            } else {
                escrow.release_schedules[i]
            }),
        escrow.ready_executed(upto, recipient, now).remaining_amount == escrow.remaining_amount
            - due_total(escrow.release_schedules.take(upto), now),
    decreases upto,
{
    if upto <= 0 {
        assert(escrow.release_schedules.take(0) =~= Seq::empty());
    } else {
        law_due_schedules_run(escrow, upto - 1, recipient, now);
        lemma_ready_executed(escrow, upto - 1, recipient, now);
        let before = escrow.ready_executed(upto - 1, recipient, now);
        let schedule = escrow.release_schedules[upto - 1];
        assert(before.release_schedules[upto - 1] == schedule);
        lemma_pending_total_bounds(before.release_schedules);
        assert(reserved(before.release_schedules[upto - 1]) <= before.pending());
        assert(before.runs(upto - 1, now) <==> is_ready(schedule, now));
        let next = escrow.release_schedules.take(upto);
        assert(next.drop_last() =~= escrow.release_schedules.take(upto - 1));
        assert(next.last() == schedule);
    }
}

/// Batch atomicity, for locks. One faulty item makes the whole batch fail.
/// (A failed call leaves the state as it was and asks for no transfer.)
pub proof fn law_batch_lock_atomic(contract: ContractView, items: Seq<LockFundsItem>, now: u64, i: int)
    requires
        0 <= i < items.len(),
        contract.lock_item_error(items, i, now) is Some,
    ensures
        contract.batch_lock_failure(items, now) is Some,
{
    assert(contract.lock_items_error(items, now, i + 1) is Some);
    lemma_lock_items_error_stays(contract, items, now, i + 1, items.len() as int);
}

/// Batch atomicity, for releases. One faulty item makes the whole batch
/// fail. (A failed call leaves the state as it was and asks for no transfer.)
pub proof fn law_batch_release_atomic(
    contract: ContractView,
    items: Seq<ReleaseFundsItem>,
    custody_balance: i128,
    i: int,
)
    requires
        0 <= i < items.len(),
        contract.release_item_error(items, i) is Some,
    ensures
        contract.batch_release_failure(items, custody_balance) is Some,
{
    assert(contract.release_items_error(items, i + 1) is Some);
    lemma_release_items_error_stays(contract, items, i + 1, items.len() as int);
}

/// What is remembered of a caller after the first `n` of the operations it
/// attempts at the given times, when nothing was known of it before. An
/// operation that is turned away leaves no trace.
pub open spec fn known_after(config: AntiAbuseConfig, times: Seq<u64>, n: int) -> Option<AddressState>
    decreases n,
{
    if n <= 0 {
        None
    } else {
        let before = known_after(config, times, n - 1);
        match admission(config, before, times[n - 1]) {
            Ok(state) => Some(state),
            Err(_) => before,
        }
    }
}

/// Whether the times are those of operations within one window that respect
/// the cooldown: none is earlier than the first, all lie before the end of
/// the window that the first one opens, and each comes no sooner after the
/// one before it than the cooldown allows.
pub open spec fn within_one_window(config: AntiAbuseConfig, times: Seq<u64>) -> bool {
    &&& forall|i: int|
        0 <= i < times.len() ==> times[0] <= #[trigger] times[i] < later(times[0], config.window_size)
    &&& forall|i: int|
        0 < i < times.len() ==> !(times[i - 1] > 0 && #[trigger] times[i] < later(
            times[i - 1],
            config.cooldown_period,
        ))
}

/// After `k` operations within one window, all admitted, the limiter
/// remembers the time of the last, the start of the window and the count `k`.
proof fn lemma_window_progress(config: AntiAbuseConfig, times: Seq<u64>, k: int)
    requires
        within_one_window(config, times),
        0 <= k <= times.len(),
        k <= config.max_operations,
    ensures
        k == 0 ==> known_after(config, times, k) is None,
        k > 0 ==> known_after(config, times, k) == Some(
            AddressState {
                last_operation_timestamp: times[k - 1],
                window_start_timestamp: times[0],
                operation_count: k as u32,
            },
        ),
        forall|j: int| 0 <= j < k ==> admission(config, #[trigger] known_after(config, times, j), times[j]) is Ok,
    decreases k,
{
    if k > 0 {
        lemma_window_progress(config, times, k - 1);
        let before = known_after(config, times, k - 1);
        assert(times[0] <= times[k - 1] < later(times[0], config.window_size));
        if k - 1 > 0 {
            assert(!(times[k - 2] > 0 && times[k - 1] < later(times[k - 2], config.cooldown_period)));
        }
        assert(admission(config, before, times[k - 1]) is Ok);
    }
}

/// Rate limiting. Of the operations that a caller which is not on the
/// whitelist attempts within one window, with the cooldown respected, exactly
/// as many as the limit allows are admitted: each of the first
/// `max_operations` is, and the next one is turned away as rate limited.
pub proof fn law_rate_limit(config: AntiAbuseConfig, times: Seq<u64>)
    requires
        times.len() == config.max_operations + 1,
        within_one_window(config, times),
    ensures
        forall|k: int|
            0 <= k < config.max_operations ==> admission(
                config,
                #[trigger] known_after(config, times, k),
                times[k],
            ) is Ok,
        admission(
            config,
            known_after(config, times, config.max_operations as int),
            times[config.max_operations as int],
        ) == Err::<AddressState, Abort>(Abort::RateLimited),
{
    let max = config.max_operations as int;
    lemma_window_progress(config, times, max);
    assert(times[0] <= times[max] < later(times[0], config.window_size));
    if max > 0 {
        assert(!(times[max - 1] > 0 && times[max] < later(times[max - 1], config.cooldown_period)));
    }
}

/// Rate limiting, the whitelist. A caller on the whitelist is never turned
/// away, and nothing is remembered of its operations.
pub proof fn law_whitelist(limiter: RateLimiterView, address: Address, now: u64)
    requires
        limiter.whitelist.contains(address),
    ensures
        limiter.ticket(address, now) == Ok::<Option<AddressState>, Abort>(None),
        limiter.recorded(address, None) == limiter,
{
}

} // verus!
