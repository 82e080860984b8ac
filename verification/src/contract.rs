//! The contract as a whole: its configuration, its escrow records and its
//! entry points.
//!
//! An entry point is a function of the contract state, the ledger time and,
//! where funds leave custody, the custody balance. It returns the transfers to
//! make. Whoever makes them holds the reentrancy guard meanwhile: no mutating
//! entry point runs while the guard is held.

use std::collections::HashMap;
use vstd::prelude::*;
use crate::anti_abuse::{AddressState, RateLimiter, RateLimiterView};
use crate::escrow::{
    lemma_evolves_reflexive, lemma_evolves_transitive, lock_settlement, payout_settlement,
    ready_schedules, refund_settlement, Escrow, EscrowView, ExecutedSchedule,
};
use crate::events::{
    BountyEscrowInitialized, ContractPaused, ContractUnpaused, FeeConfigUpdated, FundsLocked,
    FundsReleased, FundsRefunded, Receipt, ScheduleCreated, ScheduleReleased,
};
use crate::fees::{no_fees, FeeConfig};
use crate::store::EscrowStore;
use crate::types::{
    Abort, Account, Address, Error, EscrowStatus, Failure, PayoutRecord, RefundApproval, RefundMode,
    RefundRecord, ReleaseSchedule, ScheduleHistoryRecord, Settlement,
};

verus! {

broadcast use vstd::std_specs::hash::group_hash_axioms;

/// The escrow contract: everything it keeps between calls.
#[derive(Clone, Debug, PartialEq, Eq)]
pub struct BountyEscrowContract {
    /// Who may release, schedule, approve, pause and configure. `None` until
    /// the contract is initialised.
    pub admin: Option<Address>,
    /// The token in which all amounts are counted.
    pub token: Option<Address>,
    pub fee_config: Option<FeeConfig>,
    pub escrows: EscrowStore,
    /// At most one approval for an early refund per bounty.
    pub refund_approvals: HashMap<u64, RefundApproval>,
    /// Whether a mutating call is in flight.
    pub reentrancy_guard: bool,
    pub paused: bool,
    /// The bounties in the order in which they were locked.
    pub bounty_registry: Vec<u64>,
    pub rate_limiter: RateLimiter,
}

/// The mathematical content of a [`BountyEscrowContract`].
pub struct ContractView {
    pub admin: Option<Address>,
    pub token: Option<Address>,
    pub fee_config: Option<FeeConfig>,
    pub escrows: Map<u64, EscrowView>,
    pub refund_approvals: Map<u64, RefundApproval>,
    pub reentrancy_guard: bool,
    pub paused: bool,
    pub bounty_registry: Seq<u64>,
    pub rate_limiter: RateLimiterView,
}

impl View for BountyEscrowContract {
    type V = ContractView;

    open spec fn view(&self) -> ContractView {
        ContractView {
            admin: self.admin,
            token: self.token,
            fee_config: self.fee_config,
            escrows: self.escrows@,
            refund_approvals: self.refund_approvals@,
            reentrancy_guard: self.reentrancy_guard,
            paused: self.paused,
            bounty_registry: self.bounty_registry@,
            rate_limiter: self.rate_limiter@,
        }
    }
}

/// The entry points, as far as it matters for who has to consent to a call.
#[derive(Clone, Copy, Debug, PartialEq, Eq, Structural)]
pub enum Operation {
    Init,
    LockFunds { depositor: Address },
    ReleaseFunds,
    Refund,
    ApproveRefund,
    CreateSchedules,
    ExecuteSchedule,
    ExecuteAllReady,
    CancelSchedule,
    Pause,
    Unpause,
    UpdateFeeConfig,
    BatchRelease,
}

/// The failure that consists in the typed error `e`.
pub open spec fn refusal(e: Error) -> Option<Failure> {
    Some(Failure::Error(e))
}

impl ContractView {
    /// The invariant of the contract state: the fee rates are valid, every
    /// escrow record is well formed, and there are records only once the
    /// contract has been initialised.
    pub open spec fn wf(self) -> bool {
        &&& self.fee_config is Some ==> self.fee_config->0.wf()
        &&& forall|id: u64| #[trigger]
            self.escrows.contains_key(id) ==> self.escrows[id].wf() && self.admin is Some
    }

    /// The fee settings in force: those on record or, failing that, no fees.
    pub open spec fn fees(self) -> FeeConfig {
        if self.fee_config is Some {
            self.fee_config->0
        } else {
            no_fees(self.admin->0)
        }
    }

    /// The identity whose consent `operation` needs, if it needs any.
    ///
    /// Funds are locked with the consent of the depositor. Releasing,
    /// approving a refund, creating and cancelling schedules, pausing,
    /// unpausing and changing the fee settings are reserved to the
    /// administrator. Initialising, refunding and executing schedules are
    /// open to anyone. (A batch of locks needs the consent of every depositor
    /// in it: see `lock_signers`.)
    pub open spec fn authorizer(self, operation: Operation) -> Option<Address> {
        match operation {
            Operation::Init => None,
            Operation::LockFunds { depositor } => Some(depositor),
            Operation::Refund => None,
            Operation::ExecuteSchedule => None,
            Operation::ExecuteAllReady => None,
            _ => self.admin,
        }
    }

    /// The approval on record for `bounty_id`, if there is one.
    pub open spec fn approval(self, bounty_id: u64) -> Option<RefundApproval> {
        if self.refund_approvals.contains_key(bounty_id) {
            Some(self.refund_approvals[bounty_id])
        } else {
            None
        }
    }

    /// What every rate-limited entry point asks first: is `caller` admitted at
    /// time `now`, and is no other mutating call in flight? The answer is
    /// what the limiter has to remember of the caller once the call commits.
    pub open spec fn clearance(self, caller: Address, now: u64) -> Result<Option<AddressState>, Abort> {
        if self.rate_limiter.ticket(caller, now) is Err {
            Err(self.rate_limiter.ticket(caller, now)->Err_0)
        } else if self.reentrancy_guard {
            Err(Abort::Reentrancy)
        } else {
            self.rate_limiter.ticket(caller, now)
        }
    }

    /// The failure with which `caller` is turned away. Only meaningful where
    /// the caller is not cleared.
    pub open spec fn stopped(self, caller: Address, now: u64) -> Option<Failure> {
        Some(Failure::Abort(self.clearance(caller, now)->Err_0))
    }

    /// The state with the admission of `caller` at time `now` recorded.
    pub open spec fn admitted(self, caller: Address, now: u64) -> ContractView {
        ContractView {
            rate_limiter: self.rate_limiter.recorded(caller, self.clearance(caller, now)->Ok_0),
            ..self
        }
    }

    /// The state with `escrow` as the record of `bounty_id`.
    pub open spec fn with_escrow(self, bounty_id: u64, escrow: EscrowView) -> ContractView {
        ContractView { escrows: self.escrows.insert(bounty_id, escrow), ..self }
    }

    /// Whether `later` can be a later state of the contract: every escrow is
    /// still there, in a later state of its record.
    pub open spec fn advances_to(self, later: ContractView) -> bool {
        forall|id: u64| #[trigger]
            self.escrows.contains_key(id) ==> later.escrows.contains_key(id) && self.escrows[id].evolves_to(
                later.escrows[id],
            )
    }

    /// Why the contract cannot be initialised by `admin` at time `now`, if it
    /// cannot: the caller is turned away, or there is an administrator
    /// already.
    pub open spec fn init_failure(self, admin: Address, now: u64) -> Option<Failure> {
        if self.clearance(admin, now) is Err {
            self.stopped(admin, now)
        } else if self.admin is Some {
            refusal(Error::AlreadyInitialized)
        } else {
            None
        }
    }

    /// The state after initialisation: administrator and token are set, and
    /// no fees are charged.
    pub open spec fn initialised(self, admin: Address, token: Address, now: u64) -> ContractView {
        ContractView {
            admin: Some(admin),
            token: Some(token),
            fee_config: Some(no_fees(admin)),
            ..self.admitted(admin, now)
        }
    }

    /// Why `depositor` cannot lock `amount` under `bounty_id`, if it cannot.
    /// In this order: the depositor is turned away; the contract is paused;
    /// the amount is not positive; the deadline is not in the future; the
    /// contract is not initialised; the bounty has an escrow already.
    pub open spec fn lock_failure(
        self,
        depositor: Address,
        bounty_id: u64,
        amount: i128,
        deadline: u64,
        now: u64,
    ) -> Option<Failure> {
        if self.clearance(depositor, now) is Err {
            self.stopped(depositor, now)
        } else if self.paused {
            refusal(Error::ContractPaused)
        } else if amount <= 0 {
            refusal(Error::InvalidAmount)
        } else if deadline <= now {
            refusal(Error::InvalidDeadline)
        } else if self.admin is None {
            refusal(Error::NotInitialized)
        } else if self.escrows.contains_key(bounty_id) {
            refusal(Error::BountyExists)
        } else {
            None
        }
    }

    /// The state after `depositor` has locked `amount` under `bounty_id`: the
    /// new record is in the store and the bounty is registered.
    pub open spec fn locked(
        self,
        depositor: Address,
        bounty_id: u64,
        amount: i128,
        deadline: u64,
        now: u64,
    ) -> ContractView {
        ContractView {
            escrows: self.escrows.insert(
                bounty_id,
                EscrowView::opened(depositor, amount, self.fees().lock_fee(amount) as i128, deadline),
            ),
            bounty_registry: self.bounty_registry.push(bounty_id),
            ..self.admitted(depositor, now)
        }
    }

    /// Why funds of `bounty_id` cannot be released, if they cannot. In this
    /// order: the contract is not initialised; admission control stops the
    /// administrator; the contract is paused; the bounty has no escrow; the
    /// escrow refuses the release.
    pub open spec fn release_failure(
        self,
        bounty_id: u64,
        amount: Option<i128>,
        custody_balance: i128,
        now: u64,
    ) -> Option<Failure> {
        if self.admin is None {
            refusal(Error::NotInitialized)
        } else if self.clearance(self.admin->0, now) is Err {
            self.stopped(self.admin->0, now)
        } else if self.paused {
            refusal(Error::ContractPaused)
        } else if !self.escrows.contains_key(bounty_id) {
            refusal(Error::BountyNotFound)
        } else if self.escrows[bounty_id].release_amount(amount, custody_balance) is Err {
            refusal(self.escrows[bounty_id].release_amount(amount, custody_balance)->Err_0)
        } else {
            None
        }
    }

    /// What a release of `bounty_id` pays out.
    pub open spec fn release_payout(self, bounty_id: u64, amount: Option<i128>, custody_balance: i128) -> i128 {
        self.escrows[bounty_id].release_amount(amount, custody_balance)->Ok_0
    }

    /// The state after funds of `bounty_id` have been released to
    /// `contributor`.
    pub open spec fn funds_released(
        self,
        bounty_id: u64,
        contributor: Address,
        amount: Option<i128>,
        custody_balance: i128,
        now: u64,
    ) -> ContractView {
        self.admitted(self.admin->0, now).with_escrow(
            bounty_id,
            self.escrows[bounty_id].released(
                self.release_payout(bounty_id, amount, custody_balance),
                contributor,
                now,
            ),
        )
    }

    /// What a refund from `bounty_id` pays and to whom, or the error with
    /// which the escrow refuses it.
    pub open spec fn refund_plan(
        self,
        bounty_id: u64,
        amount: Option<i128>,
        recipient: Option<Address>,
        mode: RefundMode,
        custody_balance: i128,
        now: u64,
    ) -> Result<(i128, Address), Error> {
        self.escrows[bounty_id].refund_plan(
            amount,
            recipient,
            mode,
            self.approval(bounty_id),
            custody_balance,
            now,
        )
    }

    /// Why no refund can be made from `bounty_id`, if none can. In this
    /// order: the bounty has no escrow; the depositor is turned away; the
    /// contract is paused; the escrow refuses the refund.
    pub open spec fn refund_failure(
        self,
        bounty_id: u64,
        amount: Option<i128>,
        recipient: Option<Address>,
        mode: RefundMode,
        custody_balance: i128,
        now: u64,
    ) -> Option<Failure> {
        if !self.escrows.contains_key(bounty_id) {
            refusal(Error::BountyNotFound)
        } else if self.clearance(self.escrows[bounty_id].depositor, now) is Err {
            self.stopped(self.escrows[bounty_id].depositor, now)
        } else if self.paused {
            refusal(Error::ContractPaused)
        } else if self.refund_plan(bounty_id, amount, recipient, mode, custody_balance, now) is Err {
            refusal(
                self.refund_plan(bounty_id, amount, recipient, mode, custody_balance, now)->Err_0,
            )
        } else {
            None
        }
    }

    /// The state after the refund from `bounty_id`: the record is updated,
    /// and an approval that the refund rested on is gone.
    pub open spec fn funds_refunded(
        self,
        bounty_id: u64,
        amount: Option<i128>,
        recipient: Option<Address>,
        mode: RefundMode,
        custody_balance: i128,
        now: u64,
    ) -> ContractView {
        let escrow = self.escrows[bounty_id];
        let plan = self.refund_plan(bounty_id, amount, recipient, mode, custody_balance, now)->Ok_0;
        ContractView {
            refund_approvals: if escrow.uses_approval(mode, now) {
                self.refund_approvals.remove(bounty_id)
            } else {
                self.refund_approvals
            },
            ..self.admitted(escrow.depositor, now).with_escrow(
                bounty_id,
                escrow.refund_applied(plan.0, plan.1, mode, now),
            )
        }
    }

    /// Why a refund from `bounty_id` cannot be approved, if it cannot. In
    /// this order: the contract is not initialised; a mutating call is in
    /// flight; the bounty has no escrow; the escrow is in the wrong status or
    /// the amount is out of range.
    pub open spec fn approval_failure(self, bounty_id: u64, amount: i128) -> Option<Failure> {
        if self.admin is None {
            refusal(Error::NotInitialized)
        } else if self.reentrancy_guard {
            Some(Failure::Abort(Abort::Reentrancy))
        } else if !self.escrows.contains_key(bounty_id) {
            refusal(Error::BountyNotFound)
        } else if self.escrows[bounty_id].approval_error(amount) is Some {
            refusal(self.escrows[bounty_id].approval_error(amount)->0)
        } else {
            None
        }
    }

    /// The state after the approval: it is on record for `bounty_id`, in
    /// place of any earlier one.
    pub open spec fn refund_approved(
        self,
        bounty_id: u64,
        amount: i128,
        recipient: Address,
        mode: RefundMode,
        now: u64,
    ) -> ContractView {
        ContractView {
            refund_approvals: self.refund_approvals.insert(
                bounty_id,
                RefundApproval {
                    bounty_id,
                    amount,
                    recipient,
                    mode,
                    approved_by: self.admin->0,
                    approved_at: now,
                },
            ),
            ..self
        }
    }

    /// Why `requests` cannot be scheduled for `bounty_id`, if they cannot. In
    /// this order: the contract is not initialised; admission control stops the
    /// administrator; the bounty has no escrow; the escrow refuses the
    /// requests.
    pub open spec fn scheduling_failure(self, bounty_id: u64, requests: Seq<(i128, u64)>, now: u64) -> Option<
        Failure,
    > {
        if self.admin is None {
            refusal(Error::NotInitialized)
        } else if self.clearance(self.admin->0, now) is Err {
            self.stopped(self.admin->0, now)
        } else if !self.escrows.contains_key(bounty_id) {
            refusal(Error::BountyNotFound)
        } else if self.escrows[bounty_id].scheduling_error(requests, now) is Some {
            refusal(self.escrows[bounty_id].scheduling_error(requests, now)->0)
        } else {
            None
        }
    }

    /// Why schedule `index` of `bounty_id` cannot be executed, if it cannot.
    /// In this order: a mutating call is in flight; the bounty has no escrow;
    /// the escrow refuses the execution.
    pub open spec fn execution_failure(self, bounty_id: u64, index: u32, now: u64) -> Option<Failure> {
        if self.reentrancy_guard {
            Some(Failure::Abort(Abort::Reentrancy))
        } else if !self.escrows.contains_key(bounty_id) {
            refusal(Error::BountyNotFound)
        } else if self.escrows[bounty_id].execution_error(index, now) is Some {
            refusal(self.escrows[bounty_id].execution_error(index, now)->0)
        } else {
            None
        }
    }

    /// Why the due schedules of `bounty_id` cannot be executed, if they
    /// cannot. In this order: a mutating call is in flight; the bounty has no
    /// escrow; the escrow is not `Scheduled`.
    pub open spec fn sweep_failure(self, bounty_id: u64) -> Option<Failure> {
        if self.reentrancy_guard {
            Some(Failure::Abort(Abort::Reentrancy))
        } else if !self.escrows.contains_key(bounty_id) {
            refusal(Error::BountyNotFound)
        } else if self.escrows[bounty_id].status != EscrowStatus::Scheduled {
            refusal(Error::FundsNotLocked)
        } else {
            None
        }
    }

    /// Why schedule `index` of `bounty_id` cannot be cancelled, if it cannot.
    /// In this order: the contract is not initialised; a mutating call is in
    /// flight; the bounty has no escrow; the escrow refuses the cancellation.
    pub open spec fn cancellation_failure(self, bounty_id: u64, index: u32) -> Option<Failure> {
        if self.admin is None {
            refusal(Error::NotInitialized)
        } else if self.reentrancy_guard {
            Some(Failure::Abort(Abort::Reentrancy))
        } else if !self.escrows.contains_key(bounty_id) {
            refusal(Error::BountyNotFound)
        } else if self.escrows[bounty_id].cancellation_error(index) is Some {
            refusal(self.escrows[bounty_id].cancellation_error(index)->0)
        } else {
            None
        }
    }

    /// What a lock hands back: the transfers, and the notification with the
    /// amount that goes into custody.
    pub open spec fn lock_receipt(
        self,
        depositor: Address,
        bounty_id: u64,
        amount: i128,
        deadline: u64,
    ) -> Receipt<FundsLocked> {
        let settlement = lock_settlement(self.fees(), amount, depositor);
        Receipt {
            settlement,
            event: FundsLocked { bounty_id, amount: settlement.payment.amount, depositor, deadline },
        }
    }

    /// What a release of `payout` from `bounty_id` hands back: the transfers,
    /// and the notification with the amount that the contributor receives and
    /// what remains afterwards.
    pub open spec fn payout_receipt(self, bounty_id: u64, contributor: Address, payout: i128, now: u64) -> Receipt<
        FundsReleased,
    > {
        let settlement = payout_settlement(self.fees(), payout, contributor);
        Receipt {
            settlement,
            event: FundsReleased {
                bounty_id,
                amount: settlement.payment.amount,
                recipient: contributor,
                timestamp: now,
                remaining_amount: (self.escrows[bounty_id].remaining_amount - payout) as i128,
            },
        }
    }

    /// What a refund of `amount` from `bounty_id` to `recipient` hands back:
    /// the transfer, and the notification with what remains afterwards.
    pub open spec fn refund_receipt(
        self,
        bounty_id: u64,
        amount: i128,
        recipient: Address,
        mode: RefundMode,
        now: u64,
    ) -> Receipt<FundsRefunded> {
        Receipt {
            settlement: refund_settlement(amount, recipient),
            event: FundsRefunded {
                bounty_id,
                amount,
                refund_to: recipient,
                timestamp: now,
                refund_mode: mode,
                remaining_amount: (self.escrows[bounty_id].remaining_amount - amount) as i128,
            },
        }
    }

    /// The notifications for the schedules that `requests` create for
    /// `bounty_id`, in the order of the requests.
    pub open spec fn schedule_events(self, bounty_id: u64, requests: Seq<(i128, u64)>, now: u64) -> Seq<
        ScheduleCreated,
    > {
        Seq::new(
            requests.len(),
            |i: int|
                ScheduleCreated {
                    bounty_id,
                    schedule_id: (self.escrows[bounty_id].next_schedule_id + i) as u32,
                    amount: requests[i].0,
                    timestamp: requests[i].1,
                    created_by: self.admin->0,
                    created_at: now,
                },
        )
    }

    /// Why the administrator cannot act, if it cannot: the contract is not
    /// initialised, or a mutating call is in flight.
    pub open spec fn admin_failure(self) -> Option<Failure> {
        if self.admin is None {
            refusal(Error::NotInitialized)
        } else if self.reentrancy_guard {
            Some(Failure::Abort(Abort::Reentrancy))
        } else {
            None
        }
    }

    /// Why the fee settings cannot be changed as asked, if they cannot: the
    /// administrator cannot act, or a rate is out of range.
    pub open spec fn fee_update_failure(self, lock_fee_rate: Option<i128>, release_fee_rate: Option<i128>) -> Option<
        Failure,
    > {
        if self.admin_failure() is Some {
            self.admin_failure()
        } else if !FeeConfig::rates_valid(lock_fee_rate, release_fee_rate) {
            refusal(Error::InvalidFeeRate)
        } else {
            None
        }
    }
}

/// What the execution `done` of a schedule of `bounty_id` hands back: the
/// transfers, and the notification.
pub open spec fn schedule_receipt(bounty_id: u64, done: ExecutedSchedule, recipient: Address, now: u64) -> Receipt<
    ScheduleReleased,
> {
    Receipt {
        settlement: done.settlement,
        event: ScheduleReleased {
            bounty_id,
            schedule_id: done.schedule_id,
            amount: done.amount,
            recipient,
            executed_by: Account::Custody,
            executed_at: now,
        },
    }
}

/// A state with the same escrow records is a later state.
pub proof fn lemma_advances_same(pre: ContractView, post: ContractView)
    requires
        post.escrows == pre.escrows,
    ensures
        pre.advances_to(post),
{
    assert forall|id: u64| #[trigger] pre.escrows.contains_key(id) implies post.escrows.contains_key(id)
        && pre.escrows[id].evolves_to(post.escrows[id]) by {
        lemma_evolves_reflexive(pre.escrows[id]);
    }
}

/// A state in which one record is new, or has moved to a later state of
/// itself, is a later state.
pub proof fn lemma_advances_with(pre: ContractView, post: ContractView, bounty_id: u64, next: EscrowView)
    requires
        post.escrows == pre.escrows.insert(bounty_id, next),
        pre.escrows.contains_key(bounty_id) ==> pre.escrows[bounty_id].evolves_to(next),
    ensures
        pre.advances_to(post),
{
    assert forall|id: u64| #[trigger] pre.escrows.contains_key(id) implies post.escrows.contains_key(id)
        && pre.escrows[id].evolves_to(post.escrows[id]) by {
        lemma_evolves_reflexive(pre.escrows[id]);
    }
}

/// A later state of a later state is a later state.
pub proof fn lemma_advances_transitive(first: ContractView, second: ContractView, third: ContractView)
    requires
        first.advances_to(second),
        second.advances_to(third),
    ensures
        first.advances_to(third),
{
    assert forall|id: u64| #[trigger] first.escrows.contains_key(id) implies third.escrows.contains_key(id)
        && first.escrows[id].evolves_to(third.escrows[id]) by {
        assert(second.escrows.contains_key(id));
        lemma_evolves_transitive(first.escrows[id], second.escrows[id], third.escrows[id]);
    }
}

impl BountyEscrowContract {
    /// The invariant of the contract state: that of its content.
    pub open spec fn wf(&self) -> bool {
        self@.wf()
    }

    /// A contract that has not been initialised: no administrator, no
    /// escrows, the default rate limits.
    pub fn new() -> (contract: BountyEscrowContract)
        ensures
            contract@ == (ContractView {
                admin: None,
                token: None,
                fee_config: None,
                escrows: Map::empty(),
                refund_approvals: Map::empty(),
                reentrancy_guard: false,
                paused: false,
                bounty_registry: Seq::empty(),
                rate_limiter: RateLimiterView {
                    config: None,
                    admin: None,
                    whitelist: Set::empty(),
                    states: Map::empty(),
                },
            }),
            contract.wf(),
    {
        let contract = BountyEscrowContract {
            admin: None,
            token: None,
            fee_config: None,
            escrows: EscrowStore::new(),
            refund_approvals: HashMap::new(),
            reentrancy_guard: false,
            paused: false,
            bounty_registry: Vec::new(),
            rate_limiter: RateLimiter::new(),
        };
        proof {
            assert(contract@.bounty_registry =~= Seq::empty());
        }
        contract
    }

    /// The identity whose consent `operation` needs, if it needs any. A call
    /// is to be made only once that identity has consented.
    pub fn authorizer(&self, operation: Operation) -> (who: Option<Address>)
        ensures
            who == self@.authorizer(operation),
    {
        match operation {
            Operation::Init => None,
            Operation::LockFunds { depositor } => Some(depositor),
            Operation::Refund => None,
            Operation::ExecuteSchedule => None,
            Operation::ExecuteAllReady => None,
            _ => self.admin,
        }
    }

    /// Takes the reentrancy guard for the time in which transfers are made.
    /// Fails if it is held already.
    pub fn acquire_guard(&mut self) -> (r: Result<(), Abort>)
        ensures
            old(self).reentrancy_guard ==> r == Err::<(), Abort>(Abort::Reentrancy) && final(self)@
                == old(self)@,
            !old(self).reentrancy_guard ==> r == Ok::<(), Abort>(()) && final(self)@ == (ContractView {
                reentrancy_guard: true,
                ..old(self)@
            }),
            old(self).wf() ==> final(self).wf(),
            old(self)@.advances_to(final(self)@),
    {
        proof {
            lemma_advances_same(self@, self@);
        }
        if self.reentrancy_guard {
            return Err(Abort::Reentrancy);
        }
        self.reentrancy_guard = true;
        Ok(())
    }

    /// Gives the reentrancy guard back.
    pub fn release_guard(&mut self)
        ensures
            final(self)@ == (ContractView { reentrancy_guard: false, ..old(self)@ }),
            old(self).wf() ==> final(self).wf(),
            old(self)@.advances_to(final(self)@),
    {
        proof {
            lemma_advances_same(self@, self@);
        }
        self.reentrancy_guard = false;
    }

    /// Decides whether `caller` may make a rate-limited call.
    fn enter(&self, caller: Address, now: u64) -> (r: Result<Option<AddressState>, Abort>)
        ensures
            r == self@.clearance(caller, now),
    {
        let ticket = match self.rate_limiter.ticket(caller, now) {
            Ok(ticket) => ticket,
            Err(abort) => {
                return Err(abort);
            },
        };
        if self.reentrancy_guard {
            return Err(Abort::Reentrancy);
        }
        Ok(ticket)
    }

    /// The fee settings in force.
    pub(crate) fn fees_in_force(&self) -> (fees: FeeConfig)
        requires
            self.wf(),
            self.admin is Some || self.fee_config is Some,
        ensures
            fees == self@.fees(),
            fees.wf(),
    {
        match self.fee_config {
            Some(fees) => fees,
            None => match self.admin {
                Some(admin) => FeeConfig::disabled(admin),
                None => FeeConfig::disabled(Address::account(0, 0)),
            },
        }
    }

    /// The approval on record for `bounty_id`, if there is one.
    fn approval_for(&self, bounty_id: u64) -> (approval: Option<RefundApproval>)
        ensures
            approval == self@.approval(bounty_id),
    {
        match self.refund_approvals.get(&bounty_id) {
            Some(approval) => Some(*approval),
            None => None,
        }
    }

    /// Puts the receipt for an executed schedule together.
    fn receipt_for(bounty_id: u64, done: ExecutedSchedule, recipient: Address, now: u64) -> (r: Receipt<
        ScheduleReleased,
    >)
        ensures
            r == schedule_receipt(bounty_id, done, recipient, now),
    {
        Receipt {
            settlement: done.settlement,
            event: ScheduleReleased {
                bounty_id,
                schedule_id: done.schedule_id,
                amount: done.amount,
                recipient,
                executed_by: Account::Custody,
                executed_at: now,
            },
        }
    }

    /// Initialises the contract with its administrator and its token.
    pub fn init(&mut self, admin: Address, token: Address, now: u64) -> (r: Result<
        BountyEscrowInitialized,
        Failure,
    >)
        requires
            old(self).wf(),
        ensures
            match old(self)@.init_failure(admin, now) {
                Some(failure) => r == Err::<BountyEscrowInitialized, Failure>(failure) && final(self)@
                    == old(self)@,
                None => r == Ok::<BountyEscrowInitialized, Failure>(
                    BountyEscrowInitialized { admin, token, timestamp: now },
                ) && final(self)@ == old(self)@.initialised(admin, token, now),
            },
            final(self).wf(),
            old(self)@.advances_to(final(self)@),
    {
        proof {
            lemma_advances_same(self@, self@);
        }
        let ticket = match self.enter(admin, now) {
            Ok(ticket) => ticket,
            Err(abort) => {
                return Err(Failure::Abort(abort));
            },
        };
        if self.admin.is_some() {
            return Err(Failure::Error(Error::AlreadyInitialized));
        }
        self.admin = Some(admin);
        self.token = Some(token);
        self.fee_config = Some(FeeConfig::disabled(admin));
        self.rate_limiter.record(admin, ticket);
        Ok(BountyEscrowInitialized { admin, token, timestamp: now })
    }

    /// Locks `amount` for `bounty_id` on behalf of `depositor` until
    /// `deadline`.
    ///
    /// On success the result names the transfers: the lock fee from the
    /// depositor to the fee recipient, the rest from the depositor into
    /// custody. The whole amount can be released from the new escrow.
    pub fn lock_funds(&mut self, depositor: Address, bounty_id: u64, amount: i128, deadline: u64, now: u64) -> (r:
        Result<Receipt<FundsLocked>, Failure>)
        requires
            old(self).wf(),
        ensures
            match old(self)@.lock_failure(depositor, bounty_id, amount, deadline, now) {
                Some(failure) => r == Err::<Receipt<FundsLocked>, Failure>(failure) && final(self)@
                    == old(self)@,
                None => {
                    &&& r == Ok::<Receipt<FundsLocked>, Failure>(
                        old(self)@.lock_receipt(depositor, bounty_id, amount, deadline),
                    )
                    &&& final(self)@ == old(self)@.locked(depositor, bounty_id, amount, deadline, now)
                },
            },
            final(self).wf(),
            old(self)@.advances_to(final(self)@),
    {
        proof {
            lemma_advances_same(self@, self@);
        }
        let ticket = match self.enter(depositor, now) {
            Ok(ticket) => ticket,
            Err(abort) => {
                return Err(Failure::Abort(abort));
            },
        };
        if self.paused {
            return Err(Failure::Error(Error::ContractPaused));
        }
        if amount <= 0 {
            return Err(Failure::Error(Error::InvalidAmount));
        }
        if deadline <= now {
            return Err(Failure::Error(Error::InvalidDeadline));
        }
        if self.admin.is_none() {
            return Err(Failure::Error(Error::NotInitialized));
        }
        if self.escrows.contains(bounty_id) {
            return Err(Failure::Error(Error::BountyExists));
        }
        let fees = self.fees_in_force();
        let fee: i128 = fees.lock_fee_amount(amount);
        let escrow = match Escrow::open(depositor, amount, fee, deadline) {
            Some(escrow) => escrow,
            None => {
                return Err(Failure::Error(Error::InvalidAmount));
            },
        };
        self.escrows.update(bounty_id, escrow);
        self.bounty_registry.push(bounty_id);
        self.rate_limiter.record(depositor, ticket);
        let settlement = Settlement::new(
            Account::Holder(depositor),
            Account::Custody,
            amount,
            fee,
            fees.fee_recipient,
        );
        Ok(
            Receipt {
                settlement,
                event: FundsLocked { bounty_id, amount: settlement.payment.amount, depositor, deadline },
            },
        )
    }

    /// Releases funds of `bounty_id` to `contributor`: `amount` if one is
    /// given, all that remains otherwise. `custody_balance` is what the
    /// contract holds of the token.
    ///
    /// On success the result names the transfers: the release fee to the fee
    /// recipient, the rest to `contributor`.
    pub fn release_funds(
        &mut self,
        bounty_id: u64,
        contributor: Address,
        amount: Option<i128>,
        custody_balance: i128,
        now: u64,
    ) -> (r: Result<Receipt<FundsReleased>, Failure>)
        requires
            old(self).wf(),
        ensures
            match old(self)@.release_failure(bounty_id, amount, custody_balance, now) {
                Some(failure) => r == Err::<Receipt<FundsReleased>, Failure>(failure) && final(self)@
                    == old(self)@,
                None => {
                    &&& r == Ok::<Receipt<FundsReleased>, Failure>(
                        old(self)@.payout_receipt(
                            bounty_id,
                            contributor,
                            old(self)@.release_payout(bounty_id, amount, custody_balance),
                            now,
                        ),
                    )
                    &&& final(self)@ == old(self)@.funds_released(
                        bounty_id,
                        contributor,
                        amount,
                        custody_balance,
                        now,
                    )
                },
            },
            final(self).wf(),
            old(self)@.advances_to(final(self)@),
    {
        proof {
            lemma_advances_same(self@, self@);
        }
        let admin = match self.admin {
            Some(admin) => admin,
            None => {
                return Err(Failure::Error(Error::NotInitialized));
            },
        };
        let ticket = match self.enter(admin, now) {
            Ok(ticket) => ticket,
            Err(abort) => {
                return Err(Failure::Abort(abort));
            },
        };
        if self.paused {
            return Err(Failure::Error(Error::ContractPaused));
        }
        let fees = self.fees_in_force();
        let mut escrow = match self.escrows.take(bounty_id) {
            Ok(escrow) => escrow,
            Err(e) => {
                return Err(Failure::Error(e));
            },
        };
        let outcome = escrow.release(contributor, amount, &fees, custody_balance, now);
        let ghost after = escrow@;
        let remaining_amount: i128 = escrow.remaining_amount;
        self.escrows.update(bounty_id, escrow);
        proof {
            assert(self@.escrows =~= old(self)@.escrows.insert(bounty_id, after));
            lemma_advances_with(old(self)@, self@, bounty_id, after);
        }
        match outcome {
            Ok(settlement) => {
                self.rate_limiter.record(admin, ticket);
                Ok(
                    Receipt {
                        settlement,
                        event: FundsReleased {
                            bounty_id,
                            amount: settlement.payment.amount,
                            recipient: contributor,
                            timestamp: now,
                            remaining_amount,
                        },
                    },
                )
            },
            Err(e) => {
                proof {
                    assert(self@.escrows =~= old(self)@.escrows);
                    assert(self@ == old(self)@);
                }
                Err(Failure::Error(e))
            },
        }
    }

    /// Refunds from the escrow of `bounty_id` in `mode`. `custody_balance` is
    /// what the contract holds of the token.
    ///
    /// On success the result names the transfer from custody to the
    /// recipient, and an approval that the refund rested on is used up.
    pub fn refund(
        &mut self,
        bounty_id: u64,
        amount: Option<i128>,
        recipient: Option<Address>,
        mode: RefundMode,
        custody_balance: i128,
        now: u64,
    ) -> (r: Result<Receipt<FundsRefunded>, Failure>)
        requires
            old(self).wf(),
        ensures
            match old(self)@.refund_failure(bounty_id, amount, recipient, mode, custody_balance, now) {
                Some(failure) => r == Err::<Receipt<FundsRefunded>, Failure>(failure) && final(self)@
                    == old(self)@,
                None => {
                    &&& r == Ok::<Receipt<FundsRefunded>, Failure>(
                        old(self)@.refund_receipt(
                            bounty_id,
                            old(self)@.refund_plan(
                                bounty_id,
                                amount,
                                recipient,
                                mode,
                                custody_balance,
                                now,
                            )->Ok_0.0,
                            old(self)@.refund_plan(
                                bounty_id,
                                amount,
                                recipient,
                                mode,
                                custody_balance,
                                now,
                            )->Ok_0.1,
                            mode,
                            now,
                        ),
                    )
                    &&& final(self)@ == old(self)@.funds_refunded(
                        bounty_id,
                        amount,
                        recipient,
                        mode,
                        custody_balance,
                        now,
                    )
                },
            },
            final(self).wf(),
            old(self)@.advances_to(final(self)@),
    {
        proof {
            lemma_advances_same(self@, self@);
        }
        let depositor = match self.escrows.get(bounty_id) {
            Ok(escrow) => escrow.depositor,
            Err(e) => {
                return Err(Failure::Error(e));
            },
        };
        let ticket = match self.enter(depositor, now) {
            Ok(ticket) => ticket,
            Err(abort) => {
                return Err(Failure::Abort(abort));
            },
        };
        if self.paused {
            return Err(Failure::Error(Error::ContractPaused));
        }
        let approval = self.approval_for(bounty_id);
        let mut escrow = match self.escrows.take(bounty_id) {
            Ok(escrow) => escrow,
            Err(e) => {
                return Err(Failure::Error(e));
            },
        };
        let outcome = escrow.refund(amount, recipient, mode, approval, custody_balance, now);
        let ghost after = escrow@;
        let remaining_amount: i128 = escrow.remaining_amount;
        self.escrows.update(bounty_id, escrow);
        proof {
            assert(self@.escrows =~= old(self)@.escrows.insert(bounty_id, after));
            lemma_advances_with(old(self)@, self@, bounty_id, after);
        }
        match outcome {
            Ok(receipt) => {
                if receipt.approval_used {
                    self.refund_approvals.remove(&bounty_id);
                }
                self.rate_limiter.record(depositor, ticket);
                Ok(
                    Receipt {
                        settlement: receipt.settlement,
                        event: FundsRefunded {
                            bounty_id,
                            amount: receipt.settlement.payment.amount,
                            refund_to: receipt.recipient,
                            timestamp: now,
                            refund_mode: mode,
                            remaining_amount,
                        },
                    },
                )
            },
            Err(e) => {
                proof {
                    assert(self@.escrows =~= old(self)@.escrows);
                    assert(self@ == old(self)@);
                }
                Err(Failure::Error(e))
            },
        }
    }

    /// Approves a refund of `amount` from `bounty_id` to `recipient` in
    /// `mode` ahead of the deadline. The approval takes the place of any
    /// earlier one for the bounty.
    pub fn approve_custom_refund(
        &mut self,
        bounty_id: u64,
        amount: i128,
        recipient: Address,
        mode: RefundMode,
        now: u64,
    ) -> (r: Result<(), Failure>)
        requires
            old(self).wf(),
        ensures
            match old(self)@.approval_failure(bounty_id, amount) {
                Some(failure) => r == Err::<(), Failure>(failure) && final(self)@ == old(self)@,
                None => r == Ok::<(), Failure>(()) && final(self)@ == old(self)@.refund_approved(
                    bounty_id,
                    amount,
                    recipient,
                    mode,
                    now,
                ),
            },
            final(self).wf(),
            old(self)@.advances_to(final(self)@),
    {
        proof {
            lemma_advances_same(self@, self@);
        }
        let admin = match self.admin {
            Some(admin) => admin,
            None => {
                return Err(Failure::Error(Error::NotInitialized));
            },
        };
        if self.reentrancy_guard {
            return Err(Failure::Abort(Abort::Reentrancy));
        }
        match self.escrows.get(bounty_id) {
            Ok(escrow) => {
                match escrow.check_approval(amount) {
                    Ok(()) => {},
                    Err(e) => {
                        return Err(Failure::Error(e));
                    },
                }
            },
            Err(e) => {
                return Err(Failure::Error(e));
            },
        }
        self.refund_approvals.insert(
            bounty_id,
            RefundApproval { bounty_id, amount, recipient, mode, approved_by: admin, approved_at: now },
        );
        Ok(())
    }

    /// Creates one pending release schedule for each request, a pair of an
    /// amount and the earliest time of execution. On success the result holds
    /// one notification for each new schedule, with its identifier, in the
    /// order of the requests.
    pub fn create_release_schedules(&mut self, bounty_id: u64, schedules: &Vec<(i128, u64)>, now: u64) -> (r:
        Result<Vec<ScheduleCreated>, Failure>)
        requires
            old(self).wf(),
            old(self)@.escrows.contains_key(bounty_id) ==> old(self)@.escrows[bounty_id].release_schedules.len()
                + schedules.len() <= u32::MAX,
        ensures
            match old(self)@.scheduling_failure(bounty_id, schedules@, now) {
                Some(failure) => r == Err::<Vec<ScheduleCreated>, Failure>(failure) && final(self)@
                    == old(self)@,
                None => {
                    &&& r is Ok
                    &&& r->Ok_0@ == old(self)@.schedule_events(bounty_id, schedules@, now)
                    &&& final(self)@ == old(self)@.admitted(old(self)@.admin->0, now).with_escrow(
                        bounty_id,
                        old(self)@.escrows[bounty_id].scheduled(schedules@),
                    )
                },
            },
            final(self).wf(),
            old(self)@.advances_to(final(self)@),
    {
        proof {
            lemma_advances_same(self@, self@);
        }
        let admin = match self.admin {
            Some(admin) => admin,
            None => {
                return Err(Failure::Error(Error::NotInitialized));
            },
        };
        let ticket = match self.enter(admin, now) {
            Ok(ticket) => ticket,
            Err(abort) => {
                return Err(Failure::Abort(abort));
            },
        };
        let mut escrow = match self.escrows.take(bounty_id) {
            Ok(escrow) => escrow,
            Err(e) => {
                return Err(Failure::Error(e));
            },
        };
        let outcome = escrow.create_schedules(schedules, now);
        let ghost after = escrow@;
        self.escrows.update(bounty_id, escrow);
        proof {
            assert(self@.escrows =~= old(self)@.escrows.insert(bounty_id, after));
            lemma_advances_with(old(self)@, self@, bounty_id, after);
        }
        match outcome {
            Ok(ids) => {
                self.rate_limiter.record(admin, ticket);
                let mut events: Vec<ScheduleCreated> = Vec::new();
                let mut i: usize = 0;
                while i < schedules.len()
                    invariant
                        i <= schedules.len(),
                        ids@ == old(self)@.escrows[bounty_id].ids_for(schedules@.len()),
                        old(self)@.admin == Some(admin),
                        events@ == old(self)@.schedule_events(bounty_id, schedules@, now).take(i as int),
                    decreases schedules.len() - i,
                {
                    let (amount, timestamp) = schedules[i];
                    events.push(
                        ScheduleCreated {
                            bounty_id,
                            schedule_id: ids[i],
                            amount,
                            timestamp,
                            created_by: admin,
                            created_at: now,
                        },
                    );
                    proof {
                        let all = old(self)@.schedule_events(bounty_id, schedules@, now);
                        assert(events@ =~= all.take(i + 1));
                    }
                    i = i + 1;
                }
                proof {
                    let all = old(self)@.schedule_events(bounty_id, schedules@, now);
                    assert(all.take(i as int) =~= all);
                }
                Ok(events)
            },
            Err(e) => {
                proof {
                    assert(self@.escrows =~= old(self)@.escrows);
                    assert(self@ == old(self)@);
                }
                Err(Failure::Error(e))
            },
        }
    }

    /// Executes schedule `schedule_index` of `bounty_id` in favour of
    /// `recipient`. Anyone may ask for this once the schedule is due.
    ///
    /// On success the result names the schedule and the transfers: the
    /// release fee to the fee recipient, the rest to `recipient`.
    pub fn execute_schedule(&mut self, bounty_id: u64, schedule_index: u32, recipient: Address, now: u64) -> (r:
        Result<Receipt<ScheduleReleased>, Failure>)
        requires
            old(self).wf(),
        ensures
            match old(self)@.execution_failure(bounty_id, schedule_index, now) {
                Some(failure) => r == Err::<Receipt<ScheduleReleased>, Failure>(failure) && final(self)@ == old(self)@,
                None => {
                    &&& r == Ok::<Receipt<ScheduleReleased>, Failure>(
                        schedule_receipt(
                            bounty_id,
                            old(self)@.escrows[bounty_id].execution_of(
                                schedule_index as int,
                                recipient,
                                old(self)@.fees(),
                            ),
                            recipient,
                            now,
                        ),
                    )
                    &&& final(self)@ == old(self)@.with_escrow(
                        bounty_id,
                        old(self)@.escrows[bounty_id].schedule_executed(
                            schedule_index as int,
                            recipient,
                            now,
                        ),
                    )
                },
            },
            final(self).wf(),
            old(self)@.advances_to(final(self)@),
    {
        proof {
            lemma_advances_same(self@, self@);
        }
        if self.reentrancy_guard {
            return Err(Failure::Abort(Abort::Reentrancy));
        }
        if !self.escrows.contains(bounty_id) {
            return Err(Failure::Error(Error::BountyNotFound));
        }
        let fees = self.fees_in_force();
        let mut escrow = match self.escrows.take(bounty_id) {
            Ok(escrow) => escrow,
            Err(e) => {
                return Err(Failure::Error(e));
            },
        };
        let outcome = escrow.execute_schedule(schedule_index, recipient, &fees, now);
        let ghost after = escrow@;
        self.escrows.update(bounty_id, escrow);
        proof {
            assert(self@.escrows =~= old(self)@.escrows.insert(bounty_id, after));
            lemma_advances_with(old(self)@, self@, bounty_id, after);
        }
        match outcome {
            Ok(done) => Ok(Self::receipt_for(bounty_id, done, recipient, now)),
            Err(e) => {
                proof {
                    assert(self@.escrows =~= old(self)@.escrows);
                    assert(self@ == old(self)@);
                }
                Err(Failure::Error(e))
            },
        }
    }

    /// Takes the schedules of `bounty_id` in turn and executes, in favour of
    /// `recipient`, each one that is pending and due and that what remains
    /// still covers.
    ///
    /// The result lists the executions in the order of the schedules; its
    /// length is the number executed.
    pub fn execute_all_ready_schedules(&mut self, bounty_id: u64, recipient: Address, now: u64) -> (r: Result<
        Vec<Receipt<ScheduleReleased>>,
        Failure,
    >)
        requires
            old(self).wf(),
        ensures
            match old(self)@.sweep_failure(bounty_id) {
                Some(failure) => r == Err::<Vec<Receipt<ScheduleReleased>>, Failure>(failure) && final(self)@ == old(self)@,
                None => {
                    &&& r is Ok
                    &&& r->Ok_0@ == old(self)@.escrows[bounty_id].ready_payouts(
                        old(self)@.escrows[bounty_id].release_schedules.len() as int,
                        recipient,
                        now,
                        old(self)@.fees(),
                    ).map_values(|done: ExecutedSchedule| schedule_receipt(bounty_id, done, recipient, now))
                    &&& final(self)@ == old(self)@.with_escrow(
                        bounty_id,
                        old(self)@.escrows[bounty_id].all_ready_executed(recipient, now),
                    )
                },
            },
            final(self).wf(),
            old(self)@.advances_to(final(self)@),
    {
        proof {
            lemma_advances_same(self@, self@);
        }
        if self.reentrancy_guard {
            return Err(Failure::Abort(Abort::Reentrancy));
        }
        if !self.escrows.contains(bounty_id) {
            return Err(Failure::Error(Error::BountyNotFound));
        }
        let fees = self.fees_in_force();
        let mut escrow = match self.escrows.take(bounty_id) {
            Ok(escrow) => escrow,
            Err(e) => {
                return Err(Failure::Error(e));
            },
        };
        let outcome = escrow.execute_all_ready(recipient, &fees, now);
        let ghost after = escrow@;
        self.escrows.update(bounty_id, escrow);
        proof {
            assert(self@.escrows =~= old(self)@.escrows.insert(bounty_id, after));
            lemma_advances_with(old(self)@, self@, bounty_id, after);
        }
        match outcome {
            Ok(done) => {
                let mut receipts: Vec<Receipt<ScheduleReleased>> = Vec::new();
                let mut i: usize = 0;
                while i < done.len()
                    invariant
                        i <= done.len(),
                        receipts@ == done@.take(i as int).map_values(
                            |done: ExecutedSchedule| schedule_receipt(bounty_id, done, recipient, now),
                        ),
                    decreases done.len() - i,
                {
                    receipts.push(Self::receipt_for(bounty_id, done[i], recipient, now));
                    proof {
                        assert(receipts@ =~= done@.take(i + 1).map_values(
                            |done: ExecutedSchedule| schedule_receipt(bounty_id, done, recipient, now),
                        ));
                    }
                    i = i + 1;
                }
                proof {
                    assert(done@.take(i as int) =~= done@);
                }
                Ok(receipts)
            },
            Err(e) => {
                proof {
                    assert(self@.escrows =~= old(self)@.escrows);
                    assert(self@ == old(self)@);
                }
                Err(Failure::Error(e))
            },
        }
    }

    /// Cancels schedule `schedule_index` of `bounty_id`. What remains in the
    /// escrow is not touched.
    pub fn cancel_schedule(&mut self, bounty_id: u64, schedule_index: u32) -> (r: Result<(), Failure>)
        requires
            old(self).wf(),
        ensures
            match old(self)@.cancellation_failure(bounty_id, schedule_index) {
                Some(failure) => r == Err::<(), Failure>(failure) && final(self)@ == old(self)@,
                None => r == Ok::<(), Failure>(()) && final(self)@ == old(self)@.with_escrow(
                    bounty_id,
                    old(self)@.escrows[bounty_id].schedule_cancelled(schedule_index as int),
                ),
            },
            final(self).wf(),
            old(self)@.advances_to(final(self)@),
    {
        proof {
            lemma_advances_same(self@, self@);
        }
        if self.admin.is_none() {
            return Err(Failure::Error(Error::NotInitialized));
        }
        if self.reentrancy_guard {
            return Err(Failure::Abort(Abort::Reentrancy));
        }
        let mut escrow = match self.escrows.take(bounty_id) {
            Ok(escrow) => escrow,
            Err(e) => {
                return Err(Failure::Error(e));
            },
        };
        let outcome = escrow.cancel_schedule(schedule_index);
        let ghost after = escrow@;
        self.escrows.update(bounty_id, escrow);
        proof {
            assert(self@.escrows =~= old(self)@.escrows.insert(bounty_id, after));
            lemma_advances_with(old(self)@, self@, bounty_id, after);
        }
        match outcome {
            Ok(()) => Ok(()),
            Err(e) => {
                proof {
                    assert(self@.escrows =~= old(self)@.escrows);
                    assert(self@ == old(self)@);
                }
                Err(Failure::Error(e))
            },
        }
    }

    /// Whether the contract is paused.
    pub fn is_paused(&self) -> (paused: bool)
        ensures
            paused == self@.paused,
    {
        self.paused
    }

    /// Pauses the contract: no funds can be locked, released or refunded
    /// until it is unpaused. Pausing a paused contract changes nothing and
    /// gives rise to no notification.
    pub fn pause(&mut self, now: u64) -> (r: Result<Option<ContractPaused>, Failure>)
        ensures
            match old(self)@.admin_failure() {
                Some(failure) => r == Err::<Option<ContractPaused>, Failure>(failure) && final(self)@
                    == old(self)@,
                None => {
                    &&& r == Ok::<Option<ContractPaused>, Failure>(
                        if old(self)@.paused {
                            None
                        } else {
                            Some(ContractPaused { paused_by: old(self)@.admin->0, timestamp: now })
                        },
                    )
                    &&& final(self)@ == (ContractView { paused: true, ..old(self)@ })
                },
            },
            old(self).wf() ==> final(self).wf(),
            old(self)@.advances_to(final(self)@),
    {
        proof {
            lemma_advances_same(self@, self@);
        }
        let admin = match self.admin {
            Some(admin) => admin,
            None => {
                return Err(Failure::Error(Error::NotInitialized));
            },
        };
        if self.reentrancy_guard {
            return Err(Failure::Abort(Abort::Reentrancy));
        }
        if self.paused {
            return Ok(None);
        }
        self.paused = true;
        Ok(Some(ContractPaused { paused_by: admin, timestamp: now }))
    }

    /// Lifts the pause. Unpausing a contract that is not paused changes
    /// nothing and gives rise to no notification.
    pub fn unpause(&mut self, now: u64) -> (r: Result<Option<ContractUnpaused>, Failure>)
        ensures
            match old(self)@.admin_failure() {
                Some(failure) => r == Err::<Option<ContractUnpaused>, Failure>(failure) && final(self)@
                    == old(self)@,
                None => {
                    &&& r == Ok::<Option<ContractUnpaused>, Failure>(
                        if old(self)@.paused {
                            Some(ContractUnpaused { unpaused_by: old(self)@.admin->0, timestamp: now })
                        } else {
                            None
                        },
                    )
                    &&& final(self)@ == (ContractView { paused: false, ..old(self)@ })
                },
            },
            old(self).wf() ==> final(self).wf(),
            old(self)@.advances_to(final(self)@),
    {
        proof {
            lemma_advances_same(self@, self@);
        }
        let admin = match self.admin {
            Some(admin) => admin,
            None => {
                return Err(Failure::Error(Error::NotInitialized));
            },
        };
        if self.reentrancy_guard {
            return Err(Failure::Abort(Abort::Reentrancy));
        }
        if !self.paused {
            return Ok(None);
        }
        self.paused = false;
        Ok(Some(ContractUnpaused { unpaused_by: admin, timestamp: now }))
    }

    /// Changes the fee settings. A setting that is not given stays as it is;
    /// a rate that is given must lie between zero and the maximum.
    pub fn update_fee_config(
        &mut self,
        lock_fee_rate: Option<i128>,
        release_fee_rate: Option<i128>,
        fee_recipient: Option<Address>,
        fee_enabled: Option<bool>,
        now: u64,
    ) -> (r: Result<FeeConfigUpdated, Failure>)
        requires
            old(self).wf(),
        ensures
            match old(self)@.fee_update_failure(lock_fee_rate, release_fee_rate) {
                Some(failure) => r == Err::<FeeConfigUpdated, Failure>(failure) && final(self)@ == old(
                    self,
                )@,
                None => {
                    let fees = old(self)@.fees().updated(
                        lock_fee_rate,
                        release_fee_rate,
                        fee_recipient,
                        fee_enabled,
                    );
                    &&& r == Ok::<FeeConfigUpdated, Failure>(
                        FeeConfigUpdated {
                            lock_fee_rate: fees.lock_fee_rate,
                            release_fee_rate: fees.release_fee_rate,
                            fee_recipient: fees.fee_recipient,
                            fee_enabled: fees.fee_enabled,
                            timestamp: now,
                        },
                    )
                    &&& final(self)@ == (ContractView { fee_config: Some(fees), ..old(self)@ })
                },
            },
            final(self).wf(),
            old(self)@.advances_to(final(self)@),
    {
        proof {
            lemma_advances_same(self@, self@);
        }
        if self.admin.is_none() {
            return Err(Failure::Error(Error::NotInitialized));
        }
        if self.reentrancy_guard {
            return Err(Failure::Abort(Abort::Reentrancy));
        }
        let mut fees = self.fees_in_force();
        match fees.update(lock_fee_rate, release_fee_rate, fee_recipient, fee_enabled) {
            Ok(()) => {
                self.fee_config = Some(fees);
                Ok(
                    FeeConfigUpdated {
                        lock_fee_rate: fees.lock_fee_rate,
                        release_fee_rate: fees.release_fee_rate,
                        fee_recipient: fees.fee_recipient,
                        fee_enabled: fees.fee_enabled,
                        timestamp: now,
                    },
                )
            },
            Err(e) => Err(Failure::Error(e)),
        }
    }

    /// The fee settings in force.
    pub fn get_fee_config(&self) -> (fees: FeeConfig)
        requires
            self.wf(),
            self@.admin is Some || self@.fee_config is Some,
        ensures
            fees == self@.fees(),
    {
        self.fees_in_force()
    }

    /// The escrow record of `bounty_id`.
    pub fn get_escrow_info(&self, bounty_id: u64) -> (r: Result<&Escrow, Error>)
        ensures
            match r {
                Ok(escrow) => self@.escrows.contains_key(bounty_id) && escrow@ == self@.escrows[bounty_id],
                Err(e) => !self@.escrows.contains_key(bounty_id) && e == Error::BountyNotFound,
            },
    {
        self.escrows.get(bounty_id)
    }

    /// All release schedules of `bounty_id`, in the order of creation.
    pub fn get_release_schedules(&self, bounty_id: u64) -> (r: Result<&Vec<ReleaseSchedule>, Error>)
        ensures
            match r {
                Ok(schedules) => self@.escrows.contains_key(bounty_id) && schedules@
                    == self@.escrows[bounty_id].release_schedules,
                Err(e) => !self@.escrows.contains_key(bounty_id) && e == Error::BountyNotFound,
            },
    {
        match self.escrows.get(bounty_id) {
            Ok(escrow) => Ok(&escrow.release_schedules),
            Err(e) => Err(e),
        }
    }

    /// The schedules of `bounty_id` that can be executed at time `now`: those
    /// that are pending and due, in the order of creation.
    pub fn get_pending_schedules(&self, bounty_id: u64, now: u64) -> (r: Result<Vec<ReleaseSchedule>, Error>)
        ensures
            match r {
                Ok(schedules) => self@.escrows.contains_key(bounty_id) && schedules@ == ready_schedules(
                    self@.escrows[bounty_id].release_schedules,
                    now,
                ),
                Err(e) => !self@.escrows.contains_key(bounty_id) && e == Error::BountyNotFound,
            },
    {
        match self.escrows.get(bounty_id) {
            Ok(escrow) => Ok(escrow.pending_schedules(now)),
            Err(e) => Err(e),
        }
    }

    /// The audit trail of the schedules of `bounty_id`.
    pub fn get_schedule_history(&self, bounty_id: u64) -> (r: Result<&Vec<ScheduleHistoryRecord>, Error>)
        ensures
            match r {
                Ok(history) => self@.escrows.contains_key(bounty_id) && history@
                    == self@.escrows[bounty_id].schedule_history,
                Err(e) => !self@.escrows.contains_key(bounty_id) && e == Error::BountyNotFound,
            },
    {
        match self.escrows.get(bounty_id) {
            Ok(escrow) => Ok(&escrow.schedule_history),
            Err(e) => Err(e),
        }
    }

    /// The refunds made from `bounty_id`, oldest first.
    pub fn get_refund_history(&self, bounty_id: u64) -> (r: Result<&Vec<RefundRecord>, Error>)
        ensures
            match r {
                Ok(history) => self@.escrows.contains_key(bounty_id) && history@
                    == self@.escrows[bounty_id].refund_history,
                Err(e) => !self@.escrows.contains_key(bounty_id) && e == Error::BountyNotFound,
            },
    {
        match self.escrows.get(bounty_id) {
            Ok(escrow) => Ok(&escrow.refund_history),
            Err(e) => Err(e),
        }
    }

    /// The payouts made from `bounty_id`, oldest first.
    pub fn get_payout_history(&self, bounty_id: u64) -> (r: Result<&Vec<PayoutRecord>, Error>)
        ensures
            match r {
                Ok(history) => self@.escrows.contains_key(bounty_id) && history@
                    == self@.escrows[bounty_id].payout_history,
                Err(e) => !self@.escrows.contains_key(bounty_id) && e == Error::BountyNotFound,
            },
    {
        match self.escrows.get(bounty_id) {
            Ok(escrow) => Ok(&escrow.payout_history),
            Err(e) => Err(e),
        }
    }
}

} // verus!
