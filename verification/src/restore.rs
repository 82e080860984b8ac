//! Putting a state together from stored parts.
//!
//! Every operation relies on the invariant of the state it is given. A state
//! that was written out and read back is checked here before it is used: the
//! functions below accept a part only if the invariant holds of it.

use std::collections::HashMap;
use vstd::prelude::*;
use crate::anti_abuse::RateLimiter;
use crate::contract::{BountyEscrowContract, ContractView};
use crate::escrow::{
    execution_on_record, lemma_pending_total_prefix, mirror, pending_total, Escrow,
};
use crate::fees::{FeeConfig, MAX_FEE_RATE};
use crate::store::EscrowStore;
use crate::types::{Address, EscrowStatus, RefundApproval, ScheduleStatus};

verus! {

broadcast use vstd::std_specs::hash::group_hash_axioms;

impl FeeConfig {
    /// Whether both rates lie between zero and the maximum.
    pub fn is_valid(&self) -> (b: bool)
        ensures
            b == self.wf(),
    {
        0 <= self.lock_fee_rate && self.lock_fee_rate <= MAX_FEE_RATE && 0 <= self.release_fee_rate
            && self.release_fee_rate <= MAX_FEE_RATE
    }
}

impl Escrow {
    /// Whether every payout and every refund on record is positive.
    fn histories_positive(&self) -> (b: bool)
        ensures
            b == {
                &&& forall|i: int|
                    0 <= i < self.payout_history.len() ==> (#[trigger] self.payout_history@[i]).amount > 0
                &&& forall|i: int|
                    0 <= i < self.refund_history.len() ==> (#[trigger] self.refund_history@[i]).amount > 0
            },
    {
        let mut i: usize = 0;
        while i < self.payout_history.len()
            invariant
                i <= self.payout_history.len(),
                forall|k: int| 0 <= k < i ==> (#[trigger] self.payout_history@[k]).amount > 0,
            decreases self.payout_history.len() - i,
        {
            if self.payout_history[i].amount <= 0 {
                return false;
            }
            i = i + 1;
        }
        let mut j: usize = 0;
        while j < self.refund_history.len()
            invariant
                j <= self.refund_history.len(),
                forall|k: int| 0 <= k < j ==> (#[trigger] self.refund_history@[k]).amount > 0,
            decreases self.refund_history.len() - j,
        {
            if self.refund_history[j].amount <= 0 {
                return false;
            }
            j = j + 1;
        }
        true
    }

    /// Whether every schedule has its index as identifier, a positive amount
    /// and an exact audit copy, and names a time and a recipient of execution
    /// exactly if it has been executed.
    fn schedules_in_order(&self) -> (b: bool)
        requires
            self.schedule_history.len() == self.release_schedules.len(),
        ensures
            b == forall|i: int|
                0 <= i < self.release_schedules.len() ==> {
                    &&& (#[trigger] self.release_schedules@[i]).schedule_id == i
                    &&& self.release_schedules@[i].amount > 0
                    &&& self.schedule_history@[i] == mirror(self.release_schedules@[i])
                    &&& execution_on_record(self.release_schedules@[i])
                },
    {
        let mut i: usize = 0;
        while i < self.release_schedules.len()
            invariant
                i <= self.release_schedules.len(),
                self.schedule_history.len() == self.release_schedules.len(),
                forall|k: int|
                    0 <= k < i ==> {
                        &&& (#[trigger] self.release_schedules@[k]).schedule_id == k
                        &&& self.release_schedules@[k].amount > 0
                        &&& self.schedule_history@[k] == mirror(self.release_schedules@[k])
                        &&& execution_on_record(self.release_schedules@[k])
                    },
            decreases self.release_schedules.len() - i,
        {
            let schedule = self.release_schedules[i];
            let copy = self.schedule_history[i];
            let in_order: bool = schedule.schedule_id as usize == i && schedule.amount > 0
                && copy.schedule_id == schedule.schedule_id && copy.amount == schedule.amount
                && copy.timestamp == schedule.timestamp && copy.status == schedule.status
                && copy.executed_at == schedule.released_at && copy.executed_by
                == schedule.released_by;
            let executed: bool = schedule.status == ScheduleStatus::Released;
            let on_record: bool = schedule.released_at.is_some() == executed
                && schedule.released_by.is_some() == executed;
            if !in_order || !on_record {
                assert(!({
                    &&& self.release_schedules@[i as int].schedule_id == i
                    &&& self.release_schedules@[i as int].amount > 0
                    &&& self.schedule_history@[i as int] == mirror(self.release_schedules@[i as int])
                    &&& execution_on_record(self.release_schedules@[i as int])
                }));
                return false;
            }
            i = i + 1;
        }
        true
    }

    /// Whether the pending schedules reserve no more than what remains.
    fn pending_covered(&self) -> (b: bool)
        requires
            0 <= self.remaining_amount,
            forall|i: int|
                0 <= i < self.release_schedules.len() ==> (#[trigger] self.release_schedules@[i]).amount
                    > 0,
        ensures
            b == (self@.pending() <= self.remaining_amount),
    {
        let mut total: i128 = 0;
        let mut i: usize = 0;
        proof {
            assert(self.release_schedules@.take(0) =~= Seq::empty());
        }
        while i < self.release_schedules.len()
            invariant
                i <= self.release_schedules.len(),
                0 <= self.remaining_amount,
                forall|k: int|
                    0 <= k < self.release_schedules.len() ==> (#[trigger] self.release_schedules@[k]).amount
                        > 0,
                total == pending_total(self.release_schedules@.take(i as int)),
                0 <= total <= self.remaining_amount,
            decreases self.release_schedules.len() - i,
        {
            let schedule = self.release_schedules[i];
            proof {
                let next = self.release_schedules@.take(i + 1);
                assert(next.drop_last() =~= self.release_schedules@.take(i as int));
                assert(next.last() == schedule);
                lemma_pending_total_prefix(self.release_schedules@, i + 1);
            }
            if schedule.status == ScheduleStatus::Pending {
                if schedule.amount > self.remaining_amount - total {
                    return false;
                }
                total = total + schedule.amount;
            }
            i = i + 1;
        }
        proof {
            assert(self.release_schedules@.take(i as int) =~= self.release_schedules@);
        }
        true
    }

    /// Whether the invariant of the record holds.
    pub fn is_well_formed(&self) -> (b: bool)
        ensures
            b == self.wf(),
    {
        if self.remaining_amount < 0 || self.amount < 0 {
            return false;
        }
        if !self.histories_positive() {
            return false;
        }
        let count: usize = self.release_schedules.len();
        if count > u32::MAX as usize || self.next_schedule_id as usize != count
            || self.schedule_history.len() != count {
            return false;
        }
        if !self.schedules_in_order() {
            return false;
        }
        if !self.pending_covered() {
            return false;
        }
        let terminal: bool = self.status == EscrowStatus::Released || self.status
            == EscrowStatus::Refunded;
        if terminal != (self.remaining_amount == 0) {
            return false;
        }
        if self.status != EscrowStatus::Scheduled && self.has_pending_schedules() {
            return false;
        }
        true
    }
}

impl BountyEscrowContract {
    /// Puts a contract state without escrows together from its parts. The
    /// fee settings must be valid.
    pub fn restore(
        admin: Option<Address>,
        token: Option<Address>,
        fee_config: Option<FeeConfig>,
        paused: bool,
        reentrancy_guard: bool,
        bounty_registry: Vec<u64>,
        rate_limiter: RateLimiter,
    ) -> (r: Option<BountyEscrowContract>)
        ensures
            r is Some <==> (fee_config is Some ==> fee_config->0.wf()),
            r is Some ==> r->0.wf() && r->0@ == (ContractView {
                admin,
                token,
                fee_config,
                escrows: Map::empty(),
                refund_approvals: Map::empty(),
                reentrancy_guard,
                paused,
                bounty_registry: bounty_registry@,
                rate_limiter: rate_limiter@,
            }),
    {
        match fee_config {
            Some(fees) => {
                if !fees.is_valid() {
                    return None;
                }
            },
            None => {},
        }
        Some(
            BountyEscrowContract {
                admin,
                token,
                fee_config,
                escrows: EscrowStore::new(),
                refund_approvals: HashMap::new(),
                reentrancy_guard,
                paused,
                bounty_registry,
                rate_limiter,
            },
        )
    }

    /// Puts the record of `bounty_id` into the state, in place of any that is
    /// there. The record must be well formed and the contract initialised;
    /// otherwise nothing is stored and the result is `false`.
    pub fn load_escrow(&mut self, bounty_id: u64, escrow: Escrow) -> (stored: bool)
        requires
            old(self).wf(),
        ensures
            stored == (escrow.wf() && old(self)@.admin is Some),
            stored ==> final(self)@ == old(self)@.with_escrow(bounty_id, escrow@),
            !stored ==> final(self)@ == old(self)@,
            final(self).wf(),
    {
        if self.admin.is_none() || !escrow.is_well_formed() {
            return false;
        }
        self.escrows.update(bounty_id, escrow);
        true
    }

    /// Puts `approval` on record for its bounty, in place of any that is
    /// there.
    pub fn load_approval(&mut self, approval: RefundApproval)
        requires
            old(self).wf(),
        ensures
            final(self)@ == (ContractView {
                refund_approvals: old(self)@.refund_approvals.insert(approval.bounty_id, approval),
                ..old(self)@
            }),
            final(self).wf(),
    {
        self.refund_approvals.insert(approval.bounty_id, approval);
    }
}

} // verus!
