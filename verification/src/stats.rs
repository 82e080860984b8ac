//! Aggregate figures over all registered bounties.

use vstd::prelude::*;
use crate::contract::{BountyEscrowContract, ContractView};
use crate::escrow::{lemma_pending_total_bounds, payout_total, refund_total, Escrow, EscrowView};
use crate::types::{EscrowStatus, PayoutRecord, RefundRecord, ReleaseSchedule, ScheduleStatus};

verus! {

/// The aggregate figures.
#[derive(Clone, Copy, Debug, PartialEq, Eq, Structural)]
pub struct EscrowStats {
    /// How many bounties are registered.
    pub total_bounties: u64,
    /// What remains in escrows that are not drained.
    pub total_locked_amount: i128,
    /// What was credited to escrows that are `Released`, and what was paid
    /// out of those that are `PartiallyReleased`.
    pub total_released_amount: i128,
    /// What was refunded from escrows that are `Refunded` or
    /// `PartiallyRefunded`.
    pub total_refunded_amount: i128,
    /// What the pending schedules of `Scheduled` escrows reserve.
    pub total_scheduled_amount: i128,
    /// How many schedules of `Scheduled` escrows are pending.
    pub pending_schedules: u32,
}

/// One of the figures that are added up over the escrows.
#[derive(Clone, Copy, Debug, PartialEq, Eq, Structural)]
pub enum Figure {
    Locked,
    Released,
    Refunded,
    Scheduled,
    PendingSchedules,
}

/// The number of pending schedules.
pub open spec fn pending_count(schedules: Seq<ReleaseSchedule>) -> int
    decreases schedules.len(),
{
    if schedules.len() == 0 {
        0
    } else {
        pending_count(schedules.drop_last()) + (if schedules.last().status == ScheduleStatus::Pending {
            1int
        } else {
            0int
        })
    }
}

impl EscrowView {
    /// What the escrow contributes to `figure`, by its status.
    pub open spec fn share(self, figure: Figure) -> int {
        match figure {
            Figure::Locked => match self.status {
                EscrowStatus::Released | EscrowStatus::Refunded => 0,
                _ => self.remaining_amount as int,
            },
            Figure::Released => match self.status {
                EscrowStatus::Released => self.amount as int,
                EscrowStatus::PartiallyReleased => self.paid_out(),
                _ => 0,
            },
            Figure::Refunded => match self.status {
                EscrowStatus::Refunded | EscrowStatus::PartiallyRefunded => self.refunded(),
                _ => 0,
            },
            Figure::Scheduled => match self.status {
                EscrowStatus::Scheduled => self.pending(),
                _ => 0,
            },
            Figure::PendingSchedules => match self.status {
                EscrowStatus::Scheduled => pending_count(self.release_schedules),
                _ => 0,
            },
        }
    }
}

impl ContractView {
    /// What registry entry `i` contributes to `figure`: the share of its
    /// escrow, or nothing if the bounty has no escrow.
    pub open spec fn entry_share(self, figure: Figure, i: int) -> int {
        if self.escrows.contains_key(self.bounty_registry[i]) {
            self.escrows[self.bounty_registry[i]].share(figure)
        } else {
            0
        }
    }

    /// `figure` added up over the first `n` entries of the registry.
    pub open spec fn figure_total(self, figure: Figure, n: int) -> int
        decreases n,
    {
        if n <= 0 {
            0
        } else {
            self.figure_total(figure, n - 1) + self.entry_share(figure, n - 1)
        }
    }

    /// `figure` added up over the whole registry.
    pub open spec fn total(self, figure: Figure) -> int {
        self.figure_total(figure, self.bounty_registry.len() as int)
    }

    /// Whether every figure fits its field.
    pub open spec fn stats_fit(self) -> bool {
        &&& self.total(Figure::Locked) <= i128::MAX
        &&& self.total(Figure::Released) <= i128::MAX
        &&& self.total(Figure::Refunded) <= i128::MAX
        &&& self.total(Figure::Scheduled) <= i128::MAX
        &&& self.total(Figure::PendingSchedules) <= u32::MAX
    }

    /// The aggregate figures.
    pub open spec fn stats(self) -> EscrowStats {
        EscrowStats {
            total_bounties: self.bounty_registry.len() as u64,
            total_locked_amount: self.total(Figure::Locked) as i128,
            total_released_amount: self.total(Figure::Released) as i128,
            total_refunded_amount: self.total(Figure::Refunded) as i128,
            total_scheduled_amount: self.total(Figure::Scheduled) as i128,
            pending_schedules: self.total(Figure::PendingSchedules) as u32,
        }
    }
}

/// The payout total of a prefix is between zero and the payout total of the
/// whole, where every payout is positive.
pub proof fn lemma_payout_total_prefix(history: Seq<PayoutRecord>, n: int)
    requires
        0 <= n <= history.len(),
        forall|i: int| 0 <= i < history.len() ==> (#[trigger] history[i]).amount > 0,
    ensures
        0 <= payout_total(history.take(n)) <= payout_total(history),
    decreases history.len() - n,
{
    if n == history.len() {
        assert(history.take(n) =~= history);
        lemma_payout_total_nonnegative(history);
    } else {
        lemma_payout_total_prefix(history, n + 1);
        assert(history.take(n + 1).drop_last() =~= history.take(n));
        lemma_payout_total_nonnegative(history.take(n));
    }
}

/// The payout total is not negative where every payout is positive.
pub proof fn lemma_payout_total_nonnegative(history: Seq<PayoutRecord>)
    requires
        forall|i: int| 0 <= i < history.len() ==> (#[trigger] history[i]).amount > 0,
    ensures
        0 <= payout_total(history),
    decreases history.len(),
{
    if history.len() > 0 {
        lemma_payout_total_nonnegative(history.drop_last());
    }
}

/// The refund total of a prefix is between zero and the refund total of the
/// whole, where every refund is positive.
pub proof fn lemma_refund_total_prefix(history: Seq<RefundRecord>, n: int)
    requires
        0 <= n <= history.len(),
        forall|i: int| 0 <= i < history.len() ==> (#[trigger] history[i]).amount > 0,
    ensures
        0 <= refund_total(history.take(n)) <= refund_total(history),
    decreases history.len() - n,
{
    if n == history.len() {
        assert(history.take(n) =~= history);
        lemma_refund_total_nonnegative(history);
    } else {
        lemma_refund_total_prefix(history, n + 1);
        assert(history.take(n + 1).drop_last() =~= history.take(n));
        lemma_refund_total_nonnegative(history.take(n));
    }
}

/// The refund total is not negative where every refund is positive.
pub proof fn lemma_refund_total_nonnegative(history: Seq<RefundRecord>)
    requires
        forall|i: int| 0 <= i < history.len() ==> (#[trigger] history[i]).amount > 0,
    ensures
        0 <= refund_total(history),
    decreases history.len(),
{
    if history.len() > 0 {
        lemma_refund_total_nonnegative(history.drop_last());
    }
}

/// There are no more pending schedules than schedules.
pub proof fn lemma_pending_count_bounds(schedules: Seq<ReleaseSchedule>)
    ensures
        0 <= pending_count(schedules) <= schedules.len(),
    decreases schedules.len(),
{
    if schedules.len() > 0 {
        lemma_pending_count_bounds(schedules.drop_last());
    }
}

/// No share of a well-formed escrow is negative.
pub proof fn lemma_share_nonnegative(escrow: EscrowView, figure: Figure)
    requires
        escrow.ledger_ok(),
    ensures
        0 <= escrow.share(figure),
{
    lemma_payout_total_nonnegative(escrow.payout_history);
    lemma_refund_total_nonnegative(escrow.refund_history);
    lemma_pending_total_bounds(escrow.release_schedules);
    lemma_pending_count_bounds(escrow.release_schedules);
}

/// A figure added up over more entries is no smaller.
pub proof fn lemma_figure_total_grows(contract: ContractView, figure: Figure, n: int, m: int)
    requires
        contract.wf(),
        0 <= n <= m <= contract.bounty_registry.len(),
    ensures
        0 <= contract.figure_total(figure, n) <= contract.figure_total(figure, m),
    decreases m,
{
    if m > 0 {
        if contract.escrows.contains_key(contract.bounty_registry[m - 1]) {
            lemma_share_nonnegative(contract.escrows[contract.bounty_registry[m - 1]], figure);
        }
        if n < m {
            lemma_figure_total_grows(contract, figure, n, m - 1);
        } else {
            lemma_figure_total_grows(contract, figure, n - 1, m - 1);
        }
    }
}

impl Escrow {
    /// The sum of all payouts, unless it is beyond 128 bits.
    pub fn total_paid_out(&self) -> (r: Option<i128>)
        requires
            self@.ledger_ok(),
        ensures
            match r {
                Some(total) => total == self@.paid_out(),
                None => self@.paid_out() > i128::MAX,
            },
    {
        let mut total: i128 = 0;
        let mut i: usize = 0;
        proof {
            assert(self.payout_history@.take(0) =~= Seq::empty());
        }
        while i < self.payout_history.len()
            invariant
                i <= self.payout_history.len(),
                self@.ledger_ok(),
                total == payout_total(self.payout_history@.take(i as int)),
                0 <= total,
            decreases self.payout_history.len() - i,
        {
            proof {
                let next = self.payout_history@.take(i + 1);
                assert(next.drop_last() =~= self.payout_history@.take(i as int));
                assert(next.last() == self.payout_history@[i as int]);
                lemma_payout_total_prefix(self.payout_history@, i + 1);
            }
            match total.checked_add(self.payout_history[i].amount) {
                Some(sum) => {
                    total = sum;
                },
                None => {
                    return None;
                },
            }
            i = i + 1;
        }
        proof {
            assert(self.payout_history@.take(i as int) =~= self.payout_history@);
        }
        Some(total)
    }

    /// The sum of all refunds, unless it is beyond 128 bits.
    pub fn total_refunded(&self) -> (r: Option<i128>)
        requires
            self@.ledger_ok(),
        ensures
            match r {
                Some(total) => total == self@.refunded(),
                None => self@.refunded() > i128::MAX,
            },
    {
        let mut total: i128 = 0;
        let mut i: usize = 0;
        proof {
            assert(self.refund_history@.take(0) =~= Seq::empty());
        }
        while i < self.refund_history.len()
            invariant
                i <= self.refund_history.len(),
                self@.ledger_ok(),
                total == refund_total(self.refund_history@.take(i as int)),
                0 <= total,
            decreases self.refund_history.len() - i,
        {
            proof {
                let next = self.refund_history@.take(i + 1);
                assert(next.drop_last() =~= self.refund_history@.take(i as int));
                assert(next.last() == self.refund_history@[i as int]);
                lemma_refund_total_prefix(self.refund_history@, i + 1);
            }
            match total.checked_add(self.refund_history[i].amount) {
                Some(sum) => {
                    total = sum;
                },
                None => {
                    return None;
                },
            }
            i = i + 1;
        }
        proof {
            assert(self.refund_history@.take(i as int) =~= self.refund_history@);
        }
        Some(total)
    }

    /// The number of pending schedules.
    pub fn pending_schedule_count(&self) -> (count: u32)
        requires
            self@.ledger_ok(),
        ensures
            count == pending_count(self@.release_schedules),
    {
        let mut count: u32 = 0;
        let mut i: usize = 0;
        proof {
            assert(self.release_schedules@.take(0) =~= Seq::empty());
        }
        while i < self.release_schedules.len()
            invariant
                i <= self.release_schedules.len(),
                self.release_schedules.len() <= u32::MAX,
                count == pending_count(self.release_schedules@.take(i as int)),
                count <= i,
            decreases self.release_schedules.len() - i,
        {
            proof {
                let next = self.release_schedules@.take(i + 1);
                assert(next.drop_last() =~= self.release_schedules@.take(i as int));
                assert(next.last() == self.release_schedules@[i as int]);
            }
            if self.release_schedules[i].status == ScheduleStatus::Pending {
                count = count + 1;
            }
            i = i + 1;
        }
        proof {
            assert(self.release_schedules@.take(i as int) =~= self.release_schedules@);
        }
        count
    }

    /// What the escrow contributes to `figure`, unless it is beyond 128 bits.
    pub fn share(&self, figure: Figure) -> (r: Option<i128>)
        requires
            self@.ledger_ok(),
        ensures
            match r {
                Some(share) => share == self@.share(figure),
                None => self@.share(figure) > i128::MAX,
            },
    {
        match figure {
            Figure::Locked => match self.status {
                EscrowStatus::Released | EscrowStatus::Refunded => Some(0),
                _ => Some(self.remaining_amount),
            },
            Figure::Released => match self.status {
                EscrowStatus::Released => Some(self.amount),
                EscrowStatus::PartiallyReleased => self.total_paid_out(),
                _ => Some(0),
            },
            Figure::Refunded => match self.status {
                EscrowStatus::Refunded | EscrowStatus::PartiallyRefunded => self.total_refunded(),
                _ => Some(0),
            },
            Figure::Scheduled => match self.status {
                EscrowStatus::Scheduled => Some(self.pending_amount()),
                _ => Some(0),
            },
            Figure::PendingSchedules => match self.status {
                EscrowStatus::Scheduled => {
                    let count: u32 = self.pending_schedule_count();
                    Some(count as i128)
                },
                _ => Some(0),
            },
        }
    }
}

impl BountyEscrowContract {
    /// `figure` added up over the registry, unless it is beyond 128 bits.
    pub fn figure_total(&self, figure: Figure) -> (r: Option<i128>)
        requires
            self.wf(),
        ensures
            match r {
                Some(total) => total == self@.total(figure),
                None => self@.total(figure) > i128::MAX,
            },
    {
        let mut total: i128 = 0;
        let mut i: usize = 0;
        while i < self.bounty_registry.len()
            invariant
                i <= self.bounty_registry.len(),
                self.wf(),
                total == self@.figure_total(figure, i as int),
                0 <= total,
            decreases self.bounty_registry.len() - i,
        {
            proof {
                lemma_figure_total_grows(self@, figure, i + 1, self@.bounty_registry.len() as int);
                lemma_figure_total_grows(self@, figure, i as int, i + 1);
            }
            let share: Option<i128> = match self.escrows.get(self.bounty_registry[i]) {
                Ok(escrow) => escrow.share(figure),
                Err(_) => Some(0),
            };
            let sum: Option<i128> = match share {
                Some(share) => total.checked_add(share),
                None => None,
            };
            match sum {
                Some(sum) => {
                    total = sum;
                },
                None => {
                    return None;
                },
            }
            i = i + 1;
        }
        Some(total)
    }

    /// The aggregate figures over all registered bounties, or `None` if one
    /// of them does not fit its field.
    pub fn get_stats(&self) -> (r: Option<EscrowStats>)
        requires
            self.wf(),
        ensures
            self@.stats_fit() ==> r == Some(self@.stats()),
            !self@.stats_fit() ==> r is None,
    {
        let locked: i128 = match self.figure_total(Figure::Locked) {
            Some(total) => total,
            None => {
                return None;
            },
        };
        let released: i128 = match self.figure_total(Figure::Released) {
            Some(total) => total,
            None => {
                return None;
            },
        };
        let refunded: i128 = match self.figure_total(Figure::Refunded) {
            Some(total) => total,
            None => {
                return None;
            },
        };
        let scheduled: i128 = match self.figure_total(Figure::Scheduled) {
            Some(total) => total,
            None => {
                return None;
            },
        };
        let pending: i128 = match self.figure_total(Figure::PendingSchedules) {
            Some(total) => total,
            None => {
                return None;
            },
        };
        if pending > u32::MAX as i128 {
            return None;
        }
        let count: usize = self.bounty_registry.len();
        proof {
            lemma_figure_total_grows(self@, Figure::PendingSchedules, 0, self@.bounty_registry.len() as int);
        }
        Some(
            EscrowStats {
                total_bounties: count as u64,
                total_locked_amount: locked,
                total_released_amount: released,
                total_refunded_amount: refunded,
                total_scheduled_amount: scheduled,
                pending_schedules: pending as u32,
            },
        )
    }
}

} // verus!
