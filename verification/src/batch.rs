//! The batch coordinator: several locks or several releases in one call.
//!
//! A batch is checked as a whole before anything is applied. If one item is
//! at fault, the call returns the error of the first such item, the state is
//! as it was and no transfer is asked for.

use vstd::prelude::*;
use crate::contract::{
    lemma_advances_same, lemma_advances_transitive, lemma_advances_with, refusal,
    BountyEscrowContract, ContractView,
};
use crate::escrow::{Escrow, EscrowView};
use crate::events::{BatchFundsLocked, BatchFundsReleased, FundsLocked, FundsReleased, Receipt};
use crate::types::{Abort, Account, Address, Error, EscrowStatus, Failure, Settlement};

verus! {

/// The largest number of items in one batch.
pub const MAX_BATCH_SIZE: u32 = 100;

/// One lock of a batch.
#[derive(Clone, Copy, Debug, PartialEq, Eq, Structural)]
pub struct LockFundsItem {
    pub bounty_id: u64,
    pub depositor: Address,
    pub amount: i128,
    pub deadline: u64,
}

/// One release of a batch: everything that remains of the bounty goes to the
/// contributor.
#[derive(Clone, Copy, Debug, PartialEq, Eq, Structural)]
pub struct ReleaseFundsItem {
    pub bounty_id: u64,
    pub contributor: Address,
}

/// What a batch of locks hands back: the receipt of each item, in the order
/// of the items, and the summary.
#[derive(Clone, Debug, PartialEq, Eq)]
pub struct BatchLockReceipt {
    pub receipts: Vec<Receipt<FundsLocked>>,
    pub summary: BatchFundsLocked,
}

/// What a batch of releases hands back: the receipt of each item, in the
/// order of the items, and the summary.
#[derive(Clone, Debug, PartialEq, Eq)]
pub struct BatchReleaseReceipt {
    pub receipts: Vec<Receipt<FundsReleased>>,
    pub summary: BatchFundsReleased,
}

/// The sum of the amounts to lock.
pub open spec fn locked_total(items: Seq<LockFundsItem>) -> int
    decreases items.len(),
{
    if items.len() == 0 {
        0
    } else {
        locked_total(items.drop_last()) + items.last().amount
    }
}

/// Whether the bounty of item `i` occurs a second time among the locks.
pub open spec fn lock_repeated(items: Seq<LockFundsItem>, i: int) -> bool {
    exists|j: int| 0 <= j < items.len() && j != i && (#[trigger] items[j]).bounty_id == items[i].bounty_id
}

/// Whether the bounty of item `i` occurs a second time among the releases.
pub open spec fn release_repeated(items: Seq<ReleaseFundsItem>, i: int) -> bool {
    exists|j: int| 0 <= j < items.len() && j != i && (#[trigger] items[j]).bounty_id == items[i].bounty_id
}

impl ContractView {
    /// What is wrong with lock `i` of a batch, if anything. In this order:
    /// the bounty has an escrow already; the amount is not positive; the
    /// deadline is not in the future; the bounty occurs twice in the batch.
    pub open spec fn lock_item_error(self, items: Seq<LockFundsItem>, i: int, now: u64) -> Option<Error> {
        if self.escrows.contains_key(items[i].bounty_id) {
            Some(Error::BountyExists)
        } else if items[i].amount <= 0 {
            Some(Error::InvalidAmount)
        } else if items[i].deadline <= now {
            Some(Error::InvalidDeadline)
        } else if lock_repeated(items, i) {
            Some(Error::DuplicateBountyId)
        } else {
            None
        }
    }

    /// The error of the first faulty lock among the first `n`, if there is
    /// one.
    pub open spec fn lock_items_error(self, items: Seq<LockFundsItem>, now: u64, n: int) -> Option<Error>
        decreases n,
    {
        if n <= 0 {
            None
        } else if self.lock_items_error(items, now, n - 1) is Some {
            self.lock_items_error(items, now, n - 1)
        } else {
            self.lock_item_error(items, n - 1, now)
        }
    }

    /// Why a batch cannot be started, if it cannot. In this order: a
    /// mutating call is in flight; the batch is empty or too large; the
    /// contract is not initialised; the contract is paused.
    pub open spec fn batch_failure(self, size: nat) -> Option<Failure> {
        if self.reentrancy_guard {
            Some(Failure::Abort(Abort::Reentrancy))
        } else if size == 0 || size > MAX_BATCH_SIZE {
            refusal(Error::InvalidBatchSize)
        } else if self.admin is None {
            refusal(Error::NotInitialized)
        } else if self.paused {
            refusal(Error::ContractPaused)
        } else {
            None
        }
    }

    /// Why a batch of locks cannot be applied, if it cannot: the batch cannot
    /// be started, an item is at fault, or the amounts together do not fit in
    /// 128 bits.
    pub open spec fn batch_lock_failure(self, items: Seq<LockFundsItem>, now: u64) -> Option<Failure> {
        if self.batch_failure(items.len()) is Some {
            self.batch_failure(items.len())
        } else if self.lock_items_error(items, now, items.len() as int) is Some {
            refusal(self.lock_items_error(items, now, items.len() as int)->0)
        } else if locked_total(items) > i128::MAX {
            refusal(Error::InvalidAmount)
        } else {
            None
        }
    }

    /// The state after the lock `item` has been applied: the new record is in
    /// the store and the bounty is registered.
    pub open spec fn lock_applied(self, item: LockFundsItem) -> ContractView {
        ContractView {
            escrows: self.escrows.insert(
                item.bounty_id,
                EscrowView::opened(
                    item.depositor,
                    item.amount,
                    self.fees().lock_fee(item.amount) as i128,
                    item.deadline,
                ),
            ),
            bounty_registry: self.bounty_registry.push(item.bounty_id),
            ..self
        }
    }

    /// The state after the first `n` locks of a batch have been applied in
    /// turn.
    pub open spec fn batch_locked(self, items: Seq<LockFundsItem>, n: int) -> ContractView
        decreases n,
    {
        if n <= 0 {
            self
        } else {
            self.batch_locked(items, n - 1).lock_applied(items[n - 1])
        }
    }

    /// The receipts of the first `n` locks of a batch.
    pub open spec fn batch_lock_receipts(self, items: Seq<LockFundsItem>, n: int) -> Seq<Receipt<FundsLocked>> {
        Seq::new(
            n as nat,
            |i: int|
                self.lock_receipt(items[i].depositor, items[i].bounty_id, items[i].amount, items[i].deadline),
        )
    }

    /// What release `i` of a batch pays out: all that remains of its bounty.
    pub open spec fn release_item_payout(self, items: Seq<ReleaseFundsItem>, i: int) -> int {
        self.escrows[items[i].bounty_id].remaining_amount as int
    }

    /// The sum of what the first `n` releases of a batch pay out.
    pub open spec fn released_total(self, items: Seq<ReleaseFundsItem>, n: int) -> int
        decreases n,
    {
        if n <= 0 {
            0
        } else {
            self.released_total(items, n - 1) + self.release_item_payout(items, n - 1)
        }
    }

    /// What is wrong with release `i` of a batch, if anything. In this
    /// order: the bounty has no escrow; the escrow is neither `Locked` nor
    /// `PartiallyReleased`; the bounty occurs twice in the batch.
    pub open spec fn release_item_error(self, items: Seq<ReleaseFundsItem>, i: int) -> Option<Error> {
        if !self.escrows.contains_key(items[i].bounty_id) {
            Some(Error::BountyNotFound)
        } else if self.escrows[items[i].bounty_id].status != EscrowStatus::Locked
            && self.escrows[items[i].bounty_id].status != EscrowStatus::PartiallyReleased {
            Some(Error::FundsNotLocked)
        } else if release_repeated(items, i) {
            Some(Error::DuplicateBountyId)
        } else {
            None
        }
    }

    /// The error of the first faulty release among the first `n`, if there
    /// is one.
    pub open spec fn release_items_error(self, items: Seq<ReleaseFundsItem>, n: int) -> Option<Error>
        decreases n,
    {
        if n <= 0 {
            None
        } else if self.release_items_error(items, n - 1) is Some {
            self.release_items_error(items, n - 1)
        } else {
            self.release_item_error(items, n - 1)
        }
    }

    /// Why a batch of releases cannot be applied, if it cannot: the batch
    /// cannot be started, an item is at fault, or custody does not hold what
    /// the releases pay out together.
    pub open spec fn batch_release_failure(self, items: Seq<ReleaseFundsItem>, custody_balance: i128) -> Option<
        Failure,
    > {
        if self.batch_failure(items.len()) is Some {
            self.batch_failure(items.len())
        } else if self.release_items_error(items, items.len() as int) is Some {
            refusal(self.release_items_error(items, items.len() as int)->0)
        } else if self.released_total(items, items.len() as int) > custody_balance {
            refusal(Error::InsufficientFunds)
        } else {
            None
        }
    }

    /// The state after the release `item` has been applied: all that remained
    /// of the bounty has been released to the contributor.
    pub open spec fn release_applied(self, item: ReleaseFundsItem, now: u64) -> ContractView {
        self.with_escrow(
            item.bounty_id,
            self.escrows[item.bounty_id].released(
                self.escrows[item.bounty_id].remaining_amount,
                item.contributor,
                now,
            ),
        )
    }

    /// The state after the first `n` releases of a batch have been applied
    /// in turn.
    pub open spec fn batch_released(self, items: Seq<ReleaseFundsItem>, n: int, now: u64) -> ContractView
        decreases n,
    {
        if n <= 0 {
            self
        } else {
            self.batch_released(items, n - 1, now).release_applied(items[n - 1], now)
        }
    }

    /// The receipts of the first `n` releases of a batch.
    pub open spec fn batch_release_receipts(self, items: Seq<ReleaseFundsItem>, n: int, now: u64) -> Seq<
        Receipt<FundsReleased>,
    > {
        Seq::new(
            n as nat,
            |i: int|
                self.payout_receipt(
                    items[i].bounty_id,
                    items[i].contributor,
                    self.escrows[items[i].bounty_id].remaining_amount,
                    now,
                ),
        )
    }
}

/// The depositors of the locks, each one once, in the order in which they
/// first occur.
pub open spec fn distinct_depositors(items: Seq<LockFundsItem>) -> Seq<Address>
    decreases items.len(),
{
    if items.len() == 0 {
        Seq::empty()
    } else if distinct_depositors(items.drop_last()).contains(items.last().depositor) {
        distinct_depositors(items.drop_last())
    } else {
        distinct_depositors(items.drop_last()).push(items.last().depositor)
    }
}

/// Consent is asked once of every identity: no depositor is listed twice,
/// and those listed are exactly the depositors of the locks.
pub proof fn law_every_depositor_once(items: Seq<LockFundsItem>)
    ensures
        distinct_depositors(items).no_duplicates(),
        forall|a: Address|
            distinct_depositors(items).contains(a) <==> exists|i: int|
                0 <= i < items.len() && (#[trigger] items[i]).depositor == a,
    decreases items.len(),
{
    if items.len() > 0 {
        let front = items.drop_last();
        let last = items.last().depositor;
        law_every_depositor_once(front);
        let listed = distinct_depositors(front);
        let all = distinct_depositors(items);
        assert forall|a: Address| all.contains(a) <==> exists|i: int|
            0 <= i < items.len() && (#[trigger] items[i]).depositor == a by {
            if all.contains(a) {
                let k = choose|k: int| 0 <= k < all.len() && all[k] == a;
                if k < listed.len() {
                    assert(listed[k] == a);
                    assert(listed.contains(a));
                    let i = choose|i: int| 0 <= i < front.len() && (#[trigger] front[i]).depositor == a;
                    assert(items[i] == front[i]);
                } else {
                    assert(items[items.len() - 1].depositor == a);
                }
            }
            if exists|i: int| 0 <= i < items.len() && (#[trigger] items[i]).depositor == a {
                let i = choose|i: int| 0 <= i < items.len() && (#[trigger] items[i]).depositor == a;
                if i < front.len() {
                    assert(front[i].depositor == a);
                    assert(listed.contains(a));
                    let k = choose|k: int| 0 <= k < listed.len() && listed[k] == a;
                    assert(all[k] == a);
                } else if listed.contains(a) {
                    let k = choose|k: int| 0 <= k < listed.len() && listed[k] == a;
                    assert(all[k] == a);
                } else {
                    assert(all[listed.len() as int] == a);
                }
            }
        }
    }
}

/// Lists the depositors of a batch of locks, each one once, in the order in
/// which they first occur: the identities whose consent the batch needs.
pub fn lock_signers(items: &Vec<LockFundsItem>) -> (signers: Vec<Address>)
    ensures
        signers@ == distinct_depositors(items@),
{
    let mut signers: Vec<Address> = Vec::new();
    let mut i: usize = 0;
    proof {
        assert(items@.take(0) =~= Seq::empty());
    }
    while i < items.len()
        invariant
            i <= items.len(),
            signers@ == distinct_depositors(items@.take(i as int)),
        decreases items.len() - i,
    {
        let depositor = items[i].depositor;
        proof {
            let next = items@.take(i + 1);
            assert(next.drop_last() =~= items@.take(i as int));
            assert(next.last() == items@[i as int]);
        }
        let mut listed: bool = false;
        let mut j: usize = 0;
        while j < signers.len()
            invariant
                j <= signers.len(),
                !listed ==> forall|k: int| 0 <= k < j ==> signers@[k] != depositor,
                listed ==> signers@.contains(depositor),
            decreases signers.len() - j,
        {
            if signers[j] == depositor {
                listed = true;
            }
            j = j + 1;
        }
        if !listed {
            signers.push(depositor);
        }
        i = i + 1;
    }
    proof {
        assert(items@.take(i as int) =~= items@);
    }
    signers
}

/// Once a lock among the first `n` is faulty, the error stays the same
/// however many more are looked at.
pub proof fn lemma_lock_items_error_stays(pre: ContractView, items: Seq<LockFundsItem>, now: u64, n: int, m: int)
    requires
        0 <= n <= m,
        pre.lock_items_error(items, now, n) is Some,
    ensures
        pre.lock_items_error(items, now, m) == pre.lock_items_error(items, now, n),
    decreases m - n,
{
    if n < m {
        lemma_lock_items_error_stays(pre, items, now, n, m - 1);
    }
}

/// Where the first `m` locks are free of faults, each of them is.
pub proof fn lemma_lock_item_ok(pre: ContractView, items: Seq<LockFundsItem>, now: u64, i: int, m: int)
    requires
        0 <= i < m,
        pre.lock_items_error(items, now, m) is None,
    ensures
        pre.lock_item_error(items, i, now) is None,
    decreases m - i,
{
    if i + 1 < m {
        lemma_lock_item_ok(pre, items, now, i, m - 1);
    }
}

/// Once a release among the first `n` is faulty, the error stays the same
/// however many more are looked at.
pub proof fn lemma_release_items_error_stays(pre: ContractView, items: Seq<ReleaseFundsItem>, n: int, m: int)
    requires
        0 <= n <= m,
        pre.release_items_error(items, n) is Some,
    ensures
        pre.release_items_error(items, m) == pre.release_items_error(items, n),
    decreases m - n,
{
    if n < m {
        lemma_release_items_error_stays(pre, items, n, m - 1);
    }
}

/// Where the first `m` releases are free of faults, each of them is.
pub proof fn lemma_release_item_ok(pre: ContractView, items: Seq<ReleaseFundsItem>, i: int, m: int)
    requires
        0 <= i < m,
        pre.release_items_error(items, m) is None,
    ensures
        pre.release_item_error(items, i) is None,
    decreases m - i,
{
    if i + 1 < m {
        lemma_release_item_ok(pre, items, i, m - 1);
    }
}

/// Applying the first `n` locks of a faultless batch keeps the state well
/// formed, touches only the store and the registry, and leaves every bounty
/// that is not among those locks as it was.
pub proof fn lemma_batch_locked(pre: ContractView, items: Seq<LockFundsItem>, now: u64, n: int)
    requires
        pre.wf(),
        pre.admin is Some,
        0 <= n <= items.len(),
        pre.lock_items_error(items, now, items.len() as int) is None,
    ensures
        pre.batch_locked(items, n).wf(),
        pre.advances_to(pre.batch_locked(items, n)),
        pre.batch_locked(items, n) == (ContractView {
            escrows: pre.batch_locked(items, n).escrows,
            bounty_registry: pre.batch_locked(items, n).bounty_registry,
            ..pre
        }),
        forall|id: u64|
            (forall|j: int| 0 <= j < n ==> (#[trigger] items[j]).bounty_id != id) ==> (pre.batch_locked(
                items,
                n,
            ).escrows.contains_key(id) <==> pre.escrows.contains_key(id)),
    decreases n,
{
    if n <= 0 {
        lemma_advances_same(pre, pre);
    } else {
        lemma_batch_locked(pre, items, now, n - 1);
        lemma_lock_item_ok(pre, items, now, n - 1, items.len() as int);
        let before = pre.batch_locked(items, n - 1);
        let item = items[n - 1];
        crate::fees::lemma_fee_bounds(item.amount as int, before.fees().lock_fee_rate as int);
        let after = before.lock_applied(item);
        assert forall|id: u64| #[trigger] after.escrows.contains_key(id) implies after.escrows[id].wf()
            && after.admin is Some by {
            if id != item.bounty_id {
                assert(before.escrows.contains_key(id));
            }
        }
        assert forall|j: int| 0 <= j < n - 1 implies (#[trigger] items[j]).bounty_id
            != item.bounty_id by {
            if items[j].bounty_id == item.bounty_id {
                assert(lock_repeated(items, n - 1));
            }
        }
        assert(!before.escrows.contains_key(item.bounty_id));
        lemma_advances_with(before, after, item.bounty_id, after.escrows[item.bounty_id]);
        lemma_advances_transitive(pre, before, after);
    }
}

/// Applying the first `n` releases of a faultless batch keeps the state well
/// formed, touches only the store, and leaves every bounty that is not among
/// those releases as it was.
pub proof fn lemma_batch_released(pre: ContractView, items: Seq<ReleaseFundsItem>, n: int, now: u64)
    requires
        pre.wf(),
        0 <= n <= items.len(),
        pre.release_items_error(items, items.len() as int) is None,
    ensures
        pre.batch_released(items, n, now).wf(),
        pre.advances_to(pre.batch_released(items, n, now)),
        pre.batch_released(items, n, now) == (ContractView {
            escrows: pre.batch_released(items, n, now).escrows,
            ..pre
        }),
        pre.batch_released(items, n, now).escrows.dom() == pre.escrows.dom(),
        forall|id: u64|
            (forall|j: int| 0 <= j < n ==> (#[trigger] items[j]).bounty_id != id)
                ==> pre.batch_released(items, n, now).escrows[id] == pre.escrows[id],
    decreases n,
{
    if n <= 0 {
        lemma_advances_same(pre, pre);
    } else {
        lemma_batch_released(pre, items, n - 1, now);
        lemma_release_item_ok(pre, items, n - 1, items.len() as int);
        let before = pre.batch_released(items, n - 1, now);
        let item = items[n - 1];
        assert forall|j: int| 0 <= j < n - 1 implies (#[trigger] items[j]).bounty_id
            != item.bounty_id by {
            if items[j].bounty_id == item.bounty_id {
                assert(release_repeated(items, n - 1));
            }
        }
        assert(before.escrows[item.bounty_id] == pre.escrows[item.bounty_id]);
        assert(pre.escrows.contains_key(item.bounty_id));
        let escrow = pre.escrows[item.bounty_id];
        crate::escrow::lemma_released_wf(escrow, escrow.remaining_amount, item.contributor, now);
        let after = before.release_applied(item, now);
        lemma_advances_with(before, after, item.bounty_id, after.escrows[item.bounty_id]);
        lemma_advances_transitive(pre, before, after);
        assert(after.escrows.dom() =~= pre.escrows.dom());
        assert forall|id: u64| #[trigger] after.escrows.contains_key(id) implies after.escrows[id].wf()
            && after.admin is Some by {
            if id != item.bounty_id {
                assert(before.escrows.contains_key(id));
            }
        }
    }
}

/// What one release of a faultless batch pays out is positive and no more
/// than what the first `n` pay together, if it is among them.
pub proof fn lemma_released_total_bounds(pre: ContractView, items: Seq<ReleaseFundsItem>, i: int, n: int)
    requires
        pre.wf(),
        0 <= i < n <= items.len(),
        pre.release_items_error(items, items.len() as int) is None,
    ensures
        0 < pre.release_item_payout(items, i) <= pre.released_total(items, n),
        0 <= pre.released_total(items, n - 1) <= pre.released_total(items, n),
    decreases n,
{
    lemma_release_item_ok(pre, items, n - 1, items.len() as int);
    assert(pre.escrows.contains_key(items[n - 1].bounty_id));
    lemma_release_item_ok(pre, items, i, items.len() as int);
    assert(pre.escrows.contains_key(items[i].bounty_id));
    if n - 1 > 0 {
        lemma_released_total_bounds(pre, items, 0, n - 1);
    }
    if i < n - 1 {
        lemma_released_total_bounds(pre, items, i, n - 1);
    }
}

impl BountyEscrowContract {
    /// Whether the batch can be started.
    fn check_batch(&self, size: usize) -> (r: Result<(), Failure>)
        ensures
            match self@.batch_failure(size as nat) {
                Some(failure) => r == Err::<(), Failure>(failure),
                None => r == Ok::<(), Failure>(()),
            },
    {
        if self.reentrancy_guard {
            return Err(Failure::Abort(Abort::Reentrancy));
        }
        if size == 0 || size > MAX_BATCH_SIZE as usize {
            return Err(Failure::Error(Error::InvalidBatchSize));
        }
        if self.admin.is_none() {
            return Err(Failure::Error(Error::NotInitialized));
        }
        if self.paused {
            return Err(Failure::Error(Error::ContractPaused));
        }
        Ok(())
    }

    /// Locks funds for several bounties at once, each as a single lock
    /// would.
    ///
    /// On success the result lists the transfers of each item in the order of
    /// the items, and the summary: how many were locked, how much in all, and
    /// when.
    #[verifier::loop_isolation(false)]
    pub fn batch_lock_funds(&mut self, items: &Vec<LockFundsItem>, now: u64) -> (r: Result<BatchLockReceipt, Failure>)
        requires
            old(self).wf(),
        ensures
            match old(self)@.batch_lock_failure(items@, now) {
                Some(failure) => r == Err::<BatchLockReceipt, Failure>(failure) && final(self)@ == old(
                    self,
                )@,
                None => {
                    &&& r is Ok
                    &&& r->Ok_0.receipts@ == old(self)@.batch_lock_receipts(items@, items@.len() as int)
                    &&& r->Ok_0.summary == (BatchFundsLocked {
                        count: items@.len() as u32,
                        total_amount: locked_total(items@) as i128,
                        timestamp: now,
                    })
                    &&& final(self)@ == old(self)@.batch_locked(items@, items@.len() as int)
                },
            },
            final(self).wf(),
            old(self)@.advances_to(final(self)@),
    {
        proof {
            lemma_advances_same(self@, self@);
        }
        match self.check_batch(items.len()) {
            Ok(()) => {},
            Err(failure) => {
                return Err(failure);
            },
        }
        let mut i: usize = 0;
        while i < items.len()
            invariant
                i <= items.len(),
                *self == *old(self),
                self@.lock_items_error(items@, now, i as int) is None,
            decreases items.len() - i,
        {
            let item = items[i];
            if self.escrows.contains(item.bounty_id) {
                proof {
                    lemma_lock_items_error_stays(self@, items@, now, i + 1, items@.len() as int);
                }
                return Err(Failure::Error(Error::BountyExists));
            }
            if item.amount <= 0 {
                proof {
                    lemma_lock_items_error_stays(self@, items@, now, i + 1, items@.len() as int);
                }
                return Err(Failure::Error(Error::InvalidAmount));
            }
            if item.deadline <= now {
                proof {
                    lemma_lock_items_error_stays(self@, items@, now, i + 1, items@.len() as int);
                }
                return Err(Failure::Error(Error::InvalidDeadline));
            }
            let mut j: usize = 0;
            while j < items.len()
                invariant
                    j <= items.len(),
                    i < items.len(),
                    forall|k: int|
                        0 <= k < j && k != i ==> (#[trigger] items@[k]).bounty_id != items@[i as int].bounty_id,
                decreases items.len() - j,
            {
                if j != i && items[j].bounty_id == items[i].bounty_id {
                    proof {
                        assert(lock_repeated(items@, i as int));
                        lemma_lock_items_error_stays(self@, items@, now, i + 1, items@.len() as int);
                    }
                    return Err(Failure::Error(Error::DuplicateBountyId));
                }
                j = j + 1;
            }
            i = i + 1;
        }
        let mut total: i128 = 0;
        let mut k: usize = 0;
        proof {
            assert(items@.take(0) =~= Seq::empty());
        }
        while k < items.len()
            invariant
                k <= items.len(),
                *self == *old(self),
                self@.lock_items_error(items@, now, items@.len() as int) is None,
                total == locked_total(items@.take(k as int)),
                0 <= total,
            decreases items.len() - k,
        {
            proof {
                let next = items@.take(k + 1);
                assert(next.drop_last() =~= items@.take(k as int));
                assert(next.last() == items@[k as int]);
                lemma_lock_item_ok(self@, items@, now, k as int, items@.len() as int);
            }
            match total.checked_add(items[k].amount) {
                Some(sum) => {
                    total = sum;
                },
                None => {
                    proof {
                        lemma_locked_total_prefix(self@, items@, now, k + 1);
                    }
                    return Err(Failure::Error(Error::InvalidAmount));
                },
            }
            k = k + 1;
        }
        proof {
            assert(items@.take(k as int) =~= items@);
        }
        let fees = self.fees_in_force();
        let mut receipts: Vec<Receipt<FundsLocked>> = Vec::new();
        let mut n: usize = 0;
        while n < items.len()
            invariant
                n <= items.len(),
                old(self).wf(),
                old(self)@.admin is Some,
                old(self)@.lock_items_error(items@, now, items@.len() as int) is None,
                fees == old(self)@.fees(),
                fees.wf(),
                self@ == old(self)@.batch_locked(items@, n as int),
                receipts@ == old(self)@.batch_lock_receipts(items@, n as int),
            decreases items.len() - n,
        {
            let item = items[n];
            proof {
                lemma_lock_item_ok(old(self)@, items@, now, n as int, items@.len() as int);
                lemma_batch_locked(old(self)@, items@, now, n as int);
                lemma_batch_locked(old(self)@, items@, now, n + 1);
            }
            let fee: i128 = fees.lock_fee_amount(item.amount);
            match Escrow::open(item.depositor, item.amount, fee, item.deadline) {
                Some(escrow) => {
                    self.escrows.update(item.bounty_id, escrow);
                },
                None => {},
            }
            self.bounty_registry.push(item.bounty_id);
            let settlement = Settlement::new(
                Account::Holder(item.depositor),
                Account::Custody,
                item.amount,
                fee,
                fees.fee_recipient,
            );
            receipts.push(
                Receipt {
                    settlement,
                    event: FundsLocked {
                        bounty_id: item.bounty_id,
                        amount: settlement.payment.amount,
                        depositor: item.depositor,
                        deadline: item.deadline,
                    },
                },
            );
            proof {
                assert(receipts@ =~= old(self)@.batch_lock_receipts(items@, n + 1));
            }
            n = n + 1;
        }
        proof {
            lemma_batch_locked(old(self)@, items@, now, items@.len() as int);
        }
        Ok(
            BatchLockReceipt {
                receipts,
                summary: BatchFundsLocked { count: items.len() as u32, total_amount: total, timestamp: now },
            },
        )
    }

    /// Releases all that remains of several bounties at once, each as a
    /// single release would. `custody_balance` is what the contract holds of
    /// the token.
    ///
    /// On success the result lists the transfers of each item in the order of
    /// the items, and the summary: how many were released, how much in all,
    /// and when.
    #[verifier::loop_isolation(false)]
    pub fn batch_release_funds(&mut self, items: &Vec<ReleaseFundsItem>, custody_balance: i128, now: u64) -> (r:
        Result<BatchReleaseReceipt, Failure>)
        requires
            old(self).wf(),
        ensures
            match old(self)@.batch_release_failure(items@, custody_balance) {
                Some(failure) => r == Err::<BatchReleaseReceipt, Failure>(failure) && final(self)@
                    == old(self)@,
                None => {
                    &&& r is Ok
                    &&& r->Ok_0.receipts@ == old(self)@.batch_release_receipts(
                        items@,
                        items@.len() as int,
                        now,
                    )
                    &&& r->Ok_0.summary == (BatchFundsReleased {
                        count: items@.len() as u32,
                        total_amount: old(self)@.released_total(items@, items@.len() as int) as i128,
                        timestamp: now,
                    })
                    &&& final(self)@ == old(self)@.batch_released(items@, items@.len() as int, now)
                },
            },
            final(self).wf(),
            old(self)@.advances_to(final(self)@),
    {
        proof {
            lemma_advances_same(self@, self@);
        }
        match self.check_batch(items.len()) {
            Ok(()) => {},
            Err(failure) => {
                return Err(failure);
            },
        }
        let mut i: usize = 0;
        while i < items.len()
            invariant
                i <= items.len(),
                *self == *old(self),
                self@.release_items_error(items@, i as int) is None,
            decreases items.len() - i,
        {
            let item = items[i];
            match self.escrows.get(item.bounty_id) {
                Ok(escrow) => {
                    if escrow.status != EscrowStatus::Locked && escrow.status
                        != EscrowStatus::PartiallyReleased {
                        proof {
                            lemma_release_items_error_stays(self@, items@, i + 1, items@.len() as int);
                        }
                        return Err(Failure::Error(Error::FundsNotLocked));
                    }
                },
                Err(e) => {
                    proof {
                        lemma_release_items_error_stays(self@, items@, i + 1, items@.len() as int);
                    }
                    return Err(Failure::Error(e));
                },
            }
            let mut j: usize = 0;
            while j < items.len()
                invariant
                    j <= items.len(),
                    i < items.len(),
                    forall|k: int|
                        0 <= k < j && k != i ==> (#[trigger] items@[k]).bounty_id != items@[i as int].bounty_id,
                decreases items.len() - j,
            {
                if j != i && items[j].bounty_id == items[i].bounty_id {
                    proof {
                        assert(release_repeated(items@, i as int));
                        lemma_release_items_error_stays(self@, items@, i + 1, items@.len() as int);
                    }
                    return Err(Failure::Error(Error::DuplicateBountyId));
                }
                j = j + 1;
            }
            i = i + 1;
        }
        let mut total: i128 = 0;
        let mut k: usize = 0;
        while k < items.len()
            invariant
                k <= items.len(),
                *self == *old(self),
                self.wf(),
                self@.release_items_error(items@, items@.len() as int) is None,
                total == self@.released_total(items@, k as int),
                0 <= total,
                k > 0 ==> total <= custody_balance,
            decreases items.len() - k,
        {
            proof {
                lemma_release_item_ok(self@, items@, k as int, items@.len() as int);
                lemma_released_total_bounds(self@, items@, k as int, k + 1);
                if k + 1 < items@.len() {
                    lemma_released_total_grows(self@, items@, k + 1, items@.len() as int);
                }
            }
            let payout: i128 = match self.escrows.get(items[k].bounty_id) {
                Ok(escrow) => escrow.remaining_amount,
                Err(_) => 0,
            };
            match total.checked_add(payout) {
                Some(sum) => {
                    if sum > custody_balance {
                        return Err(Failure::Error(Error::InsufficientFunds));
                    }
                    total = sum;
                },
                None => {
                    return Err(Failure::Error(Error::InsufficientFunds));
                },
            }
            k = k + 1;
        }
        let fees = self.fees_in_force();
        let mut receipts: Vec<Receipt<FundsReleased>> = Vec::new();
        let mut n: usize = 0;
        while n < items.len()
            invariant
                n <= items.len(),
                old(self).wf(),
                old(self)@.release_items_error(items@, items@.len() as int) is None,
                old(self)@.released_total(items@, items@.len() as int) <= custody_balance,
                fees == old(self)@.fees(),
                fees.wf(),
                self@ == old(self)@.batch_released(items@, n as int, now),
                receipts@ == old(self)@.batch_release_receipts(items@, n as int, now),
            decreases items.len() - n,
        {
            let item = items[n];
            proof {
                lemma_release_item_ok(old(self)@, items@, n as int, items@.len() as int);
                lemma_batch_released(old(self)@, items@, n as int, now);
                lemma_batch_released(old(self)@, items@, n + 1, now);
                lemma_released_total_bounds(old(self)@, items@, n as int, items@.len() as int);
                assert forall|j: int| 0 <= j < n implies (#[trigger] items@[j]).bounty_id
                    != item.bounty_id by {
                    if items@[j].bounty_id == item.bounty_id {
                        assert(release_repeated(items@, n as int));
                    }
                }
                assert(self@.escrows[item.bounty_id] == old(self)@.escrows[item.bounty_id]);
                assert(self@.escrows.dom().contains(item.bounty_id));
            }
            let ghost before = self@;
            match self.escrows.take(item.bounty_id) {
                Ok(escrow) => {
                    let mut escrow = escrow;
                    let outcome = escrow.release(item.contributor, None, &fees, custody_balance, now);
                    let ghost after = escrow@;
                    let remaining_amount: i128 = escrow.remaining_amount;
                    self.escrows.update(item.bounty_id, escrow);
                    proof {
                        assert(self@.escrows =~= before.escrows.insert(item.bounty_id, after));
                    }
                    match outcome {
                        Ok(settlement) => {
                            receipts.push(
                                Receipt {
                                    settlement,
                                    event: FundsReleased {
                                        bounty_id: item.bounty_id,
                                        amount: settlement.payment.amount,
                                        recipient: item.contributor,
                                        timestamp: now,
                                        remaining_amount,
                                    },
                                },
                            );
                        },
                        Err(_) => {},
                    }
                },
                Err(_) => {},
            }
            proof {
                assert(receipts@ =~= old(self)@.batch_release_receipts(items@, n + 1, now));
            }
            n = n + 1;
        }
        proof {
            lemma_batch_released(old(self)@, items@, items@.len() as int, now);
        }
        Ok(
            BatchReleaseReceipt {
                receipts,
                summary: BatchFundsReleased {
                    count: items.len() as u32,
                    total_amount: total,
                    timestamp: now,
                },
            },
        )
    }
}

/// Where the locks are free of faults, the total of a prefix is between zero
/// and the total of all.
pub proof fn lemma_locked_total_prefix(pre: ContractView, items: Seq<LockFundsItem>, now: u64, n: int)
    requires
        0 <= n <= items.len(),
        pre.lock_items_error(items, now, items.len() as int) is None,
    ensures
        0 <= locked_total(items.take(n)) <= locked_total(items),
    decreases items.len() - n,
{
    if n == items.len() {
        assert(items.take(n) =~= items);
        lemma_locked_total_nonnegative(pre, items, now, n);
    } else {
        lemma_locked_total_prefix(pre, items, now, n + 1);
        lemma_lock_item_ok(pre, items, now, n, items.len() as int);
        assert(items.take(n + 1).drop_last() =~= items.take(n));
        lemma_locked_total_nonnegative(pre, items, now, n);
    }
}

/// Where the locks are free of faults, the total of a prefix is not
/// negative.
pub proof fn lemma_locked_total_nonnegative(pre: ContractView, items: Seq<LockFundsItem>, now: u64, n: int)
    requires
        0 <= n <= items.len(),
        pre.lock_items_error(items, now, items.len() as int) is None,
    ensures
        0 <= locked_total(items.take(n)),
    decreases n,
{
    if n > 0 {
        lemma_locked_total_nonnegative(pre, items, now, n - 1);
        lemma_lock_item_ok(pre, items, now, n - 1, items.len() as int);
        assert(items.take(n).drop_last() =~= items.take(n - 1));
    } else {
        assert(items.take(0) =~= Seq::empty());
    }
}

/// Where the releases are free of faults, what the first `n` pay together
/// is no more than what the first `m` pay, for `n <= m`.
pub proof fn lemma_released_total_grows(pre: ContractView, items: Seq<ReleaseFundsItem>, n: int, m: int)
    requires
        pre.wf(),
        0 < n <= m <= items.len(),
        pre.release_items_error(items, items.len() as int) is None,
    ensures
        pre.released_total(items, n) <= pre.released_total(items, m),
    decreases m - n,
{
    if n < m {
        lemma_released_total_grows(pre, items, n, m - 1);
        lemma_released_total_bounds(pre, items, 0, m);
    }
}

} // verus!
