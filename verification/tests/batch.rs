use bounty_escrow::anti_abuse::set_config;
use bounty_escrow::{
    lock_signers, Abort, Account, Address, AntiAbuseConfig, BatchFundsLocked, BatchFundsReleased,
    BountyEscrowContract, Error, EscrowStatus, Failure, FundsLocked, FundsReleased, LockFundsItem,
    Receipt, ReleaseFundsItem, Settlement, Transfer, MAX_BATCH_SIZE,
};

const BT_NOW: u64 = 10_000;
const BT_DEADLINE: u64 = 50_000;

fn bt_admin() -> Address {
    Address::account(0, 1)
}

fn bt_alice() -> Address {
    Address::account(0, 2)
}

fn bt_bob() -> Address {
    Address::account(0, 3)
}

fn bt_collector() -> Address {
    Address::account(0, 4)
}

fn bt_ready() -> BountyEscrowContract {
    let mut contract = BountyEscrowContract::new();
    set_config(
        &mut contract.rate_limiter,
        AntiAbuseConfig { window_size: 3600, max_operations: 1000, cooldown_period: 0 },
    );
    contract.init(bt_admin(), Address::contract(7, 7), BT_NOW).unwrap();
    contract
}

fn bt_lock(bounty_id: u64, depositor: Address, amount: i128) -> LockFundsItem {
    LockFundsItem { bounty_id, depositor, amount, deadline: BT_DEADLINE }
}

fn bt_release(bounty_id: u64, contributor: Address) -> ReleaseFundsItem {
    ReleaseFundsItem { bounty_id, contributor }
}

#[test]
fn a_batch_of_locks_creates_every_escrow() {
    let mut contract = bt_ready();
    contract.update_fee_config(Some(100), None, Some(bt_collector()), Some(true), BT_NOW).unwrap();
    let items = vec![bt_lock(1, bt_alice(), 1000), bt_lock(2, bt_bob(), 500), bt_lock(3, bt_alice(), 50)];
    let receipt = contract.batch_lock_funds(&items, BT_NOW + 1).unwrap();

    assert_eq!(
        receipt.summary,
        BatchFundsLocked { count: 3, total_amount: 1550, timestamp: BT_NOW + 1 }
    );
    assert_eq!(receipt.receipts.len(), 3);
    assert_eq!(
        receipt.receipts[0],
        Receipt {
            settlement: Settlement {
                payment: Transfer { from: Account::Holder(bt_alice()), to: Account::Custody, amount: 990 },
                fee: Some(Transfer {
                    from: Account::Holder(bt_alice()),
                    to: Account::Holder(bt_collector()),
                    amount: 10,
                }),
            },
            event: FundsLocked { bounty_id: 1, amount: 990, depositor: bt_alice(), deadline: BT_DEADLINE },
        }
    );
    assert_eq!(receipt.receipts[1].settlement.payment.amount, 495);
    assert_eq!(receipt.receipts[2].settlement.payment.amount, 50);
    assert_eq!(receipt.receipts[2].settlement.fee, None);

    assert_eq!(contract.bounty_registry, vec![1, 2, 3]);
    for (bounty_id, depositor, locked, credited) in
        [(1, bt_alice(), 1000, 990), (2, bt_bob(), 500, 495), (3, bt_alice(), 50, 50)]
    {
        let escrow = contract.get_escrow_info(bounty_id).unwrap();
        assert_eq!(escrow.depositor, depositor);
        assert_eq!(escrow.remaining_amount, locked);
        assert_eq!(escrow.amount, credited);
        assert_eq!(escrow.status, EscrowStatus::Locked);
        assert_eq!(escrow.deadline, BT_DEADLINE);
    }
}

#[test]
fn a_batch_must_have_between_one_and_a_hundred_items() {
    assert_eq!(MAX_BATCH_SIZE, 100);
    let mut contract = bt_ready();
    let before = contract.clone();
    assert_eq!(
        contract.batch_lock_funds(&vec![], BT_NOW),
        Err(Failure::Error(Error::InvalidBatchSize))
    );
    assert_eq!(
        contract.batch_release_funds(&vec![], 1000, BT_NOW),
        Err(Failure::Error(Error::InvalidBatchSize))
    );
    let many: Vec<LockFundsItem> = (0..101).map(|id| bt_lock(id, bt_alice(), 10)).collect();
    assert_eq!(contract.batch_lock_funds(&many, BT_NOW), Err(Failure::Error(Error::InvalidBatchSize)));
    assert_eq!(contract, before);

    let full: Vec<LockFundsItem> = (0..100).map(|id| bt_lock(id, bt_alice(), 10)).collect();
    let receipt = contract.batch_lock_funds(&full, BT_NOW).unwrap();
    assert_eq!(receipt.summary.count, 100);
    assert_eq!(receipt.summary.total_amount, 1000);

    let releases: Vec<ReleaseFundsItem> = (0..101).map(|id| bt_release(id, bt_bob())).collect();
    assert_eq!(
        contract.batch_release_funds(&releases, 1000, BT_NOW),
        Err(Failure::Error(Error::InvalidBatchSize))
    );
}

#[test]
fn one_faulty_lock_fails_the_whole_batch() {
    let mut contract = bt_ready();
    contract.lock_funds(bt_alice(), 9, 100, BT_DEADLINE, BT_NOW).unwrap();
    let before = contract.clone();
    let good = bt_lock(1, bt_alice(), 1000);
    let attempts = [
        (vec![good, bt_lock(9, bt_bob(), 10)], Error::BountyExists),
        (vec![good, bt_lock(2, bt_bob(), 0)], Error::InvalidAmount),
        (vec![good, bt_lock(2, bt_bob(), -7)], Error::InvalidAmount),
        (
            vec![good, LockFundsItem { bounty_id: 2, depositor: bt_bob(), amount: 5, deadline: BT_NOW }],
            Error::InvalidDeadline,
        ),
        (vec![good, bt_lock(2, bt_bob(), 10), bt_lock(1, bt_bob(), 10)], Error::DuplicateBountyId),
        (vec![bt_lock(1, bt_alice(), i128::MAX), bt_lock(2, bt_bob(), 1)], Error::InvalidAmount),
    ];
    for (items, error) in attempts {
        assert_eq!(contract.batch_lock_funds(&items, BT_NOW), Err(Failure::Error(error)));
        assert_eq!(contract, before);
    }
}

#[test]
fn the_first_faulty_item_decides_the_error() {
    let mut contract = bt_ready();
    let items = vec![bt_lock(1, bt_alice(), 10), bt_lock(1, bt_bob(), 0)];
    assert_eq!(
        contract.batch_lock_funds(&items, BT_NOW),
        Err(Failure::Error(Error::DuplicateBountyId))
    );
    let items = vec![bt_lock(1, bt_alice(), 0), bt_lock(1, bt_bob(), 10)];
    assert_eq!(contract.batch_lock_funds(&items, BT_NOW), Err(Failure::Error(Error::InvalidAmount)));
}

#[test]
fn batches_need_an_initialised_contract_that_is_not_paused() {
    let mut blank = BountyEscrowContract::new();
    assert_eq!(
        blank.batch_lock_funds(&vec![bt_lock(1, bt_alice(), 10)], BT_NOW),
        Err(Failure::Error(Error::NotInitialized))
    );
    assert_eq!(
        blank.batch_release_funds(&vec![bt_release(1, bt_bob())], 10, BT_NOW),
        Err(Failure::Error(Error::NotInitialized))
    );
    let mut contract = bt_ready();
    contract.lock_funds(bt_alice(), 1, 100, BT_DEADLINE, BT_NOW).unwrap();
    contract.pause(BT_NOW).unwrap();
    assert_eq!(
        contract.batch_lock_funds(&vec![bt_lock(2, bt_alice(), 10)], BT_NOW),
        Err(Failure::Error(Error::ContractPaused))
    );
    assert_eq!(
        contract.batch_release_funds(&vec![bt_release(1, bt_bob())], 100, BT_NOW),
        Err(Failure::Error(Error::ContractPaused))
    );
    contract.unpause(BT_NOW).unwrap();
    contract.acquire_guard().unwrap();
    assert_eq!(
        contract.batch_lock_funds(&vec![bt_lock(2, bt_alice(), 10)], BT_NOW),
        Err(Failure::Abort(Abort::Reentrancy))
    );
    assert_eq!(
        contract.batch_release_funds(&vec![bt_release(1, bt_bob())], 100, BT_NOW),
        Err(Failure::Abort(Abort::Reentrancy))
    );
}

#[test]
fn a_batch_of_releases_drains_every_escrow() {
    let mut contract = bt_ready();
    contract.lock_funds(bt_alice(), 1, 1000, BT_DEADLINE, BT_NOW).unwrap();
    contract.lock_funds(bt_alice(), 2, 500, BT_DEADLINE, BT_NOW).unwrap();
    contract.release_funds(2, bt_bob(), Some(100), 1500, BT_NOW).unwrap();
    contract.update_fee_config(None, Some(200), Some(bt_collector()), Some(true), BT_NOW).unwrap();

    let items = vec![bt_release(2, bt_bob()), bt_release(1, bt_alice())];
    let receipt = contract.batch_release_funds(&items, 1400, BT_NOW + 9).unwrap();
    assert_eq!(
        receipt.summary,
        BatchFundsReleased { count: 2, total_amount: 1400, timestamp: BT_NOW + 9 }
    );
    assert_eq!(
        receipt.receipts,
        vec![
            Receipt {
                settlement: Settlement {
                    payment: Transfer { from: Account::Custody, to: Account::Holder(bt_bob()), amount: 392 },
                    fee: Some(Transfer {
                        from: Account::Custody,
                        to: Account::Holder(bt_collector()),
                        amount: 8,
                    }),
                },
                event: FundsReleased {
                    bounty_id: 2,
                    amount: 392,
                    recipient: bt_bob(),
                    timestamp: BT_NOW + 9,
                    remaining_amount: 0,
                },
            },
            Receipt {
                settlement: Settlement {
                    payment: Transfer {
                        from: Account::Custody,
                        to: Account::Holder(bt_alice()),
                        amount: 980,
                    },
                    fee: Some(Transfer {
                        from: Account::Custody,
                        to: Account::Holder(bt_collector()),
                        amount: 20,
                    }),
                },
                event: FundsReleased {
                    bounty_id: 1,
                    amount: 980,
                    recipient: bt_alice(),
                    timestamp: BT_NOW + 9,
                    remaining_amount: 0,
                },
            },
        ]
    );
    for bounty_id in [1, 2] {
        let escrow = contract.get_escrow_info(bounty_id).unwrap();
        assert_eq!(escrow.status, EscrowStatus::Released);
        assert_eq!(escrow.remaining_amount, 0);
    }
    assert_eq!(contract.get_payout_history(2).unwrap().len(), 2);
    assert_eq!(contract.get_payout_history(1).unwrap()[0].amount, 1000);
}

#[test]
fn one_faulty_release_fails_the_whole_batch() {
    let mut contract = bt_ready();
    contract.lock_funds(bt_alice(), 1, 1000, BT_DEADLINE, BT_NOW).unwrap();
    contract.lock_funds(bt_alice(), 2, 500, BT_DEADLINE, BT_NOW).unwrap();
    contract.lock_funds(bt_alice(), 3, 100, BT_DEADLINE, BT_NOW).unwrap();
    contract.release_funds(3, bt_bob(), None, 1600, BT_NOW).unwrap();
    let before = contract.clone();
    let attempts = [
        (vec![bt_release(1, bt_bob()), bt_release(8, bt_bob())], 5000, Error::BountyNotFound),
        (vec![bt_release(1, bt_bob()), bt_release(3, bt_bob())], 5000, Error::FundsNotLocked),
        (
            vec![bt_release(1, bt_bob()), bt_release(2, bt_bob()), bt_release(1, bt_alice())],
            5000,
            Error::DuplicateBountyId,
        ),
        (vec![bt_release(1, bt_bob()), bt_release(2, bt_bob())], 1499, Error::InsufficientFunds),
        (vec![bt_release(2, bt_bob())], -1, Error::InsufficientFunds),
    ];
    for (items, balance, error) in attempts {
        assert_eq!(
            contract.batch_release_funds(&items, balance, BT_NOW),
            Err(Failure::Error(error))
        );
        assert_eq!(contract, before);
    }
    assert!(contract
        .batch_release_funds(&vec![bt_release(1, bt_bob()), bt_release(2, bt_bob())], 1500, BT_NOW)
        .is_ok());
}

#[test]
fn every_depositor_signs_once() {
    let items = vec![
        bt_lock(1, bt_alice(), 10),
        bt_lock(2, bt_bob(), 10),
        bt_lock(3, bt_alice(), 10),
        bt_lock(4, bt_bob(), 10),
        bt_lock(5, bt_collector(), 10),
    ];
    assert_eq!(lock_signers(&items), vec![bt_alice(), bt_bob(), bt_collector()]);
    assert_eq!(lock_signers(&vec![]), vec![]);
}
