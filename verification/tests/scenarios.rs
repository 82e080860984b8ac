use bounty_escrow::anti_abuse::set_config;
use bounty_escrow::{
    Account, Address, AntiAbuseConfig, BountyEscrowContract, BountyEscrowInitialized, Error,
    EscrowStatus, Failure, FundsLocked, FundsReleased, Receipt, Settlement, Transfer,
};

const DAY: u64 = 24 * 60 * 60;

fn sc_admin() -> Address {
    Address::account(0, 1)
}

fn sc_depositor() -> Address {
    Address::account(0, 2)
}

fn sc_contributor() -> Address {
    Address::account(0, 3)
}

fn sc_collector() -> Address {
    Address::account(0, 4)
}

fn sc_ready(now: u64) -> BountyEscrowContract {
    let mut contract = BountyEscrowContract::new();
    set_config(
        &mut contract.rate_limiter,
        AntiAbuseConfig { window_size: 3600, max_operations: 1000, cooldown_period: 0 },
    );
    assert_eq!(
        contract.init(sc_admin(), Address::contract(7, 7), now),
        Ok(BountyEscrowInitialized { admin: sc_admin(), token: Address::contract(7, 7), timestamp: now })
    );
    contract
}

#[test]
fn lock_with_one_percent_fee_ledgers_the_gross_amount() {
    let now = 1_000;
    let mut contract = sc_ready(now);
    contract.update_fee_config(Some(100), None, Some(sc_collector()), Some(true), now).unwrap();

    let receipt = contract.lock_funds(sc_depositor(), 1, 1000, now + 30 * DAY, now).unwrap();
    assert_eq!(
        receipt,
        Receipt {
            settlement: Settlement {
                payment: Transfer {
                    from: Account::Holder(sc_depositor()),
                    to: Account::Custody,
                    amount: 990,
                },
                fee: Some(Transfer {
                    from: Account::Holder(sc_depositor()),
                    to: Account::Holder(sc_collector()),
                    amount: 10,
                }),
            },
            event: FundsLocked {
                bounty_id: 1,
                amount: 990,
                depositor: sc_depositor(),
                deadline: now + 30 * DAY,
            },
        }
    );
    let escrow = contract.get_escrow_info(1).unwrap();
    assert_eq!(escrow.amount, 990);
    assert_eq!(escrow.remaining_amount, 1000);
    assert_eq!(escrow.status, EscrowStatus::Locked);
    assert_eq!(escrow.deadline, now + 30 * DAY);
    assert_eq!(escrow.depositor, sc_depositor());
    assert_eq!(contract.bounty_registry, vec![1]);
}

#[test]
fn release_in_two_steps_drains_the_escrow() {
    let now = 1_000;
    let mut contract = sc_ready(now);
    contract.lock_funds(sc_depositor(), 1, 1000, now + 30 * DAY, now).unwrap();

    let first = contract.release_funds(1, sc_contributor(), Some(400), 1000, now + 100).unwrap();
    assert_eq!(
        first,
        Receipt {
            settlement: Settlement {
                payment: Transfer {
                    from: Account::Custody,
                    to: Account::Holder(sc_contributor()),
                    amount: 400,
                },
                fee: None,
            },
            event: FundsReleased {
                bounty_id: 1,
                amount: 400,
                recipient: sc_contributor(),
                timestamp: now + 100,
                remaining_amount: 600,
            },
        }
    );
    {
        let escrow = contract.get_escrow_info(1).unwrap();
        assert_eq!(escrow.status, EscrowStatus::PartiallyReleased);
        assert_eq!(escrow.remaining_amount, 600);
    }

    let second = contract.release_funds(1, sc_contributor(), Some(600), 600, now + 200).unwrap();
    assert_eq!(second.settlement.payment.amount, 600);
    assert_eq!(second.event.remaining_amount, 0);
    let escrow = contract.get_escrow_info(1).unwrap();
    assert_eq!(escrow.status, EscrowStatus::Released);
    assert_eq!(escrow.remaining_amount, 0);
    assert_eq!(escrow.payout_history.len(), 2);
    assert_eq!(escrow.payout_history[0].amount, 400);
    assert_eq!(escrow.payout_history[1].amount, 600);
}

#[test]
fn schedules_may_not_reserve_more_than_remains() {
    let now = 1_000;
    let mut contract = sc_ready(now);
    contract.lock_funds(sc_depositor(), 1, 1000, now + 30 * DAY, now).unwrap();

    let created = contract
        .create_release_schedules(1, &vec![(300, now + DAY), (300, now + 2 * DAY)], now + 100)
        .unwrap();
    assert_eq!(created.len(), 2);
    assert_eq!(created[0].schedule_id, 0);
    assert_eq!(created[1].schedule_id, 1);
    assert_eq!(contract.get_escrow_info(1).unwrap().status, EscrowStatus::Scheduled);

    let before = contract.clone();
    let third = contract.create_release_schedules(1, &vec![(500, now + 3 * DAY)], now + 200);
    assert_eq!(third, Err(Failure::Error(Error::TotalScheduleExceedsAmount)));
    assert_eq!(contract, before);
    assert_eq!(contract.get_release_schedules(1).unwrap().len(), 2);

    let fits = contract.create_release_schedules(1, &vec![(400, now + 3 * DAY)], now + 300).unwrap();
    assert_eq!(fits[0].schedule_id, 2);
}

fn sc_ledger(contract: &BountyEscrowContract, bounty_id: u64) -> (i128, i128, u8) {
    let escrow = contract.get_escrow_info(bounty_id).unwrap();
    let total = escrow.remaining_amount
        + escrow.payout_history.iter().map(|record| record.amount).sum::<i128>()
        + escrow.refund_history.iter().map(|record| record.amount).sum::<i128>();
    let rank = match escrow.status {
        EscrowStatus::Locked => 0,
        EscrowStatus::Scheduled
        | EscrowStatus::PartiallyReleased
        | EscrowStatus::PartiallyRefunded => 1,
        EscrowStatus::Released | EscrowStatus::Refunded => 2,
    };
    (total, escrow.remaining_amount, rank)
}

#[test]
fn the_ledger_total_stays_and_nothing_flows_back() {
    let now = 1_000;
    let mut contract = sc_ready(now);
    contract.update_fee_config(Some(100), Some(500), Some(sc_collector()), Some(true), now).unwrap();
    contract.lock_funds(sc_depositor(), 1, 1000, now + 30 * DAY, now).unwrap();
    assert_eq!(contract.get_escrow_info(1).unwrap().amount, 990);

    let mut seen = vec![sc_ledger(&contract, 1)];
    contract.create_release_schedules(1, &vec![(100, now + 10), (250, now + 20)], now).unwrap();
    seen.push(sc_ledger(&contract, 1));
    contract.execute_schedule(1, 0, sc_contributor(), now + 10).unwrap();
    seen.push(sc_ledger(&contract, 1));
    contract.cancel_schedule(1, 1).unwrap();
    seen.push(sc_ledger(&contract, 1));
    assert!(contract.execute_schedule(1, 1, sc_contributor(), now + 20).is_err());
    seen.push(sc_ledger(&contract, 1));
    contract.create_release_schedules(1, &vec![(900, now + 30)], now).unwrap();
    seen.push(sc_ledger(&contract, 1));
    contract.execute_all_ready_schedules(1, sc_contributor(), now + 30).unwrap();
    seen.push(sc_ledger(&contract, 1));

    assert_eq!(seen[0], (1000, 1000, 0));
    assert_eq!(seen[seen.len() - 1], (1000, 0, 2));
    for pair in seen.windows(2) {
        assert_eq!(pair[1].0, pair[0].0);
        assert!(pair[1].1 <= pair[0].1);
        assert!(pair[1].2 >= pair[0].2);
    }
}

#[test]
fn without_a_lock_fee_the_ledger_total_is_the_credited_amount() {
    let now = 1_000;
    let mut contract = sc_ready(now);
    contract.lock_funds(sc_depositor(), 1, 1000, now + 30 * DAY, now).unwrap();
    contract.release_funds(1, sc_contributor(), Some(1), 1000, now).unwrap();
    let (total, _, _) = sc_ledger(&contract, 1);
    assert_eq!(total, contract.get_escrow_info(1).unwrap().amount);
}
