use bounty_escrow::{
    Address, BountyEscrowContract, Error, Escrow, EscrowStatus, EscrowStore, FeeConfig,
    PayoutRecord, RateLimiter, RefundApproval, RefundMode, RefundRecord, ReleaseSchedule,
    ScheduleHistoryRecord, ScheduleStatus,
};

fn rs_owner() -> Address {
    Address::account(0, 2)
}

fn rs_record() -> Escrow {
    let mut escrow = Escrow::open(rs_owner(), 1000, 10, 50_000).unwrap();
    escrow.create_schedules(&vec![(300, 20_000), (200, 30_000)], 10_000).unwrap();
    escrow
}

fn rs_fees() -> FeeConfig {
    FeeConfig { lock_fee_rate: 100, release_fee_rate: 0, fee_recipient: rs_owner(), fee_enabled: true }
}

#[test]
fn records_made_by_the_operations_are_well_formed() {
    let fresh = Escrow::open(rs_owner(), 1000, 10, 50_000).unwrap();
    assert_eq!(fresh.amount, 990);
    assert_eq!(fresh.remaining_amount, 1000);
    assert!(fresh.is_well_formed());

    let mut escrow = rs_record();
    assert!(escrow.is_well_formed());
    escrow.execute_schedule(0, rs_owner(), &rs_fees(), 20_000).unwrap();
    assert!(escrow.is_well_formed());
    escrow.cancel_schedule(1).unwrap();
    assert!(escrow.is_well_formed());
    assert_eq!(escrow.status, EscrowStatus::Scheduled);
    assert_eq!(escrow.remaining_amount, 700);
}

#[test]
fn a_record_with_a_broken_ledger_is_not_well_formed() {
    let good = rs_record();

    let mut bad = good.clone();
    bad.remaining_amount = -1;
    assert!(!bad.is_well_formed());

    let mut bad = good.clone();
    bad.amount = -1;
    assert!(!bad.is_well_formed());

    let mut bad = good.clone();
    bad.remaining_amount = 499;
    assert!(!bad.is_well_formed());

    let mut bad = good.clone();
    bad.remaining_amount = 500;
    assert!(bad.is_well_formed());

    let mut bad = good.clone();
    bad.payout_history.push(PayoutRecord { amount: 0, recipient: rs_owner(), timestamp: 1, schedule_id: None });
    assert!(!bad.is_well_formed());

    let mut bad = good.clone();
    bad.refund_history.push(RefundRecord {
        amount: -5,
        recipient: rs_owner(),
        mode: RefundMode::Full,
        timestamp: 1,
    });
    assert!(!bad.is_well_formed());
}

#[test]
fn a_record_with_a_wrong_status_is_not_well_formed() {
    let good = rs_record();
    for status in [
        EscrowStatus::Locked,
        EscrowStatus::PartiallyReleased,
        EscrowStatus::PartiallyRefunded,
        EscrowStatus::Released,
        EscrowStatus::Refunded,
    ] {
        let mut bad = good.clone();
        bad.status = status;
        assert!(!bad.is_well_formed());
    }
    let mut drained = Escrow::open(rs_owner(), 1000, 0, 50_000).unwrap();
    drained.remaining_amount = 0;
    assert!(!drained.is_well_formed());
    drained.status = EscrowStatus::Released;
    assert!(drained.is_well_formed());
}

#[test]
fn a_record_with_schedules_out_of_order_is_not_well_formed() {
    let good = rs_record();

    let mut bad = good.clone();
    bad.next_schedule_id = 3;
    assert!(!bad.is_well_formed());

    let mut bad = good.clone();
    bad.release_schedules[1].schedule_id = 5;
    assert!(!bad.is_well_formed());

    let mut bad = good.clone();
    bad.release_schedules[0].amount = 0;
    assert!(!bad.is_well_formed());

    let mut bad = good.clone();
    bad.schedule_history[0].status = ScheduleStatus::Cancelled;
    assert!(!bad.is_well_formed());

    let mut bad = good.clone();
    bad.schedule_history[1].executed_at = Some(3);
    assert!(!bad.is_well_formed());

    let mut bad = good.clone();
    bad.schedule_history.pop();
    assert!(!bad.is_well_formed());

    let mut bad = good.clone();
    bad.release_schedules.push(ReleaseSchedule {
        amount: 1,
        timestamp: 1,
        status: ScheduleStatus::Pending,
        schedule_id: 2,
        released_at: None,
        released_by: None,
    });
    bad.schedule_history.push(ScheduleHistoryRecord {
        schedule_id: 2,
        amount: 1,
        timestamp: 1,
        status: ScheduleStatus::Pending,
        executed_at: None,
        executed_by: None,
    });
    assert!(!bad.is_well_formed());
    bad.next_schedule_id = 3;
    assert!(bad.is_well_formed());
}

#[test]
fn a_record_is_opened_for_a_positive_amount_and_a_fee_within_it() {
    assert!(Escrow::open(rs_owner(), 0, 0, 9).is_none());
    assert!(Escrow::open(rs_owner(), -1, 0, 9).is_none());
    assert!(Escrow::open(rs_owner(), 10, -1, 9).is_none());
    assert!(Escrow::open(rs_owner(), 10, 11, 9).is_none());
    let all_fee = Escrow::open(rs_owner(), 10, 10, 9).unwrap();
    assert_eq!(all_fee.amount, 0);
    assert_eq!(all_fee.remaining_amount, 10);
    assert!(all_fee.is_well_formed());
}

#[test]
fn a_schedule_names_its_execution_exactly_if_it_was_executed() {
    let good = rs_record();

    let mut bad = good.clone();
    bad.release_schedules[0].released_at = Some(1);
    bad.schedule_history[0].executed_at = Some(1);
    assert!(!bad.is_well_formed());

    let mut bad = good.clone();
    bad.release_schedules[0].released_by = Some(rs_owner());
    bad.schedule_history[0].executed_by = Some(rs_owner());
    assert!(!bad.is_well_formed());

    let mut done = good.clone();
    done.execute_schedule(0, rs_owner(), &rs_fees(), 20_000).unwrap();
    assert!(done.is_well_formed());
    let mut bad = done.clone();
    bad.release_schedules[0].released_at = None;
    bad.schedule_history[0].executed_at = None;
    assert!(!bad.is_well_formed());
}

#[test]
fn a_state_is_restored_from_valid_parts_only() {
    let bad_fees = FeeConfig { lock_fee_rate: 1_001, ..rs_fees() };
    assert_eq!(
        BountyEscrowContract::restore(
            Some(rs_owner()),
            Some(Address::contract(7, 7)),
            Some(bad_fees),
            false,
            false,
            vec![],
            RateLimiter::new(),
        ),
        None
    );
    let mut contract = BountyEscrowContract::restore(
        Some(rs_owner()),
        Some(Address::contract(7, 7)),
        Some(rs_fees()),
        true,
        false,
        vec![4, 5],
        RateLimiter::new(),
    )
    .unwrap();
    assert_eq!(contract.admin, Some(rs_owner()));
    assert_eq!(contract.fee_config, Some(rs_fees()));
    assert!(contract.is_paused());
    assert_eq!(contract.bounty_registry, vec![4, 5]);

    assert!(contract.load_escrow(4, rs_record()));
    assert_eq!(contract.get_escrow_info(4).unwrap(), &rs_record());
    let mut broken = rs_record();
    broken.remaining_amount = 1;
    let before = contract.clone();
    assert!(!contract.load_escrow(5, broken));
    assert_eq!(contract, before);

    let approval = RefundApproval {
        bounty_id: 4,
        amount: 10,
        recipient: rs_owner(),
        mode: RefundMode::Custom,
        approved_by: rs_owner(),
        approved_at: 3,
    };
    contract.load_approval(approval);
    assert_eq!(contract.refund_approvals.get(&4), Some(&approval));
}

#[test]
fn no_record_is_loaded_into_a_contract_without_administrator() {
    let mut contract = BountyEscrowContract::new();
    assert!(!contract.load_escrow(4, rs_record()));
    assert_eq!(contract.get_escrow_info(4).err(), Some(Error::BountyNotFound));
}

#[test]
fn the_store_keeps_one_record_per_bounty() {
    let mut store = EscrowStore::new();
    assert!(!store.contains(1));
    assert_eq!(store.get(1).err(), Some(Error::BountyNotFound));
    assert_eq!(store.take(1).err(), Some(Error::BountyNotFound));

    assert_eq!(store.create(1, rs_record()), Ok(()));
    assert!(store.contains(1));
    assert_eq!(store.get(1), Ok(&rs_record()));
    assert_eq!(store.create(1, Escrow::open(rs_owner(), 5, 0, 9).unwrap()), Err(Error::BountyExists));
    assert_eq!(store.get(1), Ok(&rs_record()));

    store.update(1, Escrow::open(rs_owner(), 5, 0, 9).unwrap());
    assert_eq!(store.get(1).unwrap().remaining_amount, 5);
    store.update(2, rs_record());
    assert!(store.contains(2));

    assert_eq!(store.take(1).unwrap().remaining_amount, 5);
    assert!(!store.contains(1));
    assert!(store.contains(2));
}

#[test]
fn a_record_refuses_what_its_status_forbids() {
    let mut escrow = Escrow::open(rs_owner(), 1000, 0, 50_000).unwrap();
    assert_eq!(escrow.check_approval(1000), Ok(()));
    assert_eq!(escrow.check_approval(1001), Err(Error::InvalidAmount));
    let fees = FeeConfig::disabled(rs_owner());
    assert_eq!(
        escrow.release(rs_owner(), Some(1001), &fees, 5000, 1).err(),
        Some(Error::InvalidAmount)
    );
    assert_eq!(
        escrow.refund(None, None, RefundMode::Full, None, 5000, 49_999).err(),
        Some(Error::DeadlineNotPassed)
    );
    assert_eq!(
        escrow.execute_all_ready(rs_owner(), &fees, 1).err(),
        Some(Error::FundsNotLocked)
    );
    let receipt = escrow.refund(Some(400), None, RefundMode::Partial, None, 5000, 50_000).unwrap();
    assert_eq!(receipt.recipient, rs_owner());
    assert!(!receipt.approval_used);
    assert_eq!(escrow.check_approval(600), Ok(()));
    assert_eq!(escrow.release(rs_owner(), None, &fees, 5000, 1).err(), Some(Error::FundsNotLocked));
    assert_eq!(escrow.pending_schedules(u64::MAX), vec![]);
}
