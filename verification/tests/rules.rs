use bounty_escrow::monitoring::{get_analytics, get_average_time, get_state_snapshot};
use bounty_escrow::EscrowStatus::{
    Locked, PartiallyRefunded, PartiallyReleased, Refunded, Released, Scheduled,
};
use bounty_escrow::{
    derive_status, Address, Analytics, BountyEscrowContract, EscrowStatus, Movement, Operation,
    StateSnapshot,
};

#[test]
fn the_status_follows_from_what_happened_and_what_remains() {
    assert_eq!(derive_status(Locked, Movement::Release, 600, false), PartiallyReleased);
    assert_eq!(derive_status(Locked, Movement::Release, 0, false), Released);
    assert_eq!(derive_status(PartiallyReleased, Movement::Release, 1, false), PartiallyReleased);
    assert_eq!(derive_status(PartiallyReleased, Movement::Release, 0, false), Released);
    assert_eq!(derive_status(Locked, Movement::Refund, 600, false), PartiallyRefunded);
    assert_eq!(derive_status(PartiallyRefunded, Movement::Refund, 0, false), Refunded);
    assert_eq!(derive_status(Locked, Movement::ScheduleCreated, 1000, true), Scheduled);
    assert_eq!(derive_status(Scheduled, Movement::ScheduleCreated, 1000, false), Scheduled);
    assert_eq!(derive_status(Scheduled, Movement::ScheduleExecuted, 400, true), Scheduled);
    assert_eq!(derive_status(Scheduled, Movement::ScheduleExecuted, 400, false), Scheduled);
    assert_eq!(derive_status(Scheduled, Movement::ScheduleExecuted, 0, true), Scheduled);
    assert_eq!(derive_status(Scheduled, Movement::ScheduleExecuted, 0, false), Released);
    assert_eq!(derive_status(Scheduled, Movement::ScheduleCancelled, 0, false), Scheduled);
}

#[test]
fn a_terminal_status_stays_whatever_happens() {
    for previous in [EscrowStatus::Released, EscrowStatus::Refunded] {
        for movement in [
            Movement::Release,
            Movement::Refund,
            Movement::ScheduleCreated,
            Movement::ScheduleExecuted,
            Movement::ScheduleCancelled,
        ] {
            for remaining in [0, 5] {
                for pending in [false, true] {
                    assert_eq!(derive_status(previous, movement, remaining, pending), previous);
                }
            }
        }
    }
}

#[test]
fn the_administrator_consents_to_what_is_reserved_to_it() {
    let admin = Address::account(0, 1);
    let depositor = Address::account(0, 2);
    let mut contract = BountyEscrowContract::new();
    for operation in [
        Operation::ReleaseFunds,
        Operation::ApproveRefund,
        Operation::CreateSchedules,
        Operation::CancelSchedule,
        Operation::Pause,
        Operation::Unpause,
        Operation::UpdateFeeConfig,
        Operation::BatchRelease,
    ] {
        assert_eq!(contract.authorizer(operation), None);
    }
    contract.init(admin, Address::contract(7, 7), 1_000).unwrap();
    for operation in [
        Operation::ReleaseFunds,
        Operation::ApproveRefund,
        Operation::CreateSchedules,
        Operation::CancelSchedule,
        Operation::Pause,
        Operation::Unpause,
        Operation::UpdateFeeConfig,
        Operation::BatchRelease,
    ] {
        assert_eq!(contract.authorizer(operation), Some(admin));
    }
    assert_eq!(contract.authorizer(Operation::LockFunds { depositor }), Some(depositor));
    for operation in [
        Operation::Init,
        Operation::Refund,
        Operation::ExecuteSchedule,
        Operation::ExecuteAllReady,
    ] {
        assert_eq!(contract.authorizer(operation), None);
    }
}

#[test]
fn the_error_rate_is_in_failures_per_ten_thousand() {
    assert_eq!(
        get_analytics(200, 7, 3),
        Analytics { operation_count: 200, unique_users: 7, error_count: 3, error_rate: 150 }
    );
    assert_eq!(get_analytics(3, 1, 1).error_rate, 3_333);
    assert_eq!(get_analytics(5, 1, 5).error_rate, 10_000);
    assert_eq!(get_analytics(0, 0, 0).error_rate, 0);
    assert_eq!(get_analytics(0, 0, 9).error_rate, 0);
    assert_eq!(get_analytics(u64::MAX, 0, u64::MAX).error_rate, 10_000);
    assert_eq!(get_analytics(1, 0, 1 << 20).error_rate, ((1u64 << 20) * 10_000) as u32);
}

#[test]
fn the_average_time_is_rounded_down() {
    assert_eq!(get_average_time(4, 10), 2);
    assert_eq!(get_average_time(0, 10), 0);
    assert_eq!(get_average_time(3, 0), 0);
    assert_eq!(
        get_state_snapshot(9, 8, 7, 6),
        StateSnapshot { timestamp: 9, total_operations: 8, total_users: 7, total_errors: 6 }
    );
}
