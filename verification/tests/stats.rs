use bounty_escrow::anti_abuse::set_config;
use bounty_escrow::{
    Address, AntiAbuseConfig, BountyEscrowContract, EscrowStats, Figure, RefundMode,
};

const ST_NOW: u64 = 10_000;
const ST_DEADLINE: u64 = 50_000;

fn st_admin() -> Address {
    Address::account(0, 1)
}

fn st_depositor() -> Address {
    Address::account(0, 2)
}

fn st_worker() -> Address {
    Address::account(0, 3)
}

fn st_ready() -> BountyEscrowContract {
    let mut contract = BountyEscrowContract::new();
    set_config(
        &mut contract.rate_limiter,
        AntiAbuseConfig { window_size: 3600, max_operations: 1000, cooldown_period: 0 },
    );
    contract.init(st_admin(), Address::contract(7, 7), ST_NOW).unwrap();
    contract
}

#[test]
fn an_empty_contract_has_empty_figures() {
    assert_eq!(
        st_ready().get_stats(),
        Some(EscrowStats {
            total_bounties: 0,
            total_locked_amount: 0,
            total_released_amount: 0,
            total_refunded_amount: 0,
            total_scheduled_amount: 0,
            pending_schedules: 0,
        })
    );
}

#[test]
fn figures_add_up_by_status() {
    let mut contract = st_ready();
    contract.update_fee_config(Some(100), None, Some(st_admin()), Some(true), ST_NOW).unwrap();
    contract.lock_funds(st_depositor(), 1, 1000, ST_DEADLINE, ST_NOW).unwrap();
    contract.lock_funds(st_depositor(), 2, 2000, ST_DEADLINE, ST_NOW).unwrap();
    contract.lock_funds(st_depositor(), 3, 3000, ST_DEADLINE, ST_NOW).unwrap();
    contract.lock_funds(st_depositor(), 4, 4000, ST_DEADLINE, ST_NOW).unwrap();
    contract.lock_funds(st_depositor(), 5, 5000, ST_DEADLINE, ST_NOW).unwrap();
    contract.lock_funds(st_depositor(), 6, 6000, ST_DEADLINE, ST_NOW).unwrap();

    contract.release_funds(2, st_worker(), None, 100_000, ST_NOW).unwrap();
    contract.release_funds(3, st_worker(), Some(1200), 100_000, ST_NOW).unwrap();
    contract.refund(4, None, None, RefundMode::Full, 100_000, ST_DEADLINE).unwrap();
    contract.refund(5, Some(700), None, RefundMode::Partial, 100_000, ST_DEADLINE).unwrap();
    contract
        .create_release_schedules(6, &vec![(100, 60_000), (200, 70_000), (300, 80_000)], ST_NOW)
        .unwrap();
    contract.execute_schedule(6, 0, st_worker(), 60_000).unwrap();
    contract.cancel_schedule(6, 1).unwrap();

    assert_eq!(
        contract.get_stats(),
        Some(EscrowStats {
            total_bounties: 6,
            total_locked_amount: 1000 + 1800 + 4300 + 5900,
            total_released_amount: 1980 + 1200,
            total_refunded_amount: 4000 + 700,
            total_scheduled_amount: 300,
            pending_schedules: 1,
        })
    );
    assert_eq!(contract.figure_total(Figure::Locked), Some(13_000));
    assert_eq!(contract.figure_total(Figure::PendingSchedules), Some(1));
}

#[test]
fn figures_that_do_not_fit_are_not_reported() {
    let mut contract = st_ready();
    contract.lock_funds(st_depositor(), 1, i128::MAX, ST_DEADLINE, ST_NOW).unwrap();
    assert_eq!(contract.get_stats().unwrap().total_locked_amount, i128::MAX);
    contract.lock_funds(st_depositor(), 2, 1, ST_DEADLINE, ST_NOW).unwrap();
    assert_eq!(contract.get_stats(), None);
    assert_eq!(contract.figure_total(Figure::Locked), None);
    assert_eq!(contract.figure_total(Figure::Released), Some(0));
}

#[test]
fn a_registered_bounty_without_a_record_counts_as_a_bounty_only() {
    let mut contract = st_ready();
    contract.lock_funds(st_depositor(), 1, 1000, ST_DEADLINE, ST_NOW).unwrap();
    contract.bounty_registry.push(77);
    let stats = contract.get_stats().unwrap();
    assert_eq!(stats.total_bounties, 2);
    assert_eq!(stats.total_locked_amount, 1000);
}

#[test]
fn a_record_knows_its_totals() {
    let mut contract = st_ready();
    contract.lock_funds(st_depositor(), 1, 1000, ST_DEADLINE, ST_NOW).unwrap();
    contract.release_funds(1, st_worker(), Some(100), 1000, ST_NOW).unwrap();
    contract.release_funds(1, st_worker(), Some(250), 1000, ST_NOW).unwrap();
    let escrow = contract.get_escrow_info(1).unwrap();
    assert_eq!(escrow.total_paid_out(), Some(350));
    assert_eq!(escrow.total_refunded(), Some(0));
    assert_eq!(escrow.pending_schedule_count(), 0);
    assert!(!escrow.has_pending_schedules());
    assert_eq!(escrow.share(Figure::Released), Some(350));
    assert_eq!(escrow.share(Figure::Locked), Some(650));
    assert_eq!(escrow.share(Figure::Refunded), Some(0));
}
