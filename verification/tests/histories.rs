use bounty_escrow::anti_abuse::set_config;
use bounty_escrow::{
    Address, AntiAbuseConfig, BountyEscrowContract, EscrowStatus, RefundMode,
};

struct Dice(u64);

impl Dice {
    fn roll(&mut self, sides: u64) -> u64 {
        self.0 = self.0.wrapping_mul(6364136223846793005).wrapping_add(1442695040888963407);
        (self.0 >> 33) % sides
    }
}

fn hs_rank(status: EscrowStatus) -> u8 {
    match status {
        EscrowStatus::Locked => 0,
        EscrowStatus::Scheduled | EscrowStatus::PartiallyReleased | EscrowStatus::PartiallyRefunded => 1,
        EscrowStatus::Released | EscrowStatus::Refunded => 2,
    }
}

fn hs_walk(seed: u64, lock_fee_rate: i128) {
    let admin = Address::account(0, 1);
    let depositor = Address::account(0, 2);
    let worker = Address::account(0, 3);
    let mut dice = Dice(seed);
    let mut contract = BountyEscrowContract::new();
    set_config(
        &mut contract.rate_limiter,
        AntiAbuseConfig { window_size: 10, max_operations: 5, cooldown_period: 1 },
    );
    contract.init(admin, Address::contract(7, 7), 0).unwrap();
    contract.update_fee_config(Some(lock_fee_rate), Some(300), None, Some(true), 0).unwrap();

    let locked: i128 = 1_000 + dice.roll(9_000) as i128;
    let deadline = 200;
    contract.lock_funds(depositor, 1, locked, deadline, 1).unwrap();
    let credited = contract.get_escrow_info(1).unwrap().amount;
    assert_eq!(credited, locked - locked * lock_fee_rate / 10_000);

    let mut remaining = locked;
    let mut rank = 0;
    let mut payouts = 0;
    let mut refunds = 0;
    for step in 0..400u64 {
        let now = 2 + step;
        let amount = Some(1 + dice.roll(600) as i128);
        let index = dice.roll(12) as u32;
        let balance = dice.roll(12_000) as i128;
        match dice.roll(8) {
            0 => {
                let _ = contract.release_funds(1, worker, amount, balance, now);
            }
            1 => {
                let _ = contract.refund(1, amount, None, RefundMode::Partial, balance, now);
            }
            2 => {
                let _ = contract.approve_custom_refund(1, amount.unwrap(), worker, RefundMode::Custom, now);
                let _ = contract.refund(1, amount, Some(worker), RefundMode::Custom, balance, now);
            }
            3 => {
                let requests = vec![
                    (1 + dice.roll(400) as i128, now + dice.roll(40)),
                    (dice.roll(400) as i128, now + 1 + dice.roll(40)),
                ];
                let _ = contract.create_release_schedules(1, &requests, now);
            }
            4 => {
                let _ = contract.execute_schedule(1, index, worker, now);
            }
            5 => {
                let _ = contract.execute_all_ready_schedules(1, worker, now);
            }
            6 => {
                let _ = contract.cancel_schedule(1, index);
            }
            _ => {
                let _ = contract.refund(1, None, None, RefundMode::Full, balance, now);
            }
        }

        let escrow = contract.get_escrow_info(1).unwrap();
        assert!(escrow.is_well_formed());
        assert_eq!(escrow.amount, credited);
        assert_eq!(escrow.depositor, depositor);
        assert_eq!(escrow.deadline, deadline);
        let paid: i128 = escrow.payout_history.iter().map(|record| record.amount).sum();
        let refunded: i128 = escrow.refund_history.iter().map(|record| record.amount).sum();
        assert_eq!(escrow.remaining_amount + paid + refunded, locked);
        assert!(escrow.remaining_amount <= remaining);
        assert!(hs_rank(escrow.status) >= rank);
        assert!(escrow.payout_history.len() >= payouts);
        assert!(escrow.refund_history.len() >= refunds);
        assert!(escrow.pending_amount() <= escrow.remaining_amount);
        assert_eq!(escrow.next_schedule_id as usize, escrow.release_schedules.len());
        remaining = escrow.remaining_amount;
        rank = hs_rank(escrow.status);
        payouts = escrow.payout_history.len();
        refunds = escrow.refund_history.len();
    }
}

#[test]
fn any_history_keeps_the_books_without_a_lock_fee() {
    for seed in 0..40 {
        hs_walk(seed, 0);
    }
}

#[test]
fn any_history_keeps_the_books_with_a_lock_fee() {
    for seed in 100..140 {
        hs_walk(seed, 250);
    }
}

#[test]
fn histories_reach_every_status() {
    let admin = Address::account(0, 1);
    let depositor = Address::account(0, 2);
    let mut seen = Vec::new();
    for seed in 0..200u64 {
        let mut dice = Dice(seed);
        let mut contract = BountyEscrowContract::new();
        set_config(
            &mut contract.rate_limiter,
            AntiAbuseConfig { window_size: 10, max_operations: 1000, cooldown_period: 0 },
        );
        contract.init(admin, Address::contract(7, 7), 0).unwrap();
        contract.lock_funds(depositor, 1, 100, 5, 1).unwrap();
        for step in 0..6u64 {
            let now = 2 + step * 2;
            let amount = Some(1 + dice.roll(100) as i128);
            match dice.roll(5) {
                0 => {
                    let _ = contract.release_funds(1, depositor, amount, 1000, now);
                }
                4 => {
                    let _ = contract.refund(1, None, None, RefundMode::Full, 1000, now);
                }
                1 => {
                    let _ = contract.refund(1, amount, None, RefundMode::Partial, 1000, now);
                }
                2 => {
                    let _ = contract.create_release_schedules(1, &vec![(amount.unwrap(), now + 1)], now);
                }
                _ => {
                    let _ = contract.execute_all_ready_schedules(1, depositor, now);
                }
            }
            let status = contract.get_escrow_info(1).unwrap().status;
            if !seen.contains(&status) {
                seen.push(status);
            }
        }
    }
    for status in [
        EscrowStatus::Locked,
        EscrowStatus::PartiallyReleased,
        EscrowStatus::Released,
        EscrowStatus::PartiallyRefunded,
        EscrowStatus::Refunded,
        EscrowStatus::Scheduled,
    ] {
        assert!(seen.contains(&status), "{:?}", status);
    }
}
