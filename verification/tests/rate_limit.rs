use bounty_escrow::anti_abuse::{
    check_rate_limit, decide, get_admin, get_config, is_whitelisted, set_admin, set_config,
    set_whitelist,
};
use bounty_escrow::{
    Abort, Address, AddressState, AntiAbuseConfig, BountyEscrowContract, Error, Failure,
    RateLimiter,
};

fn rl_backend() -> Address {
    Address::account(0, 11)
}

fn rl_limits(window_size: u64, max_operations: u32, cooldown_period: u64) -> AntiAbuseConfig {
    AntiAbuseConfig { window_size, max_operations, cooldown_period }
}

#[test]
#[should_panic(expected = "Operation in cooldown period")]
fn test_anti_abuse_cooldown_panic() {
    let mut limiter = RateLimiter::new();
    set_admin(&mut limiter, Address::account(0, 1));
    set_config(&mut limiter, rl_limits(3600, 10, 60));

    let mut now = 1000;
    assert_eq!(check_rate_limit(&mut limiter, rl_backend(), now), Ok(()));

    now += 30;
    if check_rate_limit(&mut limiter, rl_backend(), now) == Err(Abort::Cooldown) {
        panic!("Operation in cooldown period");
    }
}

#[test]
#[should_panic(expected = "Rate limit exceeded")]
fn test_anti_abuse_limit_panic() {
    let mut limiter = RateLimiter::new();
    set_admin(&mut limiter, Address::account(0, 1));
    set_config(&mut limiter, rl_limits(3600, 2, 0));

    let now = 1000;
    assert_eq!(check_rate_limit(&mut limiter, rl_backend(), now), Ok(()));
    assert_eq!(check_rate_limit(&mut limiter, rl_backend(), now), Ok(()));
    if check_rate_limit(&mut limiter, rl_backend(), now) == Err(Abort::RateLimited) {
        panic!("Rate limit exceeded");
    }
}

#[test]
fn test_anti_abuse_whitelist() {
    let mut limiter = RateLimiter::new();
    set_admin(&mut limiter, Address::account(0, 1));
    set_config(&mut limiter, rl_limits(3600, 1, 60));

    set_whitelist(&mut limiter, rl_backend(), true);

    let now = 1000;
    assert_eq!(check_rate_limit(&mut limiter, rl_backend(), now), Ok(()));
    assert_eq!(check_rate_limit(&mut limiter, rl_backend(), now), Ok(()));
}

#[test]
fn test_anti_abuse_config_update() {
    let mut limiter = RateLimiter::new();
    set_admin(&mut limiter, Address::account(0, 1));

    set_config(&mut limiter, rl_limits(7200, 5, 120));

    let config = get_config(&limiter);
    assert_eq!(config.window_size, 7200);
    assert_eq!(config.max_operations, 5);
    assert_eq!(config.cooldown_period, 120);
}

#[test]
fn the_default_limits_are_ten_an_hour_one_minute_apart() {
    let limiter = RateLimiter::new();
    assert_eq!(get_config(&limiter), rl_limits(3600, 10, 60));
    assert_eq!(get_admin(&limiter), None);
}

#[test]
fn the_limiter_has_its_own_administrator() {
    let mut limiter = RateLimiter::new();
    set_admin(&mut limiter, Address::account(0, 1));
    assert_eq!(get_admin(&limiter), Some(Address::account(0, 1)));
    set_admin(&mut limiter, Address::account(0, 2));
    assert_eq!(get_admin(&limiter), Some(Address::account(0, 2)));
}

#[test]
fn exactly_the_allowed_number_of_operations_passes_in_one_window() {
    let mut limiter = RateLimiter::new();
    set_config(&mut limiter, rl_limits(1000, 3, 10));
    assert_eq!(check_rate_limit(&mut limiter, rl_backend(), 5_000), Ok(()));
    assert_eq!(check_rate_limit(&mut limiter, rl_backend(), 5_010), Ok(()));
    assert_eq!(check_rate_limit(&mut limiter, rl_backend(), 5_999), Ok(()));
    let before = limiter.clone();
    assert_eq!(check_rate_limit(&mut limiter, rl_backend(), 5_999 + 0), Err(Abort::Cooldown));
    assert_eq!(limiter, before);

    let mut limiter = RateLimiter::new();
    set_config(&mut limiter, rl_limits(1000, 3, 10));
    assert_eq!(check_rate_limit(&mut limiter, rl_backend(), 5_000), Ok(()));
    assert_eq!(check_rate_limit(&mut limiter, rl_backend(), 5_010), Ok(()));
    assert_eq!(check_rate_limit(&mut limiter, rl_backend(), 5_020), Ok(()));
    let before = limiter.clone();
    assert_eq!(check_rate_limit(&mut limiter, rl_backend(), 5_030), Err(Abort::RateLimited));
    assert_eq!(check_rate_limit(&mut limiter, rl_backend(), 5_999), Err(Abort::RateLimited));
    assert_eq!(limiter, before);
    assert_eq!(
        limiter.states[0].state,
        AddressState {
            last_operation_timestamp: 5_020,
            window_start_timestamp: 5_000,
            operation_count: 3,
        }
    );

    assert_eq!(check_rate_limit(&mut limiter, rl_backend(), 6_000), Ok(()));
    assert_eq!(
        limiter.states[0].state,
        AddressState {
            last_operation_timestamp: 6_000,
            window_start_timestamp: 6_000,
            operation_count: 1,
        }
    );
}

#[test]
fn the_cooldown_ends_exactly_after_the_period() {
    let mut limiter = RateLimiter::new();
    set_config(&mut limiter, rl_limits(3600, 10, 60));
    assert_eq!(check_rate_limit(&mut limiter, rl_backend(), 1_000), Ok(()));
    assert_eq!(check_rate_limit(&mut limiter, rl_backend(), 1_059), Err(Abort::Cooldown));
    assert_eq!(check_rate_limit(&mut limiter, rl_backend(), 1_060), Ok(()));
}

#[test]
fn the_cooldown_comes_before_the_limit() {
    let mut limiter = RateLimiter::new();
    set_config(&mut limiter, rl_limits(3600, 1, 60));
    assert_eq!(check_rate_limit(&mut limiter, rl_backend(), 1_000), Ok(()));
    assert_eq!(check_rate_limit(&mut limiter, rl_backend(), 1_030), Err(Abort::Cooldown));
    assert_eq!(check_rate_limit(&mut limiter, rl_backend(), 1_060), Err(Abort::RateLimited));
}

#[test]
fn with_no_operations_allowed_the_first_one_is_turned_away() {
    let mut limiter = RateLimiter::new();
    set_config(&mut limiter, rl_limits(3600, 0, 0));
    assert_eq!(check_rate_limit(&mut limiter, rl_backend(), 1_000), Err(Abort::RateLimited));
    assert!(limiter.states.is_empty());
}

#[test]
fn callers_are_counted_separately() {
    let mut limiter = RateLimiter::new();
    set_config(&mut limiter, rl_limits(3600, 1, 0));
    assert_eq!(check_rate_limit(&mut limiter, Address::account(0, 1), 1_000), Ok(()));
    assert_eq!(check_rate_limit(&mut limiter, Address::account(0, 2), 1_000), Ok(()));
    assert_eq!(check_rate_limit(&mut limiter, Address::contract(0, 1), 1_000), Ok(()));
    assert_eq!(check_rate_limit(&mut limiter, Address::account(0, 1), 1_001), Err(Abort::RateLimited));
    assert_eq!(limiter.states.len(), 3);
}

#[test]
fn the_whitelist_can_be_changed() {
    let mut limiter = RateLimiter::new();
    set_config(&mut limiter, rl_limits(3600, 1, 0));
    assert!(!is_whitelisted(&limiter, rl_backend()));
    set_whitelist(&mut limiter, rl_backend(), true);
    set_whitelist(&mut limiter, rl_backend(), true);
    set_whitelist(&mut limiter, Address::account(0, 12), true);
    assert!(is_whitelisted(&limiter, rl_backend()));
    for now in 0..20 {
        assert_eq!(check_rate_limit(&mut limiter, rl_backend(), now), Ok(()));
    }
    assert!(limiter.states.is_empty());

    set_whitelist(&mut limiter, rl_backend(), false);
    assert!(!is_whitelisted(&limiter, rl_backend()));
    assert!(is_whitelisted(&limiter, Address::account(0, 12)));
    assert_eq!(check_rate_limit(&mut limiter, rl_backend(), 100), Ok(()));
    assert_eq!(check_rate_limit(&mut limiter, rl_backend(), 101), Err(Abort::RateLimited));
}

#[test]
fn decisions_follow_the_remembered_state() {
    let limits = rl_limits(100, 2, 10);
    assert_eq!(
        decide(&limits, None, 500),
        Ok(AddressState { last_operation_timestamp: 500, window_start_timestamp: 500, operation_count: 1 })
    );
    let known = AddressState { last_operation_timestamp: 500, window_start_timestamp: 450, operation_count: 1 };
    assert_eq!(decide(&limits, Some(known), 509), Err(Abort::Cooldown));
    assert_eq!(
        decide(&limits, Some(known), 510),
        Ok(AddressState { last_operation_timestamp: 510, window_start_timestamp: 450, operation_count: 2 })
    );
    assert_eq!(
        decide(&limits, Some(known), 550),
        Ok(AddressState { last_operation_timestamp: 550, window_start_timestamp: 550, operation_count: 1 })
    );
    let full = AddressState { operation_count: 2, ..known };
    assert_eq!(decide(&limits, Some(full), 549), Err(Abort::RateLimited));
    let late = AddressState {
        last_operation_timestamp: u64::MAX - 5,
        window_start_timestamp: u64::MAX - 5,
        operation_count: 1,
    };
    assert_eq!(decide(&limits, Some(late), u64::MAX - 1), Err(Abort::Cooldown));
    assert_eq!(
        decide(&limits, Some(late), u64::MAX),
        Ok(AddressState {
            last_operation_timestamp: u64::MAX,
            window_start_timestamp: u64::MAX,
            operation_count: 1,
        })
    );
}

#[test]
fn entry_points_are_rate_limited_per_caller() {
    let admin = Address::account(0, 1);
    let depositor = Address::account(0, 2);
    let mut contract = BountyEscrowContract::new();
    set_config(&mut contract.rate_limiter, rl_limits(3600, 2, 60));
    contract.init(admin, Address::contract(7, 7), 1_000).unwrap();

    contract.lock_funds(depositor, 1, 100, 90_000, 1_000).unwrap();
    let before = contract.clone();
    assert_eq!(
        contract.lock_funds(depositor, 2, 100, 90_000, 1_030),
        Err(Failure::Abort(Abort::Cooldown))
    );
    assert_eq!(contract, before);
    contract.lock_funds(depositor, 2, 100, 90_000, 1_060).unwrap();
    let before = contract.clone();
    assert_eq!(
        contract.lock_funds(depositor, 3, 100, 90_000, 1_120),
        Err(Failure::Abort(Abort::RateLimited))
    );
    assert_eq!(contract, before);

    contract.release_funds(1, depositor, None, 200, 1_060).unwrap();
    assert_eq!(
        contract.release_funds(2, depositor, None, 100, 1_200),
        Err(Failure::Abort(Abort::RateLimited))
    );
    assert_eq!(
        contract.create_release_schedules(2, &vec![(10, 90_000)], 1_200),
        Err(Failure::Abort(Abort::RateLimited))
    );
    assert!(contract.release_funds(2, depositor, None, 100, 4_600).is_ok());
}

#[test]
fn a_call_that_fails_does_not_count() {
    let admin = Address::account(0, 1);
    let depositor = Address::account(0, 2);
    let mut contract = BountyEscrowContract::new();
    set_config(&mut contract.rate_limiter, rl_limits(3600, 1, 0));
    contract.init(admin, Address::contract(7, 7), 1_000).unwrap();
    for _ in 0..5 {
        assert_eq!(
            contract.lock_funds(depositor, 1, 0, 90_000, 1_000),
            Err(Failure::Error(Error::InvalidAmount))
        );
    }
    assert!(contract.lock_funds(depositor, 1, 10, 90_000, 1_000).is_ok());
    assert_eq!(
        contract.lock_funds(depositor, 2, 10, 90_000, 1_000),
        Err(Failure::Abort(Abort::RateLimited))
    );
}

#[test]
fn a_whitelisted_caller_is_never_turned_away_at_the_entry_points() {
    let admin = Address::account(0, 1);
    let depositor = Address::account(0, 2);
    let mut contract = BountyEscrowContract::new();
    set_config(&mut contract.rate_limiter, rl_limits(3600, 1, 60));
    set_whitelist(&mut contract.rate_limiter, depositor, true);
    contract.init(admin, Address::contract(7, 7), 1_000).unwrap();
    for bounty_id in 0..30 {
        assert!(contract.lock_funds(depositor, bounty_id, 10, 90_000, 1_000).is_ok());
    }
}

#[test]
fn refunds_are_rate_limited_by_the_depositor() {
    let admin = Address::account(0, 1);
    let depositor = Address::account(0, 2);
    let mut contract = BountyEscrowContract::new();
    set_config(&mut contract.rate_limiter, rl_limits(3600, 10, 60));
    contract.init(admin, Address::contract(7, 7), 1_000).unwrap();
    contract.lock_funds(depositor, 1, 100, 2_000, 1_000).unwrap();
    contract.lock_funds(depositor, 2, 100, 2_000, 1_060).unwrap();
    contract.refund(1, None, None, bounty_escrow::RefundMode::Full, 200, 2_000).unwrap();
    assert_eq!(
        contract.refund(2, None, None, bounty_escrow::RefundMode::Full, 100, 2_059),
        Err(Failure::Abort(Abort::Cooldown))
    );
    assert!(contract.refund(2, None, None, bounty_escrow::RefundMode::Full, 100, 2_060).is_ok());
}
