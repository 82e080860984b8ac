use bounty_escrow::{
    Address, BountyEscrowContract, Error, Failure, FeeConfig, FeeConfigUpdated, BASIS_POINTS,
    MAX_FEE_RATE,
};

fn fe_admin() -> Address {
    Address::account(0, 1)
}

fn fe_collector() -> Address {
    Address::account(9, 9)
}

fn fe_ready() -> BountyEscrowContract {
    let mut contract = BountyEscrowContract::new();
    contract.init(fe_admin(), Address::contract(7, 7), 1_000).unwrap();
    contract
}

#[test]
fn fee_is_the_product_over_ten_thousand_rounded_down() {
    assert_eq!(BountyEscrowContract::calculate_fee(1000, 100), 10);
    assert_eq!(BountyEscrowContract::calculate_fee(999, 100), 9);
    assert_eq!(BountyEscrowContract::calculate_fee(99, 100), 0);
    assert_eq!(BountyEscrowContract::calculate_fee(12_345, 250), 308);
    assert_eq!(BountyEscrowContract::calculate_fee(10_000, 1_000), 1_000);
    assert_eq!(BountyEscrowContract::calculate_fee(1_000_0000000, 1), 1_000_000);
    assert_eq!(BountyEscrowContract::calculate_fee(0, 500), 0);
}

#[test]
fn fee_rounds_towards_minus_infinity() {
    assert_eq!(BountyEscrowContract::calculate_fee(-1, 1), -1);
    assert_eq!(BountyEscrowContract::calculate_fee(-10_000, 1), -1);
    assert_eq!(BountyEscrowContract::calculate_fee(-10_001, 1), -2);
}

#[test]
fn zero_rate_means_no_fee() {
    assert_eq!(BountyEscrowContract::calculate_fee(1_000_000, 0), 0);
    assert_eq!(BountyEscrowContract::calculate_fee(i128::MAX, 0), 0);
}

#[test]
fn a_product_beyond_128_bits_means_no_fee() {
    assert_eq!(BountyEscrowContract::calculate_fee(i128::MAX, 2), 0);
    assert_eq!(BountyEscrowContract::calculate_fee(i128::MIN, 2), 0);
    assert_eq!(BountyEscrowContract::calculate_fee(i128::MAX / 1000 + 1, 1000), 0);
    assert_eq!(
        BountyEscrowContract::calculate_fee(i128::MAX / 1000, 1000),
        (i128::MAX / 1000) * 1000 / 10_000
    );
}

#[test]
fn constants_of_the_fee_engine() {
    assert_eq!(BASIS_POINTS, 10_000);
    assert_eq!(MAX_FEE_RATE, 1_000);
}

#[test]
fn a_fresh_contract_charges_no_fees() {
    let contract = fe_ready();
    assert_eq!(
        contract.get_fee_config(),
        FeeConfig { lock_fee_rate: 0, release_fee_rate: 0, fee_recipient: fe_admin(), fee_enabled: false }
    );
}

#[test]
fn fees_apply_only_when_enabled_and_positive() {
    let on = FeeConfig { lock_fee_rate: 100, release_fee_rate: 250, fee_recipient: fe_collector(), fee_enabled: true };
    assert_eq!(on.lock_fee_amount(1000), 10);
    assert_eq!(on.release_fee_amount(1000), 25);
    let off = FeeConfig { fee_enabled: false, ..on };
    assert_eq!(off.lock_fee_amount(1000), 0);
    assert_eq!(off.release_fee_amount(1000), 0);
    let zero = FeeConfig { lock_fee_rate: 0, release_fee_rate: 0, ..on };
    assert_eq!(zero.lock_fee_amount(1000), 0);
    assert_eq!(zero.release_fee_amount(1000), 0);
}

#[test]
fn fee_rates_are_accepted_up_to_the_maximum() {
    let mut contract = fe_ready();
    assert_eq!(
        contract.update_fee_config(Some(1_000), Some(0), Some(fe_collector()), Some(true), 2_000),
        Ok(FeeConfigUpdated {
            lock_fee_rate: 1_000,
            release_fee_rate: 0,
            fee_recipient: fe_collector(),
            fee_enabled: true,
            timestamp: 2_000,
        })
    );
    assert_eq!(
        contract.get_fee_config(),
        FeeConfig { lock_fee_rate: 1_000, release_fee_rate: 0, fee_recipient: fe_collector(), fee_enabled: true }
    );
}

#[test]
fn fee_rates_out_of_range_are_rejected() {
    let mut contract = fe_ready();
    contract.update_fee_config(Some(100), Some(200), None, Some(true), 2_000).unwrap();
    let before = contract.clone();

    for (lock, release) in [
        (Some(1_001), None),
        (Some(-1), None),
        (None, Some(1_001)),
        (None, Some(-1)),
        (Some(500), Some(10_000)),
    ] {
        assert_eq!(
            contract.update_fee_config(lock, release, Some(fe_collector()), Some(false), 3_000),
            Err(Failure::Error(Error::InvalidFeeRate))
        );
        assert_eq!(contract, before);
    }
}

#[test]
fn settings_that_are_not_given_stay() {
    let mut contract = fe_ready();
    contract.update_fee_config(Some(100), Some(200), Some(fe_collector()), Some(true), 2_000).unwrap();
    contract.update_fee_config(None, Some(300), None, None, 3_000).unwrap();
    assert_eq!(
        contract.get_fee_config(),
        FeeConfig { lock_fee_rate: 100, release_fee_rate: 300, fee_recipient: fe_collector(), fee_enabled: true }
    );
}

#[test]
fn fee_settings_need_an_initialised_contract() {
    let mut contract = BountyEscrowContract::new();
    assert_eq!(
        contract.update_fee_config(Some(100), None, None, None, 1_000),
        Err(Failure::Error(Error::NotInitialized))
    );
}

#[test]
fn fee_config_validity_is_about_the_rates() {
    let good = FeeConfig { lock_fee_rate: 0, release_fee_rate: 1_000, fee_recipient: fe_admin(), fee_enabled: true };
    assert!(good.is_valid());
    assert!(!FeeConfig { lock_fee_rate: 1_001, ..good }.is_valid());
    assert!(!FeeConfig { release_fee_rate: -1, ..good }.is_valid());
    let mut changed = good;
    assert_eq!(changed.update(Some(2_000), None, None, None), Err(Error::InvalidFeeRate));
    assert_eq!(changed, good);
    assert_eq!(changed.update(Some(7), None, None, Some(false)), Ok(()));
    assert_eq!(changed, FeeConfig { lock_fee_rate: 7, fee_enabled: false, ..good });
}
