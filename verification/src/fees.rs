//! The fee engine: basis-point fees on lock and release amounts.

use vstd::prelude::*;
use crate::contract::BountyEscrowContract;
use crate::types::{Address, Error};

verus! {

/// One hundred percent, in basis points.
pub const BASIS_POINTS: i128 = 10_000;

/// The highest rate that can be configured: ten percent.
pub const MAX_FEE_RATE: i128 = 1_000;

/// The fee on `amount` at `rate` basis points: the product divided by ten
/// thousand, rounded down. A zero rate, or a product that does not fit in 128
/// bits, means no fee.
pub open spec fn fee_of(amount: int, rate: int) -> int {
    if rate == 0 || amount * rate < i128::MIN || amount * rate > i128::MAX {
        0
    } else {
        (amount * rate) / 10_000
    }
}

/// A fee at a configurable rate never exceeds a positive amount and is never
/// negative.
pub proof fn lemma_fee_bounds(amount: int, rate: int)
    requires
        0 <= amount,
        0 <= rate <= 10_000,
    ensures
        0 <= fee_of(amount, rate) <= amount,
{
    if !(rate == 0 || amount * rate < i128::MIN || amount * rate > i128::MAX) {
        assert(0 <= amount * rate <= amount * 10_000) by (nonlinear_arith)
            requires
                0 <= amount,
                0 <= rate <= 10_000,
        ;
    }
}

impl BountyEscrowContract {
    /// Computes the fee on `amount` at `fee_rate` basis points.
    pub fn calculate_fee(amount: i128, fee_rate: i128) -> (fee: i128)
        ensures
            fee == fee_of(amount as int, fee_rate as int),
    {
        if fee_rate == 0 {
            return 0;
        }
        match amount.checked_mul(fee_rate) {
            Some(product) => match product.checked_div_euclid(BASIS_POINTS) {
                Some(fee) => fee,
                None => 0,
            },
            None => 0,
        }
    }
}

/// The fee settings of the contract.
#[derive(Clone, Copy, Debug, PartialEq, Eq, Structural)]
pub struct FeeConfig {
    pub lock_fee_rate: i128,
    pub release_fee_rate: i128,
    pub fee_recipient: Address,
    pub fee_enabled: bool,
}

impl FeeConfig {
    /// Both rates lie between zero and the maximum.
    pub open spec fn wf(self) -> bool {
        &&& 0 <= self.lock_fee_rate <= MAX_FEE_RATE
        &&& 0 <= self.release_fee_rate <= MAX_FEE_RATE
    }

    /// The fee taken when `amount` is locked.
    pub open spec fn lock_fee(self, amount: i128) -> int {
        if self.fee_enabled && self.lock_fee_rate > 0 {
            fee_of(amount as int, self.lock_fee_rate as int)
        } else {
            0
        }
    }

    /// The fee taken when `amount` is paid out.
    pub open spec fn release_fee(self, amount: i128) -> int {
        if self.fee_enabled && self.release_fee_rate > 0 {
            fee_of(amount as int, self.release_fee_rate as int)
        } else {
            0
        }
    }

    /// The configuration with the given settings put in place of the current
    /// ones; a setting that is not given stays.
    pub open spec fn updated(
        self,
        lock_fee_rate: Option<i128>,
        release_fee_rate: Option<i128>,
        fee_recipient: Option<Address>,
        fee_enabled: Option<bool>,
    ) -> FeeConfig {
        FeeConfig {
            lock_fee_rate: if lock_fee_rate is Some {
                lock_fee_rate->0
            } else {
                self.lock_fee_rate
            },
            release_fee_rate: if release_fee_rate is Some {
                release_fee_rate->0
            } else {
                self.release_fee_rate
            },
            fee_recipient: if fee_recipient is Some {
                fee_recipient->0
            } else {
                self.fee_recipient
            },
            fee_enabled: if fee_enabled is Some {
                fee_enabled->0
            } else {
                self.fee_enabled
            },
        }
    }

    /// Whether the given rates may be configured: each one that is given must
    /// lie between zero and the maximum.
    pub open spec fn rates_valid(lock_fee_rate: Option<i128>, release_fee_rate: Option<i128>) -> bool {
        &&& lock_fee_rate is Some ==> valid_fee_rate(lock_fee_rate->0)
        &&& release_fee_rate is Some ==> valid_fee_rate(release_fee_rate->0)
    }

    /// Puts the given settings in place of the current ones, provided that
    /// the rates are valid.
    pub fn update(
        &mut self,
        lock_fee_rate: Option<i128>,
        release_fee_rate: Option<i128>,
        fee_recipient: Option<Address>,
        fee_enabled: Option<bool>,
    ) -> (r: Result<(), Error>)
        ensures
            FeeConfig::rates_valid(lock_fee_rate, release_fee_rate) ==> r == Ok::<(), Error>(())
                && *final(self) == old(self).updated(
                lock_fee_rate,
                release_fee_rate,
                fee_recipient,
                fee_enabled,
            ),
            !FeeConfig::rates_valid(lock_fee_rate, release_fee_rate) ==> r == Err::<(), Error>(
                Error::InvalidFeeRate,
            ) && *final(self) == *old(self),
            old(self).wf() ==> final(self).wf(),
    {
        let mut next = *self;
        if let Some(rate) = lock_fee_rate {
            if rate < 0 || rate > MAX_FEE_RATE {
                return Err(Error::InvalidFeeRate);
            }
            next.lock_fee_rate = rate;
        }
        if let Some(rate) = release_fee_rate {
            if rate < 0 || rate > MAX_FEE_RATE {
                return Err(Error::InvalidFeeRate);
            }
            next.release_fee_rate = rate;
        }
        if let Some(recipient) = fee_recipient {
            next.fee_recipient = recipient;
        }
        if let Some(enabled) = fee_enabled {
            next.fee_enabled = enabled;
        }
        *self = next;
        Ok(())
    }

    /// Computes the fee taken when `amount` is locked.
    pub fn lock_fee_amount(&self, amount: i128) -> (fee: i128)
        ensures
            fee == self.lock_fee(amount),
            self.wf() && amount >= 0 ==> 0 <= fee <= amount,
    {
        proof {
            if self.wf() && amount >= 0 {
                lemma_fee_bounds(amount as int, self.lock_fee_rate as int);
            }
        }
        if self.fee_enabled && self.lock_fee_rate > 0 {
            BountyEscrowContract::calculate_fee(amount, self.lock_fee_rate)
        } else {
            0
        }
    }

    /// Computes the fee taken when `amount` is paid out.
    pub fn release_fee_amount(&self, amount: i128) -> (fee: i128)
        ensures
            fee == self.release_fee(amount),
            self.wf() && amount >= 0 ==> 0 <= fee <= amount,
    {
        proof {
            if self.wf() && amount >= 0 {
                lemma_fee_bounds(amount as int, self.release_fee_rate as int);
            }
        }
        if self.fee_enabled && self.release_fee_rate > 0 {
            BountyEscrowContract::calculate_fee(amount, self.release_fee_rate)
        } else {
            0
        }
    }

    /// The configuration of a fresh contract: no fees, and the administrator
    /// as the recipient of any that are switched on later.
    pub fn disabled(admin: Address) -> (c: FeeConfig)
        ensures
            c == no_fees(admin),
            c.wf(),
    {
        FeeConfig { lock_fee_rate: 0, release_fee_rate: 0, fee_recipient: admin, fee_enabled: false }
    }
}

/// The configuration of a fresh contract: no fees, and the administrator as
/// the recipient of any that are switched on later.
pub open spec fn no_fees(admin: Address) -> FeeConfig {
    FeeConfig { lock_fee_rate: 0, release_fee_rate: 0, fee_recipient: admin, fee_enabled: false }
}

/// Whether `rate` may be configured.
pub open spec fn valid_fee_rate(rate: i128) -> bool {
    0 <= rate <= MAX_FEE_RATE
}

} // verus!
