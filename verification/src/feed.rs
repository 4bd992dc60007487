//! The parameter feed: turns the protocol's one-byte state parameter into
//! the vault parameters (interest rate, minimum collateral coefficient,
//! holder share), and the stability measure into the stable coin's interest
//! rate.  The state parameter itself comes from an external measurer; these
//! functions take its answer as a plain value.

use vstd::prelude::*;
use crate::{lemma_mul_le, AMOUNT_LIMIT};

verus! {

/// Interest-rate step applied per unit of stability measure.
pub const INTEREST_STEP: i128 = 318;

/// Raised when the external measurer gave no state parameter.
#[derive(Clone, Copy, Debug, PartialEq, Eq, Structural)]
pub enum VFeedingError {
    CouldntFeed,
}

/// Raised when the external measurer gave no stability measure.
#[derive(Clone, Copy, Debug, PartialEq, Eq, Structural)]
pub enum SControllingError {
    CouldntFeed,
}

/// Raised by a price feeder that could not produce a price.
#[derive(Clone, Copy, Debug, PartialEq, Eq, Structural)]
pub enum FeedingError {
    CouldntFeed,
}

/// A source of collateral prices, implemented by the host around whatever
/// oracle it trusts.
pub trait Feeding {
    fn feed_price(&mut self) -> Result<u128, FeedingError>;
}

/// Storage of the role-managing facet.  Role state itself lives with the
/// host's access-control collaborator, so nothing is kept here.
pub struct ManagingData {}

/// Stored prices, as the oracle facet reports them.
pub struct Oracle {
    pub azero_usd_price_e6: u128,
    pub azero_ausd_price_e6: u128,
}

impl Oracle {
    pub fn get_azero_usd_price_e6(&self) -> (r: u128)
        ensures
            r == self.azero_usd_price_e6,
    {
        self.azero_usd_price_e6
    }

    pub fn get_azero_ausd_price_e6(&self) -> (r: u128)
        ensures
            r == self.azero_ausd_price_e6,
    {
        self.azero_ausd_price_e6
    }
}

/// The vault parameters derived from a state parameter: interest rate
/// (scaled by `E12`), minimum collateral coefficient (scaled by `E6`), and
/// the part of the interest routed to stable-coin holders (scaled by `E12`).
///
/// High state parameters relax the collateral requirement; low ones raise
/// the interest rate and, at the bottom of the range, start paying holders.
pub open spec fn spec_vault_parameters(
    state_parameter: u8,
    max_min_collateral_e6: u128,
    min_col_step_e6: u128,
    interest_rate_step_e12: u128,
    stable_rate_step_e12: u128,
) -> (int, int, int) {
    if state_parameter >= 206 {
        (0, max_min_collateral_e6 - 50 * min_col_step_e6, 0)
    } else if state_parameter >= 156 {
        (0, max_min_collateral_e6 - (state_parameter - 155) * min_col_step_e6, 0)
    } else if state_parameter >= 131 {
        ((155 - state_parameter) * interest_rate_step_e12, max_min_collateral_e6 as int, 0)
    } else if state_parameter >= 125 {
        (25 * interest_rate_step_e12, max_min_collateral_e6 as int, 0)
    } else if state_parameter >= 50 {
        ((150 - state_parameter) * interest_rate_step_e12, max_min_collateral_e6 as int, 0)
    } else {
        (
            (150 - state_parameter) * interest_rate_step_e12,
            max_min_collateral_e6 as int,
            (50 - state_parameter) * stable_rate_step_e12,
        )
    }
}

/// The feeder of vault parameters: holds the step sizes and the widest
/// minimum-collateral coefficient, and maps the externally measured state
/// parameter onto concrete vault parameters.
pub struct VFeeder {
    pub interest_rate_step_e12: u128,
    pub minimum_collateral_coef_step_e6: u128,
    pub stable_coin_interest_rate_step_e12: u128,
    pub maximum_minimum_collateral_e6: u128,
}

impl VFeeder {
    /// Step sizes small enough that no derived parameter overflows or
    /// underflows.
    pub open spec fn wf(self) -> bool {
        &&& self.interest_rate_step_e12 <= AMOUNT_LIMIT
        &&& self.stable_coin_interest_rate_step_e12 <= AMOUNT_LIMIT
        &&& self.maximum_minimum_collateral_e6 <= AMOUNT_LIMIT
        &&& 50 * self.minimum_collateral_coef_step_e6 <= self.maximum_minimum_collateral_e6
    }

    pub open spec fn spec_parameters_for(self, state_parameter: u8) -> (int, int, int) {
        spec_vault_parameters(
            state_parameter,
            self.maximum_minimum_collateral_e6,
            self.minimum_collateral_coef_step_e6,
            self.interest_rate_step_e12,
            self.stable_coin_interest_rate_step_e12,
        )
    }

    pub fn new(
        interest_rate_step_e12: u128,
        minimum_collateral_coef_step_e6: u128,
        stable_coin_interest_rate_step_e12: u128,
        maximum_minimum_collateral_e6: u128,
    ) -> (r: VFeeder)
        requires
            interest_rate_step_e12 <= AMOUNT_LIMIT,
            stable_coin_interest_rate_step_e12 <= AMOUNT_LIMIT,
            maximum_minimum_collateral_e6 <= AMOUNT_LIMIT,
            50 * minimum_collateral_coef_step_e6 <= maximum_minimum_collateral_e6,
        ensures
            r.wf(),
            r.interest_rate_step_e12 == interest_rate_step_e12,
            r.minimum_collateral_coef_step_e6 == minimum_collateral_coef_step_e6,
            r.stable_coin_interest_rate_step_e12 == stable_coin_interest_rate_step_e12,
            r.maximum_minimum_collateral_e6 == maximum_minimum_collateral_e6,
    {
        VFeeder {
            interest_rate_step_e12,
            minimum_collateral_coef_step_e6,
            stable_coin_interest_rate_step_e12,
            maximum_minimum_collateral_e6,
        }
    }

    pub fn get_maximum_minimum_collateral_e6(&self) -> (r: u128)
        ensures
            r == self.maximum_minimum_collateral_e6,
    {
        self.maximum_minimum_collateral_e6
    }

    pub fn get_vault_parameters(&self) -> (r: (u128, u128, u128))
        ensures
            r.0 == self.interest_rate_step_e12,
            r.1 == self.minimum_collateral_coef_step_e6,
            r.2 == self.stable_coin_interest_rate_step_e12,
    {
        (
            self.interest_rate_step_e12,
            self.minimum_collateral_coef_step_e6,
            self.stable_coin_interest_rate_step_e12,
        )
    }

    pub fn set_vault_parameters(
        &mut self,
        interest_rate_step_e12: u128,
        minimum_collateral_coef_step_e6: u128,
        stable_coin_interest_rate_step_e12: u128,
    ) -> (r: Result<(), VFeedingError>)
        requires
            old(self).wf(),
            interest_rate_step_e12 <= AMOUNT_LIMIT,
            stable_coin_interest_rate_step_e12 <= AMOUNT_LIMIT,
            50 * minimum_collateral_coef_step_e6 <= old(self).maximum_minimum_collateral_e6,
        ensures
            r == Ok::<(), VFeedingError>(()),
            final(self).wf(),
            final(self).interest_rate_step_e12 == interest_rate_step_e12,
            final(self).minimum_collateral_coef_step_e6 == minimum_collateral_coef_step_e6,
            final(self).stable_coin_interest_rate_step_e12 == stable_coin_interest_rate_step_e12,
            final(self).maximum_minimum_collateral_e6 == old(self).maximum_minimum_collateral_e6,
    {
        self.interest_rate_step_e12 = interest_rate_step_e12;
        self.minimum_collateral_coef_step_e6 = minimum_collateral_coef_step_e6;
        self.stable_coin_interest_rate_step_e12 = stable_coin_interest_rate_step_e12;
        Ok(())
    }

    /// The full parameter triple for the state parameter the measurer
    /// reported; fails exactly when the measurer had no answer.
    pub fn feed_all(&self, state_parameter: Option<u8>) -> (r: Result<
        (u128, u128, u128),
        VFeedingError,
    >)
        requires
            self.wf(),
        ensures
            state_parameter is None <==> r == Err::<(u128, u128, u128), VFeedingError>(
                VFeedingError::CouldntFeed,
            ),
            state_parameter matches Some(sp) ==> r matches Ok(t) && (
            t.0 as int,
            t.1 as int,
            t.2 as int,
            ) == self.spec_parameters_for(sp),
    {
        match state_parameter {
            None => Err(VFeedingError::CouldntFeed),
            Some(sp) => Ok(self.parameters_for(sp)),
        }
    }

    /// The interest rate alone.
    pub fn feed_interest_rate(&self, state_parameter: Option<u8>) -> (r: Result<
        u128,
        VFeedingError,
    >)
        requires
            self.wf(),
        ensures
            state_parameter is None <==> r == Err::<u128, VFeedingError>(
                VFeedingError::CouldntFeed,
            ),
            state_parameter matches Some(sp) ==> r matches Ok(v) && v
                == self.spec_parameters_for(sp).0,
    {
        match state_parameter {
            None => Err(VFeedingError::CouldntFeed),
            Some(sp) => Ok(self.parameters_for(sp).0),
        }
    }

    /// The minimum collateral coefficient alone.
    pub fn feed_minimum_collateral_coefficient(&self, state_parameter: Option<u8>) -> (r: Result<
        u128,
        VFeedingError,
    >)
        requires
            self.wf(),
        ensures
            state_parameter is None <==> r == Err::<u128, VFeedingError>(
                VFeedingError::CouldntFeed,
            ),
            state_parameter matches Some(sp) ==> r matches Ok(v) && v
                == self.spec_parameters_for(sp).1,
    {
        match state_parameter {
            None => Err(VFeedingError::CouldntFeed),
            Some(sp) => Ok(self.parameters_for(sp).1),
        }
    }

    /// The mapping itself, total over the state parameter.
    pub fn parameters_for(&self, state_parameter: u8) -> (r: (u128, u128, u128))
        requires
            self.wf(),
        ensures
            (r.0 as int, r.1 as int, r.2 as int) == self.spec_parameters_for(state_parameter),
    {
        let min_col_step: u128 = self.minimum_collateral_coef_step_e6;
        let interest_rate_step: u128 = self.interest_rate_step_e12;
        let stable_rate_step: u128 = self.stable_coin_interest_rate_step_e12;
        let max_min: u128 = self.maximum_minimum_collateral_e6;
        if state_parameter >= 206 {
            (0, max_min - 50 * min_col_step, 0)
        } else if state_parameter >= 156 {
            proof {
                lemma_mul_le((state_parameter - 155) as int, 50, min_col_step as int);
            }
            (0, max_min - (state_parameter - 155) as u128 * min_col_step, 0)
        } else if state_parameter >= 131 {
            proof {
                lemma_mul_le((155 - state_parameter) as int, 155, interest_rate_step as int);
            }
            ((155 - state_parameter) as u128 * interest_rate_step, max_min, 0)
        } else if state_parameter >= 125 {
            (25 * interest_rate_step, max_min, 0)
        } else if state_parameter >= 50 {
            proof {
                lemma_mul_le((150 - state_parameter) as int, 150, interest_rate_step as int);
            }
            ((150 - state_parameter) as u128 * interest_rate_step, max_min, 0)
        } else {
            proof {
                lemma_mul_le((150 - state_parameter) as int, 150, interest_rate_step as int);
                lemma_mul_le((50 - state_parameter) as int, 50, stable_rate_step as int);
            }
            (
                (150 - state_parameter) as u128 * interest_rate_step,
                max_min,
                (50 - state_parameter) as u128 * stable_rate_step,
            )
        }
    }
}

/// The stable coin's interest rate for a stability measure: the middle band
/// is neutral, high measures penalize holders, low measures reward them.
pub open spec fn spec_stability_interest_rate(stability_measure: u8) -> int {
    if stability_measure >= 206 {
        (stability_measure - 205) * INTEREST_STEP
    } else if stability_measure >= 50 {
        0
    } else {
        -((50 - stability_measure) * INTEREST_STEP)
    }
}

pub fn stability_measure_parameter_to_interest_rate(stability_measure: u8) -> (r: i128)
    ensures
        r == spec_stability_interest_rate(stability_measure),
{
    if stability_measure >= 206 {
        (stability_measure - 205) as i128 * INTEREST_STEP
    } else if stability_measure >= 50 {
        0
    } else {
        -((50 - stability_measure) as i128 * INTEREST_STEP)
    }
}

/// The controlling decision for the stable coin: from the stability measure
/// the external measurer reported, the interest rate the coin must be set
/// to.  The host carries the returned rate to the coin; with no measure
/// there is nothing to carry and the call fails.
pub fn control_stable_coin(stability_measure: Option<u8>) -> (r: Result<i128, SControllingError>)
    ensures
        stability_measure is None <==> r == Err::<i128, SControllingError>(
            SControllingError::CouldntFeed,
        ),
        stability_measure matches Some(sm) ==> r == Ok::<i128, SControllingError>(
            spec_stability_interest_rate(sm) as i128,
        ),
{
    match stability_measure {
        None => Err(SControllingError::CouldntFeed),
        Some(sm) => Ok(stability_measure_parameter_to_interest_rate(sm)),
    }
}

} // verus!
