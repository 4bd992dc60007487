//! A collateralized-debt-position ledger.
//!
//! Users lock collateral, mint a debt token against it, and the debt accrues
//! interest continuously.  A rebasing balance ledger tracks holders of the
//! debt token, some of whom are interest-exempt.  Every operation is O(1) in
//! the number of accounts and vaults: a single lazily-updated global index
//! carries the compounded interest, and each account or vault stores only a
//! snapshot of that index beside its raw units.
//!
//! The on-chain surroundings (ownership registry, role checks, token
//! transfers, price feed) are collaborators of the host: the functions
//! here take their answers as plain values and return the amounts the
//! host must move.

use vstd::prelude::*;
use vstd::arithmetic::mul::lemma_mul_inequality;

pub mod feed;
pub mod interest;
pub mod ledger;
pub mod profit;
pub mod vault;

verus! {

/// Fixed-point scale of the interest index and of interest rates: 1.0 == 10^12.
pub const E12: u128 = 1000000000000;

/// Fixed-point scale of prices, fees and collateral coefficients: 1.0 == 10^6.
pub const E6: u128 = 1000000;

/// Largest raw amount, stored unit count or index value the ledger handles.
/// Keeping every operand at or below this bound keeps every product of two
/// operands within `u128`.
pub const AMOUNT_LIMIT: u128 = 0xffff_ffff_ffff_ffff;

/// What came of the safe-transfer acknowledgement callback the host made to
/// a transfer's recipient.
#[derive(Clone, Copy, Debug, PartialEq, Eq, Structural)]
pub enum TransferAck {
    /// The recipient implements the callback and accepted.
    Accepted,
    /// The recipient implements the callback and explicitly rejected.
    Rejected,
    /// The recipient is no contract, so there was nothing to call.
    NotCallable,
    /// The recipient trapped; indistinguishable from not implementing the
    /// callback, so tolerated as acceptance.
    Trapped,
    /// The call itself could not be made.
    CallFailed,
}

impl TransferAck {
    /// The outcomes a transfer may proceed on: everything but an explicit
    /// rejection and a failed call.  A recipient that does not implement the
    /// callback is assumed to be a plain, non-receiving account.
    pub open spec fn tolerated(self) -> bool {
        self is Accepted || self is NotCallable || self is Trapped
    }
}

/// A product grows with either factor.
pub proof fn lemma_mul_le(a: int, b: int, c: int)
    requires
        a <= b,
        0 <= c,
    ensures
        a * c <= b * c,
{
    lemma_mul_inequality(a, b, c);
}

/// The product of two bounded operands stays within `u128`: this is the
/// point of `AMOUNT_LIMIT`.
pub proof fn lemma_amount_product_fits(a: int, b: int)
    requires
        0 <= a <= AMOUNT_LIMIT,
        0 <= b <= AMOUNT_LIMIT,
    ensures
        0 <= a * b <= u128::MAX,
        a * b <= AMOUNT_LIMIT * AMOUNT_LIMIT,
{
    lemma_mul_inequality(a, AMOUNT_LIMIT as int, b);
    lemma_mul_inequality(b, AMOUNT_LIMIT as int, AMOUNT_LIMIT as int);
    assert((AMOUNT_LIMIT as int) * b == b * (AMOUNT_LIMIT as int)) by (nonlinear_arith);
    assert(a * b >= 0) by (nonlinear_arith)
        requires
            a >= 0,
            b >= 0,
    ;
}

} // verus!
