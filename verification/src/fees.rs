//! The per-collateral fee configuration.

use vstd::prelude::*;
use crate::math::ratio_of;

verus! {

/// The fee rates a collateral currently charges, recomputed wholesale on
/// each update and read-only to the swap engine until the next one.
#[derive(Clone, Copy, Debug, PartialEq, Eq, Structural)]
pub struct CurrentFeeConfiguration {
    /// Covered value over backed liability at the time of the update (fixed-point).
    pub hedging_ratio: u128,
    /// Fee charged on selling collateral for stablecoin (fixed-point percentage).
    pub mint_fee_percentage: u128,
    /// Fee charged on buying collateral with stablecoin (fixed-point percentage).
    pub burn_fee_percentage: u128,
}

/// The pool's hedging ratio: total covered value over backed liability,
/// and zero when nothing is backed.
pub open spec fn hedging_ratio_of(total_covered: u128, stablecoin_amount: u128) -> int {
    if stablecoin_amount == 0 {
        0
    } else {
        ratio_of(total_covered as int, stablecoin_amount as int)
    }
}

} // verus!
