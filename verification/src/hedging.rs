//! Hedging positions and their margin-ratio solvency metric.

use vstd::prelude::*;
use crate::math::{ratio_of, ONE};

verus! {

/// A leveraged commitment insuring a pool against collateral depreciation.
///
/// Positions are created by the opaque open-position collaborator and only
/// destroyed here by liquidation; a force-closed position keeps its record,
/// with the withdrawal it is owed, for a later claim.
#[derive(Clone, Copy, Debug, PartialEq, Eq, Structural)]
pub struct HedgingPosition {
    /// The collateral asset this position insures.
    pub collateral_id: u64,
    /// Margin posted when the position was opened.
    pub deposit_amount: u128,
    /// Notional insured, in stablecoin value (fixed-point).
    pub covered_amount: u128,
    /// The oracle price of the collateral when the position was opened.
    pub oracle_value_at_deposit_time: u128,
    /// Set once the position is force-closed; the recorded withdrawal.
    pub withdraw_amount_after_force_close: Option<u128>,
}

/// The margin ratio of a position at the current `price`: its
/// deposit-to-coverage ratio, rewarded by appreciation of the collateral
/// since the deposit and penalized by depreciation. May be negative.
pub open spec fn margin_ratio_of(position: HedgingPosition, price: u128) -> int {
    let amount_ratio = ratio_of(position.deposit_amount as int, position.covered_amount as int);
    let price_ratio = ratio_of(position.oracle_value_at_deposit_time as int, price as int);
    if price_ratio <= ONE {
        amount_ratio + (ONE - price_ratio)
    } else {
        amount_ratio - (price_ratio - ONE)
    }
}

/// The machine-width bounds the margin computation needs, and the two
/// divisors being non-zero.
pub open spec fn margin_fits(position: HedgingPosition, price: u128) -> bool {
    &&& position.covered_amount > 0
    &&& price > 0
    &&& position.deposit_amount * ONE <= u128::MAX
    &&& position.oracle_value_at_deposit_time * ONE <= u128::MAX
    &&& ratio_of(position.deposit_amount as int, position.covered_amount as int) + ONE
        <= i128::MAX
    &&& ratio_of(position.oracle_value_at_deposit_time as int, price as int) <= i128::MAX
}

} // verus!
