//! The per-collateral pool ledger and its mark-to-market rebalance.

use vstd::prelude::*;
use crate::errors::ProtocolError;
use crate::math::{scaled_div, scaled_mul};

verus! {

/// The aggregate ledger of one collateral asset.
///
/// After every successful rebalance, `stablecoin_amount` equals
/// `collateral_amount` priced at the price used in that rebalance.
#[derive(Clone, Copy, Debug, PartialEq, Eq, Structural)]
pub struct Pool {
    /// Raw units of collateral actively backing stablecoin supply.
    pub collateral_amount: u128,
    /// Dollar-value liability this pool currently backs (fixed-point).
    pub stablecoin_amount: u128,
    /// Raw units of collateral held as a price-movement buffer.
    pub collateral_reserves: u128,
    /// Sum of `covered_amount` over the open hedging positions on this collateral.
    pub total_covered_value_in_stablecoin: u128,
}

/// The pool's collateral holding priced at `price`, in dollars (fixed-point).
pub open spec fn pool_value_of(pool: Pool, price: u128, precision: u128) -> int {
    scaled_mul(pool.collateral_amount as int, price as int, precision as int)
}

/// The machine-width bounds a rebalance needs: every intermediate product
/// and the new reserve level fit in `u128`.
pub open spec fn rebalance_fits(pool: Pool, price: u128, precision: u128) -> bool {
    let pv = pool_value_of(pool, price, precision);
    &&& pool.collateral_amount * price <= u128::MAX
    &&& (pv > pool.stablecoin_amount ==> {
        let extra_collateral = scaled_div(pv - pool.stablecoin_amount, price as int, precision as int);
        &&& (pv - pool.stablecoin_amount) * precision <= u128::MAX
        &&& pool.collateral_reserves + extra_collateral <= u128::MAX
    })
    &&& (pv <= pool.stablecoin_amount ==> (pool.stablecoin_amount - pv) * precision <= u128::MAX)
}

/// The rebalance transition: reconciles the stored liability against the
/// pool's value at `price` and adjusts the reserve buffer.
///
/// When the collateral appreciated, the extra value (restated in collateral
/// units) is credited to the reserves; when it depreciated, the missing
/// collateral is drawn from the reserves, and the whole operation fails if
/// they cannot cover it. In both branches the liability is set to the
/// pool's current value.
pub open spec fn rebalance_result(pool: Pool, price: u128, precision: u128) -> Result<
    Pool,
    ProtocolError,
> {
    let pv = pool_value_of(pool, price, precision);
    if pv > pool.stablecoin_amount {
        let extra_collateral = scaled_div(pv - pool.stablecoin_amount, price as int, precision as int);
        Ok(
            (Pool {
                collateral_reserves: (pool.collateral_reserves + extra_collateral) as u128,
                stablecoin_amount: pv as u128,
                ..pool
            }),
        )
    } else {
        let missing_collateral = scaled_div(pool.stablecoin_amount - pv, price as int, precision as int);
        if missing_collateral > pool.collateral_reserves {
            Err(ProtocolError::InsufficientReserves)
        } else {
            Ok(
                (Pool {
                    collateral_reserves: (pool.collateral_reserves - missing_collateral) as u128,
                    stablecoin_amount: pv as u128,
                    ..pool
                }),
            )
        }
    }
}

impl Pool {
    /// Marks this pool to market at `price` and adjusts the reserves, as
    /// `rebalance_result` describes; on failure the pool is untouched.
    pub fn rebalance(&mut self, price: u128, precision: u128) -> (r: Result<(), ProtocolError>)
        requires
            price > 0,
            precision > 0,
            rebalance_fits(*old(self), price, precision),
        ensures
            rebalance_result(*old(self), price, precision) is Ok ==> r is Ok && *final(self)
                == rebalance_result(*old(self), price, precision)->Ok_0,
            rebalance_result(*old(self), price, precision) is Err ==> r is Err && r->Err_0
                == rebalance_result(*old(self), price, precision)->Err_0 && *final(self) == *old(
                self,
            ),
    {
        let pool_value_in_dollars = crate::math::multiply(self.collateral_amount, price, precision);
        if pool_value_in_dollars > self.stablecoin_amount {
            let extra_value = pool_value_in_dollars - self.stablecoin_amount;
            let extra_collateral = crate::math::divide(extra_value, price, precision);
            self.collateral_reserves = self.collateral_reserves + extra_collateral;
        } else {
            let missing_value = self.stablecoin_amount - pool_value_in_dollars;
            let missing_collateral = crate::math::divide(missing_value, price, precision);
            if missing_collateral > self.collateral_reserves {
                return Err(ProtocolError::InsufficientReserves);
            }
            self.collateral_reserves = self.collateral_reserves - missing_collateral;
        }
        self.stablecoin_amount = pool_value_in_dollars;
        Ok(())
    }
}

} // verus!
