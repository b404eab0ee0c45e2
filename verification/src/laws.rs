//! Protocol-wide laws, each proved once and for all over the same spec
//! functions the executable contracts use.

use vstd::prelude::*;
use crate::errors::ProtocolError;
use crate::math::{fraction_of, lemma_fraction_le, lemma_fraction_of_zero_pct, scaled_div, ONE};
use crate::pool::{pool_value_of, rebalance_fits, rebalance_result, Pool};

verus! {

/// Rebalancing at an unchanged price is idempotent: a second rebalance at
/// the price of the last successful one succeeds and changes nothing —
/// in particular `stablecoin_amount` and `collateral_reserves` stay put.
pub proof fn law_rebalance_idempotent(pool: Pool, price: u128, precision: u128)
    requires
        price > 0,
        precision > 0,
        rebalance_fits(pool, price, precision),
        rebalance_result(pool, price, precision) is Ok,
    ensures
        rebalance_result(rebalance_result(pool, price, precision)->Ok_0, price, precision)
            == Ok::<Pool, ProtocolError>(rebalance_result(pool, price, precision)->Ok_0),
{
    let q = rebalance_result(pool, price, precision)->Ok_0;
    let pv = pool_value_of(pool, price, precision);
    vstd::arithmetic::div_mod::lemma_div_pos_is_pos(
        pool.collateral_amount * price,
        precision as int,
    );
    vstd::arithmetic::div_mod::lemma_div_nonincreasing(
        pool.collateral_amount * price,
        precision as int,
    );
    assert(0 <= pv <= u128::MAX);
    assert(q.collateral_amount == pool.collateral_amount);
    assert(q.stablecoin_amount == pv);
    assert(pool_value_of(q, price, precision) == pv);
    vstd::arithmetic::div_mod::lemma_div_of0(price as int);
    assert(scaled_div(0, price as int, precision as int) == 0);
}

/// When the price rises from `p0` (the price of the pool's last rebalance,
/// with the precision dividing both valuations evenly) to `p1`, and the
/// appreciation is worth at least one collateral unit, rebalancing at `p1`
/// succeeds, the reserves strictly increase by exactly
/// `collateral_amount * (p1 - p0) / p1`, and the liability becomes the
/// pool's value at `p1`.
pub proof fn law_rebalance_appreciation(pool: Pool, p0: u128, p1: u128, precision: u128)
    requires
        precision > 0,
        0 < p0 < p1,
        pool.stablecoin_amount == pool_value_of(pool, p0, precision),
        (pool.collateral_amount * p0) % (precision as int) == 0,
        (pool.collateral_amount * p1) % (precision as int) == 0,
        pool.collateral_amount * (p1 - p0) >= p1,
        rebalance_fits(pool, p1, precision),
    ensures
        rebalance_result(pool, p1, precision) is Ok,
        ({
            let q = rebalance_result(pool, p1, precision)->Ok_0;
            &&& q.collateral_reserves == pool.collateral_reserves + (pool.collateral_amount * (p1
                - p0)) / (p1 as int)
            &&& q.collateral_reserves > pool.collateral_reserves
            &&& q.stablecoin_amount == pool_value_of(pool, p1, precision)
        }),
{
    let ca = pool.collateral_amount as int;
    let d = precision as int;
    let x0 = ca * (p0 as int);
    let x1 = ca * (p1 as int);
    let sc = x0 / d;
    let pv = x1 / d;
    let diff = ca * ((p1 - p0) as int);
    vstd::arithmetic::mul::lemma_mul_is_distributive_sub(ca, p1 as int, p0 as int);
    assert(diff == x1 - x0);
    vstd::arithmetic::div_mod::lemma_fundamental_div_mod(x0, d);
    vstd::arithmetic::div_mod::lemma_fundamental_div_mod(x1, d);
    assert(x0 == d * sc);
    assert(x1 == d * pv);
    vstd::arithmetic::mul::lemma_mul_is_distributive_sub(d, pv, sc);
    assert(diff == d * (pv - sc));
    // the appreciation is a positive multiple of the precision, so the
    // valuation strictly rises
    assert(diff >= p1 > 0);
    let steps = pv - sc;
    if steps <= 0 {
        vstd::arithmetic::mul::lemma_mul_inequality(steps, 0, d);
        assert(d * steps == steps * d) by {
            vstd::arithmetic::mul::lemma_mul_is_commutative(d, steps);
        }
        assert(diff <= 0);
    }
    assert(pv > sc);
    // the extra value restated in collateral units is exactly
    // ca * (p1 - p0) / p1
    let extra_value = pv - sc;
    assert(extra_value * d == diff) by {
        vstd::arithmetic::mul::lemma_mul_is_commutative(d, extra_value);
    }
    let extra_collateral = scaled_div(extra_value, p1 as int, d);
    assert(extra_collateral == diff / (p1 as int));
    // at least one unit comes out of the division
    vstd::arithmetic::div_mod::lemma_div_is_ordered(p1 as int, diff, p1 as int);
    vstd::arithmetic::div_mod::lemma_div_by_self(p1 as int);
    assert(extra_collateral >= 1);
    vstd::arithmetic::div_mod::lemma_div_pos_is_pos(x1, d);
    vstd::arithmetic::div_mod::lemma_div_nonincreasing(x1, d);
    assert(0 <= pv <= u128::MAX);
}

/// When the price has fallen (the pool's value no longer covers the stored
/// liability), the rebalance succeeds exactly when the reserves cover the
/// missing collateral, drawing exactly that much from them; otherwise it
/// fails with `InsufficientReserves`.
pub proof fn law_rebalance_depreciation(pool: Pool, price: u128, precision: u128)
    requires
        price > 0,
        precision > 0,
        rebalance_fits(pool, price, precision),
        pool_value_of(pool, price, precision) <= pool.stablecoin_amount,
    ensures
        ({
            let pv = pool_value_of(pool, price, precision);
            let missing_collateral = scaled_div(
                pool.stablecoin_amount - pv,
                price as int,
                precision as int,
            );
            &&& missing_collateral <= pool.collateral_reserves ==> rebalance_result(
                pool,
                price,
                precision,
            ) == Ok::<Pool, ProtocolError>(
                (Pool {
                    collateral_reserves: (pool.collateral_reserves - missing_collateral) as u128,
                    stablecoin_amount: pv as u128,
                    ..pool
                }),
            )
            &&& missing_collateral > pool.collateral_reserves ==> rebalance_result(
                pool,
                price,
                precision,
            ) == Err::<Pool, ProtocolError>(ProtocolError::InsufficientReserves)
        }),
{
    vstd::arithmetic::div_mod::lemma_div_pos_is_pos(
        pool.collateral_amount * price,
        precision as int,
    );
}

/// Selling collateral and immediately buying back with the whole
/// stablecoin output, at one price, never returns more collateral than was
/// paid; with both fee percentages exactly zero it returns exactly the
/// payment.
pub proof fn law_sell_then_buy_round_trip(
    payment_amount: u128,
    price: u128,
    mint_fee_percentage: u128,
    burn_fee_percentage: u128,
)
    requires
        price > 0,
        mint_fee_percentage <= ONE,
        burn_fee_percentage <= ONE,
    ensures
        ({
            let fee_in = fraction_of(mint_fee_percentage as int, payment_amount as int);
            let net_collateral = payment_amount - fee_in;
            let stablecoin_out = (price as int) * net_collateral;
            let total_back = stablecoin_out / (price as int);
            let fee_out = fraction_of(burn_fee_percentage as int, total_back);
            let collateral_back = total_back - fee_out;
            &&& collateral_back <= payment_amount
            &&& (mint_fee_percentage == 0 && burn_fee_percentage == 0 ==> collateral_back
                == payment_amount)
        }),
{
    let fee_in = fraction_of(mint_fee_percentage as int, payment_amount as int);
    let net_collateral = payment_amount - fee_in;
    lemma_fraction_le(mint_fee_percentage as int, payment_amount as int);
    vstd::arithmetic::div_mod::lemma_div_multiples_vanish(net_collateral, price as int);
    let total_back = ((price as int) * net_collateral) / (price as int);
    assert(total_back == net_collateral);
    lemma_fraction_le(burn_fee_percentage as int, total_back);
    if mint_fee_percentage == 0 && burn_fee_percentage == 0 {
        lemma_fraction_of_zero_pct(payment_amount as int);
        lemma_fraction_of_zero_pct(total_back);
    }
}

} // verus!
