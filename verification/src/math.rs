//! Fixed-point arithmetic primitives.
//!
//! A fixed-point value is a non-negative integer interpreted as `value / ONE`
//! for the protocol-wide scale constant `ONE`; collateral assets may carry
//! their own scale (`precision`). All divisions truncate (floor), which
//! biases every derived quantity slightly in the protocol's favor.

use vstd::prelude::*;

verus! {

/// The protocol-wide scale constant: one fixed-point unit, denoting the
/// real number 1.0 (and, for percentages, 100%).
pub const ONE: u128 = 1_000_000_000_000_000_000;

/// Mathematical value of `multiply`: `a * b / precision`, truncating.
pub open spec fn scaled_mul(a: int, b: int, precision: int) -> int {
    (a * b) / precision
}

/// Mathematical value of `divide`: `a * precision / b`, truncating.
pub open spec fn scaled_div(a: int, b: int, precision: int) -> int {
    (a * precision) / b
}

/// Mathematical value of `ratio`: `a / b` scaled up to the `ONE` scale.
pub open spec fn ratio_of(a: int, b: int) -> int {
    (a * (ONE as int)) / b
}

/// Mathematical value of `percentage_of`: the fraction `pct / ONE` of `amount`.
pub open spec fn fraction_of(pct: int, amount: int) -> int {
    (pct * amount) / (ONE as int)
}

/// Scaled multiplication: the dollar value of `a` units priced at `b`,
/// where one whole unit of the asset equals `precision` raw units.
pub fn multiply(a: u128, b: u128, precision: u128) -> (r: u128)
    requires
        precision > 0,
        a * b <= u128::MAX,
    ensures
        r == scaled_mul(a as int, b as int, precision as int),
{
    let product: u128 = a * b;
    product / precision
}

/// Scaled division: the raw units of an asset worth `a` dollars at price `b`,
/// where one whole unit of the asset equals `precision` raw units.
pub fn divide(a: u128, b: u128, precision: u128) -> (r: u128)
    requires
        b > 0,
        a * precision <= u128::MAX,
    ensures
        r == scaled_div(a as int, b as int, precision as int),
{
    let product: u128 = a * precision;
    product / b
}

/// The quotient `a / b` as a fixed-point value at the `ONE` scale.
pub fn ratio(a: u128, b: u128) -> (r: u128)
    requires
        b > 0,
        a * ONE <= u128::MAX,
    ensures
        r == ratio_of(a as int, b as int),
{
    let product: u128 = a * ONE;
    product / b
}

/// The fraction `pct / ONE` of `amount`, truncating.
pub fn percentage_of(pct: u128, amount: u128) -> (r: u128)
    requires
        pct * amount <= u128::MAX,
    ensures
        r == fraction_of(pct as int, amount as int),
        pct <= ONE ==> r <= amount,
{
    proof {
        if pct <= ONE {
            lemma_fraction_le(pct as int, amount as int);
        }
    }
    let product: u128 = pct * amount;
    product / ONE
}

/// A fraction taken with a percentage of at most `ONE` (100%) never exceeds
/// the amount it is taken of, and is never negative.
pub proof fn lemma_fraction_le(pct: int, amount: int)
    requires
        0 <= pct <= ONE,
        0 <= amount,
    ensures
        0 <= fraction_of(pct, amount) <= amount,
{
    vstd::arithmetic::mul::lemma_mul_nonnegative(pct, amount);
    vstd::arithmetic::div_mod::lemma_div_pos_is_pos(pct * amount, ONE as int);
    vstd::arithmetic::mul::lemma_mul_inequality(pct, ONE as int, amount);
    vstd::arithmetic::div_mod::lemma_div_is_ordered(pct * amount, (ONE as int) * amount, ONE as int);
    vstd::arithmetic::div_mod::lemma_div_multiples_vanish(amount, ONE as int);
}

/// A fraction taken with a zero percentage is exactly zero.
pub proof fn lemma_fraction_of_zero_pct(amount: int)
    requires
        0 <= amount,
    ensures
        fraction_of(0, amount) == 0,
{
    vstd::arithmetic::div_mod::lemma_div_of0(ONE as int);
}

} // verus!
