//! The open swap endpoints: selling collateral for freshly minted
//! stablecoin and buying collateral back with stablecoin.
//!
//! Each swap mutates the pool and the fee accumulator of one collateral in
//! a single atomic step; the returned amount is what the token ledger is
//! then instructed to mint (or transfer) to the caller.

use vstd::prelude::*;
use crate::errors::ProtocolError;
use crate::math::fraction_of;
use crate::pool::Pool;
use crate::state::{
    collateral_index, has_collateral, the_collateral, wf, Collateral, ProtocolState,
};

verus! {

/// The seeker role's handle on the protocol state.
pub struct Seekers;

/// The machine-width bounds a collateral sale needs.
pub open spec fn sell_fits(
    st: ProtocolState,
    payment_token: u64,
    payment_amount: u128,
    price: Option<u128>,
) -> bool {
    has_collateral(st.collaterals@, payment_token) ==> (price matches Some(p) ==> ({
        let c = the_collateral(st.collaterals@, payment_token);
        let fee = fraction_of(c.fee_configuration.mint_fee_percentage as int, payment_amount as int);
        let collateral_amount = payment_amount - fee;
        let stablecoin_out = p * collateral_amount;
        &&& p > 0
        &&& c.fee_configuration.mint_fee_percentage * payment_amount <= u128::MAX
        &&& stablecoin_out <= u128::MAX
        &&& c.pool.collateral_amount + collateral_amount <= u128::MAX
        &&& c.pool.stablecoin_amount + stablecoin_out <= u128::MAX
        &&& c.accumulated_fees + fee <= u128::MAX
    }))
}

/// The machine-width bounds a collateral purchase needs.
pub open spec fn buy_fits(
    st: ProtocolState,
    payment_amount: u128,
    collateral_id: u64,
    price: Option<u128>,
) -> bool {
    has_collateral(st.collaterals@, collateral_id) ==> (price matches Some(p) ==> ({
        let c = the_collateral(st.collaterals@, collateral_id);
        let total = payment_amount as int / p as int;
        &&& p > 0
        &&& c.fee_configuration.burn_fee_percentage * total <= u128::MAX
        &&& c.accumulated_fees + fraction_of(c.fee_configuration.burn_fee_percentage as int, total)
            <= u128::MAX
    }))
}

pub trait StableSeekers: Sized {
    /// Sells `payment_amount` of a whitelisted collateral for stablecoin at
    /// the quoted price. The mint fee is retained in collateral, the net
    /// collateral and the minted liability are credited to the pool, and
    /// the stablecoin output — rejected when below `min_amount_out` — is
    /// returned for the token ledger to mint and send.
    fn sell_collateral(
        &self,
        st: &mut ProtocolState,
        payment_token: u64,
        payment_amount: u128,
        min_amount_out: u128,
        price: Option<u128>,
    ) -> (r: Result<u128, ProtocolError>)
        requires
            wf(*old(st)),
            sell_fits(*old(st), payment_token, payment_amount, price),
        ensures
            wf(*final(st)),
            r is Err ==> *final(st) == *old(st),
            !has_collateral(old(st).collaterals@, payment_token) ==> r == Err::<
                u128,
                ProtocolError,
            >(ProtocolError::UnknownOrUnwhitelistedCollateral),
            has_collateral(old(st).collaterals@, payment_token) && price is None ==> r == Err::<
                u128,
                ProtocolError,
            >(ProtocolError::PriceUnavailable),
            has_collateral(old(st).collaterals@, payment_token) ==> (price matches Some(p) ==> ({
                let i = collateral_index(old(st).collaterals@, payment_token);
                let c = the_collateral(old(st).collaterals@, payment_token);
                let fee = fraction_of(
                    c.fee_configuration.mint_fee_percentage as int,
                    payment_amount as int,
                );
                let collateral_amount = payment_amount - fee;
                let stablecoin_out = p * collateral_amount;
                if stablecoin_out < min_amount_out {
                    r == Err::<u128, ProtocolError>(ProtocolError::BelowMinimumOutput)
                } else {
                    r is Ok && r->Ok_0 == stablecoin_out && final(st).collaterals@ == old(
                        st,
                    ).collaterals@.update(
                        i,
                        (Collateral {
                            pool: (Pool {
                                collateral_amount: (c.pool.collateral_amount
                                    + collateral_amount) as u128,
                                stablecoin_amount: (c.pool.stablecoin_amount
                                    + stablecoin_out) as u128,
                                ..c.pool
                            }),
                            accumulated_fees: (c.accumulated_fees + fee) as u128,
                            ..c
                        }),
                    ) && final(st).positions == old(st).positions
                        && final(st).liquidity_share_balances == old(st).liquidity_share_balances
                        && final(st).stablecoin_token_id == old(st).stablecoin_token_id
                }
            })),
    ;

    /// Buys a whitelisted collateral with stablecoin at the quoted price.
    /// The payment must be the stablecoin asset itself; the burn fee is
    /// retained in collateral, the paid liability and the sold collateral
    /// are debited from the pool, and the collateral output — rejected
    /// when below `min_amount_out` — is returned for the token ledger to
    /// transfer after burning the payment.
    fn buy_collateral(
        &self,
        st: &mut ProtocolState,
        payment_token: u64,
        payment_amount: u128,
        collateral_id: u64,
        min_amount_out: u128,
        price: Option<u128>,
    ) -> (r: Result<u128, ProtocolError>)
        requires
            wf(*old(st)),
            buy_fits(*old(st), payment_amount, collateral_id, price),
        ensures
            wf(*final(st)),
            r is Err ==> *final(st) == *old(st),
            payment_token != old(st).stablecoin_token_id ==> r == Err::<
                u128,
                ProtocolError,
            >(ProtocolError::WrongPaymentToken),
            payment_token == old(st).stablecoin_token_id && !has_collateral(
                old(st).collaterals@,
                collateral_id,
            ) ==> r == Err::<u128, ProtocolError>(ProtocolError::UnknownOrUnwhitelistedCollateral),
            payment_token == old(st).stablecoin_token_id && has_collateral(
                old(st).collaterals@,
                collateral_id,
            ) && price is None ==> r == Err::<u128, ProtocolError>(ProtocolError::PriceUnavailable),
            payment_token == old(st).stablecoin_token_id && has_collateral(
                old(st).collaterals@,
                collateral_id,
            ) ==> (price matches Some(p) ==> ({
                let i = collateral_index(old(st).collaterals@, collateral_id);
                let c = the_collateral(old(st).collaterals@, collateral_id);
                let total = payment_amount as int / p as int;
                let fee = fraction_of(c.fee_configuration.burn_fee_percentage as int, total);
                let collateral_out = total - fee;
                if collateral_out < min_amount_out {
                    r == Err::<u128, ProtocolError>(ProtocolError::BelowMinimumOutput)
                } else if c.pool.collateral_amount < collateral_out {
                    r == Err::<u128, ProtocolError>(ProtocolError::InsufficientPoolCollateral)
                } else if c.pool.stablecoin_amount < payment_amount {
                    r == Err::<u128, ProtocolError>(ProtocolError::ExcessiveStablecoinPayment)
                } else {
                    r is Ok && r->Ok_0 == collateral_out && final(st).collaterals@ == old(
                        st,
                    ).collaterals@.update(
                        i,
                        (Collateral {
                            pool: (Pool {
                                collateral_amount: (c.pool.collateral_amount
                                    - collateral_out) as u128,
                                stablecoin_amount: (c.pool.stablecoin_amount
                                    - payment_amount) as u128,
                                ..c.pool
                            }),
                            accumulated_fees: (c.accumulated_fees + fee) as u128,
                            ..c
                        }),
                    ) && final(st).positions == old(st).positions
                        && final(st).liquidity_share_balances == old(st).liquidity_share_balances
                        && final(st).stablecoin_token_id == old(st).stablecoin_token_id
                }
            })),
    ;
}

impl StableSeekers for Seekers {
    fn sell_collateral(
        &self,
        st: &mut ProtocolState,
        payment_token: u64,
        payment_amount: u128,
        min_amount_out: u128,
        price: Option<u128>,
    ) -> Result<u128, ProtocolError> {
        let i = match st.find_collateral(payment_token) {
            Some(i) => i,
            None => {
                return Err(ProtocolError::UnknownOrUnwhitelistedCollateral);
            },
        };
        let p = match price {
            Some(p) => p,
            None => {
                return Err(ProtocolError::PriceUnavailable);
            },
        };
        let c = st.collaterals[i];
        let fees_amount_in_collateral = crate::math::percentage_of(
            c.fee_configuration.mint_fee_percentage,
            payment_amount,
        );
        let collateral_amount = payment_amount - fees_amount_in_collateral;
        let stablecoin_amount = p * collateral_amount;
        if stablecoin_amount < min_amount_out {
            return Err(ProtocolError::BelowMinimumOutput);
        }
        st.set_collateral(
            i,
            Collateral {
                pool: Pool {
                    collateral_amount: c.pool.collateral_amount + collateral_amount,
                    stablecoin_amount: c.pool.stablecoin_amount + stablecoin_amount,
                    ..c.pool
                },
                accumulated_fees: c.accumulated_fees + fees_amount_in_collateral,
                ..c
            },
        );
        Ok(stablecoin_amount)
    }

    fn buy_collateral(
        &self,
        st: &mut ProtocolState,
        payment_token: u64,
        payment_amount: u128,
        collateral_id: u64,
        min_amount_out: u128,
        price: Option<u128>,
    ) -> Result<u128, ProtocolError> {
        if payment_token != st.stablecoin_token_id {
            return Err(ProtocolError::WrongPaymentToken);
        }
        let i = match st.find_collateral(collateral_id) {
            Some(i) => i,
            None => {
                return Err(ProtocolError::UnknownOrUnwhitelistedCollateral);
            },
        };
        let p = match price {
            Some(p) => p,
            None => {
                return Err(ProtocolError::PriceUnavailable);
            },
        };
        let c = st.collaterals[i];
        let total_value_in_collateral = payment_amount / p;
        let fees_amount_in_collateral = crate::math::percentage_of(
            c.fee_configuration.burn_fee_percentage,
            total_value_in_collateral,
        );
        let collateral_amount = total_value_in_collateral - fees_amount_in_collateral;
        if collateral_amount < min_amount_out {
            return Err(ProtocolError::BelowMinimumOutput);
        }
        if c.pool.collateral_amount < collateral_amount {
            return Err(ProtocolError::InsufficientPoolCollateral);
        }
        if c.pool.stablecoin_amount < payment_amount {
            return Err(ProtocolError::ExcessiveStablecoinPayment);
        }
        st.set_collateral(
            i,
            Collateral {
                pool: Pool {
                    collateral_amount: c.pool.collateral_amount - collateral_amount,
                    stablecoin_amount: c.pool.stablecoin_amount - payment_amount,
                    ..c.pool
                },
                accumulated_fees: c.accumulated_fees + fees_amount_in_collateral,
                ..c
            },
        );
        Ok(collateral_amount)
    }
}

} // verus!
