//! The privileged keeper endpoints: mark-to-market rebalancing, fee-rate
//! updates, fee splitting, and the forced closure or liquidation of
//! hedging positions.
//!
//! Collaborator results come in as plain values: the price feed's quote as
//! an `Option` (absent when no fresh quote exists), the fee curve's output
//! percentages, and the close-position collaborator's withdrawal amount.

use vstd::prelude::*;
use crate::errors::ProtocolError;
use crate::fees::{hedging_ratio_of, CurrentFeeConfiguration};
use crate::hedging::{margin_fits, margin_ratio_of, HedgingPosition};
use crate::math::{fraction_of, ONE};
use crate::pool::{rebalance_fits, rebalance_result, Pool};
use crate::state::{
    collateral_index, has_collateral, has_position, position_index, share_balance,
    the_collateral, the_position, wf, Collateral, PositionEntry, ProtocolState,
};

verus! {

/// The keeper role's handle on the protocol state.
pub struct Keepers;

/// The machine-width bounds a pool rebalance needs, phrased over the state.
pub open spec fn rebalance_pool_fits(
    st: ProtocolState,
    collateral_id: u64,
    price: Option<u128>,
) -> bool {
    has_collateral(st.collaterals@, collateral_id) ==> (price matches Some(p) ==> p > 0
        && rebalance_fits(
        the_collateral(st.collaterals@, collateral_id).pool,
        p,
        the_collateral(st.collaterals@, collateral_id).precision,
    ))
}

/// The machine-width bound a fee-rate update needs.
pub open spec fn update_fees_fits(st: ProtocolState, collateral_id: u64) -> bool {
    has_collateral(st.collaterals@, collateral_id) ==> the_collateral(
        st.collaterals@,
        collateral_id,
    ).pool.total_covered_value_in_stablecoin * ONE <= u128::MAX
}

/// The machine-width bounds a fee split needs.
pub open spec fn split_fees_fits(st: ProtocolState, collateral_id: u64) -> bool {
    has_collateral(st.collaterals@, collateral_id) ==> ({
        let c = the_collateral(st.collaterals@, collateral_id);
        let lp = fraction_of(c.liq_provider_fee_reward_percentage as int, c.accumulated_fees as int);
        &&& c.liq_provider_fee_reward_percentage * c.accumulated_fees <= u128::MAX
        &&& share_balance(st.liquidity_share_balances@, c.liq_sft_nonce) + lp <= u128::MAX
        &&& c.pool.collateral_reserves + (c.accumulated_fees - lp) <= u128::MAX
    })
}

/// The machine-width bound a force-close needs.
pub open spec fn force_close_fits(st: ProtocolState, nft_nonce: u64) -> bool {
    has_position(st.positions@, nft_nonce) && the_position(
        st.positions@,
        nft_nonce,
    ).withdraw_amount_after_force_close is None ==> ({
        let c = the_collateral(
            st.collaterals@,
            the_position(st.positions@, nft_nonce).collateral_id,
        );
        c.limit_hedge_percentage * c.pool.collateral_amount <= u128::MAX
    })
}

/// The machine-width bounds a liquidation needs.
pub open spec fn liquidate_fits(st: ProtocolState, nft_nonce: u64, price: Option<u128>) -> bool {
    has_position(st.positions@, nft_nonce) && the_position(
        st.positions@,
        nft_nonce,
    ).withdraw_amount_after_force_close is None ==> (price matches Some(p) ==> margin_fits(
        the_position(st.positions@, nft_nonce),
        p,
    ))
}

pub trait KeepersModule: Sized {
    /// Marks the collateral's pool to market at the quoted price.
    ///
    /// Fails with `UnknownOrUnwhitelistedCollateral` when the collateral is
    /// not whitelisted, `PriceUnavailable` without a quote, and
    /// `InsufficientReserves` when a depreciation exceeds the reserve
    /// buffer; every failure leaves the state untouched.
    fn rebalance_pool(
        &self,
        st: &mut ProtocolState,
        collateral_id: u64,
        price: Option<u128>,
    ) -> (r: Result<(), ProtocolError>)
        requires
            wf(*old(st)),
            rebalance_pool_fits(*old(st), collateral_id, price),
        ensures
            wf(*final(st)),
            r is Err ==> *final(st) == *old(st),
            !has_collateral(old(st).collaterals@, collateral_id) ==> r == Err::<
                (),
                ProtocolError,
            >(ProtocolError::UnknownOrUnwhitelistedCollateral),
            has_collateral(old(st).collaterals@, collateral_id) && price is None ==> r == Err::<
                (),
                ProtocolError,
            >(ProtocolError::PriceUnavailable),
            has_collateral(old(st).collaterals@, collateral_id) ==> (price matches Some(p) ==> ({
                let i = collateral_index(old(st).collaterals@, collateral_id);
                let c = the_collateral(old(st).collaterals@, collateral_id);
                match rebalance_result(c.pool, p, c.precision) {
                    Ok(pool2) => r is Ok && final(st).collaterals@ == old(st).collaterals@.update(
                        i,
                        (Collateral { pool: pool2, ..c }),
                    ) && final(st).positions == old(st).positions
                        && final(st).liquidity_share_balances == old(st).liquidity_share_balances
                        && final(st).stablecoin_token_id == old(st).stablecoin_token_id,
                    Err(e) => r == Err::<(), ProtocolError>(e),
                }
            })),
    ;

    /// Recomputes the collateral's hedging ratio and overwrites its fee
    /// configuration with the fee curve's output percentages, wholesale.
    fn update_fees_percentage(
        &self,
        st: &mut ProtocolState,
        collateral_id: u64,
        mint_fee_percentage: u128,
        burn_fee_percentage: u128,
    ) -> (r: Result<(), ProtocolError>)
        requires
            wf(*old(st)),
            mint_fee_percentage <= ONE,
            burn_fee_percentage <= ONE,
            update_fees_fits(*old(st), collateral_id),
        ensures
            wf(*final(st)),
            r is Err ==> *final(st) == *old(st),
            !has_collateral(old(st).collaterals@, collateral_id) ==> r == Err::<
                (),
                ProtocolError,
            >(ProtocolError::UnknownOrUnwhitelistedCollateral),
            has_collateral(old(st).collaterals@, collateral_id) ==> ({
                let i = collateral_index(old(st).collaterals@, collateral_id);
                let c = the_collateral(old(st).collaterals@, collateral_id);
                let cfg = (CurrentFeeConfiguration {
                    hedging_ratio: hedging_ratio_of(
                        c.pool.total_covered_value_in_stablecoin,
                        c.pool.stablecoin_amount,
                    ) as u128,
                    mint_fee_percentage,
                    burn_fee_percentage,
                });
                r is Ok && final(st).collaterals@ == old(st).collaterals@.update(
                    i,
                    (Collateral { fee_configuration: cfg, ..c }),
                ) && final(st).positions == old(st).positions
                    && final(st).liquidity_share_balances == old(st).liquidity_share_balances
                    && final(st).stablecoin_token_id == old(st).stablecoin_token_id
            }),
    ;

    /// Splits the collateral's accumulated fees: the configured share goes
    /// to the current liquidity-share token unit, the leftover to the
    /// pool's reserves, and the accumulator is reset to zero. No value is
    /// created or destroyed: the two credits sum to the accumulated fees.
    fn split_fees(&self, st: &mut ProtocolState, collateral_id: u64) -> (r: Result<
        (),
        ProtocolError,
    >)
        requires
            wf(*old(st)),
            split_fees_fits(*old(st), collateral_id),
        ensures
            wf(*final(st)),
            r is Err ==> *final(st) == *old(st),
            !has_collateral(old(st).collaterals@, collateral_id) ==> r == Err::<
                (),
                ProtocolError,
            >(ProtocolError::UnknownOrUnwhitelistedCollateral),
            has_collateral(old(st).collaterals@, collateral_id) ==> ({
                let i = collateral_index(old(st).collaterals@, collateral_id);
                let c = the_collateral(old(st).collaterals@, collateral_id);
                let lp = fraction_of(
                    c.liq_provider_fee_reward_percentage as int,
                    c.accumulated_fees as int,
                );
                let leftover = c.accumulated_fees - lp;
                &&& r is Ok
                &&& lp + leftover == c.accumulated_fees
                &&& final(st).collaterals@ == old(st).collaterals@.update(
                    i,
                    (Collateral {
                        pool: (Pool {
                            collateral_reserves: (c.pool.collateral_reserves + leftover) as u128,
                            ..c.pool
                        }),
                        accumulated_fees: 0,
                        ..c
                    }),
                )
                &&& share_balance(final(st).liquidity_share_balances@, c.liq_sft_nonce)
                    == share_balance(old(st).liquidity_share_balances@, c.liq_sft_nonce) + lp
                &&& forall|n: u64|
                    n != c.liq_sft_nonce ==> share_balance(final(st).liquidity_share_balances@, n)
                        == share_balance(old(st).liquidity_share_balances@, n)
                &&& final(st).positions == old(st).positions
                &&& final(st).stablecoin_token_id == old(st).stablecoin_token_id
            }),
    ;

    /// Records the withdrawal a force-closed position is owed, leaving the
    /// record in place for a later claim. A position may not be
    /// force-closed twice: a record that already carries a withdrawal is
    /// rejected. May only run once the pool's covered value has passed its
    /// limit hedge amount; `withdraw_amount` is what the opaque
    /// close-position collaborator settled.
    fn force_close_hedging_position(
        &self,
        st: &mut ProtocolState,
        nft_nonce: u64,
        withdraw_amount: u128,
    ) -> (r: Result<(), ProtocolError>)
        requires
            wf(*old(st)),
            force_close_fits(*old(st), nft_nonce),
        ensures
            wf(*final(st)),
            r is Err ==> *final(st) == *old(st),
            !has_position(old(st).positions@, nft_nonce) ==> r == Err::<
                (),
                ProtocolError,
            >(ProtocolError::PositionAlreadyLiquidated),
            has_position(old(st).positions@, nft_nonce) && the_position(
                old(st).positions@,
                nft_nonce,
            ).withdraw_amount_after_force_close is Some ==> r == Err::<
                (),
                ProtocolError,
            >(ProtocolError::PositionAlreadyClosed),
            has_position(old(st).positions@, nft_nonce) && the_position(
                old(st).positions@,
                nft_nonce,
            ).withdraw_amount_after_force_close is None ==> ({
                let i = position_index(old(st).positions@, nft_nonce);
                let pos = the_position(old(st).positions@, nft_nonce);
                let c = the_collateral(old(st).collaterals@, pos.collateral_id);
                let limit = fraction_of(
                    c.limit_hedge_percentage as int,
                    c.pool.collateral_amount as int,
                );
                if c.pool.total_covered_value_in_stablecoin <= limit {
                    r == Err::<(), ProtocolError>(ProtocolError::ForceCloseThresholdNotReached)
                } else {
                    r is Ok && final(st).positions@ == old(st).positions@.update(
                        i,
                        (PositionEntry {
                            nonce: nft_nonce,
                            position: (HedgingPosition {
                                withdraw_amount_after_force_close: Some(withdraw_amount),
                                ..pos
                            }),
                        }),
                    ) && final(st).collaterals == old(st).collaterals
                        && final(st).liquidity_share_balances == old(st).liquidity_share_balances
                        && final(st).stablecoin_token_id == old(st).stablecoin_token_id
                }
            }),
    ;

    /// Decides, without touching the state, whether a position may be
    /// force-closed right now: the same checks `force_close_hedging_position`
    /// makes, so a caller can settle the closure with the position
    /// lifecycle collaborator first.
    fn can_force_close(&self, st: &ProtocolState, nft_nonce: u64) -> (r: Result<
        (),
        ProtocolError,
    >)
        requires
            wf(*st),
            force_close_fits(*st, nft_nonce),
        ensures
            !has_position(st.positions@, nft_nonce) ==> r == Err::<
                (),
                ProtocolError,
            >(ProtocolError::PositionAlreadyLiquidated),
            has_position(st.positions@, nft_nonce) && the_position(
                st.positions@,
                nft_nonce,
            ).withdraw_amount_after_force_close is Some ==> r == Err::<
                (),
                ProtocolError,
            >(ProtocolError::PositionAlreadyClosed),
            has_position(st.positions@, nft_nonce) && the_position(
                st.positions@,
                nft_nonce,
            ).withdraw_amount_after_force_close is None ==> ({
                let pos = the_position(st.positions@, nft_nonce);
                let c = the_collateral(st.collaterals@, pos.collateral_id);
                let limit = fraction_of(
                    c.limit_hedge_percentage as int,
                    c.pool.collateral_amount as int,
                );
                if c.pool.total_covered_value_in_stablecoin <= limit {
                    r == Err::<(), ProtocolError>(ProtocolError::ForceCloseThresholdNotReached)
                } else {
                    r is Ok
                }
            }),
    ;

    /// Decides, without touching the state, whether a position may be
    /// liquidated at the quoted price: the same checks
    /// `liquidate_hedging_position` makes, so a caller can settle the
    /// closure with the position lifecycle collaborator before the record
    /// is erased.
    fn can_liquidate(&self, st: &ProtocolState, nft_nonce: u64, price: Option<u128>) -> (r: Result<
        (),
        ProtocolError,
    >)
        requires
            wf(*st),
            liquidate_fits(*st, nft_nonce, price),
        ensures
            !has_position(st.positions@, nft_nonce) ==> r == Err::<
                (),
                ProtocolError,
            >(ProtocolError::PositionAlreadyLiquidated),
            has_position(st.positions@, nft_nonce) && the_position(
                st.positions@,
                nft_nonce,
            ).withdraw_amount_after_force_close is Some ==> r == Err::<
                (),
                ProtocolError,
            >(ProtocolError::PositionAlreadyClosed),
            has_position(st.positions@, nft_nonce) && the_position(
                st.positions@,
                nft_nonce,
            ).withdraw_amount_after_force_close is None && price is None ==> r == Err::<
                (),
                ProtocolError,
            >(ProtocolError::PriceUnavailable),
            has_position(st.positions@, nft_nonce) && the_position(
                st.positions@,
                nft_nonce,
            ).withdraw_amount_after_force_close is None ==> (price matches Some(p) ==> ({
                let pos = the_position(st.positions@, nft_nonce);
                let maintenance = the_collateral(
                    st.collaterals@,
                    pos.collateral_id,
                ).hedging_maintenance_ratio;
                if margin_ratio_of(pos, p) > maintenance {
                    r == Err::<(), ProtocolError>(ProtocolError::PositionStillHealthy)
                } else {
                    r is Ok
                }
            })),
    ;

    /// Liquidates an unhealthy position: erases its record entirely, so no
    /// withdrawal can later be claimed. Only positions whose margin ratio
    /// has fallen to the collateral's maintenance ratio or below qualify.
    fn liquidate_hedging_position(
        &self,
        st: &mut ProtocolState,
        nft_nonce: u64,
        price: Option<u128>,
    ) -> (r: Result<(), ProtocolError>)
        requires
            wf(*old(st)),
            liquidate_fits(*old(st), nft_nonce, price),
        ensures
            wf(*final(st)),
            r is Err ==> *final(st) == *old(st),
            !has_position(old(st).positions@, nft_nonce) ==> r == Err::<
                (),
                ProtocolError,
            >(ProtocolError::PositionAlreadyLiquidated),
            has_position(old(st).positions@, nft_nonce) && the_position(
                old(st).positions@,
                nft_nonce,
            ).withdraw_amount_after_force_close is Some ==> r == Err::<
                (),
                ProtocolError,
            >(ProtocolError::PositionAlreadyClosed),
            has_position(old(st).positions@, nft_nonce) && the_position(
                old(st).positions@,
                nft_nonce,
            ).withdraw_amount_after_force_close is None && price is None ==> r == Err::<
                (),
                ProtocolError,
            >(ProtocolError::PriceUnavailable),
            has_position(old(st).positions@, nft_nonce) && the_position(
                old(st).positions@,
                nft_nonce,
            ).withdraw_amount_after_force_close is None ==> (price matches Some(p) ==> ({
                let i = position_index(old(st).positions@, nft_nonce);
                let pos = the_position(old(st).positions@, nft_nonce);
                let maintenance = the_collateral(
                    old(st).collaterals@,
                    pos.collateral_id,
                ).hedging_maintenance_ratio;
                if margin_ratio_of(pos, p) > maintenance {
                    r == Err::<(), ProtocolError>(ProtocolError::PositionStillHealthy)
                } else {
                    r is Ok && final(st).positions@ == old(st).positions@.remove(i)
                        && final(st).collaterals == old(st).collaterals
                        && final(st).liquidity_share_balances == old(st).liquidity_share_balances
                        && final(st).stablecoin_token_id == old(st).stablecoin_token_id
                }
            })),
    ;

    /// The position's margin ratio at the given collateral price: the
    /// deposit-to-coverage ratio, raised by the collateral's appreciation
    /// since the deposit or lowered by its depreciation. Negative when the
    /// depreciation outweighs the posted margin.
    fn calculate_margin_ratio(
        &self,
        hedging_position: &HedgingPosition,
        collateral_value_in_dollars: u128,
    ) -> (r: i128)
        requires
            margin_fits(*hedging_position, collateral_value_in_dollars),
        ensures
            r as int == margin_ratio_of(*hedging_position, collateral_value_in_dollars),
    ;
}

impl KeepersModule for Keepers {
    fn rebalance_pool(
        &self,
        st: &mut ProtocolState,
        collateral_id: u64,
        price: Option<u128>,
    ) -> Result<(), ProtocolError> {
        let i = match st.find_collateral(collateral_id) {
            Some(i) => i,
            None => {
                return Err(ProtocolError::UnknownOrUnwhitelistedCollateral);
            },
        };
        let p = match price {
            Some(p) => p,
            None => {
                return Err(ProtocolError::PriceUnavailable);
            },
        };
        let c = st.collaterals[i];
        let mut pool = c.pool;
        match pool.rebalance(p, c.precision) {
            Ok(_) => {
                st.set_collateral(i, Collateral { pool, ..c });
                Ok(())
            },
            Err(e) => Err(e),
        }
    }

    fn update_fees_percentage(
        &self,
        st: &mut ProtocolState,
        collateral_id: u64,
        mint_fee_percentage: u128,
        burn_fee_percentage: u128,
    ) -> Result<(), ProtocolError> {
        let i = match st.find_collateral(collateral_id) {
            Some(i) => i,
            None => {
                return Err(ProtocolError::UnknownOrUnwhitelistedCollateral);
            },
        };
        let c = st.collaterals[i];
        let hedging_ratio: u128 = if c.pool.stablecoin_amount == 0 {
            0
        } else {
            crate::math::ratio(c.pool.total_covered_value_in_stablecoin, c.pool.stablecoin_amount)
        };
        let cfg = CurrentFeeConfiguration { hedging_ratio, mint_fee_percentage, burn_fee_percentage };
        st.set_collateral(i, Collateral { fee_configuration: cfg, ..c });
        Ok(())
    }

    fn split_fees(&self, st: &mut ProtocolState, collateral_id: u64) -> Result<
        (),
        ProtocolError,
    > {
        let i = match st.find_collateral(collateral_id) {
            Some(i) => i,
            None => {
                return Err(ProtocolError::UnknownOrUnwhitelistedCollateral);
            },
        };
        let c = st.collaterals[i];
        let liq_provider_reward = crate::math::percentage_of(
            c.liq_provider_fee_reward_percentage,
            c.accumulated_fees,
        );
        let leftover = c.accumulated_fees - liq_provider_reward;
        st.credit_liquidity_share(c.liq_sft_nonce, liq_provider_reward);
        st.set_collateral(
            i,
            Collateral {
                pool: Pool {
                    collateral_reserves: c.pool.collateral_reserves + leftover,
                    ..c.pool
                },
                accumulated_fees: 0,
                ..c
            },
        );
        Ok(())
    }

    fn force_close_hedging_position(
        &self,
        st: &mut ProtocolState,
        nft_nonce: u64,
        withdraw_amount: u128,
    ) -> Result<(), ProtocolError> {
        let i = match st.find_position(nft_nonce) {
            Some(i) => i,
            None => {
                return Err(ProtocolError::PositionAlreadyLiquidated);
            },
        };
        let pos = st.positions[i].position;
        if pos.withdraw_amount_after_force_close.is_some() {
            return Err(ProtocolError::PositionAlreadyClosed);
        }
        let ci = match st.find_collateral(pos.collateral_id) {
            Some(ci) => ci,
            None => {
                proof {
                    assert(has_collateral(st.collaterals@, st.positions@[i as int].position.collateral_id));
                }
                return Err(ProtocolError::UnknownOrUnwhitelistedCollateral);
            },
        };
        let c = st.collaterals[ci];
        let limit_hedge_amount = crate::math::percentage_of(
            c.limit_hedge_percentage,
            c.pool.collateral_amount,
        );
        if c.pool.total_covered_value_in_stablecoin <= limit_hedge_amount {
            return Err(ProtocolError::ForceCloseThresholdNotReached);
        }
        st.set_position(
            i,
            HedgingPosition { withdraw_amount_after_force_close: Some(withdraw_amount), ..pos },
        );
        Ok(())
    }

    fn can_force_close(&self, st: &ProtocolState, nft_nonce: u64) -> Result<
        (),
        ProtocolError,
    > {
        let i = match st.find_position(nft_nonce) {
            Some(i) => i,
            None => {
                return Err(ProtocolError::PositionAlreadyLiquidated);
            },
        };
        let pos = st.positions[i].position;
        if pos.withdraw_amount_after_force_close.is_some() {
            return Err(ProtocolError::PositionAlreadyClosed);
        }
        let ci = match st.find_collateral(pos.collateral_id) {
            Some(ci) => ci,
            None => {
                proof {
                    assert(has_collateral(st.collaterals@, st.positions@[i as int].position.collateral_id));
                }
                return Err(ProtocolError::UnknownOrUnwhitelistedCollateral);
            },
        };
        let c = st.collaterals[ci];
        let limit_hedge_amount = crate::math::percentage_of(
            c.limit_hedge_percentage,
            c.pool.collateral_amount,
        );
        if c.pool.total_covered_value_in_stablecoin <= limit_hedge_amount {
            return Err(ProtocolError::ForceCloseThresholdNotReached);
        }
        Ok(())
    }

    fn can_liquidate(&self, st: &ProtocolState, nft_nonce: u64, price: Option<u128>) -> Result<
        (),
        ProtocolError,
    > {
        let i = match st.find_position(nft_nonce) {
            Some(i) => i,
            None => {
                return Err(ProtocolError::PositionAlreadyLiquidated);
            },
        };
        let pos = st.positions[i].position;
        if pos.withdraw_amount_after_force_close.is_some() {
            return Err(ProtocolError::PositionAlreadyClosed);
        }
        let p = match price {
            Some(p) => p,
            None => {
                return Err(ProtocolError::PriceUnavailable);
            },
        };
        let margin_ratio = self.calculate_margin_ratio(&pos, p);
        let ci = match st.find_collateral(pos.collateral_id) {
            Some(ci) => ci,
            None => {
                proof {
                    assert(has_collateral(st.collaterals@, st.positions@[i as int].position.collateral_id));
                }
                return Err(ProtocolError::UnknownOrUnwhitelistedCollateral);
            },
        };
        let c = st.collaterals[ci];
        if margin_ratio > c.hedging_maintenance_ratio as i128 {
            return Err(ProtocolError::PositionStillHealthy);
        }
        Ok(())
    }

    fn liquidate_hedging_position(
        &self,
        st: &mut ProtocolState,
        nft_nonce: u64,
        price: Option<u128>,
    ) -> Result<(), ProtocolError> {
        let i = match st.find_position(nft_nonce) {
            Some(i) => i,
            None => {
                return Err(ProtocolError::PositionAlreadyLiquidated);
            },
        };
        let pos = st.positions[i].position;
        if pos.withdraw_amount_after_force_close.is_some() {
            return Err(ProtocolError::PositionAlreadyClosed);
        }
        let p = match price {
            Some(p) => p,
            None => {
                return Err(ProtocolError::PriceUnavailable);
            },
        };
        let margin_ratio = self.calculate_margin_ratio(&pos, p);
        let ci = match st.find_collateral(pos.collateral_id) {
            Some(ci) => ci,
            None => {
                proof {
                    assert(has_collateral(st.collaterals@, st.positions@[i as int].position.collateral_id));
                }
                return Err(ProtocolError::UnknownOrUnwhitelistedCollateral);
            },
        };
        let c = st.collaterals[ci];
        if margin_ratio > c.hedging_maintenance_ratio as i128 {
            return Err(ProtocolError::PositionStillHealthy);
        }
        st.remove_position(i);
        Ok(())
    }

    fn calculate_margin_ratio(
        &self,
        hedging_position: &HedgingPosition,
        collateral_value_in_dollars: u128,
    ) -> i128 {
        let amount_ratio = crate::math::ratio(
            hedging_position.deposit_amount,
            hedging_position.covered_amount,
        );
        let price_ratio = crate::math::ratio(
            hedging_position.oracle_value_at_deposit_time,
            collateral_value_in_dollars,
        );
        if price_ratio <= ONE {
            let diff = ONE - price_ratio;
            (amount_ratio + diff) as i128
        } else {
            let diff = price_ratio - ONE;
            (amount_ratio as i128) - (diff as i128)
        }
    }
}

} // verus!
