use stablecoin_v2::errors::ProtocolError;
use stablecoin_v2::fees::CurrentFeeConfiguration;
use stablecoin_v2::hedging::HedgingPosition;
use stablecoin_v2::keepers::{Keepers, KeepersModule};
use stablecoin_v2::math::{divide, multiply, percentage_of, ratio, ONE};
use stablecoin_v2::pool::Pool;
use stablecoin_v2::seekers::{Seekers, StableSeekers};
use stablecoin_v2::state::{Collateral, ProtocolState};

const STABLECOIN_ID: u64 = 1;
const COLLATERAL_ID: u64 = 7;

fn collateral_with_pool(pool: Pool) -> Collateral {
    Collateral {
        collateral_id: COLLATERAL_ID,
        precision: 1,
        pool,
        fee_configuration: CurrentFeeConfiguration {
            hedging_ratio: 0,
            mint_fee_percentage: 0,
            burn_fee_percentage: 0,
        },
        accumulated_fees: 0,
        liq_provider_fee_reward_percentage: 0,
        hedging_maintenance_ratio: 0,
        limit_hedge_percentage: 0,
        liq_sft_nonce: 1,
    }
}

fn state_with(c: Collateral) -> ProtocolState {
    let mut st = ProtocolState::new(STABLECOIN_ID);
    st.whitelist_collateral(c);
    st
}

#[test]
fn rebalance_appreciation_example() {
    // collateral precision: one unit worth a whole dollar scale; price 2.0
    let pool = Pool {
        collateral_amount: 100,
        stablecoin_amount: 150 * ONE,
        collateral_reserves: 0,
        total_covered_value_in_stablecoin: 0,
    };
    let mut st = state_with(collateral_with_pool(pool));
    let keepers = Keepers;
    let r = keepers.rebalance_pool(&mut st, COLLATERAL_ID, Some(2 * ONE));
    assert_eq!(r, Ok(()));
    let c = st.get_collateral(COLLATERAL_ID).unwrap();
    assert_eq!(c.pool.collateral_reserves, 25);
    assert_eq!(c.pool.stablecoin_amount, 200 * ONE);
    assert_eq!(c.pool.collateral_amount, 100);
}

#[test]
fn rebalance_depreciation_example() {
    // price falls to 1.5: missing collateral is the floor of 33.33
    let pool = Pool {
        collateral_amount: 100,
        stablecoin_amount: 200 * ONE,
        collateral_reserves: 33,
        total_covered_value_in_stablecoin: 0,
    };
    let mut st = state_with(collateral_with_pool(pool));
    let keepers = Keepers;
    let r = keepers.rebalance_pool(&mut st, COLLATERAL_ID, Some(ONE + ONE / 2));
    assert_eq!(r, Ok(()));
    let c = st.get_collateral(COLLATERAL_ID).unwrap();
    assert_eq!(c.pool.collateral_reserves, 0);
    assert_eq!(c.pool.stablecoin_amount, 150 * ONE);
}

#[test]
fn rebalance_insufficient_reserves_rolls_back() {
    let pool = Pool {
        collateral_amount: 100,
        stablecoin_amount: 200 * ONE,
        collateral_reserves: 32,
        total_covered_value_in_stablecoin: 0,
    };
    let mut st = state_with(collateral_with_pool(pool));
    let before = st.clone();
    let keepers = Keepers;
    let r = keepers.rebalance_pool(&mut st, COLLATERAL_ID, Some(ONE + ONE / 2));
    assert_eq!(r, Err(ProtocolError::InsufficientReserves));
    assert_eq!(st, before);
}

#[test]
fn rebalance_same_price_is_idempotent() {
    let pool = Pool {
        collateral_amount: 100,
        stablecoin_amount: 150 * ONE,
        collateral_reserves: 5,
        total_covered_value_in_stablecoin: 0,
    };
    let mut st = state_with(collateral_with_pool(pool));
    let keepers = Keepers;
    assert_eq!(keepers.rebalance_pool(&mut st, COLLATERAL_ID, Some(2 * ONE)), Ok(()));
    let after_first = st.clone();
    assert_eq!(keepers.rebalance_pool(&mut st, COLLATERAL_ID, Some(2 * ONE)), Ok(()));
    assert_eq!(st, after_first);
}

#[test]
fn rebalance_price_rise_grows_reserves_by_formula() {
    // price rises 1.0 -> 1.25: reserves grow by 100 * 0.25 / 1.25 = 20
    let pool = Pool {
        collateral_amount: 100,
        stablecoin_amount: 100 * ONE,
        collateral_reserves: 3,
        total_covered_value_in_stablecoin: 0,
    };
    let mut st = state_with(collateral_with_pool(pool));
    let keepers = Keepers;
    let r = keepers.rebalance_pool(&mut st, COLLATERAL_ID, Some(ONE + ONE / 4));
    assert_eq!(r, Ok(()));
    let c = st.get_collateral(COLLATERAL_ID).unwrap();
    assert_eq!(c.pool.collateral_reserves, 23);
    assert_eq!(c.pool.stablecoin_amount, 125 * ONE);
}

#[test]
fn rebalance_unknown_collateral_fails() {
    let mut st = ProtocolState::new(STABLECOIN_ID);
    let before = st.clone();
    let keepers = Keepers;
    let r = keepers.rebalance_pool(&mut st, 99, Some(ONE));
    assert_eq!(r, Err(ProtocolError::UnknownOrUnwhitelistedCollateral));
    assert_eq!(st, before);
}

#[test]
fn rebalance_without_quote_fails() {
    let pool = Pool {
        collateral_amount: 1,
        stablecoin_amount: ONE,
        collateral_reserves: 0,
        total_covered_value_in_stablecoin: 0,
    };
    let mut st = state_with(collateral_with_pool(pool));
    let before = st.clone();
    let keepers = Keepers;
    let r = keepers.rebalance_pool(&mut st, COLLATERAL_ID, None);
    assert_eq!(r, Err(ProtocolError::PriceUnavailable));
    assert_eq!(st, before);
}

#[test]
fn update_fees_overwrites_configuration() {
    let pool = Pool {
        collateral_amount: 100,
        stablecoin_amount: 200 * ONE,
        collateral_reserves: 0,
        total_covered_value_in_stablecoin: 50 * ONE,
    };
    let mut st = state_with(collateral_with_pool(pool));
    let keepers = Keepers;
    let r = keepers.update_fees_percentage(&mut st, COLLATERAL_ID, ONE / 100, ONE / 50);
    assert_eq!(r, Ok(()));
    let c = st.get_collateral(COLLATERAL_ID).unwrap();
    // hedging ratio: 50 / 200 = 0.25
    assert_eq!(c.fee_configuration.hedging_ratio, ONE / 4);
    assert_eq!(c.fee_configuration.mint_fee_percentage, ONE / 100);
    assert_eq!(c.fee_configuration.burn_fee_percentage, ONE / 50);
}

#[test]
fn update_fees_zero_liability_means_zero_ratio() {
    let pool = Pool {
        collateral_amount: 0,
        stablecoin_amount: 0,
        collateral_reserves: 0,
        total_covered_value_in_stablecoin: 5 * ONE,
    };
    let mut st = state_with(collateral_with_pool(pool));
    let keepers = Keepers;
    assert_eq!(keepers.update_fees_percentage(&mut st, COLLATERAL_ID, 0, 0), Ok(()));
    let c = st.get_collateral(COLLATERAL_ID).unwrap();
    assert_eq!(c.fee_configuration.hedging_ratio, 0);
}

#[test]
fn split_fees_conserves_value_and_clears_accumulator() {
    let pool = Pool {
        collateral_amount: 0,
        stablecoin_amount: 0,
        collateral_reserves: 10,
        total_covered_value_in_stablecoin: 0,
    };
    let mut c = collateral_with_pool(pool);
    c.accumulated_fees = 1001;
    // 30% of the accumulated fees go to liquidity providers
    c.liq_provider_fee_reward_percentage = 3 * ONE / 10;
    let mut st = state_with(c);
    let keepers = Keepers;
    let r = keepers.split_fees(&mut st, COLLATERAL_ID);
    assert_eq!(r, Ok(()));
    let after = st.get_collateral(COLLATERAL_ID).unwrap();
    let lp_share = st.get_liquidity_share_balance(1);
    let leftover = after.pool.collateral_reserves - 10;
    assert_eq!(after.accumulated_fees, 0);
    assert_eq!(lp_share, 300);
    assert_eq!(leftover, 701);
    assert_eq!(lp_share + leftover, 1001);
}

#[test]
fn split_fees_unknown_collateral_fails() {
    let mut st = ProtocolState::new(STABLECOIN_ID);
    let before = st.clone();
    let keepers = Keepers;
    let r = keepers.split_fees(&mut st, 99);
    assert_eq!(r, Err(ProtocolError::UnknownOrUnwhitelistedCollateral));
    assert_eq!(st, before);
}

#[test]
fn sell_collateral_mints_and_collects_fee() {
    let pool = Pool {
        collateral_amount: 1000,
        stablecoin_amount: 1000 * ONE,
        collateral_reserves: 0,
        total_covered_value_in_stablecoin: 0,
    };
    let mut c = collateral_with_pool(pool);
    // 1% mint fee
    c.fee_configuration.mint_fee_percentage = ONE / 100;
    let mut st = state_with(c);
    let seekers = Seekers;
    let r = seekers.sell_collateral(&mut st, COLLATERAL_ID, 200, 0, Some(2 * ONE));
    // fee: 2 collateral units; net 198; stablecoin out: 396 * ONE
    assert_eq!(r, Ok(396 * ONE));
    let after = st.get_collateral(COLLATERAL_ID).unwrap();
    assert_eq!(after.pool.collateral_amount, 1198);
    assert_eq!(after.pool.stablecoin_amount, 1000 * ONE + 396 * ONE);
    assert_eq!(after.accumulated_fees, 2);
}

#[test]
fn sell_collateral_below_minimum_rolls_back() {
    let pool = Pool {
        collateral_amount: 1000,
        stablecoin_amount: 1000 * ONE,
        collateral_reserves: 0,
        total_covered_value_in_stablecoin: 0,
    };
    let mut st = state_with(collateral_with_pool(pool));
    let before = st.clone();
    let seekers = Seekers;
    let r = seekers.sell_collateral(&mut st, COLLATERAL_ID, 100, 201 * ONE, Some(2 * ONE));
    assert_eq!(r, Err(ProtocolError::BelowMinimumOutput));
    assert_eq!(st, before);
}

#[test]
fn sell_collateral_unknown_collateral_fails() {
    let mut st = ProtocolState::new(STABLECOIN_ID);
    let seekers = Seekers;
    let r = seekers.sell_collateral(&mut st, 99, 100, 0, Some(ONE));
    assert_eq!(r, Err(ProtocolError::UnknownOrUnwhitelistedCollateral));
}

#[test]
fn buy_collateral_burns_and_collects_fee() {
    let pool = Pool {
        collateral_amount: 1000,
        stablecoin_amount: 1000 * ONE,
        collateral_reserves: 0,
        total_covered_value_in_stablecoin: 0,
    };
    let mut c = collateral_with_pool(pool);
    // 2% burn fee
    c.fee_configuration.burn_fee_percentage = 2 * ONE / 100;
    let mut st = state_with(c);
    let seekers = Seekers;
    let r = seekers.buy_collateral(&mut st, STABLECOIN_ID, 400 * ONE, COLLATERAL_ID, 0, Some(2 * ONE));
    // 400 stablecoin buys 200 collateral equivalent; fee 4; output 196
    assert_eq!(r, Ok(196));
    let after = st.get_collateral(COLLATERAL_ID).unwrap();
    assert_eq!(after.pool.collateral_amount, 804);
    assert_eq!(after.pool.stablecoin_amount, 600 * ONE);
    assert_eq!(after.accumulated_fees, 4);
}

#[test]
fn buy_collateral_wrong_payment_token_fails() {
    let pool = Pool {
        collateral_amount: 10,
        stablecoin_amount: 10 * ONE,
        collateral_reserves: 0,
        total_covered_value_in_stablecoin: 0,
    };
    let mut st = state_with(collateral_with_pool(pool));
    let before = st.clone();
    let seekers = Seekers;
    let r = seekers.buy_collateral(&mut st, COLLATERAL_ID, ONE, COLLATERAL_ID, 0, Some(ONE));
    assert_eq!(r, Err(ProtocolError::WrongPaymentToken));
    assert_eq!(st, before);
}

#[test]
fn buy_collateral_below_minimum_fails() {
    let pool = Pool {
        collateral_amount: 1000,
        stablecoin_amount: 1000 * ONE,
        collateral_reserves: 0,
        total_covered_value_in_stablecoin: 0,
    };
    let mut st = state_with(collateral_with_pool(pool));
    let seekers = Seekers;
    let r = seekers.buy_collateral(&mut st, STABLECOIN_ID, 10 * ONE, COLLATERAL_ID, 11, Some(ONE));
    assert_eq!(r, Err(ProtocolError::BelowMinimumOutput));
}

#[test]
fn buy_collateral_insufficient_pool_collateral_rolls_back() {
    let pool = Pool {
        collateral_amount: 5,
        stablecoin_amount: 1000 * ONE,
        collateral_reserves: 0,
        total_covered_value_in_stablecoin: 0,
    };
    let mut st = state_with(collateral_with_pool(pool));
    let before = st.clone();
    let seekers = Seekers;
    let r = seekers.buy_collateral(&mut st, STABLECOIN_ID, 10 * ONE, COLLATERAL_ID, 0, Some(ONE));
    assert_eq!(r, Err(ProtocolError::InsufficientPoolCollateral));
    assert_eq!(st, before);
}

#[test]
fn buy_collateral_excessive_stablecoin_payment_rolls_back() {
    let pool = Pool {
        collateral_amount: 1000,
        stablecoin_amount: 5 * ONE,
        collateral_reserves: 0,
        total_covered_value_in_stablecoin: 0,
    };
    let mut st = state_with(collateral_with_pool(pool));
    let before = st.clone();
    let seekers = Seekers;
    let r = seekers.buy_collateral(&mut st, STABLECOIN_ID, 10 * ONE, COLLATERAL_ID, 0, Some(ONE));
    assert_eq!(r, Err(ProtocolError::ExcessiveStablecoinPayment));
    assert_eq!(st, before);
}

#[test]
fn sell_then_buy_round_trip_never_gains() {
    let pool = Pool {
        collateral_amount: 10_000,
        stablecoin_amount: 10_000 * ONE,
        collateral_reserves: 0,
        total_covered_value_in_stablecoin: 0,
    };
    let mut c = collateral_with_pool(pool);
    c.fee_configuration.mint_fee_percentage = ONE / 100;
    c.fee_configuration.burn_fee_percentage = ONE / 100;
    let mut st = state_with(c);
    let seekers = Seekers;
    let minted = seekers
        .sell_collateral(&mut st, COLLATERAL_ID, 500, 0, Some(3 * ONE))
        .unwrap();
    let returned = seekers
        .buy_collateral(&mut st, STABLECOIN_ID, minted, COLLATERAL_ID, 0, Some(3 * ONE))
        .unwrap();
    assert!(returned < 500);
}

#[test]
fn sell_then_buy_round_trip_zero_fees_is_exact() {
    let pool = Pool {
        collateral_amount: 10_000,
        stablecoin_amount: 10_000 * ONE,
        collateral_reserves: 0,
        total_covered_value_in_stablecoin: 0,
    };
    let mut st = state_with(collateral_with_pool(pool));
    let seekers = Seekers;
    let minted = seekers
        .sell_collateral(&mut st, COLLATERAL_ID, 500, 0, Some(3 * ONE))
        .unwrap();
    let returned = seekers
        .buy_collateral(&mut st, STABLECOIN_ID, minted, COLLATERAL_ID, 0, Some(3 * ONE))
        .unwrap();
    assert_eq!(returned, 500);
}

#[test]
fn margin_ratio_example() {
    // deposit 100 over covered 500, price fell 1.0 -> 0.8:
    // 0.2 - (1.25 - 1) = -0.05
    let keepers = Keepers;
    let position = HedgingPosition {
        collateral_id: COLLATERAL_ID,
        deposit_amount: 100,
        covered_amount: 500,
        oracle_value_at_deposit_time: ONE,
        withdraw_amount_after_force_close: None,
    };
    let margin = keepers.calculate_margin_ratio(&position, 8 * ONE / 10);
    assert_eq!(margin, -((ONE / 20) as i128));
}

#[test]
fn margin_ratio_rewards_appreciation() {
    // price rose 1.0 -> 1.25: 0.2 + (1 - 0.8) = 0.4
    let keepers = Keepers;
    let position = HedgingPosition {
        collateral_id: COLLATERAL_ID,
        deposit_amount: 100,
        covered_amount: 500,
        oracle_value_at_deposit_time: ONE,
        withdraw_amount_after_force_close: None,
    };
    let margin = keepers.calculate_margin_ratio(&position, ONE + ONE / 4);
    assert_eq!(margin, (2 * ONE / 5) as i128);
}

#[test]
fn liquidate_unhealthy_position_erases_record() {
    let pool = Pool {
        collateral_amount: 1000,
        stablecoin_amount: 1000 * ONE,
        collateral_reserves: 0,
        total_covered_value_in_stablecoin: 500 * ONE,
    };
    let mut c = collateral_with_pool(pool);
    c.hedging_maintenance_ratio = ONE / 20;
    let mut st = state_with(c);
    st.insert_hedging_position(
        42,
        HedgingPosition {
            collateral_id: COLLATERAL_ID,
            deposit_amount: 100,
            covered_amount: 500,
            oracle_value_at_deposit_time: ONE,
            withdraw_amount_after_force_close: None,
        },
    );
    let keepers = Keepers;
    // margin -0.05 <= maintenance 0.05: liquidation succeeds
    let r = keepers.liquidate_hedging_position(&mut st, 42, Some(8 * ONE / 10));
    assert_eq!(r, Ok(()));
    assert!(st.get_hedging_position(42).is_none());
}

#[test]
fn liquidate_healthy_position_fails() {
    let pool = Pool {
        collateral_amount: 1000,
        stablecoin_amount: 1000 * ONE,
        collateral_reserves: 0,
        total_covered_value_in_stablecoin: 500 * ONE,
    };
    let mut c = collateral_with_pool(pool);
    c.hedging_maintenance_ratio = ONE / 20;
    let mut st = state_with(c);
    st.insert_hedging_position(
        42,
        HedgingPosition {
            collateral_id: COLLATERAL_ID,
            deposit_amount: 100,
            covered_amount: 500,
            oracle_value_at_deposit_time: ONE,
            withdraw_amount_after_force_close: None,
        },
    );
    let before = st.clone();
    let keepers = Keepers;
    let r = keepers.liquidate_hedging_position(&mut st, 42, Some(ONE));
    assert_eq!(r, Err(ProtocolError::PositionStillHealthy));
    assert_eq!(st, before);
}

#[test]
fn liquidate_missing_position_fails() {
    let mut st = ProtocolState::new(STABLECOIN_ID);
    let keepers = Keepers;
    let r = keepers.liquidate_hedging_position(&mut st, 42, Some(ONE));
    assert_eq!(r, Err(ProtocolError::PositionAlreadyLiquidated));
}

#[test]
fn liquidate_force_closed_position_fails() {
    let pool = Pool {
        collateral_amount: 10,
        stablecoin_amount: 10 * ONE,
        collateral_reserves: 0,
        total_covered_value_in_stablecoin: 100 * ONE,
    };
    let mut st = state_with(collateral_with_pool(pool));
    st.insert_hedging_position(
        42,
        HedgingPosition {
            collateral_id: COLLATERAL_ID,
            deposit_amount: 1,
            covered_amount: 1,
            oracle_value_at_deposit_time: ONE,
            withdraw_amount_after_force_close: Some(3),
        },
    );
    let before = st.clone();
    let keepers = Keepers;
    let r = keepers.liquidate_hedging_position(&mut st, 42, Some(ONE));
    assert_eq!(r, Err(ProtocolError::PositionAlreadyClosed));
    assert_eq!(st, before);
}

#[test]
fn liquidate_without_quote_fails() {
    let pool = Pool {
        collateral_amount: 10,
        stablecoin_amount: 10 * ONE,
        collateral_reserves: 0,
        total_covered_value_in_stablecoin: 0,
    };
    let mut st = state_with(collateral_with_pool(pool));
    st.insert_hedging_position(
        42,
        HedgingPosition {
            collateral_id: COLLATERAL_ID,
            deposit_amount: 1,
            covered_amount: 1,
            oracle_value_at_deposit_time: ONE,
            withdraw_amount_after_force_close: None,
        },
    );
    let keepers = Keepers;
    let r = keepers.liquidate_hedging_position(&mut st, 42, None);
    assert_eq!(r, Err(ProtocolError::PriceUnavailable));
}

#[test]
fn force_close_past_limit_records_withdrawal() {
    let pool = Pool {
        collateral_amount: 1000,
        stablecoin_amount: 1000 * ONE,
        collateral_reserves: 0,
        total_covered_value_in_stablecoin: 600,
    };
    let mut c = collateral_with_pool(pool);
    // limit hedge amount: 50% of the pool's collateral
    c.limit_hedge_percentage = ONE / 2;
    let mut st = state_with(c);
    st.insert_hedging_position(
        42,
        HedgingPosition {
            collateral_id: COLLATERAL_ID,
            deposit_amount: 100,
            covered_amount: 500,
            oracle_value_at_deposit_time: ONE,
            withdraw_amount_after_force_close: None,
        },
    );
    let keepers = Keepers;
    // covered 600 > limit 500: force close allowed
    let r = keepers.force_close_hedging_position(&mut st, 42, 77);
    assert_eq!(r, Ok(()));
    let position = st.get_hedging_position(42).unwrap();
    assert_eq!(position.withdraw_amount_after_force_close, Some(77));
}

#[test]
fn force_close_below_limit_fails() {
    let pool = Pool {
        collateral_amount: 1000,
        stablecoin_amount: 1000 * ONE,
        collateral_reserves: 0,
        total_covered_value_in_stablecoin: 400,
    };
    let mut c = collateral_with_pool(pool);
    c.limit_hedge_percentage = ONE / 2;
    let mut st = state_with(c);
    st.insert_hedging_position(
        42,
        HedgingPosition {
            collateral_id: COLLATERAL_ID,
            deposit_amount: 100,
            covered_amount: 500,
            oracle_value_at_deposit_time: ONE,
            withdraw_amount_after_force_close: None,
        },
    );
    let before = st.clone();
    let keepers = Keepers;
    let r = keepers.force_close_hedging_position(&mut st, 42, 77);
    assert_eq!(r, Err(ProtocolError::ForceCloseThresholdNotReached));
    assert_eq!(st, before);
}

#[test]
fn force_close_missing_position_fails() {
    let mut st = ProtocolState::new(STABLECOIN_ID);
    let keepers = Keepers;
    let r = keepers.force_close_hedging_position(&mut st, 42, 77);
    assert_eq!(r, Err(ProtocolError::PositionAlreadyLiquidated));
}

#[test]
fn math_primitives_truncate() {
    assert_eq!(multiply(100, 2 * ONE, ONE), 200);
    assert_eq!(divide(50 * ONE, ONE + ONE / 2, 1), 33);
    assert_eq!(ratio(100, 500), ONE / 5);
    assert_eq!(percentage_of(3 * ONE / 10, 1001), 300);
    assert_eq!(percentage_of(0, 12345), 0);
    assert_eq!(percentage_of(ONE, 12345), 12345);
}

#[test]
fn share_balances_accumulate_across_splits() {
    let pool = Pool {
        collateral_amount: 0,
        stablecoin_amount: 0,
        collateral_reserves: 0,
        total_covered_value_in_stablecoin: 0,
    };
    let mut c = collateral_with_pool(pool);
    c.accumulated_fees = 100;
    c.liq_provider_fee_reward_percentage = ONE;
    let mut st = state_with(c);
    let keepers = Keepers;
    assert_eq!(keepers.split_fees(&mut st, COLLATERAL_ID), Ok(()));
    assert_eq!(st.get_liquidity_share_balance(1), 100);
    assert_eq!(st.get_liquidity_share_balance(2), 0);
    // nothing left to split: a second call credits nothing
    assert_eq!(keepers.split_fees(&mut st, COLLATERAL_ID), Ok(()));
    assert_eq!(st.get_liquidity_share_balance(1), 100);
}

#[test]
fn can_force_close_matches_force_close_decision() {
    let pool = Pool {
        collateral_amount: 1000,
        stablecoin_amount: 1000 * ONE,
        collateral_reserves: 0,
        total_covered_value_in_stablecoin: 600,
    };
    let mut c = collateral_with_pool(pool);
    c.limit_hedge_percentage = ONE / 2;
    let mut st = state_with(c);
    st.insert_hedging_position(
        42,
        HedgingPosition {
            collateral_id: COLLATERAL_ID,
            deposit_amount: 100,
            covered_amount: 500,
            oracle_value_at_deposit_time: ONE,
            withdraw_amount_after_force_close: None,
        },
    );
    let keepers = Keepers;
    assert_eq!(keepers.can_force_close(&st, 42), Ok(()));
    assert_eq!(
        keepers.can_force_close(&st, 43),
        Err(ProtocolError::PositionAlreadyLiquidated)
    );
    assert_eq!(keepers.force_close_hedging_position(&mut st, 42, 9), Ok(()));
}

#[test]
fn force_close_twice_fails() {
    let pool = Pool {
        collateral_amount: 1000,
        stablecoin_amount: 1000 * ONE,
        collateral_reserves: 0,
        total_covered_value_in_stablecoin: 600,
    };
    let mut c = collateral_with_pool(pool);
    c.limit_hedge_percentage = ONE / 2;
    let mut st = state_with(c);
    st.insert_hedging_position(
        42,
        HedgingPosition {
            collateral_id: COLLATERAL_ID,
            deposit_amount: 100,
            covered_amount: 500,
            oracle_value_at_deposit_time: ONE,
            withdraw_amount_after_force_close: None,
        },
    );
    let keepers = Keepers;
    assert_eq!(keepers.force_close_hedging_position(&mut st, 42, 77), Ok(()));
    let before = st.clone();
    // a position may not be force-closed twice: the recorded withdrawal stays
    assert_eq!(
        keepers.force_close_hedging_position(&mut st, 42, 99),
        Err(ProtocolError::PositionAlreadyClosed)
    );
    assert_eq!(st, before);
    assert_eq!(keepers.can_force_close(&st, 42), Err(ProtocolError::PositionAlreadyClosed));
    assert_eq!(
        st.get_hedging_position(42).unwrap().withdraw_amount_after_force_close,
        Some(77)
    );
}

#[test]
fn can_liquidate_matches_liquidate_decision() {
    let pool = Pool {
        collateral_amount: 1000,
        stablecoin_amount: 1000 * ONE,
        collateral_reserves: 0,
        total_covered_value_in_stablecoin: 500 * ONE,
    };
    let mut c = collateral_with_pool(pool);
    c.hedging_maintenance_ratio = ONE / 20;
    let mut st = state_with(c);
    st.insert_hedging_position(
        42,
        HedgingPosition {
            collateral_id: COLLATERAL_ID,
            deposit_amount: 100,
            covered_amount: 500,
            oracle_value_at_deposit_time: ONE,
            withdraw_amount_after_force_close: None,
        },
    );
    let keepers = Keepers;
    let before = st.clone();
    assert_eq!(
        keepers.can_liquidate(&st, 42, Some(ONE)),
        Err(ProtocolError::PositionStillHealthy)
    );
    assert_eq!(keepers.can_liquidate(&st, 42, None), Err(ProtocolError::PriceUnavailable));
    assert_eq!(
        keepers.can_liquidate(&st, 43, Some(ONE)),
        Err(ProtocolError::PositionAlreadyLiquidated)
    );
    assert_eq!(keepers.can_liquidate(&st, 42, Some(8 * ONE / 10)), Ok(()));
    assert_eq!(st, before);
    assert_eq!(keepers.liquidate_hedging_position(&mut st, 42, Some(8 * ONE / 10)), Ok(()));
    assert!(st.get_hedging_position(42).is_none());
}
