//! The failure taxonomy of the protocol.
//!
//! Every public operation either succeeds with all of its described side
//! effects applied, or aborts with exactly one of these reasons and no state
//! change at all. Checks are local and terminal: the first violated
//! precondition decides the reason.

use vstd::prelude::*;

verus! {

/// The single failure reason a rejected operation reports.
#[derive(Clone, Copy, Debug, PartialEq, Eq, Structural)]
pub enum ProtocolError {
    /// The named collateral asset is not in the whitelist.
    UnknownOrUnwhitelistedCollateral,
    /// A payment or withdrawal amount is not positive.
    InvalidAmount,
    /// The pool's reserves cannot cover the requested decrease.
    InsufficientReserves,
    /// The pool holds less collateral than the swap would pay out.
    InsufficientPoolCollateral,
    /// The swap would burn more stablecoin liability than the pool backs.
    ExcessiveStablecoinPayment,
    /// The swap output falls below the caller's minimum.
    BelowMinimumOutput,
    /// A stablecoin payment was expected but another asset was paid.
    WrongPaymentToken,
    /// The token ledger lacks the local mint role.
    LocalMintRoleMissing,
    /// The hedging position was already liquidated and erased.
    PositionAlreadyLiquidated,
    /// The hedging position was already force-closed.
    PositionAlreadyClosed,
    /// The pool's covered value has not passed the force-close limit.
    ForceCloseThresholdNotReached,
    /// The position's margin ratio is still above the maintenance ratio.
    PositionStillHealthy,
    /// The price feed has no fresh quote for the collateral.
    PriceUnavailable,
}

} // verus!
