//! Accounting and risk engine of a collateral-backed stablecoin protocol.
//!
//! The crate tracks, per accepted collateral asset, a pool of deposited
//! collateral and the stablecoin liability it backs, marks that pool to
//! market against an externally supplied price, collects and redistributes
//! transaction fees, and manages the margin and liquidation of hedging
//! positions. External collaborators (price feed, fee curve, token ledger,
//! position lifecycle) hand in and take out plain values; every rule that
//! decides how the ledgers change is verified here.

pub mod errors;
pub mod fees;
pub mod hedging;
pub mod keepers;
pub mod laws;
pub mod pool;
pub mod seekers;
pub mod state;
pub mod math;
