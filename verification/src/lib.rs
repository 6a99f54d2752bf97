//! Fixed-point pricing arithmetic for a two-asset automated market maker.
//!
//! The crate is layered, leaves first:
//!
//! * [`error`]: the failure taxonomy shared by every operation.
//! * [`wide`]: exact `a * b / d` on 128-bit integers with a 256-bit intermediate.
//! * [`root`]: the integer square root and its bounded Newton iteration.
//! * [`decimal`]: the scaled decimal type at the fixed compute scale.
//! * [`liquidity`]: the pool invariant and share issuance / redemption.
//! * [`swap`]: constant-product and oracle-blended swap pricing.
//! * [`laws`]: what holds of pricing whatever the inputs.
//! * [`pyth`]: the checks on a pair of oracle accounts.
//! * [`ledger`]: the rules that the ledger side applies around a swap or a stake.
pub mod error;
pub mod wide;
pub mod root;
pub mod decimal;
pub mod liquidity;
pub mod swap;
pub mod laws;
pub mod pyth;
pub mod ledger;
