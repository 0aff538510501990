//! Pricing for a collateralised-debt protocol: a fixed-pair swap and three
//! liquidation simulations over 18-decimal fixed-point ratios.
pub mod decimal;
pub mod funds;
pub mod liquidation;
pub mod swap;
