//! Commodity price oracle core: consensus over CFD quotes, per-tick guards,
//! an EMA reference and a capped funding rate, all in fixed-point integers.
//!
//! Prices are positive integer mantissas in a unit chosen by the caller (for
//! example 1e-8 of the quote currency). Fractions (steps, caps, rates,
//! coefficients) are parts per million, so `1_000_000` stands for one.
mod clock;
pub mod cfd_index;
pub mod cmf;
pub mod config;
pub mod decay;
pub mod consensus;
pub mod funding;
pub mod guards;
pub mod index;
pub mod metrics;
pub mod oracle;
pub mod providers;
pub mod publishing;
pub mod risk;
pub mod stats;
pub mod types;
