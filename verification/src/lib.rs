//! Grid-based trading strategies over exact base-10 fixed-point prices.
//!
//! A price interval is partitioned into independently funded trading zones
//! (`Position`), each holding inventory in a base and a quote asset and
//! firing buys and sells through a pluggable `Trader` capability as market
//! prices move. Two strategies build the initial zones: `Grid` cuts the
//! range into evenly spaced rungs, `GridPercent` into a geometric ladder.
//! Executed fills (`Trade`) carry a cost model and fold into aggregate
//! statistics (`Evaluate`).
//!
//! All quantities are `decimal::Decimal` values — 96-bit base-10
//! fixed-point numbers with explicit truncation, never rounding, at the
//! documented digit counts — and every contract is stated over their exact
//! mathematical model.

pub mod decimal;
pub mod evaluate;
pub mod grid;
pub mod grid_percent;
pub mod math;
pub mod position;
pub mod strategy;
pub mod time;
pub mod trade;
