//! Trade-to-candle aggregation engine.
//!
//! The library ingests trade records (symbol, price, quantity, side,
//! timestamp) and folds them into fixed-interval OHLCV candles aligned to
//! wall-clock boundaries.  It holds the boundary-alignment arithmetic of the
//! scheduler, the deterministic fold from trades to a candle, and the row
//! conversions consumed by the storage layer.  Prices and quantities are
//! fixed-point decimals (four fractional digits), so every computation here
//! is exact integer arithmetic.

pub mod candle;
pub mod fold;
pub mod models;
pub mod numeric;
pub mod schedule;
pub mod storage;

pub use candle::TimeFrame;
