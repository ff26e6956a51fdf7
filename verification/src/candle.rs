//! Core data model: timeframes, fixed-point volumes, and candles.

use vstd::prelude::*;

verus! {

/// Largest mantissa a price or quantity may carry (fits 32 bits, so a
/// quantity-times-price product always fits 64 bits).
pub const MANTISSA_MAX: u64 = 0xFFFF_FFFF;

/// A configured aggregation duration with a boundary-alignment rule.
#[derive(Clone, Copy, Debug, PartialEq, Eq, Structural, Hash)]
pub enum TimeFrame {
    Minutes15,
    Hour,
}

/// Duration of a timeframe's window, in seconds.
pub open spec fn tf_duration(tf: TimeFrame) -> u64 {
    match tf {
        TimeFrame::Minutes15 => 900,
        TimeFrame::Hour => 3600,
    }
}

/// A short tag naming a timeframe, used in candle identifiers.
pub open spec fn timeframe_tag(tf: TimeFrame) -> Seq<char> {
    match tf {
        TimeFrame::Minutes15 => "15m"@,
        TimeFrame::Hour => "1h"@,
    }
}

impl TimeFrame {
    /// Duration of this timeframe's window, in seconds.
    pub fn duration_secs(&self) -> (r: u64)
        ensures
            r == tf_duration(*self),
    {
        match self {
            TimeFrame::Minutes15 => 900,
            TimeFrame::Hour => 3600,
        }
    }

    /// A short tag naming this timeframe.
    pub fn tag(&self) -> (r: &'static str)
        ensures
            r@ == timeframe_tag(*self),
    {
        match self {
            TimeFrame::Minutes15 => "15m",
            TimeFrame::Hour => "1h",
        }
    }
}

/// Buy/sell volume totals of one candle, as fixed-point mantissas.  The
/// base amounts carry four fractional digits (scale `10^4`); the quote
/// amounts are sums of quantity-times-price products and carry eight
/// (scale `10^8`).
#[derive(Debug, Clone, PartialEq)]
pub struct Vbs {
    pub buy_base: u128,
    pub sell_base: u128,
    pub buy_quote: u128,
    pub sell_quote: u128,
}

/// An OHLCV summary of the trades of one symbol over the half-open window
/// `[utc_begin, utc_end)`.  Prices are fixed-point mantissas (scale
/// `10^4`); timestamps are seconds since the epoch.
#[derive(Debug, Clone, PartialEq)]
pub struct Kline {
    pub pair: String,
    pub timeframe: TimeFrame,
    pub open: u64,
    pub high: u64,
    pub low: u64,
    pub close: u64,
    pub utc_begin: u64,
    pub utc_end: u64,
    pub volume_bs: Vbs,
}

/// The invariant of a candle: the window is exactly one timeframe wide,
/// the extremes bound open and close, prices are representable mantissas,
/// and the volume totals of the two sides can still be added without
/// leaving `u128`.
pub open spec fn well_formed(k: Kline) -> bool {
    &&& k.low <= k.open <= k.high
    &&& k.low <= k.close <= k.high
    &&& k.high <= MANTISSA_MAX
    &&& k.utc_begin < k.utc_end
    &&& k.utc_end - k.utc_begin == tf_duration(k.timeframe)
    &&& k.volume_bs.buy_base + k.volume_bs.sell_base <= u128::MAX
    &&& k.volume_bs.buy_quote + k.volume_bs.sell_quote <= u128::MAX
}

} // verus!
