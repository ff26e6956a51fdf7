//! Wire-level data model: trades as the feed delivers them, the messages of
//! the live subscription, and the shapes of the historical-candle requests
//! and responses.

use vstd::prelude::*;

verus! {

/// A single trade execution.  Prices and quantities arrive as decimal
/// strings and stay strings here; the fold parses them (see
/// [`crate::numeric`]) and treats an unparseable value as a per-trade data
/// error.  The ordering key of trades is `(ts, id)`.
#[derive(Debug, Clone, PartialEq)]
pub struct Trade {
    pub symbol: String,
    pub amount: String,
    pub taker_side: String,
    pub quantity: String,
    pub create_time: u64,
    pub price: String,
    pub id: String,
    pub ts: u64,
}

/// An event of the live feed: either a batch of trades or a confirmation
/// of a subscription.
#[derive(Debug, Clone, PartialEq)]
pub enum PoloniexWsEvent {
    Trades { channel: String, data: Vec<Trade> },
    Confirmation { channel: String, event: String, symbols: Vec<String> },
}

/// A message the client sends over the live connection.
#[derive(Debug, Clone, PartialEq)]
pub enum WebSocketMessage {
    Subscribe { channel: Vec<String>, symbols: Vec<String> },
    Ping,
}

/// Raw historical candle rows: one vector of string fields per candle.
pub type RawKLHistory = Vec<Vec<String>>;

/// A historical-candles response: a status code, a message, and the rows.
#[derive(Debug, Clone, PartialEq)]
pub struct KL {
    pub code: u32,
    pub msg: String,
    pub data: RawKLHistory,
}

/// The intervals the historical-candles endpoint accepts.
#[derive(Debug, Clone, Copy, PartialEq, Eq, Structural)]
pub enum PoloniexKLineIntervals {
    Minute1,
    Minute5,
    Minute15,
    Minute30,
    Hour1,
    Hour2,
    Hour4,
    Hour12,
    Day1,
    Day3,
    Week1,
}

/// The wire name of each interval.
pub open spec fn interval_label(i: PoloniexKLineIntervals) -> Seq<char> {
    match i {
        PoloniexKLineIntervals::Minute1 => "MINUTE_1"@,
        PoloniexKLineIntervals::Minute5 => "MINUTE_5"@,
        PoloniexKLineIntervals::Minute15 => "MINUTE_15"@,
        PoloniexKLineIntervals::Minute30 => "MINUTE_30"@,
        PoloniexKLineIntervals::Hour1 => "HOUR_1"@,
        PoloniexKLineIntervals::Hour2 => "HOUR_2"@,
        PoloniexKLineIntervals::Hour4 => "HOUR_4"@,
        PoloniexKLineIntervals::Hour12 => "HOUR_12"@,
        PoloniexKLineIntervals::Day1 => "DAY_1"@,
        PoloniexKLineIntervals::Day3 => "DAY_3"@,
        PoloniexKLineIntervals::Week1 => "WEEK_1"@,
    }
}

impl PoloniexKLineIntervals {
    /// The name of this interval on the wire.
    pub fn as_str(&self) -> (r: &'static str)
        ensures
            r@ == interval_label(*self),
    {
        match self {
            PoloniexKLineIntervals::Minute1 => "MINUTE_1",
            PoloniexKLineIntervals::Minute5 => "MINUTE_5",
            PoloniexKLineIntervals::Minute15 => "MINUTE_15",
            PoloniexKLineIntervals::Minute30 => "MINUTE_30",
            PoloniexKLineIntervals::Hour1 => "HOUR_1",
            PoloniexKLineIntervals::Hour2 => "HOUR_2",
            PoloniexKLineIntervals::Hour4 => "HOUR_4",
            PoloniexKLineIntervals::Hour12 => "HOUR_12",
            PoloniexKLineIntervals::Day1 => "DAY_1",
            PoloniexKLineIntervals::Day3 => "DAY_3",
            PoloniexKLineIntervals::Week1 => "WEEK_1",
        }
    }
}

/// A request for historical candles.
#[derive(Debug, Clone, PartialEq)]
pub enum PoloniexRequest {
    Candles {
        symbol: String,
        interval: PoloniexKLineIntervals,
        start_time: u64,
        end_time: u64,
    },
}

/// Build the subscription message for a set of channels and symbols.
pub fn create_subscribe_message(channel: Vec<String>, symbols: Vec<String>) -> (r:
    WebSocketMessage)
    ensures
        r == (WebSocketMessage::Subscribe { channel, symbols }),
{
    WebSocketMessage::Subscribe { channel, symbols }
}

} // verus!
