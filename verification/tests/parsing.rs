use kline_aggregator::candle::{Kline, TimeFrame, Vbs};
use kline_aggregator::models::{
    create_subscribe_message, PoloniexKLineIntervals, WebSocketMessage,
};
use kline_aggregator::numeric::{parse_fixed, parse_fixed_or_zero};
use kline_aggregator::storage::{
    candle_id, history_row, kline_row, parse_count_or_zero, u64_to_dec,
};

#[test]
fn parse_integers() {
    assert_eq!(parse_fixed("0"), Some(0));
    assert_eq!(parse_fixed("10"), Some(10_0000));
    assert_eq!(parse_fixed("429496"), Some(42_9496_0000));
}

#[test]
fn parse_fractions() {
    assert_eq!(parse_fixed("10.5"), Some(10_5000));
    assert_eq!(parse_fixed(".5"), Some(5000));
    assert_eq!(parse_fixed("5."), Some(5_0000));
    assert_eq!(parse_fixed("0.0001"), Some(1));
    assert_eq!(parse_fixed("429496.7295"), Some(4294967295));
}

// Digits beyond the fourth fractional place are truncated.
#[test]
fn parse_truncates_extra_fraction() {
    assert_eq!(parse_fixed("10.00005"), Some(10_0000));
    assert_eq!(parse_fixed("1.23456789"), Some(1_2345));
}

#[test]
fn parse_rejects_malformed() {
    assert_eq!(parse_fixed(""), None);
    assert_eq!(parse_fixed("."), None);
    assert_eq!(parse_fixed("abc"), None);
    assert_eq!(parse_fixed("1e5"), None);
    assert_eq!(parse_fixed("-1"), None);
    assert_eq!(parse_fixed("1.2.3"), None);
    assert_eq!(parse_fixed("12 "), None);
}

#[test]
fn parse_rejects_overflow() {
    assert_eq!(parse_fixed("429496.7296"), None);
    assert_eq!(parse_fixed("4294967295"), None);
    assert_eq!(parse_fixed("99999999999999999999"), None);
}

#[test]
fn parse_or_zero_defaults() {
    assert_eq!(parse_fixed_or_zero("2.5"), 2_5000);
    assert_eq!(parse_fixed_or_zero("oops"), 0);
}

#[test]
fn count_parsing() {
    assert_eq!(parse_count_or_zero("0"), 0);
    assert_eq!(parse_count_or_zero("123"), 123);
    assert_eq!(parse_count_or_zero("18446744073709551615"), u64::MAX);
    assert_eq!(parse_count_or_zero("18446744073709551616"), 0);
    assert_eq!(parse_count_or_zero(""), 0);
    assert_eq!(parse_count_or_zero("12.5"), 0);
    assert_eq!(parse_count_or_zero("-4"), 0);
}

#[test]
fn decimal_rendering() {
    assert_eq!(u64_to_dec(0), "0");
    assert_eq!(u64_to_dec(7), "7");
    assert_eq!(u64_to_dec(900), "900");
    assert_eq!(u64_to_dec(1234567890), "1234567890");
    assert_eq!(u64_to_dec(u64::MAX), "18446744073709551615");
}

#[test]
fn candle_identifier() {
    assert_eq!(candle_id("BTC_USDT", TimeFrame::Minutes15, 900), "BTC_USDT_15m_900");
    assert_eq!(candle_id("ETH_USDT", TimeFrame::Hour, 7200), "ETH_USDT_1h_7200");
}

fn sample_kline() -> Kline {
    Kline {
        pair: "BTC_USDT".to_string(),
        timeframe: TimeFrame::Minutes15,
        open: 10_0000,
        high: 12_0000,
        low: 9_0000,
        close: 11_0000,
        utc_begin: 900,
        utc_end: 1800,
        volume_bs: Vbs {
            buy_base: 3_0000,
            sell_base: 2_0000,
            buy_quote: 34_0000_0000,
            sell_quote: 20_0000_0000,
        },
    }
}

#[test]
fn candle_row_values() {
    let row = kline_row(&sample_kline());
    assert_eq!(row.id, "BTC_USDT_15m_900");
    assert_eq!(row.symbol, "BTC_USDT");
    assert_eq!(row.lowest_price, 9_0000);
    assert_eq!(row.highest_price, 12_0000);
    assert_eq!(row.opening_price, 10_0000);
    assert_eq!(row.closing_price, 11_0000);
    assert_eq!(row.quote_volume, 54_0000_0000);
    assert_eq!(row.base_volume, 5_0000);
    assert_eq!(row.trades, 0);
    assert_eq!(row.start_time, "1970-01-01T00:15:00+00:00");
    assert_eq!(row.end_time, "1970-01-01T00:30:00+00:00");
}

// Writing the same candle twice produces identical rows.
#[test]
fn candle_row_idempotent() {
    let first = kline_row(&sample_kline());
    let second = kline_row(&sample_kline());
    assert_eq!(first, second);
}

#[test]
fn history_row_parsing() {
    let row: Vec<String> = vec![
        "9".to_string(),
        "12".to_string(),
        "10".to_string(),
        "11".to_string(),
        "54".to_string(),
        "5".to_string(),
        "4".to_string(),
        "2024-12-01T00:00:00+00:00".to_string(),
        "2024-12-01T00:15:00+00:00".to_string(),
    ];
    let parsed = history_row(&row);
    assert_eq!(parsed.lowest_price, 9_0000);
    assert_eq!(parsed.highest_price, 12_0000);
    assert_eq!(parsed.opening_price, 10_0000);
    assert_eq!(parsed.closing_price, 11_0000);
    assert_eq!(parsed.quote_volume, 54_0000);
    assert_eq!(parsed.base_volume, 5_0000);
    assert_eq!(parsed.trades, 4);
    assert_eq!(parsed.start_time, "2024-12-01T00:00:00+00:00");
    assert_eq!(parsed.end_time, "2024-12-01T00:15:00+00:00");
}

// An unparseable historical field is stored as zero rather than failing
// the whole row.
#[test]
fn history_row_defaults() {
    let row: Vec<String> = vec![
        "x".to_string(),
        "".to_string(),
        "1.5".to_string(),
        "2".to_string(),
        "-1".to_string(),
        "3".to_string(),
        "many".to_string(),
        "start".to_string(),
        "end".to_string(),
    ];
    let parsed = history_row(&row);
    assert_eq!(parsed.lowest_price, 0);
    assert_eq!(parsed.highest_price, 0);
    assert_eq!(parsed.opening_price, 1_5000);
    assert_eq!(parsed.closing_price, 2_0000);
    assert_eq!(parsed.quote_volume, 0);
    assert_eq!(parsed.base_volume, 3_0000);
    assert_eq!(parsed.trades, 0);
}

#[test]
fn interval_labels() {
    assert_eq!(PoloniexKLineIntervals::Minute1.as_str(), "MINUTE_1");
    assert_eq!(PoloniexKLineIntervals::Minute15.as_str(), "MINUTE_15");
    assert_eq!(PoloniexKLineIntervals::Hour12.as_str(), "HOUR_12");
    assert_eq!(PoloniexKLineIntervals::Week1.as_str(), "WEEK_1");
}

#[test]
fn timeframe_values() {
    assert_eq!(TimeFrame::Minutes15.duration_secs(), 900);
    assert_eq!(TimeFrame::Hour.duration_secs(), 3600);
    assert_eq!(TimeFrame::Minutes15.tag(), "15m");
    assert_eq!(TimeFrame::Hour.tag(), "1h");
}

#[test]
fn subscribe_message_shape() {
    let msg = create_subscribe_message(
        vec!["trades".to_string()],
        vec!["BTC_USDT".to_string(), "ETH_USDT".to_string()],
    );
    match msg {
        WebSocketMessage::Subscribe { channel, symbols } => {
            assert_eq!(channel, vec!["trades".to_string()]);
            assert_eq!(symbols, vec!["BTC_USDT".to_string(), "ETH_USDT".to_string()]);
        }
        WebSocketMessage::Ping => panic!("wrong message variant"),
    }
}
