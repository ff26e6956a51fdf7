use kline_aggregator::candle::TimeFrame;
use kline_aggregator::fold::make_kline_from_trades;
use kline_aggregator::models::Trade;
use kline_aggregator::schedule::{calc_next_run_time, next_boundary, plan_tick, window_for_boundary};

fn trade(symbol: &str, price: &str, quantity: &str, side: &str, ts: u64, id: &str) -> Trade {
    Trade {
        symbol: symbol.to_string(),
        amount: String::new(),
        taker_side: side.to_string(),
        quantity: quantity.to_string(),
        create_time: ts,
        price: price.to_string(),
        id: id.to_string(),
        ts,
    }
}

// 12:07:00 under the 15-minute rule: the next boundary is 12:15:00.
#[test]
fn boundary_quarter_hour() {
    let now: u64 = 12 * 3600 + 7 * 60;
    assert_eq!(next_boundary(now, TimeFrame::Minutes15), 12 * 3600 + 15 * 60);
}

// Exactly on a boundary: the next one is selected, never the same instant.
#[test]
fn boundary_strict_progress() {
    let now: u64 = 12 * 3600 + 15 * 60;
    assert_eq!(next_boundary(now, TimeFrame::Minutes15), 12 * 3600 + 30 * 60);
}

// 12:47:00 under the hourly rule: the next boundary is 13:00:00.
#[test]
fn boundary_hourly() {
    let now: u64 = 12 * 3600 + 47 * 60;
    assert_eq!(next_boundary(now, TimeFrame::Hour), 13 * 3600);
}

#[test]
fn boundary_realistic_epoch() {
    let now: u64 = 1_700_000_000;
    let b = next_boundary(now, TimeFrame::Minutes15);
    assert_eq!(b, 1_700_000_100);
    assert_eq!(b % 900, 0);
    assert!(b > now && b <= now + 900);
}

#[test]
fn wait_duration() {
    let now: u64 = 12 * 3600 + 7 * 60;
    assert_eq!(calc_next_run_time(now, TimeFrame::Minutes15), 8 * 60);
    assert_eq!(calc_next_run_time(0, TimeFrame::Hour), 3600);
}

#[test]
fn window_of_boundary() {
    let w = window_for_boundary(44100, TimeFrame::Minutes15);
    assert_eq!(w, (43200, 44100));
    let w = window_for_boundary(46800, TimeFrame::Hour);
    assert_eq!(w, (43200, 46800));
}

// Successive windows of one timeframe tile the timeline: each window ends
// exactly where the next begins.
#[test]
fn window_tiling_scenario() {
    let b1 = next_boundary(12 * 3600 + 7 * 60, TimeFrame::Minutes15);
    let b2 = next_boundary(b1, TimeFrame::Minutes15);
    let w1 = window_for_boundary(b1, TimeFrame::Minutes15);
    let w2 = window_for_boundary(b2, TimeFrame::Minutes15);
    assert_eq!(w1.1, w2.0);
    assert_eq!(w2.1 - w1.0, 2 * 900);
}

// The reference fold: four trades, fixed expected OHLC and volumes
// (mantissas carry four fractional digits; quote volumes eight).
#[test]
fn fold_reference_values() {
    let trades = vec![
        trade("BTC_USDT", "10", "1", "buy", 1, "a"),
        trade("BTC_USDT", "12", "2", "buy", 2, "b"),
        trade("BTC_USDT", "9", "1", "sell", 3, "c"),
        trade("BTC_USDT", "11", "1", "sell", 4, "d"),
    ];
    let out = make_kline_from_trades(&trades, "BTC_USDT", TimeFrame::Minutes15, 1);
    assert_eq!(out.dropped, 0);
    let k = out.kline.expect("window holds trades");
    assert_eq!(k.pair, "BTC_USDT");
    assert_eq!(k.open, 10_0000);
    assert_eq!(k.close, 11_0000);
    assert_eq!(k.high, 12_0000);
    assert_eq!(k.low, 9_0000);
    assert_eq!(k.volume_bs.buy_base, 3_0000);
    assert_eq!(k.volume_bs.buy_quote, 34_0000_0000);
    assert_eq!(k.volume_bs.sell_base, 2_0000);
    assert_eq!(k.volume_bs.sell_quote, 20_0000_0000);
    assert_eq!(k.utc_begin, 1);
    assert_eq!(k.utc_end, 901);
    assert_eq!(k.timeframe, TimeFrame::Minutes15);
}

// An empty window is "no data", not an error.
#[test]
fn fold_empty_window() {
    let trades: Vec<Trade> = vec![];
    let out = make_kline_from_trades(&trades, "BTC_USDT", TimeFrame::Minutes15, 0);
    assert!(out.kline.is_none());
    assert_eq!(out.dropped, 0);
}

// Folding the same trades over the same window twice yields identical
// candle values.
#[test]
fn fold_idempotent() {
    let trades = vec![
        trade("ETH_USDT", "2000.5", "0.25", "buy", 1000, "x"),
        trade("ETH_USDT", "1999.75", "1.5", "sell", 1001, "y"),
    ];
    let once = make_kline_from_trades(&trades, "ETH_USDT", TimeFrame::Hour, 900);
    let twice = make_kline_from_trades(&trades, "ETH_USDT", TimeFrame::Hour, 900);
    assert_eq!(once, twice);
    assert!(once.kline.is_some());
}

// A trade with a non-numeric price is excluded and counted; the fold
// proceeds with the remaining trades.
#[test]
fn fold_data_error_isolation() {
    let trades = vec![
        trade("BTC_USDT", "10", "1", "buy", 1, "a"),
        trade("BTC_USDT", "oops", "1", "buy", 2, "b"),
        trade("BTC_USDT", "11", "2", "sell", 3, "c"),
    ];
    let out = make_kline_from_trades(&trades, "BTC_USDT", TimeFrame::Minutes15, 0);
    assert_eq!(out.dropped, 1);
    let k = out.kline.expect("valid trades remain");
    assert_eq!(k.open, 10_0000);
    assert_eq!(k.close, 11_0000);
    assert_eq!(k.high, 11_0000);
    assert_eq!(k.low, 10_0000);
    assert_eq!(k.volume_bs.buy_base, 1_0000);
    assert_eq!(k.volume_bs.sell_base, 2_0000);
}

// A non-numeric quantity is a data error too.
#[test]
fn fold_bad_quantity_dropped() {
    let trades = vec![
        trade("BTC_USDT", "10", "-3", "buy", 1, "a"),
        trade("BTC_USDT", "10", "1", "buy", 2, "b"),
    ];
    let out = make_kline_from_trades(&trades, "BTC_USDT", TimeFrame::Minutes15, 0);
    assert_eq!(out.dropped, 1);
    assert_eq!(out.kline.expect("one good trade").volume_bs.buy_base, 1_0000);
}

// Trades of other symbols or outside the window are out of scope: neither
// folded nor counted as errors.
#[test]
fn fold_scope_filtering() {
    let trades = vec![
        trade("BTC_USDT", "10", "1", "buy", 100, "a"),
        trade("ETH_USDT", "99", "1", "buy", 150, "b"),
        trade("BTC_USDT", "20", "1", "buy", 950, "c"),
    ];
    let out = make_kline_from_trades(&trades, "BTC_USDT", TimeFrame::Minutes15, 0);
    assert_eq!(out.dropped, 0);
    let k = out.kline.expect("one trade in scope");
    assert_eq!(k.open, 10_0000);
    assert_eq!(k.close, 10_0000);
    assert_eq!(k.high, 10_0000);
}

// An unknown taker side contributes to prices but to no volume bucket.
#[test]
fn fold_unknown_side() {
    let trades = vec![
        trade("BTC_USDT", "15", "1", "buy", 1, "a"),
        trade("BTC_USDT", "30", "5", "mystery", 2, "b"),
    ];
    let out = make_kline_from_trades(&trades, "BTC_USDT", TimeFrame::Minutes15, 0);
    let k = out.kline.expect("trades kept");
    assert_eq!(out.dropped, 0);
    assert_eq!(k.high, 30_0000);
    assert_eq!(k.close, 30_0000);
    assert_eq!(k.volume_bs.buy_base, 1_0000);
    assert_eq!(k.volume_bs.sell_base, 0);
    assert_eq!(k.volume_bs.buy_quote, 15_0000_0000);
    assert_eq!(k.volume_bs.sell_quote, 0);
}

// A full tick: the window is derived from the boundary, and the candle is
// anchored to it.
#[test]
fn plan_tick_window_anchoring() {
    let trades = vec![
        trade("TRX_USDT", "0.1", "100", "buy", 43250, "a"),
        trade("TRX_USDT", "0.2", "50", "sell", 44000, "b"),
    ];
    let out = plan_tick(&trades, "TRX_USDT", TimeFrame::Minutes15, 44100);
    let k = out.kline.expect("trades in window");
    assert_eq!(k.utc_begin, 43200);
    assert_eq!(k.utc_end, 44100);
    assert_eq!(k.open, 1000);
    assert_eq!(k.close, 2000);
}

// A tick over an empty window produces nothing to write.
#[test]
fn plan_tick_empty_no_write() {
    let trades: Vec<Trade> = vec![];
    let out = plan_tick(&trades, "TRX_USDT", TimeFrame::Hour, 7200);
    assert!(out.kline.is_none());
    assert_eq!(out.dropped, 0);
}
