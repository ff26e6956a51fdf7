//! The deterministic fold from trades to a candle.
//!
//! Given a sequence of trades ordered by timestamp, a symbol, and a
//! half-open window `[utc_begin, utc_begin + duration)`, the fold keeps the
//! trades of that symbol inside the window whose price and quantity parse,
//! and reduces them to one candle: `open`/`close` are the prices of the
//! first and last kept trade, `high`/`low` the extremes, and the four
//! volume totals accumulate per taker side.  A trade in scope whose price
//! or quantity does not parse is excluded and counted, never fatal.  An
//! empty window yields "no data", which is not an error.

use vstd::prelude::*;

use crate::candle::{tf_duration, well_formed, Kline, TimeFrame, Vbs, MANTISSA_MAX};
use crate::models::Trade;
use crate::numeric::{lemma_parse_fixed_bound, parse_fixed, parse_fixed_spec};

verus! {

/// Largest product of a quantity and a price mantissa:
/// `MANTISSA_MAX * MANTISSA_MAX`.
pub const PROD_MAX: u128 = 0xFFFF_FFFE_0000_0001;

/// Which volume bucket a trade feeds.
#[derive(Debug, Clone, Copy, PartialEq, Eq, Structural)]
pub enum Side {
    Buy,
    Sell,
    Unknown,
}

/// The side of a trade, read from its `taker_side` field.  Anything other
/// than the two known labels contributes to prices but to no volume
/// bucket.
pub open spec fn trade_side(t: Trade) -> Side {
    if t.taker_side@ == "buy"@ {
        Side::Buy
    } else if t.taker_side@ == "sell"@ {
        Side::Sell
    } else {
        Side::Unknown
    }
}

/// Whether a trade belongs to the symbol and window being folded.
pub open spec fn in_scope(t: Trade, sym: Seq<char>, begin: u64, end: u64) -> bool {
    t.symbol@ == sym && begin <= t.ts < end
}

/// Whether both numeric fields of a trade parse.
pub open spec fn parses(t: Trade) -> bool {
    parse_fixed_spec(t.price@) is Some && parse_fixed_spec(t.quantity@) is Some
}

pub open spec fn price_of(t: Trade) -> u64 {
    parse_fixed_spec(t.price@).unwrap()
}

pub open spec fn qty_of(t: Trade) -> u64 {
    parse_fixed_spec(t.quantity@).unwrap()
}

/// The subsequence of trades the fold keeps: in scope, and parseable.
pub open spec fn kept(s: Seq<Trade>, sym: Seq<char>, begin: u64, end: u64) -> Seq<Trade>
    decreases s.len(),
{
    if s.len() == 0 {
        Seq::empty()
    } else {
        let p = kept(s.drop_last(), sym, begin, end);
        if in_scope(s.last(), sym, begin, end) && parses(s.last()) {
            p.push(s.last())
        } else {
            p
        }
    }
}

/// How many trades in scope were excluded as data errors.
pub open spec fn dropped_count(s: Seq<Trade>, sym: Seq<char>, begin: u64, end: u64) -> int
    decreases s.len(),
{
    if s.len() == 0 {
        0
    } else {
        dropped_count(s.drop_last(), sym, begin, end) + if in_scope(s.last(), sym, begin, end)
            && !parses(s.last()) {
            1int
        } else {
            0int
        }
    }
}

/// Maximum price over a nonempty sequence of kept trades.
pub open spec fn max_price(f: Seq<Trade>) -> u64
    recommends
        f.len() > 0,
    decreases f.len(),
{
    if f.len() <= 1 {
        price_of(f[0])
    } else {
        let m = max_price(f.drop_last());
        if price_of(f.last()) > m {
            price_of(f.last())
        } else {
            m
        }
    }
}

/// Minimum price over a nonempty sequence of kept trades.
pub open spec fn min_price(f: Seq<Trade>) -> u64
    recommends
        f.len() > 0,
    decreases f.len(),
{
    if f.len() <= 1 {
        price_of(f[0])
    } else {
        let m = min_price(f.drop_last());
        if price_of(f.last()) < m {
            price_of(f.last())
        } else {
            m
        }
    }
}

/// Sum of quantities on one side.
pub open spec fn base_sum(f: Seq<Trade>, side: Side) -> int
    decreases f.len(),
{
    if f.len() == 0 {
        0
    } else {
        base_sum(f.drop_last(), side) + if trade_side(f.last()) == side {
            qty_of(f.last()) as int
        } else {
            0int
        }
    }
}

/// Sum of quantity-times-price products on one side (scale `10^8`).
pub open spec fn quote_sum(f: Seq<Trade>, side: Side) -> int
    decreases f.len(),
{
    if f.len() == 0 {
        0
    } else {
        quote_sum(f.drop_last(), side) + if trade_side(f.last()) == side {
            qty_of(f.last()) * price_of(f.last())
        } else {
            0int
        }
    }
}

/// Trades ordered by timestamp (the storage contract returns them ordered
/// by `(ts, id)`, which is all the fold relies on).
pub open spec fn ts_sorted(s: Seq<Trade>) -> bool {
    forall|i: int, j: int|
        0 <= i <= j < s.len() ==> #[trigger] s[i].ts <= #[trigger] s[j].ts
}

/// What the fold produced: the candle, if the window held any usable
/// trade, and the count of trades excluded as data errors.
#[derive(Debug, Clone, PartialEq)]
pub struct FoldOutcome {
    pub kline: Option<Kline>,
    pub dropped: usize,
}

/// The full contract of the fold: the outcome is pinned, field by field,
/// to the kept subsequence of the input.
pub open spec fn fold_post(
    s: Seq<Trade>,
    sym: Seq<char>,
    tf: TimeFrame,
    begin: u64,
    end: u64,
    r: FoldOutcome,
) -> bool {
    let f = kept(s, sym, begin, end);
    &&& r.dropped == dropped_count(s, sym, begin, end)
    &&& (r.kline is Some <==> f.len() > 0)
    &&& (r.kline matches Some(k) ==> {
        &&& k.pair@ == sym
        &&& k.timeframe == tf
        &&& k.utc_begin == begin
        &&& k.utc_end == end
        &&& k.open == price_of(f[0])
        &&& k.close == price_of(f.last())
        &&& k.high == max_price(f)
        &&& k.low == min_price(f)
        &&& k.volume_bs.buy_base == base_sum(f, Side::Buy)
        &&& k.volume_bs.sell_base == base_sum(f, Side::Sell)
        &&& k.volume_bs.buy_quote == quote_sum(f, Side::Buy)
        &&& k.volume_bs.sell_quote == quote_sum(f, Side::Sell)
    })
}

/// Character-for-character string equality.
pub fn str_eq(a: &str, b: &str) -> (r: bool)
    ensures
        r == (a@ == b@),
{
    let n = a.unicode_len();
    let m = b.unicode_len();
    if n != m {
        proof {
            if a@ == b@ {
                assert(a@.len() == b@.len());
            }
        }
        return false;
    }
    let mut i: usize = 0;
    while i < n
        invariant
            0 <= i <= n,
            n == a@.len(),
            n == b@.len(),
            forall|j: int| 0 <= j < i ==> a@[j] == b@[j],
        decreases n - i,
    {
        let ca = a.get_char(i);
        let cb = b.get_char(i);
        if ca != cb {
            proof {
                if a@ == b@ {
                    assert(a@[i as int] == b@[i as int]);
                }
            }
            return false;
        }
        i = i + 1;
    }
    proof {
        assert(a@ =~= b@);
    }
    true
}

/// The running state of the fold after the first `i` trades: every
/// accumulator agrees with the corresponding reduction of the kept
/// subsequence of the prefix, and the sums have room to grow.
pub open spec fn fold_inv(
    s: Seq<Trade>,
    sym: Seq<char>,
    begin: u64,
    end: u64,
    i: int,
    dropped: int,
    has_data: bool,
    opening: u64,
    closing: u64,
    highest: u64,
    lowest: u64,
    bb: int,
    sb: int,
    bq: int,
    sq: int,
) -> bool {
    let f = kept(s.take(i), sym, begin, end);
    &&& dropped == dropped_count(s.take(i), sym, begin, end)
    &&& 0 <= dropped <= i
    &&& f.len() <= i
    &&& (has_data <==> f.len() > 0)
    &&& (has_data ==> {
        &&& opening == price_of(f[0])
        &&& closing == price_of(f.last())
        &&& highest == max_price(f)
        &&& lowest == min_price(f)
        &&& lowest <= opening <= highest
        &&& lowest <= closing <= highest
        &&& highest <= MANTISSA_MAX
    })
    &&& bb == base_sum(f, Side::Buy)
    &&& sb == base_sum(f, Side::Sell)
    &&& bq == quote_sum(f, Side::Buy)
    &&& sq == quote_sum(f, Side::Sell)
    &&& bb + sb <= f.len() * (MANTISSA_MAX as int)
    &&& bq + sq <= f.len() * (PROD_MAX as int)
}

/// One fold step over a trade that is out of scope: nothing changes.
proof fn lemma_fold_step_out(
    s: Seq<Trade>,
    sym: Seq<char>,
    begin: u64,
    end: u64,
    i: int,
    dropped: int,
    has_data: bool,
    opening: u64,
    closing: u64,
    highest: u64,
    lowest: u64,
    bb: int,
    sb: int,
    bq: int,
    sq: int,
)
    requires
        0 <= i < s.len(),
        !in_scope(s[i], sym, begin, end),
        fold_inv(s, sym, begin, end, i, dropped, has_data, opening, closing, highest, lowest, bb, sb, bq, sq),
    ensures
        fold_inv(s, sym, begin, end, i + 1, dropped, has_data, opening, closing, highest, lowest, bb, sb, bq, sq),
{
    assert(s.take(i + 1).drop_last() =~= s.take(i));
    assert(s.take(i + 1).last() == s[i]);
}

/// One fold step over a trade in scope whose price or quantity does not
/// parse: only the error count moves.
proof fn lemma_fold_step_err(
    s: Seq<Trade>,
    sym: Seq<char>,
    begin: u64,
    end: u64,
    i: int,
    dropped: int,
    has_data: bool,
    opening: u64,
    closing: u64,
    highest: u64,
    lowest: u64,
    bb: int,
    sb: int,
    bq: int,
    sq: int,
)
    requires
        0 <= i < s.len(),
        in_scope(s[i], sym, begin, end),
        !parses(s[i]),
        fold_inv(s, sym, begin, end, i, dropped, has_data, opening, closing, highest, lowest, bb, sb, bq, sq),
    ensures
        fold_inv(s, sym, begin, end, i + 1, dropped + 1, has_data, opening, closing, highest, lowest, bb, sb, bq, sq),
{
    assert(s.take(i + 1).drop_last() =~= s.take(i));
    assert(s.take(i + 1).last() == s[i]);
}

/// One fold step over a kept trade: the trade joins the kept subsequence
/// and every accumulator absorbs it.
proof fn lemma_fold_step_kept(
    s: Seq<Trade>,
    sym: Seq<char>,
    begin: u64,
    end: u64,
    i: int,
    dropped: int,
    has_data: bool,
    opening: u64,
    closing: u64,
    highest: u64,
    lowest: u64,
    bb: int,
    sb: int,
    bq: int,
    sq: int,
    p: u64,
    q: u64,
)
    requires
        0 <= i < s.len(),
        in_scope(s[i], sym, begin, end),
        parses(s[i]),
        p == price_of(s[i]),
        q == qty_of(s[i]),
        fold_inv(s, sym, begin, end, i, dropped, has_data, opening, closing, highest, lowest, bb, sb, bq, sq),
    ensures
        0 <= p <= MANTISSA_MAX,
        0 <= q <= MANTISSA_MAX,
        fold_inv(
            s,
            sym,
            begin,
            end,
            i + 1,
            dropped,
            true,
            if has_data { opening } else { p },
            p,
            if has_data && highest >= p { highest } else { p },
            if has_data && lowest <= p { lowest } else { p },
            bb + if trade_side(s[i]) == Side::Buy { q as int } else { 0int },
            sb + if trade_side(s[i]) == Side::Sell { q as int } else { 0int },
            bq + if trade_side(s[i]) == Side::Buy { (q as int) * (p as int) } else { 0int },
            sq + if trade_side(s[i]) == Side::Sell { (q as int) * (p as int) } else { 0int },
        ),
{
    lemma_parse_fixed_bound(s[i].price@);
    lemma_parse_fixed_bound(s[i].quantity@);
    assert(s.take(i + 1).drop_last() =~= s.take(i));
    assert(s.take(i + 1).last() == s[i]);
    let f = kept(s.take(i), sym, begin, end);
    let f1 = kept(s.take(i + 1), sym, begin, end);
    assert(f1 == f.push(s[i]));
    assert(f.push(s[i]).drop_last() =~= f);
    assert(f.push(s[i]).last() == s[i]);
    if f.len() > 0 {
        assert(f.push(s[i])[0] == f[0]);
    } else {
        assert(f.push(s[i])[0] == s[i]);
    }
    assert((q as int) * (p as int) <= PROD_MAX) by (nonlinear_arith)
        requires
            0 <= q <= MANTISSA_MAX,
            0 <= p <= MANTISSA_MAX,
            PROD_MAX == (MANTISSA_MAX as int) * (MANTISSA_MAX as int),
    ;
    assert((q as int) * (p as int) >= 0) by (nonlinear_arith)
        requires
            q >= 0,
            p >= 0,
    ;
}

/// Fold the trades of one symbol inside the window
/// `[utc_begin, utc_begin + duration)` into a candle.
///
/// Trades of other symbols or outside the window are ignored; a trade in
/// scope whose price or quantity does not parse is excluded and counted in
/// `dropped`.  If nothing is kept the outcome carries no candle ("no
/// data"), which is distinct from an error.  The candle's window is the
/// one passed in, never derived from the trades.
pub fn make_kline_from_trades(
    trades: &Vec<Trade>,
    symbol: &str,
    timeframe: TimeFrame,
    utc_begin: u64,
) -> (r: FoldOutcome)
    requires
        ts_sorted(trades@),
        utc_begin + tf_duration(timeframe) <= u64::MAX,
    ensures
        fold_post(
            trades@,
            symbol@,
            timeframe,
            utc_begin,
            (utc_begin + tf_duration(timeframe)) as u64,
            r,
        ),
        r.kline matches Some(k) ==> well_formed(k),
{
    let end: u64 = utc_begin + timeframe.duration_secs();
    let ghost sym = symbol@;
    let n = trades.len();
    let mut i: usize = 0;
    let mut dropped: usize = 0;
    let mut has_data: bool = false;
    let mut opening: u64 = 0;
    let mut closing: u64 = 0;
    let mut highest: u64 = 0;
    let mut lowest: u64 = 0;
    let mut buy_base: u128 = 0;
    let mut sell_base: u128 = 0;
    let mut buy_quote: u128 = 0;
    let mut sell_quote: u128 = 0;
    while i < n
        invariant
            0 <= i <= n,
            n == trades@.len(),
            sym == symbol@,
            end == utc_begin + tf_duration(timeframe),
            fold_inv(
                trades@,
                sym,
                utc_begin,
                end,
                i as int,
                dropped as int,
                has_data,
                opening,
                closing,
                highest,
                lowest,
                buy_base as int,
                sell_base as int,
                buy_quote as int,
                sell_quote as int,
            ),
        decreases n - i,
    {
        let t = &trades[i];
        if str_eq(t.symbol.as_str(), symbol) && utc_begin <= t.ts && t.ts < end {
            match (parse_fixed(t.price.as_str()), parse_fixed(t.quantity.as_str())) {
                (Some(p), Some(q)) => {
                    proof {
                        lemma_fold_step_kept(
                            trades@,
                            sym,
                            utc_begin,
                            end,
                            i as int,
                            dropped as int,
                            has_data,
                            opening,
                            closing,
                            highest,
                            lowest,
                            buy_base as int,
                            sell_base as int,
                            buy_quote as int,
                            sell_quote as int,
                            p,
                            q,
                        );
                        assert(kept(trades@.take(i as int), sym, utc_begin, end).len() <= i);
                    }
                    if !has_data {
                        has_data = true;
                        opening = p;
                        closing = p;
                        highest = p;
                        lowest = p;
                    } else {
                        closing = p;
                        if p > highest {
                            highest = p;
                        }
                        if p < lowest {
                            lowest = p;
                        }
                    }
                    if str_eq(t.taker_side.as_str(), "buy") {
                        buy_base = buy_base + q as u128;
                        buy_quote = buy_quote + (q as u128) * (p as u128);
                    } else if str_eq(t.taker_side.as_str(), "sell") {
                        sell_base = sell_base + q as u128;
                        sell_quote = sell_quote + (q as u128) * (p as u128);
                    }
                },
                _ => {
                    proof {
                        lemma_fold_step_err(
                            trades@,
                            sym,
                            utc_begin,
                            end,
                            i as int,
                            dropped as int,
                            has_data,
                            opening,
                            closing,
                            highest,
                            lowest,
                            buy_base as int,
                            sell_base as int,
                            buy_quote as int,
                            sell_quote as int,
                        );
                    }
                    dropped = dropped + 1;
                },
            }
        } else {
            proof {
                lemma_fold_step_out(
                    trades@,
                    sym,
                    utc_begin,
                    end,
                    i as int,
                    dropped as int,
                    has_data,
                    opening,
                    closing,
                    highest,
                    lowest,
                    buy_base as int,
                    sell_base as int,
                    buy_quote as int,
                    sell_quote as int,
                );
            }
        }
        i = i + 1;
    }
    proof {
        assert(trades@.take(n as int) =~= trades@);
        assert(tf_duration(timeframe) > 0);
        let f = kept(trades@, sym, utc_begin, end);
        if has_data {
            assert(f.len() * (MANTISSA_MAX as int) <= (u128::MAX as int)) by (nonlinear_arith)
                requires
                    0 <= f.len() <= 0xFFFF_FFFF_FFFF_FFFF,
            ;
            assert(f.len() * (PROD_MAX as int) <= (u128::MAX as int)) by (nonlinear_arith)
                requires
                    0 <= f.len() <= 0xFFFF_FFFF_FFFF_FFFF,
            ;
        }
    }
    if has_data {
        FoldOutcome {
            kline: Some(
                Kline {
                    pair: symbol.to_owned(),
                    timeframe,
                    open: opening,
                    high: highest,
                    low: lowest,
                    close: closing,
                    utc_begin,
                    utc_end: end,
                    volume_bs: Vbs { buy_base, sell_base, buy_quote, sell_quote },
                },
            ),
            dropped,
        }
    } else {
        FoldOutcome { kline: None, dropped }
    }
}

/// Two candles that agree in every observable field.
pub open spec fn same_candle(a: Kline, b: Kline) -> bool {
    &&& a.pair@ == b.pair@
    &&& a.timeframe == b.timeframe
    &&& a.open == b.open
    &&& a.high == b.high
    &&& a.low == b.low
    &&& a.close == b.close
    &&& a.utc_begin == b.utc_begin
    &&& a.utc_end == b.utc_end
    &&& a.volume_bs == b.volume_bs
}

/// The fold is deterministic and idempotent under replay: any two
/// outcomes that satisfy the fold's contract for the same trades, symbol
/// and window carry identical candle values and identical error counts.
pub proof fn lemma_fold_deterministic(
    s: Seq<Trade>,
    sym: Seq<char>,
    tf: TimeFrame,
    begin: u64,
    end: u64,
    r1: FoldOutcome,
    r2: FoldOutcome,
)
    requires
        fold_post(s, sym, tf, begin, end, r1),
        fold_post(s, sym, tf, begin, end, r2),
    ensures
        r1.dropped == r2.dropped,
        r1.kline is Some <==> r2.kline is Some,
        r1.kline is Some ==> same_candle(r1.kline.unwrap(), r2.kline.unwrap()),
{
}

} // verus!
