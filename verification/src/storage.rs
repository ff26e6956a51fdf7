//! Conversions between candles and the rows of the candle store.
//!
//! The storage layer itself is an external collaborator; this module only
//! prepares the values that go into a row — the candle's natural key
//! `(symbol, timeframe, begin)` rendered as an identifier, the combined
//! volume totals, and the window bounds formatted as RFC 3339 timestamps —
//! and parses the rows of historical backfill responses.

use vstd::prelude::*;

use crate::candle::{timeframe_tag, well_formed, Kline, TimeFrame};
use crate::numeric::{
    all_digits, digits_val, lemma_digits_val_append, lemma_digits_val_bounds, parse_fixed_or_zero,
    parse_fixed_spec,
};

verus! {

/// Largest timestamp the store accepts: the last second of year 9999,
/// so that a formatted timestamp always carries a four-digit year.
pub const MAX_CIVIL_TS: u64 = 253402300799;

/// The decimal digit character of `d`.
pub open spec fn digit_char(d: int) -> char {
    if d == 0 {
        '0'
    } else if d == 1 {
        '1'
    } else if d == 2 {
        '2'
    } else if d == 3 {
        '3'
    } else if d == 4 {
        '4'
    } else if d == 5 {
        '5'
    } else if d == 6 {
        '6'
    } else if d == 7 {
        '7'
    } else if d == 8 {
        '8'
    } else {
        '9'
    }
}

/// The decimal rendering of `n`, most significant digit first, no leading
/// zeros (except for `0` itself).
pub open spec fn dec_digits(n: int) -> Seq<char>
    decreases n,
{
    if n < 10 {
        seq![digit_char(n)]
    } else {
        dec_digits(n / 10).push(digit_char(n % 10))
    }
}

/// The one-character string of a decimal digit.
fn digit_str(d: u64) -> (r: &'static str)
    requires
        d < 10,
    ensures
        r@ == seq![digit_char(d as int)],
{
    let r: &'static str = if d == 0 {
        "0"
    } else if d == 1 {
        "1"
    } else if d == 2 {
        "2"
    } else if d == 3 {
        "3"
    } else if d == 4 {
        "4"
    } else if d == 5 {
        "5"
    } else if d == 6 {
        "6"
    } else if d == 7 {
        "7"
    } else if d == 8 {
        "8"
    } else {
        "9"
    };
    proof {
        reveal_strlit("0");
        reveal_strlit("1");
        reveal_strlit("2");
        reveal_strlit("3");
        reveal_strlit("4");
        reveal_strlit("5");
        reveal_strlit("6");
        reveal_strlit("7");
        reveal_strlit("8");
        reveal_strlit("9");
        assert(r@ =~= seq![digit_char(d as int)]);
    }
    r
}

/// Render `n` in decimal.
pub fn u64_to_dec(n: u64) -> (r: String)
    ensures
        r@ == dec_digits(n as int),
    decreases n,
{
    if n < 10 {
        digit_str(n).to_owned()
    } else {
        let mut s = u64_to_dec(n / 10);
        s.append(digit_str(n % 10));
        proof {
            assert(dec_digits((n / 10) as int).push(digit_char((n % 10) as int)) =~= dec_digits(
                (n / 10) as int,
            ) + seq![digit_char((n % 10) as int)]);
        }
        s
    }
}

/// The identifier of a candle row: its natural key `(symbol, timeframe,
/// begin)`, joined with underscores.
pub open spec fn candle_id_spec(pair: Seq<char>, tf: TimeFrame, begin: u64) -> Seq<char> {
    pair + "_"@ + timeframe_tag(tf) + "_"@ + dec_digits(begin as int)
}

/// Render the natural key of a candle as a row identifier.
pub fn candle_id(pair: &str, tf: TimeFrame, begin: u64) -> (r: String)
    ensures
        r@ == candle_id_spec(pair@, tf, begin),
{
    let mut s = pair.to_owned();
    s.append("_");
    s.append(tf.tag());
    s.append("_");
    let ds = u64_to_dec(begin);
    s.append(ds.as_str());
    proof {
        assert(s@ =~= candle_id_spec(pair@, tf, begin));
    }
    s
}

/// What chrono renders for a second-precision UTC timestamp in RFC 3339
/// form.  The rendering depends on the timestamp alone.
pub uninterp spec fn rfc3339_of(ts: u64) -> Seq<char>;

/// Relies on chrono's `DateTime::from_timestamp` (`Some` for any number of
/// seconds whose date fits chrono's supported years, which reach far
/// beyond 9999) and `DateTime::to_rfc3339` (a pure rendering of the
/// timestamp value, named here `rfc3339_of`).
#[verifier::external_body]
fn format_rfc3339(ts: u64) -> (r: String)
    requires
        ts <= MAX_CIVIL_TS,
    ensures
        r@ == rfc3339_of(ts),
{
    chrono::DateTime::from_timestamp(ts as i64, 0).unwrap().to_rfc3339()
}

/// One row of the candle store, ready to bind: fixed-point prices, the
/// combined volumes, and the window bounds both as seconds and as
/// RFC 3339 text.
#[derive(Debug, Clone, PartialEq)]
pub struct CandleRow {
    pub id: String,
    pub symbol: String,
    pub lowest_price: u64,
    pub highest_price: u64,
    pub opening_price: u64,
    pub closing_price: u64,
    pub quote_volume: u128,
    pub base_volume: u128,
    pub trades: u64,
    pub start_time: String,
    pub end_time: String,
}

/// The row a candle maps to: every field a function of the candle alone.
pub open spec fn row_matches(k: Kline, r: CandleRow) -> bool {
    &&& r.id@ == candle_id_spec(k.pair@, k.timeframe, k.utc_begin)
    &&& r.symbol@ == k.pair@
    &&& r.lowest_price == k.low
    &&& r.highest_price == k.high
    &&& r.opening_price == k.open
    &&& r.closing_price == k.close
    &&& r.quote_volume == k.volume_bs.buy_quote + k.volume_bs.sell_quote
    &&& r.base_volume == k.volume_bs.buy_base + k.volume_bs.sell_base
    &&& r.trades == 0
    &&& r.start_time@ == rfc3339_of(k.utc_begin)
    &&& r.end_time@ == rfc3339_of(k.utc_end)
}

/// Turn a candle into the row the candle store keeps.
///
/// The row is keyed by the candle's natural key, carries the combined
/// (buy plus sell) volume totals, and formats the window bounds as
/// RFC 3339 timestamps.
pub fn kline_row(k: &Kline) -> (r: CandleRow)
    requires
        well_formed(*k),
        k.utc_end <= MAX_CIVIL_TS,
    ensures
        row_matches(*k, r),
{
    CandleRow {
        id: candle_id(k.pair.as_str(), k.timeframe, k.utc_begin),
        symbol: k.pair.clone(),
        lowest_price: k.low,
        highest_price: k.high,
        opening_price: k.open,
        closing_price: k.close,
        quote_volume: k.volume_bs.buy_quote + k.volume_bs.sell_quote,
        base_volume: k.volume_bs.buy_base + k.volume_bs.sell_base,
        trades: 0,
        start_time: format_rfc3339(k.utc_begin),
        end_time: format_rfc3339(k.utc_end),
    }
}

/// Two rows that agree in every field, as the store sees them.
pub open spec fn same_row(a: CandleRow, b: CandleRow) -> bool {
    &&& a.id@ == b.id@
    &&& a.symbol@ == b.symbol@
    &&& a.lowest_price == b.lowest_price
    &&& a.highest_price == b.highest_price
    &&& a.opening_price == b.opening_price
    &&& a.closing_price == b.closing_price
    &&& a.quote_volume == b.quote_volume
    &&& a.base_volume == b.base_volume
    &&& a.trades == b.trades
    &&& a.start_time@ == b.start_time@
    &&& a.end_time@ == b.end_time@
}

/// Writing one candle to the store twice is idempotent: both writes carry
/// byte-identical rows under the same key, so a keyed upsert of the
/// second is observably a no-op.
pub proof fn lemma_row_idempotent(k: Kline, r1: CandleRow, r2: CandleRow)
    requires
        row_matches(k, r1),
        row_matches(k, r2),
    ensures
        same_row(r1, r2),
{
}

/// The trade count a historical row carries: its digits' value, or `0`
/// when the field is not a plain representable number.
pub open spec fn count_val(s: Seq<char>) -> u64 {
    if s.len() > 0 && all_digits(s) && digits_val(s) <= u64::MAX {
        digits_val(s) as u64
    } else {
        0u64
    }
}

/// Parse a plain decimal count, with `0` for anything unparseable.
pub fn parse_count_or_zero(s: &str) -> (r: u64)
    ensures
        r == count_val(s@),
{
    let n = s.unicode_len();
    if n == 0 {
        return 0;
    }
    let mut i: usize = 0;
    let mut acc: u64 = 0;
    while i < n
        invariant
            0 <= i <= n,
            n == s@.len(),
            forall|j: int| 0 <= j < i ==> crate::numeric::is_digit(#[trigger] s@[j]),
            acc == digits_val(s@.take(i as int)),
        decreases n - i,
    {
        let c = s.get_char(i);
        let d: u32 = c as u32;
        if d < 48 || d > 57 {
            proof {
                assert(!all_digits(s@));
            }
            return 0;
        }
        let dd: u64 = (d - 48) as u64;
        proof {
            assert(s@.take(i + 1).drop_last() =~= s@.take(i as int));
            assert(s@.take(i + 1).last() == s@[i as int]);
        }
        if acc > 1844674407370955161 || (acc == 1844674407370955161 && dd > 5) {
            proof {
                if all_digits(s@) {
                    let p = s@.take(i + 1);
                    let rest = s@.subrange(i + 1, n as int);
                    assert(s@ =~= p + rest);
                    lemma_digits_val_append(p, rest);
                    assert forall|j: int| 0 <= j < rest.len() implies crate::numeric::is_digit(
                        #[trigger] rest[j],
                    ) by {
                        assert(rest[j] == s@[i + 1 + j]);
                    }
                    lemma_digits_val_bounds(rest);
                    crate::numeric::lemma_pow10_pos(rest.len());
                    assert(digits_val(p) * crate::numeric::pow10(rest.len()) >= digits_val(p)) by (
                    nonlinear_arith)
                        requires
                            digits_val(p) >= 0,
                            crate::numeric::pow10(rest.len()) >= 1,
                    ;
                    assert(digits_val(s@) > u64::MAX);
                }
            }
            return 0;
        }
        acc = acc * 10 + dd;
        i = i + 1;
    }
    proof {
        assert(s@.take(n as int) =~= s@);
    }
    acc
}

/// One row of a historical backfill response, parsed: six fixed-point
/// prices and volumes, a trade count, and the two timestamp strings kept
/// as they came.  An unparseable numeric field becomes `0`, as the store
/// records it.
#[derive(Debug, Clone, PartialEq)]
pub struct HistoryRow {
    pub lowest_price: u64,
    pub highest_price: u64,
    pub opening_price: u64,
    pub closing_price: u64,
    pub quote_volume: u64,
    pub base_volume: u64,
    pub trades: u64,
    pub start_time: String,
    pub end_time: String,
}

/// The mantissa a historical field contributes: its parsed value, or `0`.
pub open spec fn field_val(s: Seq<char>) -> u64 {
    match parse_fixed_spec(s) {
        Some(m) => m,
        None => 0u64,
    }
}

/// Parse one row of a historical backfill response.  The first six fields
/// are decimal prices and volumes, the seventh a trade count, the eighth
/// and ninth the window bounds as text.
pub fn history_row(row: &Vec<String>) -> (r: HistoryRow)
    requires
        row@.len() >= 9,
    ensures
        r.lowest_price == field_val(row@[0]@),
        r.highest_price == field_val(row@[1]@),
        r.opening_price == field_val(row@[2]@),
        r.closing_price == field_val(row@[3]@),
        r.quote_volume == field_val(row@[4]@),
        r.base_volume == field_val(row@[5]@),
        r.trades == count_val(row@[6]@),
        r.start_time@ == row@[7]@,
        r.end_time@ == row@[8]@,
{
    HistoryRow {
        lowest_price: parse_fixed_or_zero(row[0].as_str()),
        highest_price: parse_fixed_or_zero(row[1].as_str()),
        opening_price: parse_fixed_or_zero(row[2].as_str()),
        closing_price: parse_fixed_or_zero(row[3].as_str()),
        quote_volume: parse_fixed_or_zero(row[4].as_str()),
        base_volume: parse_fixed_or_zero(row[5].as_str()),
        trades: parse_count_or_zero(row[6].as_str()),
        start_time: row[7].clone(),
        end_time: row[8].clone(),
    }
}

} // verus!
