//! Boundary alignment for the aggregation scheduler.
//!
//! For a timeframe of duration `D` seconds (which evenly divides an hour,
//! itself aligned to the epoch), the next boundary strictly after `now` is
//! the smallest multiple of `D` greater than `now` — strictly greater, so
//! that a tick firing exactly on a boundary selects the following one and
//! the scheduler always makes forward progress.  A boundary closes the
//! half-open window `[boundary - D, boundary)`; successive windows of one
//! timeframe tile the timeline with no gap and no overlap.

use vstd::arithmetic::div_mod::{lemma_fundamental_div_mod, lemma_mod_multiples_basic};
use vstd::prelude::*;

use crate::candle::{tf_duration, well_formed, TimeFrame};
use crate::fold::{fold_post, make_kline_from_trades, ts_sorted, FoldOutcome};
use crate::models::Trade;

verus! {

/// The smallest multiple of the timeframe's duration strictly greater
/// than `now`.
pub open spec fn spec_next_boundary(now: u64, tf: TimeFrame) -> int {
    (now as int / tf_duration(tf) as int + 1) * tf_duration(tf) as int
}

/// Compute the next aligned boundary strictly after `now` (seconds since
/// the epoch).
pub fn next_boundary(now: u64, tf: TimeFrame) -> (r: u64)
    requires
        now + tf_duration(tf) <= u64::MAX,
    ensures
        r == spec_next_boundary(now, tf),
        r % tf_duration(tf) == 0,
        now < r <= now + tf_duration(tf),
{
    let d = tf.duration_secs();
    let q = now / d;
    proof {
        lemma_fundamental_div_mod(now as int, d as int);
        lemma_mod_multiples_basic(q as int + 1, d as int);
    }
    q * d + d
}

/// Seconds to wait from `now` until the next boundary: always positive,
/// never more than one full timeframe.
pub fn calc_next_run_time(now: u64, tf: TimeFrame) -> (r: u64)
    requires
        now + tf_duration(tf) <= u64::MAX,
    ensures
        now + r == spec_next_boundary(now, tf),
        0 < r <= tf_duration(tf),
{
    let b = next_boundary(now, tf);
    b - now
}

/// The window a boundary closes: `[boundary - D, boundary)`.
pub fn window_for_boundary(boundary: u64, tf: TimeFrame) -> (w: (u64, u64))
    requires
        tf_duration(tf) <= boundary,
    ensures
        w.0 == boundary - tf_duration(tf),
        w.1 == boundary,
        w.0 < w.1,
        w.1 - w.0 == tf_duration(tf),
{
    let d = tf.duration_secs();
    proof {
        assert(tf_duration(tf) > 0);
    }
    (boundary - d, boundary)
}

/// One scheduler tick, after the wait: fold the trades of the window that
/// the boundary just closed.  The caller queries its trade store for the
/// window and, when the outcome carries a candle, writes it to its candle
/// store; when it carries none the window was empty and nothing is
/// written.
pub fn plan_tick(trades: &Vec<Trade>, symbol: &str, timeframe: TimeFrame, boundary: u64) -> (r:
    FoldOutcome)
    requires
        ts_sorted(trades@),
        tf_duration(timeframe) <= boundary,
    ensures
        fold_post(
            trades@,
            symbol@,
            timeframe,
            (boundary - tf_duration(timeframe)) as u64,
            boundary,
            r,
        ),
        r.kline matches Some(k) ==> well_formed(k),
        r.kline matches Some(k) ==> k.utc_begin == boundary - tf_duration(timeframe)
            && k.utc_end == boundary,
{
    let w = window_for_boundary(boundary, timeframe);
    make_kline_from_trades(trades, symbol, timeframe, w.0)
}

/// Boundaries computed by the scheduler are exact: any aligned instant
/// strictly after `now` is no earlier than the one `next_boundary` picks.
pub proof fn lemma_next_boundary_minimal(now: u64, tf: TimeFrame, m: int)
    requires
        m % tf_duration(tf) as int == 0,
        m > now,
    ensures
        m >= spec_next_boundary(now, tf),
{
    let d = tf_duration(tf) as int;
    let q = now as int / d;
    let k = m / d;
    lemma_fundamental_div_mod(now as int, d);
    lemma_fundamental_div_mod(m, d);
    if m < spec_next_boundary(now, tf) {
        assert(d * k < (q + 1) * d);
        assert(k < q + 1) by (nonlinear_arith)
            requires
                d > 0,
                d * k < (q + 1) * d,
        ;
        assert(d * k <= d * q) by (nonlinear_arith)
            requires
                d > 0,
                k <= q,
        ;
        assert(m <= now);
    }
}

/// Window tiling: for a scheduler running continuously on one timeframe,
/// the window closed by one boundary ends exactly where the window closed
/// by the next boundary begins — no gap, no overlap.
pub proof fn lemma_window_tiling(boundary: u64, tf: TimeFrame)
    requires
        boundary % tf_duration(tf) == 0,
        tf_duration(tf) <= boundary,
        boundary + tf_duration(tf) <= u64::MAX,
    ensures
        spec_next_boundary(boundary, tf) == boundary + tf_duration(tf),
        spec_next_boundary(boundary, tf) - tf_duration(tf) == boundary,
{
    let d = tf_duration(tf) as int;
    lemma_fundamental_div_mod(boundary as int, d);
}

} // verus!
