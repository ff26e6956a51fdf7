//! Fixed-point decimal numbers.
//!
//! Prices and quantities arrive as decimal strings.  The library represents
//! them as integer mantissas scaled by `10^4` (four fractional digits kept,
//! further digits truncated), so that every later computation is exact
//! integer arithmetic.  A string that does not match the decimal grammar
//! `digit* ['.' digit*]` (with at least one digit), or whose value exceeds
//! [`crate::candle::MANTISSA_MAX`], does not parse; the fold treats such a
//! trade as a per-trade data error.

use vstd::prelude::*;

use crate::candle::MANTISSA_MAX;

verus! {

/// Number of fractional digits a mantissa carries.
pub const SCALE_DIGITS: u64 = 4;

/// `10^SCALE_DIGITS`: one whole unit, as a mantissa.
pub const SCALE: u64 = 10000;

pub open spec fn is_digit(c: char) -> bool {
    48 <= c as int <= 57
}

pub open spec fn digit_val(c: char) -> int {
    c as int - 48
}

pub open spec fn all_digits(s: Seq<char>) -> bool {
    forall|i: int| 0 <= i < s.len() ==> is_digit(#[trigger] s[i])
}

/// Value of a digit string read in base 10 (most significant digit first).
pub open spec fn digits_val(s: Seq<char>) -> int
    decreases s.len(),
{
    if s.len() == 0 {
        0
    } else {
        digits_val(s.drop_last()) * 10 + digit_val(s.last())
    }
}

pub open spec fn pow10(k: nat) -> int
    decreases k,
{
    if k == 0 {
        1
    } else {
        10 * pow10((k - 1) as nat)
    }
}

/// Index of the first `'.'` in `s`, or `s.len()` if there is none.
pub open spec fn first_dot(s: Seq<char>) -> int
    decreases s.len(),
{
    if s.len() == 0 {
        0
    } else if s[0] == '.' {
        0
    } else {
        1 + first_dot(s.subrange(1, s.len() as int))
    }
}

/// The digits before the first dot.
pub open spec fn int_digits(s: Seq<char>) -> Seq<char> {
    s.take(first_dot(s))
}

/// The digits after the first dot (empty if there is no dot).
pub open spec fn frac_digits(s: Seq<char>) -> Seq<char> {
    if first_dot(s) < s.len() {
        s.subrange(first_dot(s) + 1, s.len() as int)
    } else {
        Seq::empty()
    }
}

/// The decimal grammar: `digit* ['.' digit*]` with at least one digit.
pub open spec fn valid_decimal(s: Seq<char>) -> bool {
    &&& all_digits(int_digits(s))
    &&& all_digits(frac_digits(s))
    &&& int_digits(s).len() + frac_digits(s).len() > 0
}

/// Contribution of the fractional digits to the mantissa: the first four
/// digits, padded with zeros on the right if fewer were written.
pub open spec fn frac_scaled(frac: Seq<char>) -> int {
    if frac.len() >= 4 {
        digits_val(frac.take(4))
    } else {
        digits_val(frac) * pow10((4 - frac.len()) as nat)
    }
}

/// Mathematical mantissa of a decimal string: `int_part * 10^4` plus the
/// scaled fractional part.
pub open spec fn decimal_mantissa(s: Seq<char>) -> int {
    digits_val(int_digits(s)) * (SCALE as int) + frac_scaled(frac_digits(s))
}

/// What parsing a price or quantity string yields: the mantissa, if the
/// string is a well-formed decimal whose value is representable.
pub open spec fn parse_fixed_spec(s: Seq<char>) -> Option<u64> {
    if valid_decimal(s) && decimal_mantissa(s) <= MANTISSA_MAX {
        Some(decimal_mantissa(s) as u64)
    } else {
        None
    }
}

pub proof fn lemma_pow10_small()
    ensures
        pow10(0) == 1,
        pow10(1) == 10,
        pow10(2) == 100,
        pow10(3) == 1000,
        pow10(4) == 10000,
{
    reveal_with_fuel(pow10, 5);
}

pub proof fn lemma_pow10_pos(k: nat)
    ensures
        pow10(k) >= 1,
    decreases k,
{
    if k > 0 {
        lemma_pow10_pos((k - 1) as nat);
    }
}

pub proof fn lemma_digits_val_bounds(s: Seq<char>)
    requires
        all_digits(s),
    ensures
        0 <= digits_val(s) < pow10(s.len()),
    decreases s.len(),
{
    if s.len() > 0 {
        assert(all_digits(s.drop_last()));
        lemma_digits_val_bounds(s.drop_last());
    }
}

/// Reading `p + q` in base 10 shifts the value of `p` left by `q.len()`
/// digits and adds the value of `q`.
pub proof fn lemma_digits_val_append(p: Seq<char>, q: Seq<char>)
    ensures
        digits_val(p + q) == digits_val(p) * pow10(q.len()) + digits_val(q),
    decreases q.len(),
{
    if q.len() == 0 {
        assert(p + q =~= p);
    } else {
        lemma_digits_val_append(p, q.drop_last());
        assert((p + q).drop_last() =~= p + q.drop_last());
        assert((p + q).last() == q.last());
        assert(digits_val(p) * (10 * pow10((q.len() - 1) as nat)) == (digits_val(p) * pow10(
            (q.len() - 1) as nat,
        )) * 10) by (nonlinear_arith);
    }
}

/// The characterization of `first_dot`: it points at the first dot, and
/// everything before it is dot-free.
pub proof fn lemma_first_dot(s: Seq<char>)
    ensures
        0 <= first_dot(s) <= s.len(),
        first_dot(s) < s.len() ==> s[first_dot(s)] == '.',
        forall|j: int| 0 <= j < first_dot(s) ==> s[j] != '.',
    decreases s.len(),
{
    if s.len() > 0 && s[0] != '.' {
        let t = s.subrange(1, s.len() as int);
        lemma_first_dot(t);
        assert forall|j: int| 0 <= j < first_dot(s) implies s[j] != '.' by {
            if j > 0 {
                assert(t[j - 1] != '.');
            }
        }
    }
}

/// A well-formed decimal has a nonnegative mantissa.
pub proof fn lemma_mantissa_nonneg(s: Seq<char>)
    requires
        valid_decimal(s),
    ensures
        digits_val(int_digits(s)) >= 0,
        frac_scaled(frac_digits(s)) >= 0,
        decimal_mantissa(s) >= 0,
{
    lemma_digits_val_bounds(int_digits(s));
    let frac = frac_digits(s);
    lemma_digits_val_bounds(frac);
    if frac.len() >= 4 {
        assert forall|j: int| 0 <= j < 4 implies is_digit(#[trigger] frac.take(4)[j]) by {
            assert(frac.take(4)[j] == frac[j]);
        }
        lemma_digits_val_bounds(frac.take(4));
    } else {
        lemma_pow10_pos((4 - frac.len()) as nat);
        assert(digits_val(frac) * pow10((4 - frac.len()) as nat) >= 0) by (nonlinear_arith)
            requires
                digits_val(frac) >= 0,
                pow10((4 - frac.len()) as nat) >= 1,
        ;
    }
    assert(digits_val(int_digits(s)) * (SCALE as int) >= 0) by (nonlinear_arith)
        requires
            digits_val(int_digits(s)) >= 0,
    ;
}

/// Whatever parses is a representable mantissa.
pub proof fn lemma_parse_fixed_bound(s: Seq<char>)
    ensures
        parse_fixed_spec(s) matches Some(p) ==> 0 <= p <= MANTISSA_MAX,
{
    if valid_decimal(s) && decimal_mantissa(s) <= MANTISSA_MAX {
        lemma_mantissa_nonneg(s);
    }
}

/// If the first `i` characters are digits and their value already exceeds
/// the largest mantissa, the whole string cannot parse.
proof fn lemma_prefix_already_over(s: Seq<char>, i: int)
    requires
        0 <= i <= s.len(),
        forall|j: int| 0 <= j < i ==> is_digit(#[trigger] s[j]) && s[j] != '.',
        digits_val(s.take(i)) > MANTISSA_MAX,
    ensures
        parse_fixed_spec(s) is None,
{
    lemma_first_dot(s);
    let fd = first_dot(s);
    assert(fd >= i) by {
        if fd < i {
            assert(s[fd] == '.');
        }
    }
    if valid_decimal(s) {
        let ip = int_digits(s);
        let rest = ip.subrange(i, ip.len() as int);
        assert(ip =~= s.take(i) + rest);
        lemma_digits_val_append(s.take(i), rest);
        assert forall|j: int| 0 <= j < rest.len() implies is_digit(#[trigger] rest[j]) by {
            assert(rest[j] == ip[i + j]);
            assert(is_digit(ip[i + j]));
        }
        assert(all_digits(rest));
        lemma_digits_val_bounds(rest);
        lemma_pow10_pos(rest.len());
        assert(digits_val(s.take(i)) * pow10(rest.len()) >= digits_val(s.take(i))) by (
        nonlinear_arith)
            requires
                digits_val(s.take(i)) >= 0,
                pow10(rest.len()) >= 1,
        ;
        assert(digits_val(ip) > MANTISSA_MAX);
        lemma_mantissa_nonneg(s);
        assert(digits_val(ip) * (SCALE as int) >= digits_val(ip)) by (nonlinear_arith)
            requires
                digits_val(ip) > 0,
        ;
        assert(decimal_mantissa(s) > MANTISSA_MAX);
    }
}

/// Parse a decimal string into a fixed-point mantissa (scale `10^4`).
///
/// Returns `None` exactly when the string is not of the form
/// `digit* ['.' digit*]` with at least one digit, or its value exceeds
/// `MANTISSA_MAX`.  Fractional digits beyond the fourth are truncated.
pub fn parse_fixed(s: &str) -> (r: Option<u64>)
    ensures
        r == parse_fixed_spec(s@),
{
    let n: usize = s.unicode_len();
    let mut i: usize = 0;
    let mut acc: u64 = 0;
    // integer part: scan up to the first dot
    while i < n && s.get_char(i) != '.'
        invariant
            0 <= i <= n,
            n == s@.len(),
            forall|j: int| 0 <= j < i ==> is_digit(#[trigger] s@[j]) && s@[j] != '.',
            acc == digits_val(s@.take(i as int)),
            acc <= MANTISSA_MAX,
        decreases n - i,
    {
        let c = s.get_char(i);
        let d: u32 = c as u32;
        if d < 48 || d > 57 {
            proof {
                lemma_first_dot(s@);
                assert(first_dot(s@) > i) by {
                    if first_dot(s@) <= i {
                        assert(s@[first_dot(s@)] == '.');
                    }
                }
                assert(!all_digits(int_digits(s@))) by {
                    assert(int_digits(s@)[i as int] == s@[i as int]);
                    assert(!is_digit(int_digits(s@)[i as int]));
                }
            }
            return None;
        }
        let next: u64 = acc * 10 + (d - 48) as u64;
        proof {
            assert(s@.take(i + 1).drop_last() =~= s@.take(i as int));
            assert(s@.take(i + 1).last() == s@[i as int]);
        }
        if next > MANTISSA_MAX {
            proof {
                lemma_prefix_already_over(s@, i + 1);
            }
            return None;
        }
        acc = next;
        i = i + 1;
    }
    if i == n {
        // no dot: the whole string is the integer part
        proof {
            lemma_first_dot(s@);
            assert(first_dot(s@) == n);
            assert(int_digits(s@) =~= s@);
            assert(frac_digits(s@) =~= Seq::<char>::empty());
        }
        if n == 0 {
            return None;
        }
        let m: u64 = acc * SCALE;
        proof {
            assert(decimal_mantissa(s@) == acc * (SCALE as int));
        }
        if m > MANTISSA_MAX {
            return None;
        }
        return Some(m);
    }
    // s@[i] is the first dot
    proof {
        lemma_first_dot(s@);
        assert(first_dot(s@) == i) by {
            if first_dot(s@) < i {
                assert(s@[first_dot(s@)] == '.');
            }
            if first_dot(s@) > i {
                assert(s@[i as int] != '.');
            }
        }
        assert(int_digits(s@) =~= s@.take(i as int));
        assert(all_digits(int_digits(s@)));
    }
    let dot: usize = i;
    let ghost frac = frac_digits(s@);
    let mut j: usize = dot + 1;
    let mut fc: usize = 0;
    let mut acc2: u64 = 0;
    while j < n
        invariant
            dot < j <= n,
            n == s@.len(),
            frac == frac_digits(s@),
            frac =~= s@.subrange(dot + 1, n as int),
            first_dot(s@) == dot,
            fc == j - dot - 1,
            forall|k: int| 0 <= k < fc ==> is_digit(#[trigger] frac[k]),
            acc2 == digits_val(frac.take(if fc <= 4 { fc as int } else { 4 })),
            acc2 < 10000,
        decreases n - j,
    {
        let c = s.get_char(j);
        let d: u32 = c as u32;
        if d < 48 || d > 57 {
            proof {
                assert(frac[fc as int] == s@[j as int]);
                assert(!all_digits(frac));
            }
            return None;
        }
        if fc < 4 {
            proof {
                assert(frac.take(fc + 1).drop_last() =~= frac.take(fc as int));
                assert(frac.take(fc + 1).last() == frac[fc as int]);
                assert(all_digits(frac.take(fc + 1))) by {
                    assert(forall|k: int| 0 <= k < fc + 1 ==> frac.take(fc + 1)[k] == frac[k]);
                }
                lemma_digits_val_bounds(frac.take(fc + 1));
                lemma_pow10_small();
            }
            acc2 = acc2 * 10 + (d - 48) as u64;
        }
        fc = fc + 1;
        j = j + 1;
    }
    // all fractional characters are digits
    proof {
        assert(fc == frac.len());
        assert(all_digits(frac));
    }
    if dot == 0 && fc == 0 {
        // the string is a lone dot
        proof {
            assert(int_digits(s@).len() == 0);
            assert(frac_digits(s@).len() == 0);
        }
        return None;
    }
    let shift: u64 = if fc >= 4 {
        1
    } else if fc == 3 {
        10
    } else if fc == 2 {
        100
    } else if fc == 1 {
        1000
    } else {
        10000
    };
    proof {
        lemma_pow10_small();
        if fc >= 4 {
            assert(frac.take(4) =~= frac.take(if fc <= 4 {
                fc as int
            } else {
                4
            }));
            assert(frac_scaled(frac) == acc2);
        } else {
            assert(frac.take(fc as int) =~= frac);
            assert(frac_scaled(frac) == acc2 * (shift as int));
        }
        assert(acc2 * (shift as int) < 100000000) by (nonlinear_arith)
            requires
                0 <= acc2 < 10000,
                0 < shift <= 10000,
        ;
        assert(acc2 * (shift as int) >= 0) by (nonlinear_arith)
            requires
                acc2 >= 0,
                shift >= 1,
        ;
    }
    let m: u64 = acc * SCALE + acc2 * shift;
    proof {
        if fc >= 4 {
            assert(decimal_mantissa(s@) == acc * (SCALE as int) + acc2);
            assert(m == decimal_mantissa(s@));
        } else {
            assert(decimal_mantissa(s@) == acc * (SCALE as int) + acc2 * (shift as int));
        }
    }
    if m > MANTISSA_MAX {
        return None;
    }
    Some(m)
}

/// Parse as [`parse_fixed`], with `0` in place of an unparseable value, as
/// the historical-backfill rows are stored.
pub fn parse_fixed_or_zero(s: &str) -> (r: u64)
    ensures
        r == match parse_fixed_spec(s@) {
            Some(m) => m,
            None => 0u64,
        },
{
    match parse_fixed(s) {
        Some(m) => m,
        None => 0,
    }
}

} // verus!
