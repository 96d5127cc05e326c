//! Numeric wire fields: decimal integers and fixed-point decimals.
//!
//! The feed carries plain decimal text. Integer fields become `u32` or
//! `i32` exactly as written; fields with a fractional part become
//! fixed-point values scaled by one million (microdegrees, microknots),
//! truncating digits past the sixth fractional place.

use vstd::prelude::*;

use crate::fields::first_sep_index;
use crate::fields::lemma_first_sep_index;
use crate::transponder::DIGIT_0;
use crate::transponder::DIGIT_9;

verus! {

/// ASCII `+`.
pub const PLUS: u8 = 43;

/// ASCII `-`.
pub const MINUS: u8 = 45;

/// ASCII `.`.
pub const DOT: u8 = 46;

/// One million: the scale of fixed-point values.
pub const MICRO_SCALE: u64 = 1000000;

/// The largest whole part a fixed-point field may carry: any more and the
/// scaled value could not fit in an `i64`.
pub const MAX_MICRO_INT: u64 = 9223372036853;

/// Is `c` a decimal digit?
pub open spec fn is_dec_digit(c: u8) -> bool {
    DIGIT_0 <= c && c <= DIGIT_9
}

/// Are all bytes of `s` decimal digits?
pub open spec fn all_dec_digits(s: Seq<u8>) -> bool {
    forall|i: int| 0 <= i < s.len() ==> is_dec_digit(#[trigger] s[i])
}

/// The value of a run of decimal digits, most significant first.
pub open spec fn dec_value(s: Seq<u8>) -> int
    recommends
        all_dec_digits(s),
    decreases s.len(),
{
    if s.len() == 0 {
        0
    } else {
        dec_value(s.drop_last()) * 10 + (s.last() - DIGIT_0)
    }
}

/// `10^n`.
pub open spec fn pow10(n: nat) -> int
    decreases n,
{
    if n == 0 {
        1
    } else {
        10 * pow10((n - 1) as nat)
    }
}

pub proof fn lemma_pow10_positive(n: nat)
    ensures
        pow10(n) >= 1,
    decreases n,
{
    if n > 0 {
        lemma_pow10_positive((n - 1) as nat);
    }
}

/// A digit run's value is nonnegative and below `10^len`.
pub proof fn lemma_dec_value_bounds(s: Seq<u8>)
    requires
        all_dec_digits(s),
    ensures
        0 <= dec_value(s) < pow10(s.len()),
    decreases s.len(),
{
    if s.len() > 0 {
        assert(all_dec_digits(s.drop_last())) by {
            assert(forall|i: int|
                0 <= i < s.len() - 1 ==> #[trigger] s.drop_last()[i] == s[i]);
        }
        lemma_dec_value_bounds(s.drop_last());
        assert(0 <= s.last() - DIGIT_0 <= 9);
    }
}

/// Extending a digit run by one digit multiplies its value by ten and adds
/// the digit.
pub proof fn lemma_dec_value_take_step(s: Seq<u8>, k: int)
    requires
        0 <= k < s.len(),
    ensures
        dec_value(s.take(k + 1)) == dec_value(s.take(k)) * 10 + (s[k] - DIGIT_0),
{
    assert(s.take(k + 1).drop_last() =~= s.take(k));
    assert(s.take(k + 1).last() == s[k]);
}

/// A digit run is worth at least any of its prefixes.
pub proof fn lemma_dec_value_prefix_le(s: Seq<u8>, k: int)
    requires
        all_dec_digits(s),
        0 <= k <= s.len(),
    ensures
        dec_value(s.take(k)) <= dec_value(s),
    decreases s.len() - k,
{
    if k == s.len() {
        assert(s.take(k) =~= s);
    } else {
        lemma_dec_value_take_step(s, k);
        assert(all_dec_digits(s.take(k))) by {
            assert(forall|i: int| 0 <= i < k ==> #[trigger] s.take(k)[i] == s[i]);
        }
        lemma_dec_value_bounds(s.take(k));
        assert(dec_value(s.take(k)) <= dec_value(s.take(k + 1)));
        lemma_dec_value_prefix_le(s, k + 1);
    }
}

/// Reads `s[start..end]` as a nonempty run of decimal digits worth at most
/// `limit`; anything else is `None`.
pub fn parse_digits(s: &[u8], start: usize, end: usize, limit: u64) -> (r: Option<u64>)
    requires
        start <= end <= s@.len(),
        limit <= 0x1000000000000000,
    ensures
        ({
            let t = s@.subrange(start as int, end as int);
            if t.len() > 0 && all_dec_digits(t) && dec_value(t) <= limit {
                r == Some(dec_value(t) as u64) && 0 <= dec_value(t) <= limit
            } else {
                r == None::<u64>
            }
        }),
{
    let ghost t = s@.subrange(start as int, end as int);
    if start == end {
        return None;
    }
    let mut acc: u64 = 0;
    let mut j: usize = start;
    while j < end
        invariant
            start <= j <= end <= s@.len(),
            t == s@.subrange(start as int, end as int),
            forall|q: int| 0 <= q < j - start ==> is_dec_digit(#[trigger] t[q]),
            acc == dec_value(t.take(j - start)),
            acc <= limit,
            limit <= 0x1000000000000000,
        decreases end - j,
    {
        let c = s[j];
        proof {
            assert(t[j - start] == s@[j as int]);
        }
        if c < DIGIT_0 || c > DIGIT_9 {
            return None;
        }
        proof {
            lemma_dec_value_take_step(t, j - start);
            assert(all_dec_digits(t.take(j - start + 1))) by {
                assert(forall|q: int|
                    0 <= q < j - start + 1 ==> #[trigger] t.take(j - start + 1)[q] == t[q]);
            }
            lemma_dec_value_bounds(t.take(j - start + 1));
        }
        acc = acc * 10 + (c - DIGIT_0) as u64;
        if acc > limit {
            proof {
                if all_dec_digits(t) && dec_value(t) <= limit {
                    lemma_dec_value_prefix_le(t, j - start + 1);
                }
            }
            return None;
        }
        j += 1;
    }
    proof {
        assert(t.take(end - start) =~= t);
    }
    Some(acc)
}

/// What a `u32` wire field means: an optional `+`, then a nonempty digit
/// run whose value fits.
pub open spec fn spec_parse_u32(s: Seq<u8>) -> Option<u32> {
    let t = if s.len() > 0 && s[0] == PLUS {
        s.skip(1)
    } else {
        s
    };
    if t.len() > 0 && all_dec_digits(t) && dec_value(t) <= u32::MAX {
        Some(dec_value(t) as u32)
    } else {
        None
    }
}

/// Parses a `u32` wire field.
pub fn parse_u32_field(s: &[u8]) -> (r: Option<u32>)
    ensures
        r == spec_parse_u32(s@),
{
    let start: usize = if s.len() > 0 && s[0] == PLUS {
        1
    } else {
        0
    };
    proof {
        assert(s@.subrange(start as int, s@.len() as int) =~= (if s@.len() > 0 && s@[0] == PLUS {
            s@.skip(1)
        } else {
            s@
        }));
    }
    match parse_digits(s, start, s.len(), 0xFFFFFFFF) {
        Some(v) => Some(v as u32),
        None => None,
    }
}

/// What an `i32` wire field means: an optional sign, then a nonempty digit
/// run whose signed value fits.
pub open spec fn spec_parse_i32(s: Seq<u8>) -> Option<i32> {
    let neg = s.len() > 0 && s[0] == MINUS;
    let t = if s.len() > 0 && (s[0] == MINUS || s[0] == PLUS) {
        s.skip(1)
    } else {
        s
    };
    let bound: int = if neg {
        0x80000000
    } else {
        0x7FFFFFFF
    };
    if t.len() > 0 && all_dec_digits(t) && dec_value(t) <= bound {
        Some((if neg {
            -dec_value(t)
        } else {
            dec_value(t)
        }) as i32)
    } else {
        None
    }
}

/// Parses an `i32` wire field.
pub fn parse_i32_field(s: &[u8]) -> (r: Option<i32>)
    ensures
        r == spec_parse_i32(s@),
{
    let neg = s.len() > 0 && s[0] == MINUS;
    let start: usize = if s.len() > 0 && (s[0] == MINUS || s[0] == PLUS) {
        1
    } else {
        0
    };
    let limit: u64 = if neg {
        0x80000000
    } else {
        0x7FFFFFFF
    };
    proof {
        assert(s@.subrange(start as int, s@.len() as int) =~= (if s@.len() > 0 && (s@[0] == MINUS
            || s@[0] == PLUS) {
            s@.skip(1)
        } else {
            s@
        }));
    }
    match parse_digits(s, start, s.len(), limit) {
        Some(v) => {
            if neg {
                Some((-(v as i64)) as i32)
            } else {
                Some(v as i32)
            }
        },
        None => None,
    }
}

/// The first six fractional digits of `b`, scaled to millionths; digits
/// past the sixth place are truncated.
pub open spec fn frac_micro(b: Seq<u8>) -> int
    recommends
        all_dec_digits(b),
{
    if b.len() >= 6 {
        dec_value(b.take(6))
    } else {
        dec_value(b) * pow10((6 - b.len()) as nat)
    }
}

/// What a fixed-point wire field means: an optional sign, a digit run, an
/// optional `.` and further digits, at least one digit in all, the whole
/// part at most [`MAX_MICRO_INT`]; worth the signed count of millionths,
/// truncated past the sixth fractional digit.
pub open spec fn spec_parse_micro(s: Seq<u8>) -> Option<i64> {
    let neg = s.len() > 0 && s[0] == MINUS;
    let t = if s.len() > 0 && (s[0] == MINUS || s[0] == PLUS) {
        s.skip(1)
    } else {
        s
    };
    let di = first_sep_index(t, DOT);
    let a = t.take(di);
    let b = if di < t.len() {
        t.skip(di + 1)
    } else {
        Seq::<u8>::empty()
    };
    if a.len() + b.len() >= 1 && all_dec_digits(a) && all_dec_digits(b) && dec_value(a)
        <= MAX_MICRO_INT {
        let m = dec_value(a) * (MICRO_SCALE as int) + frac_micro(b);
        Some((if neg {
            -m
        } else {
            m
        }) as i64)
    } else {
        None
    }
}

/// Reads all of `s[start..]` as fractional digits and returns their value
/// in millionths; `None` as soon as a non-digit occurs.
fn parse_frac(s: &[u8], start: usize) -> (r: Option<u64>)
    requires
        start <= s@.len(),
    ensures
        ({
            let b = s@.skip(start as int);
            if all_dec_digits(b) {
                r == Some(frac_micro(b) as u64) && 0 <= frac_micro(b) < 1000000
            } else {
                r == None::<u64>
            }
        }),
{
    let ghost b = s@.skip(start as int);
    proof {
        lemma_pow10_small_values();
    }
    let mut acc: u64 = 0;
    let mut j: usize = start;
    while j < s.len()
        invariant
            start <= j <= s@.len(),
            b == s@.skip(start as int),
            forall|q: int| 0 <= q < j - start ==> is_dec_digit(#[trigger] b[q]),
            acc == dec_value(b.take(if j - start <= 6 { j - start } else { 6 })),
            acc < 1000000,
        decreases s@.len() - j,
    {
        let c = s[j];
        proof {
            assert(b[j - start] == s@[j as int]);
        }
        if c < DIGIT_0 || c > DIGIT_9 {
            return None;
        }
        if j - start < 6 {
            proof {
                lemma_dec_value_take_step(b, j - start);
                assert(all_dec_digits(b.take(j - start + 1))) by {
                    assert(forall|q: int|
                        0 <= q < j - start + 1 ==> #[trigger] b.take(j - start + 1)[q] == b[q]);
                }
                lemma_dec_value_bounds(b.take(j - start + 1));
                lemma_pow10_increases((j - start + 1) as nat, 6nat);
                lemma_pow10_small_values();
            }
            acc = acc * 10 + (c - DIGIT_0) as u64;
        } else {
            proof {
                assert(b.take(6) =~= b.take(if j - start + 1 <= 6 {
                    j - start + 1
                } else {
                    6
                }));
            }
        }
        j += 1;
    }
    let flen = s.len() - start;
    if flen >= 6 {
        proof {
            assert(b.take(6) =~= b.take(if flen <= 6 {
                flen as int
            } else {
                6
            }));
        }
        return Some(acc);
    }
    proof {
        assert(b.take(flen as int) =~= b);
        assert(all_dec_digits(b));
        lemma_dec_value_bounds(b);
    }
    let mut m: usize = flen;
    while m < 6
        invariant
            flen <= m <= 6,
            flen == b.len(),
            all_dec_digits(b),
            acc == dec_value(b) * pow10((m - flen) as nat),
            dec_value(b) < pow10(flen as nat),
            acc < pow10(m as nat),
            pow10(6nat) == 1000000,
        decreases 6 - m,
    {
        proof {
            lemma_pow10_small_values();
            lemma_pow10_increases((m + 1) as nat, 6nat);
            let d = dec_value(b);
            let p0 = pow10((m - flen) as nat);
            let p1 = pow10((m + 1 - flen) as nat);
            assert(p1 == 10 * p0);
            assert(d * p1 == (d * p0) * 10) by (nonlinear_arith)
                requires
                    p1 == 10 * p0,
            ;
            assert(pow10((m + 1) as nat) == 10 * pow10(m as nat));
        }
        acc = acc * 10;
        m += 1;
    }
    Some(acc)
}

/// `10^n` for small `n`, spelled out.
proof fn lemma_pow10_small_values()
    ensures
        pow10(0nat) == 1,
        pow10(1nat) == 10,
        pow10(2nat) == 100,
        pow10(3nat) == 1000,
        pow10(4nat) == 10000,
        pow10(5nat) == 100000,
        pow10(6nat) == 1000000,
{
    reveal_with_fuel(pow10, 7);
}

proof fn lemma_pow10_increases(a: nat, b: nat)
    requires
        a <= b,
    ensures
        pow10(a) <= pow10(b),
    decreases b,
{
    if a < b {
        lemma_pow10_increases(a, (b - 1) as nat);
        lemma_pow10_positive((b - 1) as nat);
    }
}

/// Parses a fixed-point wire field into millionths.
pub fn parse_micro_field(s: &[u8]) -> (r: Option<i64>)
    ensures
        r == spec_parse_micro(s@),
{
    let neg = s.len() > 0 && s[0] == MINUS;
    let start: usize = if s.len() > 0 && (s[0] == MINUS || s[0] == PLUS) {
        1
    } else {
        0
    };
    let ghost t = s@.skip(start as int);
    proof {
        assert(t =~= (if s@.len() > 0 && (s@[0] == MINUS || s@[0] == PLUS) {
            s@.skip(1)
        } else {
            s@
        }));
    }

    let mut dp: usize = start;
    while dp < s.len() && s[dp] != DOT
        invariant
            start <= dp <= s@.len(),
            forall|j: int| start <= j < dp ==> s@[j] != DOT,
        decreases s@.len() - dp,
    {
        dp += 1;
    }
    proof {
        lemma_first_sep_index(t, DOT);
        let si = first_sep_index(t, DOT);
        assert(forall|j: int| 0 <= j < dp - start ==> t[j] == s@[j + start] && t[j] != DOT);
        if dp < s@.len() {
            assert(t[dp - start] == s@[dp as int]);
            assert(si == dp - start);
        } else {
            assert(si == t.len());
            assert(si == dp - start);
        }
    }
    let ghost a = t.take(dp - start);
    let ghost b = if dp < s@.len() {
        t.skip(dp - start + 1)
    } else {
        Seq::<u8>::empty()
    };

    // At least one digit place must be present.
    if dp == start && (dp == s.len() || dp + 1 == s.len()) {
        return None;
    }

    let int_val: u64 = if dp == start {
        0
    } else {
        proof {
            assert(s@.subrange(start as int, dp as int) =~= a);
        }
        match parse_digits(s, start, dp, MAX_MICRO_INT) {
            Some(v) => v,
            None => {
                return None;
            },
        }
    };

    let frac_val: u64 = if dp == s.len() {
        0
    } else {
        proof {
            assert(s@.skip(dp + 1) =~= b);
        }
        match parse_frac(s, dp + 1) {
            Some(f) => f,
            None => {
                return None;
            },
        }
    };

    let total: u64 = int_val * MICRO_SCALE + frac_val;
    if neg {
        Some(-(total as i64))
    } else {
        Some(total as i64)
    }
}

} // verus!
