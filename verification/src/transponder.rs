//! Mode S transponder codes: the 24-bit aircraft addresses that key the
//! aircraft store, decoded from and re-encoded to 6-character uppercase
//! hexadecimal strings.

use vstd::prelude::*;

verus! {

/// ASCII `0`.
pub const DIGIT_0: u8 = 48;

/// ASCII `9`.
pub const DIGIT_9: u8 = 57;

/// ASCII `A`.
pub const UPPER_A: u8 = 65;

/// ASCII `F`.
pub const UPPER_F: u8 = 70;

/// Why a byte string failed to decode as a transponder code.
#[derive(Clone, Copy, Debug, PartialEq, Eq, Structural)]
pub enum TransponderCodeError {
    /// The input was not exactly 6 bytes long.
    InvalidLength,
    /// The input holds a byte that is not `0`-`9` or `A`-`F`.
    InvalidCharacter,
}

/// Is `c` an uppercase hexadecimal digit?
pub open spec fn is_hex_digit(c: u8) -> bool {
    (DIGIT_0 <= c && c <= DIGIT_9) || (UPPER_A <= c && c <= UPPER_F)
}

/// Numeric value of the hexadecimal digit `c`.
pub open spec fn hex_digit_value(c: u8) -> u8 {
    if DIGIT_0 <= c && c <= DIGIT_9 {
        (c - DIGIT_0) as u8
    } else {
        (c - UPPER_A + 10) as u8
    }
}

/// The digit that encodes the value `v` (`v < 16`), uppercase.
pub open spec fn hex_digit_of(v: u8) -> u8 {
    if v < 10 {
        (DIGIT_0 + v) as u8
    } else {
        (UPPER_A + v - 10) as u8
    }
}

/// A valid code string: exactly 6 uppercase hexadecimal digits.
pub open spec fn is_valid_code_str(s: Seq<u8>) -> bool {
    s.len() == 6 && forall|i: int| 0 <= i < 6 ==> is_hex_digit(#[trigger] s[i])
}

/// The 24-bit value spelled by the 6 digits of `s`.
pub open spec fn code_str_value(s: Seq<u8>) -> u32
    recommends
        is_valid_code_str(s),
{
    (0x100000 * hex_digit_value(s[0]) as u32 + 0x10000 * hex_digit_value(s[1]) as u32
        + 0x1000 * hex_digit_value(s[2]) as u32 + 0x100 * hex_digit_value(s[3]) as u32
        + 0x10 * hex_digit_value(s[4]) as u32 + hex_digit_value(s[5]) as u32) as u32
}

/// A 24-bit Mode S transponder address; the stable key under which an
/// aircraft is tracked.
#[derive(Clone, Copy, Debug, Hash, PartialEq, Eq, Structural)]
pub struct ModeSTransponderCode(u32);

impl View for ModeSTransponderCode {
    type V = u32;

    closed spec fn view(&self) -> u32 {
        self.0
    }
}

impl ModeSTransponderCode {
    /// The code as a well-formed value: it fits in 24 bits.
    pub open spec fn wf(&self) -> bool {
        self@ <= 0xFFFFFF
    }

    /// The raw 24-bit address.
    pub fn value(&self) -> (v: u32)
        ensures
            v == self@,
    {
        self.0
    }

    /// Decodes a 6-character uppercase hexadecimal byte string; any other
    /// length or any byte outside `0`-`9`/`A`-`F` is an error.
    pub fn from_hex(s: &[u8]) -> (r: Result<Self, TransponderCodeError>)
        ensures
            s@.len() != 6 ==> r == Err::<Self, _>(TransponderCodeError::InvalidLength),
            s@.len() == 6 && !is_valid_code_str(s@) ==> r == Err::<Self, _>(
                TransponderCodeError::InvalidCharacter,
            ),
            is_valid_code_str(s@) ==> (r matches Ok(c) && c@ == code_str_value(s@) && c.wf()),
    {
        if s.len() != 6 {
            return Err(TransponderCodeError::InvalidLength);
        }
        let mut value: u32 = 0;
        let mut i: usize = 0;
        while i < 6
            invariant
                0 <= i <= 6,
                s@.len() == 6,
                forall|j: int| 0 <= j < i ==> is_hex_digit(#[trigger] s@[j]),
                value == partial_code_value(s@, i as int),
                value < 0x1000000,
            decreases 6 - i,
        {
            let c = s[i];
            let digit: u8 = if DIGIT_0 <= c && c <= DIGIT_9 {
                c - DIGIT_0
            } else if UPPER_A <= c && c <= UPPER_F {
                c - UPPER_A + 10
            } else {
                return Err(TransponderCodeError::InvalidCharacter);
            };
            proof {
                lemma_partial_code_value_step(s@, i as int);
            }
            value = value * 16 + digit as u32;
            i += 1;
        }
        proof {
            lemma_partial_code_value_full(s@);
        }
        Ok(ModeSTransponderCode(value))
    }

    /// Encodes the code as 6 uppercase hexadecimal digits, zero-padded.
    pub fn to_hex(&self) -> (r: Vec<u8>)
        requires
            self.wf(),
        ensures
            is_valid_code_str(r@),
            code_str_value(r@) == self@,
    {
        let v = self.0;
        let mut r: Vec<u8> = Vec::new();
        r.push(hex_digit_byte((v / 0x100000) as u8 % 16));
        r.push(hex_digit_byte((v / 0x10000 % 16) as u8));
        r.push(hex_digit_byte((v / 0x1000 % 16) as u8));
        r.push(hex_digit_byte((v / 0x100 % 16) as u8));
        r.push(hex_digit_byte((v / 0x10 % 16) as u8));
        r.push(hex_digit_byte((v % 16) as u8));
        proof {
            lemma_hex_digits_recompose(v);
        }
        r
    }
}

/// Value of the first `n` digits of `s`, read most significant first.
spec fn partial_code_value(s: Seq<u8>, n: int) -> u32
    decreases n,
{
    if n <= 0 {
        0u32
    } else {
        (partial_code_value(s, n - 1) * 16 + hex_digit_value(s[n - 1]) as u32) as u32
    }
}

proof fn lemma_partial_code_value_step(s: Seq<u8>, i: int)
    requires
        0 <= i < 6,
        forall|j: int| 0 <= j <= i ==> is_hex_digit(#[trigger] s[j]),
    ensures
        partial_code_value(s, i + 1) == partial_code_value(s, i) * 16 + hex_digit_value(s[i]),
        partial_code_value(s, i + 1) < 0x1000000,
{
    lemma_partial_code_value_bound(s, i + 1);
    assert(pow16(i + 1) <= pow16(6)) by {
        lemma_pow16_increases(i + 1, 6);
    }
    assert(pow16(6) == 0x1000000) by {
        reveal_with_fuel(pow16, 7);
    }
    assert(partial_code_value(s, i + 1) == partial_code_value(s, i) * 16 + hex_digit_value(s[i]))
        by {
        lemma_partial_code_value_bound(s, i);
        lemma_pow16_increases(i, 6);
    }
}

/// The first `n` digits spell a value below `16^n`.
proof fn lemma_partial_code_value_bound(s: Seq<u8>, n: int)
    requires
        0 <= n <= 6,
        forall|j: int| 0 <= j < n ==> is_hex_digit(#[trigger] s[j]),
    ensures
        partial_code_value(s, n) < pow16(n),
    decreases n,
{
    if n > 0 {
        lemma_partial_code_value_bound(s, n - 1);
        lemma_pow16_increases(n - 1, 6);
        assert(hex_digit_value(s[n - 1]) < 16);
        assert(pow16(n) == 16 * pow16(n - 1));
    }
}

/// `16^n` for `0 <= n <= 6`, as a mathematical integer.
spec fn pow16(n: int) -> int
    decreases n,
{
    if n <= 0 {
        1
    } else {
        16 * pow16(n - 1)
    }
}

proof fn lemma_pow16_increases(a: int, b: int)
    requires
        0 <= a <= b,
    ensures
        0 < pow16(a) <= pow16(b),
    decreases b,
{
    if a < b {
        lemma_pow16_increases(a, b - 1);
    } else {
        lemma_pow16_positive(a);
    }
}

proof fn lemma_pow16_positive(a: int)
    requires
        0 <= a,
    ensures
        0 < pow16(a),
    decreases a,
{
    if a > 0 {
        lemma_pow16_positive(a - 1);
    }
}

proof fn lemma_partial_code_value_full(s: Seq<u8>)
    requires
        is_valid_code_str(s),
    ensures
        partial_code_value(s, 6) == code_str_value(s),
        code_str_value(s) <= 0xFFFFFF,
{
    lemma_partial_code_value_bound(s, 6);
    assert(pow16(6) == 0x1000000) by {
        reveal_with_fuel(pow16, 7);
    }
    assert(partial_code_value(s, 6) == code_str_value(s)) by {
        reveal_with_fuel(partial_code_value, 7);
    }
}

/// The digit byte that encodes `v` (`v < 16`), uppercase.
fn hex_digit_byte(v: u8) -> (r: u8)
    requires
        v < 16,
    ensures
        r == hex_digit_of(v),
        is_hex_digit(r),
        hex_digit_value(r) == v,
{
    if v < 10 {
        DIGIT_0 + v
    } else {
        UPPER_A + v - 10
    }
}

/// The six digit values written by `to_hex` recompose to `v`.
proof fn lemma_hex_digits_recompose(v: u32)
    requires
        v <= 0xFFFFFF,
    ensures
        0x100000 * ((v / 0x100000) % 16) + 0x10000 * ((v / 0x10000) % 16) + 0x1000 * ((v / 0x1000)
            % 16) + 0x100 * ((v / 0x100) % 16) + 0x10 * ((v / 0x10) % 16) + (v % 16) == v,
{
    assert(0x100000 * ((v / 0x100000) % 16) + 0x10000 * ((v / 0x10000) % 16) + 0x1000 * ((v
        / 0x1000) % 16) + 0x100 * ((v / 0x100) % 16) + 0x10 * ((v / 0x10) % 16) + (v % 16)
        == v) by (bit_vector)
        requires
            v <= 0xFFFFFF,
    ;
}

/// Law: decoding a valid 6-digit uppercase hexadecimal string and
/// re-encoding it reproduces the string exactly; `from_hex` itself states
/// that any other input fails to decode.
pub proof fn lemma_code_round_trip(s: Seq<u8>, r: Seq<u8>)
    requires
        is_valid_code_str(s),
        is_valid_code_str(r),
        code_str_value(r) == code_str_value(s),
    ensures
        r == s,
{
    lemma_code_str_digits(s);
    lemma_code_str_digits(r);
    assert forall|i: int| 0 <= i < 6 implies r[i] == s[i] by {
        assert(hex_digit_value(r[i]) == hex_digit_value(s[i]));
        assert(is_hex_digit(r[i]) && is_hex_digit(s[i]));
    }
    assert(r =~= s);
}

/// Each digit of a valid code string is recovered from the string's value.
proof fn lemma_code_str_digits(s: Seq<u8>)
    requires
        is_valid_code_str(s),
    ensures
        hex_digit_value(s[0]) == (code_str_value(s) / 0x100000) % 16,
        hex_digit_value(s[1]) == (code_str_value(s) / 0x10000) % 16,
        hex_digit_value(s[2]) == (code_str_value(s) / 0x1000) % 16,
        hex_digit_value(s[3]) == (code_str_value(s) / 0x100) % 16,
        hex_digit_value(s[4]) == (code_str_value(s) / 0x10) % 16,
        hex_digit_value(s[5]) == code_str_value(s) % 16,
{
    let d0 = hex_digit_value(s[0]);
    let d1 = hex_digit_value(s[1]);
    let d2 = hex_digit_value(s[2]);
    let d3 = hex_digit_value(s[3]);
    let d4 = hex_digit_value(s[4]);
    let d5 = hex_digit_value(s[5]);
    let v = code_str_value(s);
    assert(d0 < 16 && d1 < 16 && d2 < 16 && d3 < 16 && d4 < 16 && d5 < 16);
    assert(v == 0x100000 * d0 as u32 + 0x10000 * d1 as u32 + 0x1000 * d2 as u32 + 0x100 * d3 as u32
        + 0x10 * d4 as u32 + d5 as u32);
    assert((v / 0x100000) % 16 == d0 && (v / 0x10000) % 16 == d1 && (v / 0x1000) % 16 == d2 && (v
        / 0x100) % 16 == d3 && (v / 0x10) % 16 == d4 && v % 16 == d5) by (bit_vector)
        requires
            d0 < 16 && d1 < 16 && d2 < 16 && d3 < 16 && d4 < 16 && d5 < 16,
            v == 0x100000 * d0 as u32 + 0x10000 * d1 as u32 + 0x1000 * d2 as u32 + 0x100
                * d3 as u32 + 0x10 * d4 as u32 + d5 as u32,
    ;
}

} // verus!
