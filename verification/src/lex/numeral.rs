//! Numeric literal values: decimal integers with an exact overflow boundary,
//! hexadecimal integers by manual base-16 accumulation with wraparound.

use vstd::prelude::*;

verus! {

/// The value of a numeric literal: an integer, or a float carried as its bit
/// pattern.
#[derive(Clone, Copy, Debug, PartialEq, Eq, Structural, Hash)]
pub enum Numeral {
    Int(i64),
    Float(u64),
}

/// Is `b` an ASCII decimal digit?
pub open spec fn is_dec_digit(b: u8) -> bool {
    0x30 <= b <= 0x39
}

/// Is `b` an ASCII hexadecimal digit?
pub open spec fn is_hex_digit(b: u8) -> bool {
    ||| 0x30 <= b <= 0x39
    ||| 0x41 <= b <= 0x46
    ||| 0x61 <= b <= 0x66
}

/// The value of one hexadecimal digit.
pub open spec fn hex_digit_value(b: u8) -> int {
    if 0x30 <= b <= 0x39 {
        b - 0x30
    } else if 0x41 <= b <= 0x46 {
        b - 0x41 + 10
    } else {
        b - 0x61 + 10
    }
}

/// The unbounded value of a run of decimal digits.
pub open spec fn dec_value(s: Seq<u8>) -> int
    decreases s.len(),
{
    if s.len() == 0 {
        0
    } else {
        dec_value(s.drop_last()) * 10 + (s.last() - 0x30)
    }
}

/// The value of a run of hexadecimal digits accumulated base 16 with
/// wraparound modulo 2^64.
pub open spec fn hex_wrap_value(s: Seq<u8>) -> u64
    decreases s.len(),
{
    if s.len() == 0 {
        0u64
    } else {
        (((hex_wrap_value(s.drop_last()) as int) * 16 + hex_digit_value(s.last())) % 0x10000000000000000) as u64
    }
}

/// The two's-complement reading of a 64-bit pattern.
pub open spec fn as_twos_complement(w: u64) -> i64 {
    if w <= 0x7FFFFFFFFFFFFFFF {
        w as i64
    } else {
        (w - 0x10000000000000000) as i64
    }
}

/// Parses a run of decimal digits as an `i64`, reporting `None` exactly when
/// the value overflows the type; the overflowing literal is then read as a
/// float instead.
pub fn dec_int(digits: &[u8]) -> (r: Option<i64>)
    requires
        forall|i: int| 0 <= i < digits@.len() ==> is_dec_digit(#[trigger] digits@[i]),
    ensures
        dec_value(digits@) <= i64::MAX ==> r == Some(dec_value(digits@) as i64),
        dec_value(digits@) > i64::MAX ==> r is None,
{
    let n = digits.len();
    let mut w: u64 = 0;
    let mut i: usize = 0;
    proof {
        assert(digits@.subrange(0, 0) =~= Seq::<u8>::empty());
    }
    while i < n
        invariant
            n == digits@.len(),
            i <= n,
            forall|j: int| 0 <= j < n ==> is_dec_digit(#[trigger] digits@[j]),
            w == dec_value(digits@.subrange(0, i as int)),
            w <= i64::MAX,
        decreases n - i,
    {
        let d = digits[i];
        let ghost pre = digits@.subrange(0, i as int);
        proof {
            assert(digits@.subrange(0, i + 1).drop_last() =~= pre);
            assert(digits@.subrange(0, i + 1).last() == digits@[i as int]);
        }
        if w > (0x7FFFFFFFFFFFFFFFu64 - ((d - 0x30) as u64)) / 10 {
            proof {
                lemma_dec_value_grows(digits@, i as int + 1);
                assert(dec_value(digits@.subrange(0, i + 1)) == w * 10 + (d - 0x30));
                assert(w * 10 + (d - 0x30) > i64::MAX) by (nonlinear_arith)
                    requires
                        w > (0x7FFFFFFFFFFFFFFFu64 - ((d - 0x30) as u64)) / 10,
                        0 <= d - 0x30 <= 9,
                        w <= 0x7FFFFFFFFFFFFFFF,
                ;
            }
            return None;
        }
        proof {
            assert(w * 10 + (d - 0x30) <= i64::MAX) by (nonlinear_arith)
                requires
                    w <= (0x7FFFFFFFFFFFFFFFu64 - ((d - 0x30) as u64)) / 10,
                    0 <= d - 0x30 <= 9,
            ;
        }
        w = w * 10 + ((d - 0x30) as u64);
        i += 1;
    }
    proof {
        assert(digits@.subrange(0, n as int) =~= digits@);
    }
    Some(w as i64)
}

/// Once a digit prefix exceeds `i64::MAX`, every extension does too.
proof fn lemma_dec_value_grows(s: Seq<u8>, from: int)
    requires
        0 <= from <= s.len(),
        forall|i: int| 0 <= i < s.len() ==> is_dec_digit(#[trigger] s[i]),
        dec_value(s.subrange(0, from)) > i64::MAX,
    ensures
        dec_value(s) > i64::MAX,
    decreases s.len() - from,
{
    if from == s.len() {
        assert(s.subrange(0, from) =~= s);
    } else {
        let next = s.subrange(0, from + 1);
        assert(next.drop_last() =~= s.subrange(0, from));
        assert(dec_value(next) == dec_value(s.subrange(0, from)) * 10 + (s[from] - 0x30));
        assert(dec_value(next) > i64::MAX) by (nonlinear_arith)
            requires
                dec_value(next) == dec_value(s.subrange(0, from)) * 10 + (s[from] - 0x30),
                dec_value(s.subrange(0, from)) > i64::MAX,
                s[from] - 0x30 >= 0,
        ;
        lemma_dec_value_grows(s, from + 1);
    }
}

/// Reads a run of hexadecimal digits base 16, wrapping around modulo 2^64 on
/// overflow, and reinterprets the final bit pattern as a signed integer.
pub fn hex_int(digits: &[u8]) -> (r: i64)
    requires
        forall|i: int| 0 <= i < digits@.len() ==> is_hex_digit(#[trigger] digits@[i]),
    ensures
        r == as_twos_complement(hex_wrap_value(digits@)),
{
    let n = digits.len();
    let mut w: u64 = 0;
    let mut i: usize = 0;
    proof {
        assert(digits@.subrange(0, 0) =~= Seq::<u8>::empty());
    }
    while i < n
        invariant
            n == digits@.len(),
            i <= n,
            forall|j: int| 0 <= j < n ==> is_hex_digit(#[trigger] digits@[j]),
            w == hex_wrap_value(digits@.subrange(0, i as int)),
        decreases n - i,
    {
        let d = digits[i];
        let value: u64 = if d >= 0x61 {
            ((d - 0x61) + 10) as u64
        } else if d >= 0x41 {
            ((d - 0x41) + 10) as u64
        } else {
            (d - 0x30) as u64
        };
        let ghost pre = digits@.subrange(0, i as int);
        proof {
            assert(digits@.subrange(0, i + 1).drop_last() =~= pre);
            assert(digits@.subrange(0, i + 1).last() == digits@[i as int]);
            assert(value == hex_digit_value(digits@[i as int]));
        }
        let high = w % 0x1000000000000000;
        proof {
            assert((w as int * 16 + value) % 0x10000000000000000 == (w as int % 0x1000000000000000)
                * 16 + value) by (nonlinear_arith)
                requires
                    0 <= value < 16,
                    0 <= w <= 0xFFFFFFFFFFFFFFFF,
            ;
            assert(high * 16 + value <= 0xFFFFFFFFFFFFFFFF) by (nonlinear_arith)
                requires
                    high == w % 0x1000000000000000,
                    0 <= w,
                    0 <= value < 16,
            ;
        }
        w = high * 16 + value;
        i += 1;
    }
    proof {
        assert(digits@.subrange(0, n as int) =~= digits@);
    }
    if w <= 0x7FFFFFFFFFFFFFFF {
        w as i64
    } else if w == 0x8000000000000000 {
        i64::MIN
    } else {
        let magnitude = (0xFFFFFFFFFFFFFFFFu64 - w) + 1;
        assert(magnitude < 0x8000000000000000);
        -(magnitude as i64)
    }
}

} // verus!
