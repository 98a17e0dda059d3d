//! Decoding of quoted string literals: literal runs, the named one-byte
//! escapes, line-continuation escapes, decimal and hex byte escapes, and
//! Unicode scalar escapes re-encoded in the 1-to-6-byte multi-byte layout.

use vstd::prelude::*;

use super::error::Error;
use super::numeral::hex_digit_value;
use super::numeral::is_dec_digit;
use super::numeral::is_hex_digit;

verus! {

/// How one scan of a string or long-bracket body ends: decoded contents and
/// the position just past the closing delimiter, or an error kind.
#[verifier::ext_equal]
pub enum StringScan {
    Done { contents: Seq<u8>, end: int },
    Fail { kind: Error },
}

/// Is `b` one of the skippable whitespace bytes?
pub open spec fn is_space(b: u8) -> bool {
    b == 0x20 || 0x09 <= b <= 0x0d
}

/// Puts `bytes` in front of a successful scan's contents; errors pass
/// through.
pub open spec fn scan_prepend(bytes: Seq<u8>, rest: StringScan) -> StringScan {
    match rest {
        StringScan::Done { contents, end } => StringScan::Done { contents: bytes + contents, end },
        StringScan::Fail { kind } => StringScan::Fail { kind },
    }
}

/// The unbounded value of a run of hexadecimal digits.
pub open spec fn hex_value(s: Seq<u8>) -> int
    decreases s.len(),
{
    if s.len() == 0 {
        0
    } else {
        hex_value(s.drop_last()) * 16 + hex_digit_value(s.last())
    }
}

/// The first position at or after `i` holding no hexadecimal digit.
pub open spec fn hex_run_end(src: Seq<u8>, i: int) -> int
    decreases src.len() - i,
{
    if i < 0 || i >= src.len() || !is_hex_digit(src[i]) {
        i
    } else {
        hex_run_end(src, i + 1)
    }
}

/// The Unicode scalar `v` re-encoded in the multi-byte layout, 1 to 6 bytes.
pub open spec fn unicode_utf8(v: int) -> Seq<u8> {
    if v <= 0x7f {
        seq![v as u8]
    } else if v <= 0x7ff {
        seq![(0xc0 + v / 64) as u8, (0x80 + v % 64) as u8]
    } else if v <= 0xffff {
        seq![(0xe0 + v / 4096) as u8, (0x80 + (v / 64) % 64) as u8, (0x80 + v % 64) as u8]
    } else if v <= 0x1fffff {
        seq![
            (0xf0 + v / 0x40000) as u8,
            (0x80 + (v / 4096) % 64) as u8,
            (0x80 + (v / 64) % 64) as u8,
            (0x80 + v % 64) as u8,
        ]
    } else if v <= 0x3ffffff {
        seq![
            (0xf8 + v / 0x1000000) as u8,
            (0x80 + (v / 0x40000) % 64) as u8,
            (0x80 + (v / 4096) % 64) as u8,
            (0x80 + (v / 64) % 64) as u8,
            (0x80 + v % 64) as u8,
        ]
    } else {
        seq![
            (0xfc + v / 0x40000000) as u8,
            (0x80 + (v / 0x1000000) % 64) as u8,
            (0x80 + (v / 0x40000) % 64) as u8,
            (0x80 + (v / 4096) % 64) as u8,
            (0x80 + (v / 64) % 64) as u8,
            (0x80 + v % 64) as u8,
        ]
    }
}

/// What one backslash escape at position `i` (the backslash itself) decodes
/// to: the bytes it stands for and the position after it, or the error it
/// provokes. Line-continuation (`z`) escapes are handled by the caller.
pub open spec fn escape_spec(src: Seq<u8>, i: int) -> StringScan {
    if i + 1 >= src.len() {
        StringScan::Fail { kind: Error::UnexpectedByte }
    } else {
        let e = src[i + 1];
        if e == 0x61 {  // a
            StringScan::Done { contents: seq![7u8], end: i + 2 }
        } else if e == 0x62 {  // b
            StringScan::Done { contents: seq![8u8], end: i + 2 }
        } else if e == 0x66 {  // f
            StringScan::Done { contents: seq![12u8], end: i + 2 }
        } else if e == 0x6e {  // n
            StringScan::Done { contents: seq![10u8], end: i + 2 }
        } else if e == 0x72 {  // r
            StringScan::Done { contents: seq![13u8], end: i + 2 }
        } else if e == 0x74 {  // t
            StringScan::Done { contents: seq![9u8], end: i + 2 }
        } else if e == 0x76 {  // v
            StringScan::Done { contents: seq![11u8], end: i + 2 }
        } else if e == 0x5c {  // backslash
            StringScan::Done { contents: seq![0x5cu8], end: i + 2 }
        } else if e == 0x22 {  // double quote
            StringScan::Done { contents: seq![0x22u8], end: i + 2 }
        } else if e == 0x27 {  // single quote
            StringScan::Done { contents: seq![0x27u8], end: i + 2 }
        } else if e == 0x0d {  // backslash before a real line ending
            if i + 2 < src.len() && src[i + 2] == 0x0a {
                StringScan::Done { contents: seq![10u8], end: i + 3 }
            } else {
                StringScan::Done { contents: seq![10u8], end: i + 2 }
            }
        } else if e == 0x0a {
            if i + 2 < src.len() && src[i + 2] == 0x0d {
                StringScan::Done { contents: seq![10u8], end: i + 3 }
            } else {
                StringScan::Done { contents: seq![10u8], end: i + 2 }
            }
        } else if e == 0x78 {  // x, then exactly two hex digits
            if i + 3 < src.len() && is_hex_digit(src[i + 2]) && is_hex_digit(src[i + 3]) {
                StringScan::Done {
                    contents: seq![
                        (hex_digit_value(src[i + 2]) * 16 + hex_digit_value(src[i + 3])) as u8,
                    ],
                    end: i + 4,
                }
            } else {
                StringScan::Fail { kind: Error::UnexpectedByte }
            }
        } else if is_dec_digit(e) {  // up to three decimal digits
            let d1 = (e - 0x30) as int;
            if i + 2 < src.len() && is_dec_digit(src[i + 2]) {
                let d2 = d1 * 10 + (src[i + 2] - 0x30);
                if i + 3 < src.len() && is_dec_digit(src[i + 3]) {
                    let d3 = d2 * 10 + (src[i + 3] - 0x30);
                    if d3 > 255 {
                        StringScan::Fail { kind: Error::InvalidDecEscape }
                    } else {
                        StringScan::Done { contents: seq![d3 as u8], end: i + 4 }
                    }
                } else {
                    StringScan::Done { contents: seq![d2 as u8], end: i + 3 }
                }
            } else {
                StringScan::Done { contents: seq![d1 as u8], end: i + 2 }
            }
        } else if e == 0x75 {  // u{...}
            if i + 2 < src.len() && src[i + 2] == 0x7b {
                let digits_end = hex_run_end(src, i + 3);
                if digits_end == i + 3 {
                    StringScan::Fail { kind: Error::UnexpectedByte }
                } else if digits_end >= src.len() || src[digits_end] != 0x7d {
                    StringScan::Fail { kind: Error::UnexpectedByte }
                } else {
                    let v = hex_value(src.subrange(i + 3, digits_end));
                    if v > 0x7fffffff {
                        StringScan::Fail { kind: Error::InvalidUnicodeEscape }
                    } else {
                        StringScan::Done { contents: unicode_utf8(v), end: digits_end + 1 }
                    }
                }
            } else {
                StringScan::Fail { kind: Error::UnexpectedByte }
            }
        } else {
            StringScan::Fail { kind: Error::UnexpectedByte }
        }
    }
}

/// What a quoted string body starting at `i` decodes to, `quote` being the
/// closing quote byte. A bare line ending inside the body is no token; the
/// other quote byte stands for itself.
pub open spec fn short_string_spec(src: Seq<u8>, i: int, quote: u8) -> StringScan
    decreases src.len() - i, 1int,
{
    if i < 0 || i >= src.len() {
        StringScan::Fail { kind: Error::UnclosedStringLiteral }
    } else {
        let b = src[i];
        if b == quote {
            StringScan::Done { contents: Seq::empty(), end: i + 1 }
        } else if b == 0x0a || b == 0x0d {
            StringScan::Fail { kind: Error::UnexpectedByte }
        } else if b != 0x5c {
            scan_prepend(seq![b], short_string_spec(src, i + 1, quote))
        } else if i + 1 < src.len() && src[i + 1] == 0x7a {  // \z skips whitespace
            if i + 2 < src.len() && is_space(src[i + 2]) {
                short_string_skip_spaces(src, i + 3, quote)
            } else {
                StringScan::Fail { kind: Error::UnexpectedByte }
            }
        } else {
            match escape_spec(src, i) {
                StringScan::Done { contents, end } => {
                    // an escape always ends past its backslash; the guard
                    // only keeps the recursion visibly descending
                    if end <= i {
                        StringScan::Fail { kind: Error::UnexpectedByte }
                    } else {
                        scan_prepend(contents, short_string_spec(src, end, quote))
                    }
                },
                StringScan::Fail { kind } => StringScan::Fail { kind },
            }
        }
    }
}

/// Continues a quoted string body after a line-continuation escape, first
/// skipping the remaining whitespace run.
pub open spec fn short_string_skip_spaces(src: Seq<u8>, i: int, quote: u8) -> StringScan
    decreases src.len() - i, 2int,
{
    if 0 <= i < src.len() && is_space(src[i]) {
        short_string_skip_spaces(src, i + 1, quote)
    } else {
        short_string_spec(src, i, quote)
    }
}

/// The first position at or after `i` holding no skippable whitespace.
pub open spec fn space_run_end(src: Seq<u8>, i: int) -> int
    decreases src.len() - i,
{
    if i < 0 || i >= src.len() || !is_space(src[i]) {
        i
    } else {
        space_run_end(src, i + 1)
    }
}

/// Skipping a whitespace run continues the scan at the run's end.
proof fn lemma_skip_spaces_runs(src: Seq<u8>, i: int, quote: u8)
    requires
        0 <= i,
    ensures
        short_string_skip_spaces(src, i, quote) == short_string_spec(
            src,
            space_run_end(src, i),
            quote,
        ),
    decreases src.len() - i,
{
    if 0 <= i < src.len() && is_space(src[i]) {
        lemma_skip_spaces_runs(src, i + 1, quote);
    }
}

/// A prefix of hex digits already above the greatest accepted scalar stays
/// above it when extended.
proof fn lemma_hex_value_grows(s: Seq<u8>, from: int, bound: int)
    requires
        0 <= from <= s.len(),
        forall|i: int| 0 <= i < s.len() ==> is_hex_digit(#[trigger] s[i]),
        hex_value(s.subrange(0, from)) > bound,
        bound >= 0,
    ensures
        hex_value(s) > bound,
    decreases s.len() - from,
{
    if from == s.len() {
        assert(s.subrange(0, from) =~= s);
    } else {
        let next = s.subrange(0, from + 1);
        assert(next.drop_last() =~= s.subrange(0, from));
        assert(hex_value(next) == hex_value(s.subrange(0, from)) * 16 + hex_digit_value(s[from]));
        assert(hex_value(next) > bound) by (nonlinear_arith)
            requires
                hex_value(next) == hex_value(s.subrange(0, from)) * 16 + hex_digit_value(s[from]),
                hex_value(s.subrange(0, from)) > bound,
                hex_digit_value(s[from]) >= 0,
                bound >= 0,
        ;
        lemma_hex_value_grows(s, from + 1, bound);
    }
}

pub(crate) fn exec_is_space(b: u8) -> (r: bool)
    ensures
        r == is_space(b),
{
    b == 0x20 || (0x09 <= b && b <= 0x0d)
}

pub(crate) fn exec_is_hex_digit(b: u8) -> (r: bool)
    ensures
        r == is_hex_digit(b),
{
    (0x30 <= b && b <= 0x39) || (0x41 <= b && b <= 0x46) || (0x61 <= b && b <= 0x66)
}

fn exec_hex_digit_value(b: u8) -> (r: u8)
    requires
        is_hex_digit(b),
    ensures
        r == hex_digit_value(b),
        r < 16,
{
    if b >= 0x61 {
        (b - 0x61) + 10
    } else if b >= 0x41 {
        (b - 0x41) + 10
    } else {
        b - 0x30
    }
}

fn exec_space_run_end(source: &[u8], from: usize) -> (r: usize)
    requires
        from <= source@.len(),
    ensures
        r == space_run_end(source@, from as int),
        from <= r <= source@.len(),
{
    let mut j = from;
    while j < source.len() && exec_is_space(source[j])
        invariant
            from <= j <= source@.len(),
            space_run_end(source@, from as int) == space_run_end(source@, j as int),
        decreases source@.len() - j,
    {
        j += 1;
    }
    j
}

pub(crate) fn exec_hex_run_end(source: &[u8], from: usize) -> (r: usize)
    requires
        from <= source@.len(),
    ensures
        r == hex_run_end(source@, from as int),
        from <= r <= source@.len(),
        forall|k: int| from <= k < r ==> is_hex_digit(#[trigger] source@[k]),
    decreases source@.len() - from,
{
    let mut j = from;
    while j < source.len() && exec_is_hex_digit(source[j])
        invariant
            from <= j <= source@.len(),
            hex_run_end(source@, from as int) == hex_run_end(source@, j as int),
            forall|k: int| from <= k < j ==> is_hex_digit(#[trigger] source@[k]),
        decreases source@.len() - j,
    {
        j += 1;
    }
    j
}

/// Reads the hex digits of a Unicode escape, rejecting any scalar above the
/// greatest accepted one.
fn exec_unicode_scalar(source: &[u8], from: usize, to: usize) -> (r: Result<u32, Error>)
    requires
        from <= to <= source@.len(),
        forall|k: int| from <= k < to ==> is_hex_digit(#[trigger] source@[k]),
    ensures
        ({
            let v = hex_value(source@.subrange(from as int, to as int));
            &&& v <= 0x7fffffff ==> r == Ok::<u32, Error>(v as u32)
            &&& v > 0x7fffffff ==> r == Err::<u32, Error>(Error::InvalidUnicodeEscape)
        }),
{
    let ghost digits = source@.subrange(from as int, to as int);
    let mut v: u64 = 0;
    let mut j = from;
    proof {
        assert(digits.subrange(0, 0) =~= Seq::<u8>::empty());
    }
    while j < to
        invariant
            from <= j <= to <= source@.len(),
            digits == source@.subrange(from as int, to as int),
            forall|k: int| from <= k < to ==> is_hex_digit(#[trigger] source@[k]),
            v == hex_value(digits.subrange(0, j - from)),
            v <= 0x7fffffff,
        decreases to - j,
    {
        let d = exec_hex_digit_value(source[j]);
        proof {
            assert(digits.subrange(0, j - from + 1).drop_last() =~= digits.subrange(0, j - from));
            assert(digits.subrange(0, j - from + 1).last() == source@[j as int]);
        }
        let next = v * 16 + (d as u64);
        if next > 0x7fffffff {
            proof {
                assert(forall|k: int| 0 <= k < digits.len() ==> is_hex_digit(#[trigger] digits[k]));
                lemma_hex_value_grows(digits, j - from + 1, 0x7fffffff);
            }
            return Err(Error::InvalidUnicodeEscape);
        }
        v = next;
        j += 1;
    }
    proof {
        assert(digits.subrange(0, to - from) =~= digits);
    }
    Ok(v as u32)
}

/// Appends the multi-byte re-encoding of scalar `v`.
fn push_unicode(acc: &mut Vec<u8>, v: u32)
    requires
        v <= 0x7fffffff,
    ensures
        final(acc)@ == old(acc)@ + unicode_utf8(v as int),
{
    if v <= 0x7f {
        acc.push(v as u8);
        assert(final(acc)@ =~= old(acc)@ + unicode_utf8(v as int));
    } else if v <= 0x7ff {
        acc.push((0xc0 + v / 64) as u8);
        acc.push((0x80 + v % 64) as u8);
        assert(final(acc)@ =~= old(acc)@ + unicode_utf8(v as int));
    } else if v <= 0xffff {
        acc.push((0xe0 + v / 4096) as u8);
        acc.push((0x80 + (v / 64) % 64) as u8);
        acc.push((0x80 + v % 64) as u8);
        assert(final(acc)@ =~= old(acc)@ + unicode_utf8(v as int));
    } else if v <= 0x1fffff {
        acc.push((0xf0 + v / 0x40000) as u8);
        acc.push((0x80 + (v / 4096) % 64) as u8);
        acc.push((0x80 + (v / 64) % 64) as u8);
        acc.push((0x80 + v % 64) as u8);
        assert(final(acc)@ =~= old(acc)@ + unicode_utf8(v as int));
    } else if v <= 0x3ffffff {
        acc.push((0xf8 + v / 0x1000000) as u8);
        acc.push((0x80 + (v / 0x40000) % 64) as u8);
        acc.push((0x80 + (v / 4096) % 64) as u8);
        acc.push((0x80 + (v / 64) % 64) as u8);
        acc.push((0x80 + v % 64) as u8);
        assert(final(acc)@ =~= old(acc)@ + unicode_utf8(v as int));
    } else {
        acc.push((0xfc + v / 0x40000000) as u8);
        acc.push((0x80 + (v / 0x1000000) % 64) as u8);
        acc.push((0x80 + (v / 0x40000) % 64) as u8);
        acc.push((0x80 + (v / 4096) % 64) as u8);
        acc.push((0x80 + (v / 64) % 64) as u8);
        acc.push((0x80 + v % 64) as u8);
        assert(final(acc)@ =~= old(acc)@ + unicode_utf8(v as int));
    }
}

/// Does the decoder's answer agree with what the scan specification says?
pub open spec fn scan_matches_spec(s: StringScan, r: Result<(Vec<u8>, usize), Error>) -> bool {
    match s {
        StringScan::Done { contents, end } => {
            &&& r is Ok
            &&& r->Ok_0.0@ == contents
            &&& r->Ok_0.1 == end
        },
        StringScan::Fail { kind } => r == Err::<(Vec<u8>, usize), Error>(kind),
    }
}

/// The decoding loop's invariant: what has been decoded so far, put in front
/// of what the rest of the body decodes to, is what the whole body decodes
/// to.
spec fn decoded_so_far(top: StringScan, acc: Seq<u8>, cur: StringScan) -> bool {
    match cur {
        StringScan::Done { contents, end } => top == (StringScan::Done {
            contents: acc + contents,
            end,
        }),
        StringScan::Fail { kind } => top == (StringScan::Fail { kind }),
    }
}

proof fn lemma_decoded_step(top: StringScan, acc: Seq<u8>, bytes: Seq<u8>, rest: StringScan)
    requires
        decoded_so_far(top, acc, scan_prepend(bytes, rest)),
    ensures
        decoded_so_far(top, acc + bytes, rest),
{
    match rest {
        StringScan::Done { contents, end } => {
            assert((acc + bytes) + contents =~= acc + (bytes + contents));
        },
        StringScan::Fail { kind } => {},
    }
}

proof fn lemma_hex_value_nonneg(s: Seq<u8>)
    requires
        forall|i: int| 0 <= i < s.len() ==> is_hex_digit(#[trigger] s[i]),
    ensures
        hex_value(s) >= 0,
    decreases s.len(),
{
    if s.len() > 0 {
        lemma_hex_value_nonneg(s.drop_last());
        assert(hex_value(s) == hex_value(s.drop_last()) * 16 + hex_digit_value(s.last()));
        assert(hex_value(s.drop_last()) * 16 >= 0) by (nonlinear_arith)
            requires
                hex_value(s.drop_last()) >= 0,
        ;
    }
}

/// Decodes one backslash escape other than line continuation and Unicode:
/// each such escape stands for a single byte.
fn decode_byte_escape(source: &[u8], i: usize) -> (r: Result<(u8, usize), Error>)
    requires
        i + 1 < source@.len(),
        source@[i + 1] != 0x7a,
        source@[i + 1] != 0x75,
    ensures
        match escape_spec(source@, i as int) {
            StringScan::Done { contents, end } => {
                &&& r is Ok
                &&& contents =~= seq![r->Ok_0.0]
                &&& end == r->Ok_0.1
                &&& i < r->Ok_0.1 <= source@.len()
            },
            StringScan::Fail { kind } => r == Err::<(u8, usize), Error>(kind),
        },
{
    let n = source.len();
    let e = source[i + 1];
    if e == 0x61 {
        Ok((7, i + 2))
    } else if e == 0x62 {
        Ok((8, i + 2))
    } else if e == 0x66 {
        Ok((12, i + 2))
    } else if e == 0x6e {
        Ok((10, i + 2))
    } else if e == 0x72 {
        Ok((13, i + 2))
    } else if e == 0x74 {
        Ok((9, i + 2))
    } else if e == 0x76 {
        Ok((11, i + 2))
    } else if e == 0x5c {
        Ok((0x5c, i + 2))
    } else if e == 0x22 {
        Ok((0x22, i + 2))
    } else if e == 0x27 {
        Ok((0x27, i + 2))
    } else if e == 0x0d {
        if n - i > 2 && source[i + 2] == 0x0a {
            Ok((10, i + 3))
        } else {
            Ok((10, i + 2))
        }
    } else if e == 0x0a {
        if n - i > 2 && source[i + 2] == 0x0d {
            Ok((10, i + 3))
        } else {
            Ok((10, i + 2))
        }
    } else if e == 0x78 {
        if n - i > 3 && exec_is_hex_digit(source[i + 2]) && exec_is_hex_digit(
            source[i + 3],
        ) {
            Ok((exec_hex_digit_value(source[i + 2]) * 16 + exec_hex_digit_value(source[i + 3]), i + 4))
        } else {
            Err(Error::UnexpectedByte)
        }
    } else if 0x30 <= e && e <= 0x39 {
        let d1 = e - 0x30;
        if n - i > 2 && 0x30 <= source[i + 2] && source[i + 2] <= 0x39 {
            let d2: u32 = (d1 as u32) * 10 + ((source[i + 2] - 0x30) as u32);
            if n - i > 3 && 0x30 <= source[i + 3] && source[i + 3] <= 0x39 {
                let d3: u32 = d2 * 10 + ((source[i + 3] - 0x30) as u32);
                if d3 > 255 {
                    Err(Error::InvalidDecEscape)
                } else {
                    Ok((d3 as u8, i + 4))
                }
            } else {
                Ok((d2 as u8, i + 3))
            }
        } else {
            Ok((d1, i + 2))
        }
    } else {
        Err(Error::UnexpectedByte)
    }
}

/// Decodes a Unicode escape's braced digits, appending the re-encoded
/// scalar, and reports the position after the closing brace.
fn decode_unicode_escape(source: &[u8], i: usize, acc: &mut Vec<u8>) -> (r: Result<usize, Error>)
    requires
        i + 1 < source@.len(),
        source@[i + 1] == 0x75,
    ensures
        match escape_spec(source@, i as int) {
            StringScan::Done { contents, end } => {
                &&& r is Ok
                &&& final(acc)@ == old(acc)@ + contents
                &&& end == r->Ok_0
                &&& i < r->Ok_0 <= source@.len()
            },
            StringScan::Fail { kind } => r == Err::<usize, Error>(kind) && final(acc)@ == old(
                acc,
            )@,
        },
{
    let n = source.len();
    if !(n - i > 2 && source[i + 2] == 0x7b) {
        return Err(Error::UnexpectedByte);
    }
    let digits_end = exec_hex_run_end(source, i + 3);
    if digits_end == i + 3 {
        return Err(Error::UnexpectedByte);
    }
    if digits_end >= source.len() || source[digits_end] != 0x7d {
        return Err(Error::UnexpectedByte);
    }
    proof {
        assert(forall|k: int|
            0 <= k < source@.subrange(i + 3, digits_end as int).len() ==> is_hex_digit(
                #[trigger] source@.subrange(i + 3, digits_end as int)[k],
            ));
        lemma_hex_value_nonneg(source@.subrange(i + 3, digits_end as int));
    }
    match exec_unicode_scalar(source, i + 3, digits_end) {
        Ok(v) => {
            proof {
                assert(v as int == hex_value(source@.subrange(i + 3, digits_end as int)));
            }
            push_unicode(acc, v);
            Ok(digits_end + 1)
        },
        Err(err) => Err(err),
    }
}

/// Decodes a single-quoted string body starting just past the opening quote,
/// yielding the decoded bytes and the position past the closing quote.
pub fn single_quote_callback(source: &[u8], start: usize) -> (r: Result<(Vec<u8>, usize), Error>)
    requires
        start <= source@.len(),
    ensures
        scan_matches_spec(short_string_spec(source@, start as int, 0x27), r),
        r matches Ok(p) ==> start < p.1 <= source@.len(),
{
    callback(source, start, 0x27)
}

/// Decodes a double-quoted string body starting just past the opening quote,
/// yielding the decoded bytes and the position past the closing quote.
pub fn double_quote_callback(source: &[u8], start: usize) -> (r: Result<(Vec<u8>, usize), Error>)
    requires
        start <= source@.len(),
    ensures
        scan_matches_spec(short_string_spec(source@, start as int, 0x22), r),
        r matches Ok(p) ==> start < p.1 <= source@.len(),
{
    callback(source, start, 0x22)
}

/// Decodes a quoted string body byte by byte, mirroring the scan
/// specification's cases one to one.
fn callback(source: &[u8], start: usize, quote: u8) -> (r: Result<(Vec<u8>, usize), Error>)
    requires
        start <= source@.len(),
        quote == 0x27 || quote == 0x22,
    ensures
        scan_matches_spec(short_string_spec(source@, start as int, quote), r),
        r matches Ok(p) ==> start < p.1 <= source@.len(),
{
    let ghost top = short_string_spec(source@, start as int, quote);
    let mut acc: Vec<u8> = Vec::new();
    let mut i = start;
    loop
        invariant
            start <= i <= source@.len(),
            quote == 0x27 || quote == 0x22,
            top == short_string_spec(source@, start as int, quote),
            decoded_so_far(top, acc@, short_string_spec(source@, i as int, quote)),
        decreases source@.len() - i,
    {
        let ghost cur = short_string_spec(source@, i as int, quote);
        if i >= source.len() {
            return Err(Error::UnclosedStringLiteral);
        }
        let b = source[i];
        if b == quote {
            proof {
                assert(acc@ + Seq::<u8>::empty() =~= acc@);
            }
            return Ok((acc, i + 1));
        }
        if b == 0x0a || b == 0x0d {
            return Err(Error::UnexpectedByte);
        }
        if b != 0x5c {
            proof {
                lemma_decoded_step(top, acc@, seq![b], short_string_spec(source@, i + 1, quote));
                assert(acc@.push(b) =~= acc@ + seq![b]);
            }
            acc.push(b);
            i += 1;
            continue;
        }
        // an escape sequence
        if i + 1 >= source.len() {
            return Err(Error::UnexpectedByte);
        }
        let e = source[i + 1];
        if e == 0x7a {  // z: skip the following whitespace run
            if i + 2 < source.len() && exec_is_space(source[i + 2]) {
                let j = exec_space_run_end(source, i + 3);
                proof {
                    lemma_skip_spaces_runs(source@, i + 3, quote);
                    assert(cur == short_string_spec(source@, j as int, quote));
                }
                i = j;
                continue;
            } else {
                return Err(Error::UnexpectedByte);
            }
        }
        if e == 0x75 {  // u{...}
            let ghost acc_pre = acc@;
            match decode_unicode_escape(source, i, &mut acc) {
                Ok(end) => {
                    proof {
                        let esc = escape_spec(source@, i as int);
                        assert(cur == scan_prepend(esc->contents, short_string_spec(source@, end as int, quote)));
                        lemma_decoded_step(
                            top,
                            acc_pre,
                            esc->contents,
                            short_string_spec(source@, end as int, quote),
                        );
                    }
                    i = end;
                    continue;
                },
                Err(err) => {
                    return Err(err);
                },
            }
        }
        match decode_byte_escape(source, i) {
            Ok(pair) => {
                proof {
                    let esc = escape_spec(source@, i as int);
                    assert(cur == scan_prepend(esc->contents, short_string_spec(source@, pair.1 as int, quote)));
                    lemma_decoded_step(
                        top,
                        acc@,
                        esc->contents,
                        short_string_spec(source@, pair.1 as int, quote),
                    );
                    assert(acc@.push(pair.0) =~= acc@ + seq![pair.0]);
                }
                acc.push(pair.0);
                i = pair.1;
            },
            Err(err) => {
                return Err(err);
            },
        }
    }
}

} // verus!
