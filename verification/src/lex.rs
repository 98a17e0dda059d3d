//! Lexical analysis of source bytes for the surface language: names and
//! keywords, quoted and long bracketed strings, numerals, operators, and
//! comment and whitespace trivia.

use vstd::prelude::*;

pub mod error;
pub mod long_comment;
pub mod long_literal;
pub mod numeral;
pub mod short_string;

use crate::string_pool::StringPool;
use crate::string_pool::StringRef;
pub use error::Error;
use long_comment::long_comment_spec;
use long_literal::long_literal_spec;
use numeral::as_twos_complement;
use numeral::dec_value;
use numeral::hex_wrap_value;
use numeral::is_dec_digit;
use numeral::is_hex_digit;
pub use numeral::Numeral;
use short_string::exec_hex_run_end;
use short_string::exec_is_hex_digit;
use short_string::exec_is_space;
use short_string::is_space;
use short_string::short_string_spec;
use short_string::StringScan;

verus! {

/// One token of the surface language. Names and string literals carry a
/// reference into the string pool the stream interns into.
#[derive(Clone, Copy, Debug, PartialEq, Eq, Structural, Hash)]
pub enum Token {
    Name(StringRef),
    String(StringRef),
    Numeral(Numeral),
    KwAnd,
    KwBreak,
    KwDo,
    KwElse,
    KwElseif,
    KwEnd,
    KwFalse,
    KwFor,
    KwFunction,
    KwGoto,
    KwIf,
    KwIn,
    KwLocal,
    KwNil,
    KwNot,
    KwOr,
    KwRepeat,
    KwReturn,
    KwThen,
    KwTrue,
    KwUntil,
    KwWhile,
    Plus,
    Minus,
    Star,
    Slash,
    Percent,
    Caret,
    Hash,
    Ampersand,
    Tilde,
    Pipe,
    LAngle2,
    RAngle2,
    Slash2,
    Equals2,
    TildeEquals,
    LAngleEquals,
    RAngleEquals,
    LAngle,
    RAngle,
    Equals,
    LParen,
    RParen,
    LCurly,
    RCurly,
    LSquare,
    RSquare,
    Colon2,
    Semicolon,
    Colon,
    Comma,
    Dot,
    Dot2,
    Dot3,
}

/// What one step of the stream yields: a finished token with its byte range,
/// or a float literal whose digits still need a float library — producing
/// the bit pattern of a float is work the verified core hands outward. The
/// number range names the digits to parse (for a hex float, past the `0x`
/// prefix); the full range spans the whole literal.
#[derive(Clone, Copy, Debug, PartialEq, Eq, Structural, Hash)]
pub enum Scanned {
    Token(Token, usize, usize),
    Float { hex: bool, number_start: usize, number_end: usize, start: usize, end: usize },
}

/// What the next token at a position is, described over plain values: the
/// reference semantics of the stream.
#[verifier::ext_equal]
pub enum SpecScan {
    /// Only trivia remains.
    End,
    /// Tokenizing fails with this error kind.
    Fail { kind: Error },
    /// A name, spelled by these bytes.
    Name { bytes: Seq<u8>, start: int, end: int },
    /// A string literal, decoding to these bytes.
    Str { bytes: Seq<u8>, start: int, end: int },
    /// A keyword or operator.
    Simple { token: Token, start: int, end: int },
    /// An integer numeral.
    Int { value: i64, start: int, end: int },
    /// A float numeral: digits in `number_start..number_end`, decimal form.
    DecFloat { number_start: int, number_end: int, start: int, end: int },
    /// A float numeral: digits in `number_start..number_end`, hex form.
    HexFloat { number_start: int, number_end: int, start: int, end: int },
}

/// Does `b` start a name?
pub open spec fn is_name_start(b: u8) -> bool {
    ||| 0x41 <= b <= 0x5a
    ||| 0x61 <= b <= 0x7a
    ||| b == 0x5f
}

/// May `b` continue a name?
pub open spec fn is_name_continue(b: u8) -> bool {
    is_name_start(b) || is_dec_digit(b)
}

/// The first position at or after `i` that cannot continue a name.
pub open spec fn name_run_end(src: Seq<u8>, i: int) -> int
    decreases src.len() - i,
{
    if i < 0 || i >= src.len() || !is_name_continue(src[i]) {
        i
    } else {
        name_run_end(src, i + 1)
    }
}

/// The first position at or after `i` holding no decimal digit.
pub open spec fn dec_run_end(src: Seq<u8>, i: int) -> int
    decreases src.len() - i,
{
    if i < 0 || i >= src.len() || !is_dec_digit(src[i]) {
        i
    } else {
        dec_run_end(src, i + 1)
    }
}

/// The first position at or after `i` with no line-comment byte: the first
/// line ending or the end of the input.
pub open spec fn line_end(src: Seq<u8>, i: int) -> int
    decreases src.len() - i,
{
    if i < 0 || i >= src.len() || src[i] == 0x0a || src[i] == 0x0d {
        i
    } else {
        line_end(src, i + 1)
    }
}

/// The nesting level of a long bracket opening at `j`, if one does: the
/// number of equals signs between its two square brackets.
pub open spec fn bracket_level(src: Seq<u8>, j: int) -> Option<int> {
    if 0 <= j < src.len() && src[j] == 0x5b {
        let e = equals_run_end(src, j + 1);
        if e < src.len() && src[e] == 0x5b {
            Some(e - j - 1)
        } else {
            None
        }
    } else {
        None
    }
}

/// The first position at or after `i` holding no equals sign.
pub open spec fn equals_run_end(src: Seq<u8>, i: int) -> int
    decreases src.len() - i,
{
    if i < 0 || i >= src.len() || src[i] != 0x3d {
        i
    } else {
        equals_run_end(src, i + 1)
    }
}

/// Where the trivia (whitespace and comments) beginning at `i` ends, or the
/// error it provokes.
#[verifier::ext_equal]
pub enum Trivia {
    At(int),
    Broken { kind: Error },
}

/// Skips whitespace, line comments and long bracketed comments.
pub open spec fn skip_trivia(src: Seq<u8>, i: int) -> Trivia
    decreases src.len() - i,
{
    if i < 0 || i >= src.len() {
        Trivia::At(i)
    } else if is_space(src[i]) {
        skip_trivia(src, i + 1)
    } else if src[i] == 0x2d && i + 1 < src.len() && src[i + 1] == 0x2d {
        match bracket_level(src, i + 2) {
            Some(level) => {
                match long_comment_spec(src, i + 4 + level, level) {
                    Some(end) => {
                        // a closed comment always ends within the input and
                        // past its opener; the guard only keeps the
                        // recursion visibly descending
                        if i < end <= src.len() {
                            skip_trivia(src, end)
                        } else {
                            Trivia::Broken { kind: Error::UnexpectedByte }
                        }
                    },
                    None => Trivia::Broken { kind: Error::UnclosedLongComment },
                }
            },
            None => {
                // a line comment's end never lies before the comment; the
                // guard only keeps the recursion visibly descending
                let le = line_end(src, i + 2);
                if i < le <= src.len() {
                    skip_trivia(src, le)
                } else {
                    Trivia::Broken { kind: Error::UnexpectedByte }
                }
            },
        }
    } else {
        Trivia::At(i)
    }
}

/// Where a trailing exponent part ends, if one is present at `k`: its marker
/// byte (lower or upper case), an optional sign, and at least one digit.
pub open spec fn exponent_end(src: Seq<u8>, k: int, lower: u8, upper: u8) -> int {
    if 0 <= k < src.len() && (src[k] == lower || src[k] == upper) {
        let s = if k + 1 < src.len() && (src[k + 1] == 0x2b || src[k + 1] == 0x2d) {
            k + 2
        } else {
            k + 1
        };
        let de = dec_run_end(src, s);
        if de > s {
            de
        } else {
            k
        }
    } else {
        k
    }
}

/// The numeral beginning at `j`, which holds a decimal digit, or a dot
/// followed by one.
pub open spec fn numeral_at(src: Seq<u8>, j: int) -> SpecScan {
    if src[j] == 0x2e {
        // a float of the form .digits
        let frac = dec_run_end(src, j + 1);
        let e = exponent_end(src, frac, 0x65, 0x45);
        SpecScan::DecFloat { number_start: j, number_end: e, start: j, end: e }
    } else if src[j] == 0x30 && j + 1 < src.len() && (src[j + 1] == 0x78 || src[j + 1] == 0x58)
        && hex_numeral_follows(src, j + 2) {
        let hd = short_string::hex_run_end(src, j + 2);
        if hd < src.len() && src[hd] == 0x2e {
            let frac = short_string::hex_run_end(src, hd + 1);
            let e = exponent_end(src, frac, 0x70, 0x50);
            SpecScan::HexFloat { number_start: j + 2, number_end: e, start: j, end: e }
        } else {
            SpecScan::Int {
                value: as_twos_complement(hex_wrap_value(src.subrange(j + 2, hd))),
                start: j,
                end: hd,
            }
        }
    } else {
        let de = dec_run_end(src, j);
        if de < src.len() && src[de] == 0x2e {
            let frac = dec_run_end(src, de + 1);
            let e = exponent_end(src, frac, 0x65, 0x45);
            SpecScan::DecFloat { number_start: j, number_end: e, start: j, end: e }
        } else if dec_value(src.subrange(j, de)) <= i64::MAX {
            SpecScan::Int { value: dec_value(src.subrange(j, de)) as i64, start: j, end: de }
        } else {
            SpecScan::DecFloat { number_start: j, number_end: de, start: j, end: de }
        }
    }
}

/// Does a hex numeral body follow at `k`: a hex digit, or a dot followed by
/// one?
pub open spec fn hex_numeral_follows(src: Seq<u8>, k: int) -> bool {
    ||| (k < src.len() && is_hex_digit(src[k]))
    ||| (k + 1 < src.len() && src[k] == 0x2e && is_hex_digit(src[k + 1]))
}

/// The token standing at `j`, which is past all trivia and inside the input.
pub open spec fn token_at(src: Seq<u8>, j: int) -> SpecScan {
    let b = src[j];
    if is_name_start(b) {
        let e = name_run_end(src, j + 1);
        let bytes = src.subrange(j, e);
        match keyword_of(bytes) {
            Some(token) => SpecScan::Simple { token, start: j, end: e },
            None => SpecScan::Name { bytes, start: j, end: e },
        }
    } else if b == 0x22 || b == 0x27 {
        match short_string_spec(src, j + 1, b) {
            StringScan::Done { contents, end } => SpecScan::Str { bytes: contents, start: j, end },
            StringScan::Fail { kind } => SpecScan::Fail { kind },
        }
    } else if b == 0x5b && bracket_level(src, j) is Some {
        let level = bracket_level(src, j)->0;
        match long_literal_spec(src, j + level + 2, level) {
            StringScan::Done { contents, end } => SpecScan::Str { bytes: contents, start: j, end },
            StringScan::Fail { kind } => SpecScan::Fail { kind },
        }
    } else if is_dec_digit(b) || (b == 0x2e && j + 1 < src.len() && is_dec_digit(src[j + 1])) {
        numeral_at(src, j)
    } else if b == 0x2e {
        if j + 1 < src.len() && src[j + 1] == 0x2e {
            if j + 2 < src.len() && src[j + 2] == 0x2e {
                SpecScan::Simple { token: Token::Dot3, start: j, end: j + 3 }
            } else {
                SpecScan::Simple { token: Token::Dot2, start: j, end: j + 2 }
            }
        } else {
            SpecScan::Simple { token: Token::Dot, start: j, end: j + 1 }
        }
    } else {
        match operator_at(src, j) {
            Some(scan) => scan,
            None => SpecScan::Fail { kind: Error::UnexpectedByte },
        }
    }
}

/// The operator or delimiter standing at `j`, longest spelling first.
pub open spec fn operator_at(src: Seq<u8>, j: int) -> Option<SpecScan> {
    let b = src[j];
    let pair = if j + 1 < src.len() {
        Some(src[j + 1])
    } else {
        None
    };
    if b == 0x2b {
        Some(SpecScan::Simple { token: Token::Plus, start: j, end: j + 1 })
    } else if b == 0x2d {
        Some(SpecScan::Simple { token: Token::Minus, start: j, end: j + 1 })
    } else if b == 0x2a {
        Some(SpecScan::Simple { token: Token::Star, start: j, end: j + 1 })
    } else if b == 0x2f {
        if pair == Some(0x2fu8) {
            Some(SpecScan::Simple { token: Token::Slash2, start: j, end: j + 2 })
        } else {
            Some(SpecScan::Simple { token: Token::Slash, start: j, end: j + 1 })
        }
    } else if b == 0x25 {
        Some(SpecScan::Simple { token: Token::Percent, start: j, end: j + 1 })
    } else if b == 0x5e {
        Some(SpecScan::Simple { token: Token::Caret, start: j, end: j + 1 })
    } else if b == 0x23 {
        Some(SpecScan::Simple { token: Token::Hash, start: j, end: j + 1 })
    } else if b == 0x26 {
        Some(SpecScan::Simple { token: Token::Ampersand, start: j, end: j + 1 })
    } else if b == 0x7e {
        if pair == Some(0x3du8) {
            Some(SpecScan::Simple { token: Token::TildeEquals, start: j, end: j + 2 })
        } else {
            Some(SpecScan::Simple { token: Token::Tilde, start: j, end: j + 1 })
        }
    } else if b == 0x7c {
        Some(SpecScan::Simple { token: Token::Pipe, start: j, end: j + 1 })
    } else if b == 0x3c {
        if pair == Some(0x3cu8) {
            Some(SpecScan::Simple { token: Token::LAngle2, start: j, end: j + 2 })
        } else if pair == Some(0x3du8) {
            Some(SpecScan::Simple { token: Token::LAngleEquals, start: j, end: j + 2 })
        } else {
            Some(SpecScan::Simple { token: Token::LAngle, start: j, end: j + 1 })
        }
    } else if b == 0x3e {
        if pair == Some(0x3eu8) {
            Some(SpecScan::Simple { token: Token::RAngle2, start: j, end: j + 2 })
        } else if pair == Some(0x3du8) {
            Some(SpecScan::Simple { token: Token::RAngleEquals, start: j, end: j + 2 })
        } else {
            Some(SpecScan::Simple { token: Token::RAngle, start: j, end: j + 1 })
        }
    } else if b == 0x3d {
        if pair == Some(0x3du8) {
            Some(SpecScan::Simple { token: Token::Equals2, start: j, end: j + 2 })
        } else {
            Some(SpecScan::Simple { token: Token::Equals, start: j, end: j + 1 })
        }
    } else if b == 0x28 {
        Some(SpecScan::Simple { token: Token::LParen, start: j, end: j + 1 })
    } else if b == 0x29 {
        Some(SpecScan::Simple { token: Token::RParen, start: j, end: j + 1 })
    } else if b == 0x7b {
        Some(SpecScan::Simple { token: Token::LCurly, start: j, end: j + 1 })
    } else if b == 0x7d {
        Some(SpecScan::Simple { token: Token::RCurly, start: j, end: j + 1 })
    } else if b == 0x5b {
        Some(SpecScan::Simple { token: Token::LSquare, start: j, end: j + 1 })
    } else if b == 0x5d {
        Some(SpecScan::Simple { token: Token::RSquare, start: j, end: j + 1 })
    } else if b == 0x3a {
        if pair == Some(0x3au8) {
            Some(SpecScan::Simple { token: Token::Colon2, start: j, end: j + 2 })
        } else {
            Some(SpecScan::Simple { token: Token::Colon, start: j, end: j + 1 })
        }
    } else if b == 0x3b {
        Some(SpecScan::Simple { token: Token::Semicolon, start: j, end: j + 1 })
    } else if b == 0x2c {
        Some(SpecScan::Simple { token: Token::Comma, start: j, end: j + 1 })
    } else {
        None
    }
}

/// What the stream yields next from position `i`: skip trivia, dispatch on
/// the first meaningful byte.
pub open spec fn scan_spec(src: Seq<u8>, i: int) -> SpecScan {
    match skip_trivia(src, i) {
        Trivia::At(j) => {
            if j >= src.len() {
                SpecScan::End
            } else {
                token_at(src, j)
            }
        },
        Trivia::Broken { kind } => SpecScan::Fail { kind },
    }
}

/// The keyword a name's bytes spell, if any.
pub open spec fn keyword_of(s: Seq<u8>) -> Option<Token> {
    if s == seq![0x61u8, 0x6eu8, 0x64u8] {
        Some(Token::KwAnd)
    } else     if s == seq![0x62u8, 0x72u8, 0x65u8, 0x61u8, 0x6bu8] {
        Some(Token::KwBreak)
    } else     if s == seq![0x64u8, 0x6fu8] {
        Some(Token::KwDo)
    } else     if s == seq![0x65u8, 0x6cu8, 0x73u8, 0x65u8] {
        Some(Token::KwElse)
    } else     if s == seq![0x65u8, 0x6cu8, 0x73u8, 0x65u8, 0x69u8, 0x66u8] {
        Some(Token::KwElseif)
    } else     if s == seq![0x65u8, 0x6eu8, 0x64u8] {
        Some(Token::KwEnd)
    } else     if s == seq![0x66u8, 0x61u8, 0x6cu8, 0x73u8, 0x65u8] {
        Some(Token::KwFalse)
    } else     if s == seq![0x66u8, 0x6fu8, 0x72u8] {
        Some(Token::KwFor)
    } else     if s == seq![0x66u8, 0x75u8, 0x6eu8, 0x63u8, 0x74u8, 0x69u8, 0x6fu8, 0x6eu8] {
        Some(Token::KwFunction)
    } else     if s == seq![0x67u8, 0x6fu8, 0x74u8, 0x6fu8] {
        Some(Token::KwGoto)
    } else     if s == seq![0x69u8, 0x66u8] {
        Some(Token::KwIf)
    } else     if s == seq![0x69u8, 0x6eu8] {
        Some(Token::KwIn)
    } else     if s == seq![0x6cu8, 0x6fu8, 0x63u8, 0x61u8, 0x6cu8] {
        Some(Token::KwLocal)
    } else     if s == seq![0x6eu8, 0x69u8, 0x6cu8] {
        Some(Token::KwNil)
    } else     if s == seq![0x6eu8, 0x6fu8, 0x74u8] {
        Some(Token::KwNot)
    } else     if s == seq![0x6fu8, 0x72u8] {
        Some(Token::KwOr)
    } else     if s == seq![0x72u8, 0x65u8, 0x70u8, 0x65u8, 0x61u8, 0x74u8] {
        Some(Token::KwRepeat)
    } else     if s == seq![0x72u8, 0x65u8, 0x74u8, 0x75u8, 0x72u8, 0x6eu8] {
        Some(Token::KwReturn)
    } else     if s == seq![0x74u8, 0x68u8, 0x65u8, 0x6eu8] {
        Some(Token::KwThen)
    } else     if s == seq![0x74u8, 0x72u8, 0x75u8, 0x65u8] {
        Some(Token::KwTrue)
    } else     if s == seq![0x75u8, 0x6eu8, 0x74u8, 0x69u8, 0x6cu8] {
        Some(Token::KwUntil)
    } else     if s == seq![0x77u8, 0x68u8, 0x69u8, 0x6cu8, 0x65u8] {
        Some(Token::KwWhile)
    } else {
        None
    }
}

/// Looks the byte range up in the keyword table.
fn keyword_token(source: &[u8], start: usize, end: usize) -> (r: Option<Token>)
    requires
        start <= end <= source@.len(),
    ensures
        r == keyword_of(source@.subrange(start as int, end as int)),
{
    let len = end - start;
    if len == 3 && source[start + 0] == 0x61 && source[start + 1] == 0x6e && source[start + 2] == 0x64 {
        proof {
            assert(source@.subrange(start as int, end as int) =~= seq![0x61u8, 0x6eu8, 0x64u8]);
        }
        return Some(Token::KwAnd);
    }
    if len == 5 && source[start + 0] == 0x62 && source[start + 1] == 0x72 && source[start + 2] == 0x65 && source[start + 3] == 0x61 && source[start + 4] == 0x6b {
        proof {
            assert(source@.subrange(start as int, end as int) =~= seq![0x62u8, 0x72u8, 0x65u8, 0x61u8, 0x6bu8]);
        }
        return Some(Token::KwBreak);
    }
    if len == 2 && source[start + 0] == 0x64 && source[start + 1] == 0x6f {
        proof {
            assert(source@.subrange(start as int, end as int) =~= seq![0x64u8, 0x6fu8]);
        }
        return Some(Token::KwDo);
    }
    if len == 4 && source[start + 0] == 0x65 && source[start + 1] == 0x6c && source[start + 2] == 0x73 && source[start + 3] == 0x65 {
        proof {
            assert(source@.subrange(start as int, end as int) =~= seq![0x65u8, 0x6cu8, 0x73u8, 0x65u8]);
        }
        return Some(Token::KwElse);
    }
    if len == 6 && source[start + 0] == 0x65 && source[start + 1] == 0x6c && source[start + 2] == 0x73 && source[start + 3] == 0x65 && source[start + 4] == 0x69 && source[start + 5] == 0x66 {
        proof {
            assert(source@.subrange(start as int, end as int) =~= seq![0x65u8, 0x6cu8, 0x73u8, 0x65u8, 0x69u8, 0x66u8]);
        }
        return Some(Token::KwElseif);
    }
    if len == 3 && source[start + 0] == 0x65 && source[start + 1] == 0x6e && source[start + 2] == 0x64 {
        proof {
            assert(source@.subrange(start as int, end as int) =~= seq![0x65u8, 0x6eu8, 0x64u8]);
        }
        return Some(Token::KwEnd);
    }
    if len == 5 && source[start + 0] == 0x66 && source[start + 1] == 0x61 && source[start + 2] == 0x6c && source[start + 3] == 0x73 && source[start + 4] == 0x65 {
        proof {
            assert(source@.subrange(start as int, end as int) =~= seq![0x66u8, 0x61u8, 0x6cu8, 0x73u8, 0x65u8]);
        }
        return Some(Token::KwFalse);
    }
    if len == 3 && source[start + 0] == 0x66 && source[start + 1] == 0x6f && source[start + 2] == 0x72 {
        proof {
            assert(source@.subrange(start as int, end as int) =~= seq![0x66u8, 0x6fu8, 0x72u8]);
        }
        return Some(Token::KwFor);
    }
    if len == 8 && source[start + 0] == 0x66 && source[start + 1] == 0x75 && source[start + 2] == 0x6e && source[start + 3] == 0x63 && source[start + 4] == 0x74 && source[start + 5] == 0x69 && source[start + 6] == 0x6f && source[start + 7] == 0x6e {
        proof {
            assert(source@.subrange(start as int, end as int) =~= seq![0x66u8, 0x75u8, 0x6eu8, 0x63u8, 0x74u8, 0x69u8, 0x6fu8, 0x6eu8]);
        }
        return Some(Token::KwFunction);
    }
    if len == 4 && source[start + 0] == 0x67 && source[start + 1] == 0x6f && source[start + 2] == 0x74 && source[start + 3] == 0x6f {
        proof {
            assert(source@.subrange(start as int, end as int) =~= seq![0x67u8, 0x6fu8, 0x74u8, 0x6fu8]);
        }
        return Some(Token::KwGoto);
    }
    if len == 2 && source[start + 0] == 0x69 && source[start + 1] == 0x66 {
        proof {
            assert(source@.subrange(start as int, end as int) =~= seq![0x69u8, 0x66u8]);
        }
        return Some(Token::KwIf);
    }
    if len == 2 && source[start + 0] == 0x69 && source[start + 1] == 0x6e {
        proof {
            assert(source@.subrange(start as int, end as int) =~= seq![0x69u8, 0x6eu8]);
        }
        return Some(Token::KwIn);
    }
    if len == 5 && source[start + 0] == 0x6c && source[start + 1] == 0x6f && source[start + 2] == 0x63 && source[start + 3] == 0x61 && source[start + 4] == 0x6c {
        proof {
            assert(source@.subrange(start as int, end as int) =~= seq![0x6cu8, 0x6fu8, 0x63u8, 0x61u8, 0x6cu8]);
        }
        return Some(Token::KwLocal);
    }
    if len == 3 && source[start + 0] == 0x6e && source[start + 1] == 0x69 && source[start + 2] == 0x6c {
        proof {
            assert(source@.subrange(start as int, end as int) =~= seq![0x6eu8, 0x69u8, 0x6cu8]);
        }
        return Some(Token::KwNil);
    }
    if len == 3 && source[start + 0] == 0x6e && source[start + 1] == 0x6f && source[start + 2] == 0x74 {
        proof {
            assert(source@.subrange(start as int, end as int) =~= seq![0x6eu8, 0x6fu8, 0x74u8]);
        }
        return Some(Token::KwNot);
    }
    if len == 2 && source[start + 0] == 0x6f && source[start + 1] == 0x72 {
        proof {
            assert(source@.subrange(start as int, end as int) =~= seq![0x6fu8, 0x72u8]);
        }
        return Some(Token::KwOr);
    }
    if len == 6 && source[start + 0] == 0x72 && source[start + 1] == 0x65 && source[start + 2] == 0x70 && source[start + 3] == 0x65 && source[start + 4] == 0x61 && source[start + 5] == 0x74 {
        proof {
            assert(source@.subrange(start as int, end as int) =~= seq![0x72u8, 0x65u8, 0x70u8, 0x65u8, 0x61u8, 0x74u8]);
        }
        return Some(Token::KwRepeat);
    }
    if len == 6 && source[start + 0] == 0x72 && source[start + 1] == 0x65 && source[start + 2] == 0x74 && source[start + 3] == 0x75 && source[start + 4] == 0x72 && source[start + 5] == 0x6e {
        proof {
            assert(source@.subrange(start as int, end as int) =~= seq![0x72u8, 0x65u8, 0x74u8, 0x75u8, 0x72u8, 0x6eu8]);
        }
        return Some(Token::KwReturn);
    }
    if len == 4 && source[start + 0] == 0x74 && source[start + 1] == 0x68 && source[start + 2] == 0x65 && source[start + 3] == 0x6e {
        proof {
            assert(source@.subrange(start as int, end as int) =~= seq![0x74u8, 0x68u8, 0x65u8, 0x6eu8]);
        }
        return Some(Token::KwThen);
    }
    if len == 4 && source[start + 0] == 0x74 && source[start + 1] == 0x72 && source[start + 2] == 0x75 && source[start + 3] == 0x65 {
        proof {
            assert(source@.subrange(start as int, end as int) =~= seq![0x74u8, 0x72u8, 0x75u8, 0x65u8]);
        }
        return Some(Token::KwTrue);
    }
    if len == 5 && source[start + 0] == 0x75 && source[start + 1] == 0x6e && source[start + 2] == 0x74 && source[start + 3] == 0x69 && source[start + 4] == 0x6c {
        proof {
            assert(source@.subrange(start as int, end as int) =~= seq![0x75u8, 0x6eu8, 0x74u8, 0x69u8, 0x6cu8]);
        }
        return Some(Token::KwUntil);
    }
    if len == 5 && source[start + 0] == 0x77 && source[start + 1] == 0x68 && source[start + 2] == 0x69 && source[start + 3] == 0x6c && source[start + 4] == 0x65 {
        proof {
            assert(source@.subrange(start as int, end as int) =~= seq![0x77u8, 0x68u8, 0x69u8, 0x6cu8, 0x65u8]);
        }
        return Some(Token::KwWhile);
    }
    proof {
        let s = source@.subrange(start as int, end as int);
        assert(s.len() == end - start);
    }
    None
}

/// How interning relates a pool before and after: the bytes stand at the
/// returned reference, and nothing else changed — not even the pool's size,
/// when the bytes were already present.
pub open spec fn interned(pre: StringPool, post: StringPool, bytes: Seq<u8>, r: StringRef) -> bool {
    &&& post.wf()
    &&& r.0 < post.contents().len()
    &&& post.contents()[r.0 as int] == bytes
    &&& (pre.contents().contains(bytes) ==> post.contents() == pre.contents())
    &&& (!pre.contents().contains(bytes) ==> post.contents() == pre.contents().push(bytes) && r.0
        == pre.contents().len())
}

fn exec_is_name_start(b: u8) -> (r: bool)
    ensures
        r == is_name_start(b),
{
    (0x41 <= b && b <= 0x5a) || (0x61 <= b && b <= 0x7a) || b == 0x5f
}

fn exec_is_name_continue(b: u8) -> (r: bool)
    ensures
        r == is_name_continue(b),
{
    exec_is_name_start(b) || (0x30 <= b && b <= 0x39)
}

fn exec_name_run_end(source: &[u8], from: usize) -> (r: usize)
    requires
        from <= source@.len(),
    ensures
        r == name_run_end(source@, from as int),
        from <= r <= source@.len(),
{
    let n = source.len();
    let mut j = from;
    while j < n && exec_is_name_continue(source[j])
        invariant
            n == source@.len(),
            from <= j <= n,
            name_run_end(source@, from as int) == name_run_end(source@, j as int),
        decreases n - j,
    {
        j += 1;
    }
    j
}

fn exec_dec_run_end(source: &[u8], from: usize) -> (r: usize)
    requires
        from <= source@.len(),
    ensures
        r == dec_run_end(source@, from as int),
        from <= r <= source@.len(),
        forall|k: int| from <= k < r ==> is_dec_digit(#[trigger] source@[k]),
{
    let n = source.len();
    let mut j = from;
    while j < n && 0x30 <= source[j] && source[j] <= 0x39
        invariant
            n == source@.len(),
            from <= j <= n,
            dec_run_end(source@, from as int) == dec_run_end(source@, j as int),
            forall|k: int| from <= k < j ==> is_dec_digit(#[trigger] source@[k]),
        decreases n - j,
    {
        j += 1;
    }
    j
}

fn exec_line_end(source: &[u8], from: usize) -> (r: usize)
    requires
        from <= source@.len(),
    ensures
        r == line_end(source@, from as int),
        from <= r <= source@.len(),
{
    let n = source.len();
    let mut j = from;
    while j < n && source[j] != 0x0a && source[j] != 0x0d
        invariant
            n == source@.len(),
            from <= j <= n,
            line_end(source@, from as int) == line_end(source@, j as int),
        decreases n - j,
    {
        j += 1;
    }
    j
}

fn exec_equals_run_end(source: &[u8], from: usize) -> (r: usize)
    requires
        from <= source@.len(),
    ensures
        r == equals_run_end(source@, from as int),
        from <= r <= source@.len(),
{
    let n = source.len();
    let mut j = from;
    while j < n && source[j] == 0x3d
        invariant
            n == source@.len(),
            from <= j <= n,
            equals_run_end(source@, from as int) == equals_run_end(source@, j as int),
        decreases n - j,
    {
        j += 1;
    }
    j
}

fn exec_bracket_level(source: &[u8], j: usize) -> (r: Option<usize>)
    requires
        j <= source@.len(),
    ensures
        r matches Some(level) ==> {
            &&& bracket_level(source@, j as int) == Some(level as int)
            &&& j + level + 2 <= source@.len()
            &&& level < source@.len()
        },
        r is None ==> bracket_level(source@, j as int) is None,
{
    let n = source.len();
    if j >= n || source[j] != 0x5b {
        return None;
    }
    let e = exec_equals_run_end(source, j + 1);
    if e < n && source[e] == 0x5b {
        Some(e - j - 1)
    } else {
        None
    }
}

fn exec_exponent_end(source: &[u8], k: usize, lower: u8, upper: u8) -> (r: usize)
    requires
        k <= source@.len(),
    ensures
        r == exponent_end(source@, k as int, lower, upper),
        k <= r <= source@.len(),
{
    let n = source.len();
    if k < n && (source[k] == lower || source[k] == upper) {
        let s: usize = if k + 1 < n && (source[k + 1] == 0x2b || source[k + 1] == 0x2d) {
            k + 2
        } else {
            k + 1
        };
        let de = exec_dec_run_end(source, s);
        if de > s {
            de
        } else {
            k
        }
    } else {
        k
    }
}

fn range_to_vec(source: &[u8], start: usize, end: usize) -> (r: Vec<u8>)
    requires
        start <= end <= source@.len(),
    ensures
        r@ == source@.subrange(start as int, end as int),
{
    let mut out: Vec<u8> = Vec::new();
    let mut k = start;
    while k < end
        invariant
            start <= k <= end <= source@.len(),
            out@ =~= source@.subrange(start as int, k as int),
        decreases end - k,
    {
        out.push(source[k]);
        k += 1;
    }
    proof {
        assert(out@ =~= source@.subrange(start as int, end as int));
    }
    out
}

/// A cursor over the source bytes, yielding one token per step and
/// interning names and decoded string contents into the pool it is handed.
pub struct TokenStream {
    source: Vec<u8>,
    pos: usize,
}

impl TokenStream {
    /// The bytes being tokenized.
    pub closed spec fn src(self) -> Seq<u8> {
        self.source@
    }

    /// Where the next step starts scanning.
    pub closed spec fn spec_pos(self) -> int {
        self.pos as int
    }

    pub open spec fn wf(self) -> bool {
        0 <= self.spec_pos() <= self.src().len()
    }

    /// A stream at the start of `source`.
    pub fn new(source: &[u8]) -> (r: Self)
        ensures
            r.wf(),
            r.src() == source@,
            r.spec_pos() == 0,
    {
        let n = source.len();
        let owned = range_to_vec(source, 0, n);
        proof {
            assert(source@.subrange(0, source@.len() as int) =~= source@);
        }
        TokenStream { source: owned, pos: 0 }
    }

    /// The bytes being tokenized.
    pub fn source(&self) -> (r: &Vec<u8>)
        ensures
            r@ == self.src(),
    {
        &self.source
    }

    /// Where the next step starts scanning.
    pub fn position(&self) -> (r: usize)
        ensures
            r == self.spec_pos(),
    {
        self.pos
    }

    /// Yields the next token (or float-literal request), skipping trivia,
    /// interning names and decoded strings into `pool`. At the end of the
    /// input it yields nothing; after an error the stream stands at the end.
    pub fn next(&mut self, pool: &mut StringPool) -> (r: Option<Result<Scanned, Error>>)
        requires
            old(self).wf(),
            old(pool).wf(),
            old(pool).contents().len() < u32::MAX,
        ensures
            final(self).wf(),
            final(pool).wf(),
            final(self).src() == old(self).src(),
            scan_yields(
                old(self).src(),
                old(self).spec_pos(),
                *old(pool),
                *final(pool),
                final(self).spec_pos(),
                r,
            ),
    {
        let ghost src = self.source@;
        let ghost pos0 = self.pos as int;
        let n = self.source.len();
        let mut j = self.pos;
        // skip whitespace and comments
        #[verifier::loop_isolation(false)]
        loop
            invariant
                n == src.len(),
                src == self.source@,
                self.pos as int == pos0,
                0 <= pos0 <= n,
                pos0 <= j as int <= n,
                skip_trivia(src, pos0) == skip_trivia(src, j as int),
            decreases src.len() - j,
        {
            if j >= n {
                break;
            }
            let b = self.source[j];
            if exec_is_space(b) {
                j += 1;
                continue;
            }
            if b == 0x2d && j + 1 < n && self.source[j + 1] == 0x2d {
                match exec_bracket_level(self.source.as_slice(), j + 2) {
                    Some(level) => {
                        match long_comment::callback(self.source.as_slice(), j + 4 + level, level) {
                            Ok(end) => {
                                j = end;
                                continue;
                            },
                            Err(kind) => {
                                self.pos = n;
                                return Some(Err(kind));
                            },
                        }
                    },
                    None => {
                        j = exec_line_end(self.source.as_slice(), j + 2);
                        continue;
                    },
                }
            }
            break;
        }
        if j >= n {
            self.pos = j;
            return None;
        }
        // dispatch on the first meaningful byte
        let b = self.source[j];
        if exec_is_name_start(b) {
            let e = exec_name_run_end(self.source.as_slice(), j + 1);
            match keyword_token(self.source.as_slice(), j, e) {
                Some(token) => {
                    self.pos = e;
                    return Some(Ok(Scanned::Token(token, j, e)));
                },
                None => {
                    let bytes = range_to_vec(self.source.as_slice(), j, e);
                    let sref = pool.intern(bytes.as_slice());
                    self.pos = e;
                    return Some(Ok(Scanned::Token(Token::Name(sref), j, e)));
                },
            }
        }
        if b == 0x22 || b == 0x27 {
            let scanned = if b == 0x27 {
                short_string::single_quote_callback(self.source.as_slice(), j + 1)
            } else {
                short_string::double_quote_callback(self.source.as_slice(), j + 1)
            };
            match scanned {
                Ok(decoded) => {
                    let sref = pool.intern(decoded.0.as_slice());
                    self.pos = decoded.1;
                    return Some(Ok(Scanned::Token(Token::String(sref), j, decoded.1)));
                },
                Err(kind) => {
                    self.pos = n;
                    return Some(Err(kind));
                },
            }
        }
        if b == 0x5b {
            match exec_bracket_level(self.source.as_slice(), j) {
                Some(level) => {
                    match long_literal::callback(self.source.as_slice(), j + level + 2, level) {
                        Ok(gathered) => {
                            let sref = pool.intern(gathered.0.as_slice());
                            self.pos = gathered.1;
                            return Some(Ok(Scanned::Token(Token::String(sref), j, gathered.1)));
                        },
                        Err(kind) => {
                            self.pos = n;
                            return Some(Err(kind));
                        },
                    }
                },
                None => {
                    self.pos = j + 1;
                    return Some(Ok(Scanned::Token(Token::LSquare, j, j + 1)));
                },
            }
        }
        let next_digit = j + 1 < n && 0x30 <= self.source[j + 1] && self.source[j + 1] <= 0x39;
        if 0x30 <= b && b <= 0x39 || (b == 0x2e && next_digit) {
            return Some(Ok(self.scan_numeral(j)));
        }
        if b == 0x2e {
            if j + 1 < n && self.source[j + 1] == 0x2e {
                if j + 2 < n && self.source[j + 2] == 0x2e {
                    self.pos = j + 3;
                    return Some(Ok(Scanned::Token(Token::Dot3, j, j + 3)));
                }
                self.pos = j + 2;
                return Some(Ok(Scanned::Token(Token::Dot2, j, j + 2)));
            }
            self.pos = j + 1;
            return Some(Ok(Scanned::Token(Token::Dot, j, j + 1)));
        }
        match self.scan_operator(j) {
            Some(scanned) => Some(Ok(scanned)),
            None => {
                self.pos = n;
                Some(Err(Error::UnexpectedByte))
            },
        }
    }

    /// Scans the numeral standing at `j` and leaves the stream past it.
    fn scan_numeral(&mut self, j: usize) -> (r: Scanned)
        requires
            old(self).wf(),
            j < old(self).src().len(),
            is_dec_digit(old(self).src()[j as int]) || (old(self).src()[j as int] == 0x2e && j + 1
                < old(self).src().len() && is_dec_digit(old(self).src()[j as int + 1])),
        ensures
            final(self).wf(),
            final(self).src() == old(self).src(),
            scanned_token_is(old(self).src(), final(self).spec_pos(), numeral_at(old(self).src(), j as int), r),
    {
        let n = self.source.len();
        let b = self.source[j];
        if b == 0x2e {
            let frac = exec_dec_run_end(self.source.as_slice(), j + 1);
            let e = exec_exponent_end(self.source.as_slice(), frac, 0x65, 0x45);
            self.pos = e;
            return Scanned::Float { hex: false, number_start: j, number_end: e, start: j, end: e };
        }
        let rem = n - j;
        let hex_follows = rem > 2 && exec_is_hex_digit(self.source[j + 2]) || (rem > 3
            && self.source[j + 2] == 0x2e && exec_is_hex_digit(self.source[j + 3]));
        if b == 0x30 && j + 1 < n && (self.source[j + 1] == 0x78 || self.source[j + 1] == 0x58)
            && hex_follows {
            let hd = exec_hex_run_end(self.source.as_slice(), j + 2);
            if hd < n && self.source[hd] == 0x2e {
                let frac = exec_hex_run_end(self.source.as_slice(), hd + 1);
                let e = exec_exponent_end(self.source.as_slice(), frac, 0x70, 0x50);
                self.pos = e;
                return Scanned::Float {
                    hex: true,
                    number_start: j + 2,
                    number_end: e,
                    start: j,
                    end: e,
                };
            }
            let digits = range_to_vec(self.source.as_slice(), j + 2, hd);
            let value = numeral::hex_int(digits.as_slice());
            self.pos = hd;
            return Scanned::Token(Token::Numeral(Numeral::Int(value)), j, hd);
        }
        let de = exec_dec_run_end(self.source.as_slice(), j);
        if de < n && self.source[de] == 0x2e {
            let frac = exec_dec_run_end(self.source.as_slice(), de + 1);
            let e = exec_exponent_end(self.source.as_slice(), frac, 0x65, 0x45);
            self.pos = e;
            return Scanned::Float { hex: false, number_start: j, number_end: e, start: j, end: e };
        }
        let digits = range_to_vec(self.source.as_slice(), j, de);
        match numeral::dec_int(digits.as_slice()) {
            Some(value) => {
                self.pos = de;
                Scanned::Token(Token::Numeral(Numeral::Int(value)), j, de)
            },
            None => {
                self.pos = de;
                Scanned::Float { hex: false, number_start: j, number_end: de, start: j, end: de }
            },
        }
    }

    /// Scans the operator or delimiter standing at `j` and leaves the stream
    /// past it; yields nothing when no operator starts with the byte there.
    fn scan_operator(&mut self, j: usize) -> (r: Option<Scanned>)
        requires
            old(self).wf(),
            j < old(self).src().len(),
        ensures
            final(self).wf(),
            final(self).src() == old(self).src(),
            match operator_at(old(self).src(), j as int) {
                Some(scan) => r matches Some(s) && scanned_token_is(
                    old(self).src(),
                    final(self).spec_pos(),
                    scan,
                    s,
                ),
                None => r is None && final(self).spec_pos() == old(self).spec_pos(),
            },
    {
        let n = self.source.len();
        let b = self.source[j];
        let pair: Option<u8> = if j + 1 < n {
            Some(self.source[j + 1])
        } else {
            None
        };
        let hit: Option<(Token, usize)> = if b == 0x2b {
            Some((Token::Plus, 1))
        } else if b == 0x2d {
            Some((Token::Minus, 1))
        } else if b == 0x2a {
            Some((Token::Star, 1))
        } else if b == 0x2f {
            if pair == Some(0x2fu8) {
                Some((Token::Slash2, 2))
            } else {
                Some((Token::Slash, 1))
            }
        } else if b == 0x25 {
            Some((Token::Percent, 1))
        } else if b == 0x5e {
            Some((Token::Caret, 1))
        } else if b == 0x23 {
            Some((Token::Hash, 1))
        } else if b == 0x26 {
            Some((Token::Ampersand, 1))
        } else if b == 0x7e {
            if pair == Some(0x3du8) {
                Some((Token::TildeEquals, 2))
            } else {
                Some((Token::Tilde, 1))
            }
        } else if b == 0x7c {
            Some((Token::Pipe, 1))
        } else if b == 0x3c {
            if pair == Some(0x3cu8) {
                Some((Token::LAngle2, 2))
            } else if pair == Some(0x3du8) {
                Some((Token::LAngleEquals, 2))
            } else {
                Some((Token::LAngle, 1))
            }
        } else if b == 0x3e {
            if pair == Some(0x3eu8) {
                Some((Token::RAngle2, 2))
            } else if pair == Some(0x3du8) {
                Some((Token::RAngleEquals, 2))
            } else {
                Some((Token::RAngle, 1))
            }
        } else if b == 0x3d {
            if pair == Some(0x3du8) {
                Some((Token::Equals2, 2))
            } else {
                Some((Token::Equals, 1))
            }
        } else if b == 0x28 {
            Some((Token::LParen, 1))
        } else if b == 0x29 {
            Some((Token::RParen, 1))
        } else if b == 0x7b {
            Some((Token::LCurly, 1))
        } else if b == 0x7d {
            Some((Token::RCurly, 1))
        } else if b == 0x5b {
            Some((Token::LSquare, 1))
        } else if b == 0x5d {
            Some((Token::RSquare, 1))
        } else if b == 0x3a {
            if pair == Some(0x3au8) {
                Some((Token::Colon2, 2))
            } else {
                Some((Token::Colon, 1))
            }
        } else if b == 0x3b {
            Some((Token::Semicolon, 1))
        } else if b == 0x2c {
            Some((Token::Comma, 1))
        } else {
            None
        };
        match hit {
            Some(pairing) => {
                self.pos = j + pairing.1;
                Some(Scanned::Token(pairing.0, j, j + pairing.1))
            },
            None => None,
        }
    }
}

/// Does the yielded step agree with the specified one, with the stream left
/// at its end?
pub open spec fn scanned_token_is(src: Seq<u8>, pos: int, scan: SpecScan, r: Scanned) -> bool {
    match scan {
        SpecScan::Simple { token, start, end } => {
            &&& r == Scanned::Token(token, start as usize, end as usize)
            &&& r matches Scanned::Token(_, s, e) && s == start && e == end
            &&& pos == end
        },
        SpecScan::Int { value, start, end } => {
            &&& r matches Scanned::Token(t, s, e) && t == Token::Numeral(Numeral::Int(value)) && s
                == start && e == end
            &&& pos == end
        },
        SpecScan::DecFloat { number_start, number_end, start, end } => {
            &&& r matches Scanned::Float { hex, number_start: ns, number_end: ne, start: s, end: e }
                && !hex && ns == number_start && ne == number_end && s == start && e == end
            &&& pos == end
        },
        SpecScan::HexFloat { number_start, number_end, start, end } => {
            &&& r matches Scanned::Float { hex, number_start: ns, number_end: ne, start: s, end: e }
                && hex && ns == number_start && ne == number_end && s == start && e == end
            &&& pos == end
        },
        _ => false,
    }
}

/// The full contract of one stream step, over the scan specification: what
/// is yielded, where the stream lands, and what interning did to the pool.
pub open spec fn scan_yields(
    src: Seq<u8>,
    pos0: int,
    pre_pool: StringPool,
    post_pool: StringPool,
    pos1: int,
    r: Option<Result<Scanned, Error>>,
) -> bool {
    match scan_spec(src, pos0) {
        SpecScan::End => {
            &&& r is None
            &&& pos1 == src.len()
            &&& post_pool.contents() == pre_pool.contents()
        },
        SpecScan::Fail { kind } => {
            &&& r == Some(Err::<Scanned, Error>(kind))
            &&& pos1 == src.len()
            &&& post_pool.contents() == pre_pool.contents()
        },
        SpecScan::Name { bytes, start, end } => {
            &&& r matches Some(Ok(Scanned::Token(t, s, e))) && s == start && e == end && (
            t matches Token::Name(sref) && interned(pre_pool, post_pool, bytes, sref))
            &&& pos1 == end
        },
        SpecScan::Str { bytes, start, end } => {
            &&& r matches Some(Ok(Scanned::Token(t, s, e))) && s == start && e == end && (
            t matches Token::String(sref) && interned(pre_pool, post_pool, bytes, sref))
            &&& pos1 == end
        },
        scan => {
            &&& r matches Some(Ok(step)) && scanned_token_is(src, pos1, scan, step)
            &&& post_pool.contents() == pre_pool.contents()
        },
    }
}

} // verus!
