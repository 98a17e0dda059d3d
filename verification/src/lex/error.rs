//! Lexical error kinds, reported with the byte range that provoked them.

use vstd::prelude::*;

verus! {

/// What can go wrong while tokenizing source bytes.
#[derive(Clone, Copy, Debug, PartialEq, Eq, Structural, Hash)]
pub enum Error {
    /// A byte that starts no token, or a malformed escape.
    UnexpectedByte,
    /// A quoted string still open at the end of the input or of its line.
    UnclosedStringLiteral,
    /// A long bracketed comment with no matching closing bracket.
    UnclosedLongComment,
    /// A long bracketed literal with no matching closing bracket.
    UnclosedLongLiteral,
    /// A decimal byte escape above 255 in a string literal.
    InvalidDecEscape,
    /// A Unicode escape above the greatest accepted scalar.
    InvalidUnicodeEscape,
}

impl Error {
    /// A short human-readable account of the error.
    pub fn message(&self) -> (r: &'static str)
        ensures
            r@ =~= self.spec_message(),
    {
        proof {
            reveal_strlit("unexpected byte");
            reveal_strlit("unclosed string literal");
            reveal_strlit("unclosed long comment");
            reveal_strlit("unclosed long literal");
            reveal_strlit("invalid decimal escape sequence in string literal");
            reveal_strlit("invalid unicode escape sequence in string literal");
        }
        match self {
            Error::UnexpectedByte => "unexpected byte",
            Error::UnclosedStringLiteral => "unclosed string literal",
            Error::UnclosedLongComment => "unclosed long comment",
            Error::UnclosedLongLiteral => "unclosed long literal",
            Error::InvalidDecEscape => "invalid decimal escape sequence in string literal",
            Error::InvalidUnicodeEscape => "invalid unicode escape sequence in string literal",
        }
    }

    /// The account `message` gives of each kind.
    pub open spec fn spec_message(self) -> Seq<char> {
        match self {
            Error::UnexpectedByte => "unexpected byte"@,
            Error::UnclosedStringLiteral => "unclosed string literal"@,
            Error::UnclosedLongComment => "unclosed long comment"@,
            Error::UnclosedLongLiteral => "unclosed long literal"@,
            Error::InvalidDecEscape => "invalid decimal escape sequence in string literal"@,
            Error::InvalidUnicodeEscape => "invalid unicode escape sequence in string literal"@,
        }
    }
}

impl Default for Error {
    /// The default kind stands for a byte no token can start with.
    fn default() -> (r: Self)
        ensures
            r == Error::UnexpectedByte,
    {
        Error::UnexpectedByte
    }
}

} // verus!
