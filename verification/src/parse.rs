//! Parsing errors and the syntax-tree side of the front end. The statement
//! and expression grammar itself is driven by an outside collaborator; this
//! module holds what the collaborator reports and builds.

use vstd::prelude::*;

pub mod ast;

use crate::lex;

verus! {

/// What the parsing layer can report: a lexical error passed through, or a
/// token stream that does not fit the grammar.
#[derive(Clone, Copy, Debug, PartialEq, Eq, Structural, Hash)]
pub enum Error {
    /// A tokenization failure, carried unchanged.
    LexicalError(lex::Error),
    /// The input ended where the grammar still wanted a token.
    UnexpectedEndOfInput,
    /// A token the grammar does not allow here, with its byte range.
    UnexpectedToken(usize, usize),
}

impl From<lex::Error> for Error {
    fn from(value: lex::Error) -> (r: Self) {
        Error::LexicalError(value)
    }
}

impl vstd::std_specs::convert::FromSpecImpl<lex::Error> for Error {
    open spec fn obeys_from_spec() -> bool {
        true
    }

    open spec fn from_spec(value: lex::Error) -> Self {
        Error::LexicalError(value)
    }
}

} // verus!
