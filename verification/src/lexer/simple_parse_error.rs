//! A minimal lexer error type.

use vstd::prelude::*;

use crate::{LexerError, UserPosn};

verus! {

/// A simple implementation of a type supporting [`LexerError`]: an
/// error in parsing a token, carrying the character which could not be
/// matched and its position in the stream.
#[derive(Debug, Clone, Copy, PartialEq, Eq)]
pub struct SimpleParseError<P>
    where P: UserPosn,
{
    /// The character which could not be matched to a token.
    pub ch: char,
    /// The position of the character in the stream.
    pub pos: P,
}

impl<P> LexerError<P> for SimpleParseError<P>
    where P: UserPosn,
{
    open spec fn spec_failed_to_parse(state: P, ch: char) -> Self {
        SimpleParseError { ch, pos: state }
    }

    fn failed_to_parse(state: P, ch: char) -> Self {
        Self { ch, pos: state }
    }
}

} // verus!
