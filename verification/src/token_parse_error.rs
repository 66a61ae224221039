//! A lexer error type carrying a character-stream position.

use vstd::prelude::*;

use crate::{LexerError, PosnInCharStream};

verus! {

/// An error in parsing a token - most often an unrecognized character -
/// carrying the character and its position within the character
/// stream.
#[derive(Debug, Clone, Copy, PartialEq, Eq)]
pub struct TokenParseError<P>
    where P: PosnInCharStream,
{
    /// The character which could not be matched to a token.
    pub ch: char,
    /// The position of the character in the stream.
    pub pos: P,
}

impl<P> LexerError<P> for TokenParseError<P>
    where P: PosnInCharStream,
{
    open spec fn spec_failed_to_parse(state: P, ch: char) -> Self {
        TokenParseError { ch, pos: state }
    }

    fn failed_to_parse(state: P, ch: char) -> Self {
        Self { ch, pos: state }
    }
}

} // verus!
