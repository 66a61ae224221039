//! Traits shared by lexers and their clients.

use vstd::prelude::*;

verus! {

/// The return value of a lexer parse step: `Ok(None)` at the end of
/// the input, `Ok(Some((state, token)))` after a token was matched
/// (with the state beyond the token), and `Err` for a fatal error.
pub type LexerParseResult<S, T, E> = Result<Option<(S, T)>, E>;

/// A trait required of an error within a lexer: a character that does
/// not match any token parser must be reported as an error, and this
/// trait requires that such an error be constructible.
///
/// Construction is deterministic: the error built for a position and a
/// character is exactly what `spec_failed_to_parse` describes.
pub trait LexerError<P>: Sized {
    /// The error reporting that the character `ch`, found at the
    /// position `state`, could not be matched to any token.
    spec fn spec_failed_to_parse(state: P, ch: char) -> Self;

    /// Return an error indicating that a bad character (that could not
    /// be matched for a token) has occurred at the position indicated
    /// by the state.
    fn failed_to_parse(state: P, ch: char) -> (r: Self)
        ensures
            r == Self::spec_failed_to_parse(state, ch),
    ;
}

/// The trait of stream types that support parsing into tokens.
///
/// The trait groups the types involved in one lexical analysis - the
/// token produced, the stream state tracked during parsing, and the
/// error reported on failure - so that clients can name them once.
/// The parsing entry points themselves are provided by the stream
/// type, such as [`crate::LexerOfStr`].
pub trait Lexer {
    /// The token type produced by the lexer.
    type Token;

    /// The state of the stream that is used and returned by the parse
    /// functions; it is copied frequently, so it must be lightweight.
    type State: Copy;

    /// The error type returned by the parse functions.
    type Error;
}

} // verus!
