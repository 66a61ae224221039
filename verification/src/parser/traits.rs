//! The result of one parser attempt.

use vstd::prelude::*;

use super::ParserInput;

verus! {

/// The outcome of one parser attempt on an input stream.
///
/// A mismatch is not an error: it is ordinary control flow meaning
/// "this parser does not apply here, try another".  A match carries
/// the advanced stream and the parsed value.  A fatal error - the
/// `Err` side of [`ParseFnResult`] - aborts the whole parse, and is
/// never caught by alternation.
#[derive(Debug)]
pub enum ParseResult<P: ParserInput, R> {
    /// The parser does not apply here; the caller still holds its
    /// stream, unchanged, for the next alternative.
    Mismatched,
    /// The parser matched, consuming tokens up to the carried stream,
    /// and produced the carried value.
    Matched(P::Stream, R),
}

/// The result of one parser attempt: an outcome, or the fatal error
/// that aborts the whole parse.
pub type ParseFnResult<P, R> = Result<ParseResult<P, R>, <P as ParserInput>::Error>;

} // verus!
