//! Parsers with an immediate outcome, reading no input.

use vstd::prelude::*;

use crate::{ParseFnResult, ParseResult, ParserInput, ParserInputStream};

verus! {

/// Always match, consuming nothing, with the given value.
pub fn success<P, I, R>(value: R, input: I) -> (r: ParseFnResult<P, R>)
    where P: ParserInput<Stream = I>, I: ParserInputStream<P>,
    ensures
        r matches Ok(pr) && pr matches ParseResult::Matched(s, v) && s == input && v == value,
{
    Ok(ParseResult::Matched(input, value))
}

/// Always mismatch, consuming nothing.
pub fn fail<P, I, R>(input: I) -> (r: ParseFnResult<P, R>)
    where P: ParserInput<Stream = I>, I: ParserInputStream<P>,
    ensures
        r matches Ok(pr) && pr is Mismatched,
{
    Ok(ParseResult::Mismatched)
}

/// Always raise the given fatal error immediately.
pub fn error<P, I, R>(e: P::Error, input: I) -> (r: ParseFnResult<P, R>)
    where P: ParserInput<Stream = I>, I: ParserInputStream<P>,
    ensures
        r matches Err(e2) && e2 == e,
{
    Err(e)
}

} // verus!
