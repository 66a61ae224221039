//! Parser combinators over an abstract token input.
//!
//! Every combinator here is a pure function from sub-parsers and an
//! input stream to a [`crate::ParseResult`]: sequencing, priority
//! alternation, counted repetition, left-fold, delimiting and
//! post-processing.  A sub-parser is any function from a stream to a
//! [`crate::ParseFnResult`]; because streams are cheap copyable values,
//! a combinator that mismatches leaves the caller's stream untouched,
//! and backtracking needs no bookkeeping.

use vstd::prelude::*;

use crate::{ParseFnResult, ParseResult, ParserInput, ParserInputStream};

mod comb;
mod immediate;
pub mod matching;
pub mod op;
mod priority;
mod token;

pub use comb::{delimited, pair, preceded, separated_pair, succeeded, tuple3, tuple4};
pub use comb::{
    delimited_matched, pair_matched, preceded_matched, separated_pair_matched, succeeded_matched,
    tuple3_matched, tuple4_matched,
};
pub use immediate::{error, fail, success};
pub use matching::{count_of, list_chain, list_errored, list_matched, list_mismatched, list_of};
pub use op::{fold, fold_chain, lemma_fold_left, map_matched, not, option, or_else};
pub use op::{some_stream_matched, unwrap_or_else};
pub use op::spec_fold_left;
pub use priority::{all_mismatch_before, first_of_2, first_of_2_else, first_of_3};
pub use priority::{first_of_3_else, first_of_4, first_of_4_else, first_of_n, first_of_n_else};
pub use token::{count_stopped, counted, token_count, token_map, token_matches};

verus! {

/// True when the parser function `f` may be called on every
/// well-formed stream.
pub open spec fn parser_callable<P, I, R, F>(f: F) -> bool
    where P: ParserInput<Stream = I>, I: ParserInputStream<P>, F: Fn(I) -> ParseFnResult<P, R>,
{
    forall|i: I| i.wf() ==> #[trigger] call_requires(f, (i,))
}

/// True when every stream the parser function `f` can match to, from a
/// well-formed stream, is itself well formed.
pub open spec fn parser_wf_preserving<P, I, R, F>(f: F) -> bool
    where P: ParserInput<Stream = I>, I: ParserInputStream<P>, F: Fn(I) -> ParseFnResult<P, R>,
{
    forall|i: I, s: I, v: R|
        i.wf() && #[trigger] call_ensures(f, (i,), Ok(ParseResult::<P, R>::Matched(s, v)))
            ==> s.wf()
}

/// True when every match the parser function `f` allows, from a
/// well-formed stream, consumes at least one token: the matched
/// stream has strictly less remaining input.
pub open spec fn parser_consuming<P, I, R, F>(f: F) -> bool
    where P: ParserInput<Stream = I>, I: ParserInputStream<P>, F: Fn(I) -> ParseFnResult<P, R>,
{
    forall|i: I, s: I, v: R|
        i.wf() && #[trigger] call_ensures(f, (i,), Ok(ParseResult::<P, R>::Matched(s, v)))
            ==> s.remaining() < i.remaining()
}

/// True when no match the parser function `f` allows, from a
/// well-formed stream, adds input: the matched stream has at most as
/// much remaining input as the stream parsed from.
pub open spec fn parser_nonexpanding<P, I, R, F>(f: F) -> bool
    where P: ParserInput<Stream = I>, I: ParserInputStream<P>, F: Fn(I) -> ParseFnResult<P, R>,
{
    forall|i: I, s: I, v: R|
        i.wf() && #[trigger] call_ensures(f, (i,), Ok(ParseResult::<P, R>::Matched(s, v)))
            ==> s.remaining() <= i.remaining()
}

/// True when mismatching is an outcome the parser function `f` allows
/// on the stream `i`.
pub open spec fn can_mismatch<P, I, R, F>(f: F, i: I) -> bool
    where P: ParserInput<Stream = I>, I: ParserInputStream<P>, F: Fn(I) -> ParseFnResult<P, R>,
{
    call_ensures(f, (i,), Ok(ParseResult::<P, R>::Mismatched))
}

/// True when matching to the stream `s` with the value `v` is an
/// outcome the parser function `f` allows on the stream `i`.
pub open spec fn can_match<P, I, R, F>(f: F, i: I, s: I, v: R) -> bool
    where P: ParserInput<Stream = I>, I: ParserInputStream<P>, F: Fn(I) -> ParseFnResult<P, R>,
{
    call_ensures(f, (i,), Ok(ParseResult::<P, R>::Matched(s, v)))
}

/// True when the fatal error `e` is an outcome the parser function
/// `f` allows on the stream `i`.
pub open spec fn can_error<P, I, R, F>(f: F, i: I, e: <P as ParserInput>::Error) -> bool
    where P: ParserInput<Stream = I>, I: ParserInputStream<P>, F: Fn(I) -> ParseFnResult<P, R>,
{
    call_ensures(f, (i,), Err::<ParseResult<P, R>, <P as ParserInput>::Error>(e))
}

/// The stream left after `k` tokens have been read from `i`, when the
/// stream yields that many.
pub open spec fn stream_after<P, I>(i: I, k: int) -> Option<I>
    where P: ParserInput<Stream = I>, I: ParserInputStream<P>,
    decreases k,
{
    if k <= 0 {
        Some(i)
    } else {
        match stream_after::<P, I>(i, k - 1) {
            None => None,
            Some(s) => match s.spec_get() {
                Ok(step) => match step {
                    Some(pair) => Some(pair.0),
                    None => None,
                },
                Err(_) => None,
            },
        }
    }
}

/// The `k`-th token read from `i`, when the stream yields it.
pub open spec fn token_after<P, I>(i: I, k: int) -> Option<<P as ParserInput>::Token>
    where P: ParserInput<Stream = I>, I: ParserInputStream<P>,
{
    match stream_after::<P, I>(i, k) {
        None => None,
        Some(s) => match s.spec_get() {
            Ok(step) => match step {
                Some(pair) => Some(pair.1),
                None => None,
            },
            Err(_) => None,
        },
    }
}

} // verus!
