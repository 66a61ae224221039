//! Token matching and repetition combinators.

use vstd::prelude::*;

use super::token::{count_stopped, counted};
use super::{can_error, can_match, can_mismatch, parser_callable, parser_wf_preserving};
use super::{stream_after, token_count, token_matches};
use crate::{ParseFnResult, ParseResult, ParserInput, ParserInputStream};

verus! {

/// Read one token and test it with `f`: when the token passes, match
/// with the unit value and the advanced input; otherwise mismatch,
/// the input unchanged.
pub fn matches<P, I, F>(f: &F, input: I) -> (r: ParseFnResult<P, ()>)
    where P: ParserInput<Stream = I>, I: ParserInputStream<P>, F: Fn(P::Token) -> bool,
    requires
        input.wf(),
        forall|t: P::Token| call_requires(*f, (t,)),
    ensures
        match r {
            Ok(pr) => match pr {
                ParseResult::Matched(s, v) => (match input.spec_get() {
                    Ok(step) => (step matches Some((s1, t)) && s == s1 && call_ensures(
                        *f,
                        (t,),
                        true,
                    )),
                    Err(_) => false,
                }),
                ParseResult::Mismatched => match input.spec_get() {
                    Ok(step) => match step {
                        Some(pair) => call_ensures(*f, (pair.1,), false),
                        None => true,
                    },
                    Err(_) => false,
                },
            },
            Err(e) => input.spec_get() == Err::<Option<(I, P::Token)>, P::Error>(e),
        },
        r matches Ok(ParseResult::Matched(s, v)) ==> s.wf(),
{
    token_matches(f, input)
}

/// Repeatedly test successive tokens with `f`, stopping at the first
/// rejection, at the end of the input, or at `range.end` tokens;
/// match with the count when it reached `range.start`, else mismatch.
pub fn count_of<P, I, F>(f: &F, range: core::ops::Range<usize>, input: I) -> (r: ParseFnResult<
    P,
    usize,
>)
    where P: ParserInput<Stream = I>, I: ParserInputStream<P>, F: Fn(P::Token) -> bool,
    requires
        input.wf(),
        forall|t: P::Token| call_requires(*f, (t,)),
    ensures
        match r {
            Ok(pr) => match pr {
                ParseResult::Matched(s, n) => {
                    &&& range.start <= n <= range.end
                    &&& counted::<P, I, F>(*f, input, n as int)
                    &&& stream_after::<P, I>(input, n as int) == Some(s)
                    &&& s.wf()
                    &&& (n == range.end || count_stopped::<P, I, F>(*f, input, n as int))
                },
                ParseResult::Mismatched => exists|n: int|
                    {
                        &&& 0 <= n < range.start
                        &&& n <= range.end
                        &&& #[trigger] counted::<P, I, F>(*f, input, n)
                        &&& (n == range.end || count_stopped::<P, I, F>(*f, input, n))
                    },
            },
            Err(e) => exists|n: int|
                {
                    &&& 0 <= n < range.end
                    &&& #[trigger] counted::<P, I, F>(*f, input, n)
                    &&& (match stream_after::<P, I>(input, n) {
                        Some(s) => s.spec_get() == Err::<Option<(I, P::Token)>, P::Error>(e),
                        None => false,
                    })
                },
        },
{
    token_count(f, range, input)
}

/// One parser applied `k` times in a row: the streams it threads and
/// the values it produces.
pub open spec fn list_chain<P, I, R, F>(f: F, input: I, ss: Seq<I>, rs: Seq<R>) -> bool
    where P: ParserInput<Stream = I>, I: ParserInputStream<P>, F: Fn(I) -> ParseFnResult<P, R>,
{
    &&& ss.len() == rs.len() + 1
    &&& ss[0] == input
    &&& forall|k: int|
        0 <= k < rs.len() ==> #[trigger] can_match::<P, I, R, F>(f, ss[k], ss[k + 1], rs[k])
}

/// What a successful [`list_of`] means: a chain of that many matches
/// threads from the input to the final stream, producing the results.
pub open spec fn list_matched<P, I, R, F>(f: F, input: I, s: I, rs: Seq<R>) -> bool
    where P: ParserInput<Stream = I>, I: ParserInputStream<P>, F: Fn(I) -> ParseFnResult<P, R>,
{
    exists|ss: Seq<I>|
        {
            &&& #[trigger] list_chain::<P, I, R, F>(f, input, ss, rs)
            &&& ss.last() == s
        }
}

/// What a mismatching [`list_of`] means: some chain of fewer than
/// `start` matches ends at a stream where the parser can mismatch.
pub open spec fn list_mismatched<P, I, R, F>(f: F, input: I, start: int) -> bool
    where P: ParserInput<Stream = I>, I: ParserInputStream<P>, F: Fn(I) -> ParseFnResult<P, R>,
{
    exists|ss: Seq<I>, rs: Seq<R>|
        {
            &&& #[trigger] list_chain::<P, I, R, F>(f, input, ss, rs)
            &&& rs.len() < start
            &&& can_mismatch::<P, I, R, F>(f, ss.last())
        }
}

/// What a failing [`list_of`] means: some chain of matches ends at a
/// stream where the parser can raise the fatal error.
pub open spec fn list_errored<P, I, R, F>(f: F, input: I, e: <P as ParserInput>::Error) -> bool
    where P: ParserInput<Stream = I>, I: ParserInputStream<P>, F: Fn(I) -> ParseFnResult<P, R>,
{
    exists|ss: Seq<I>, rs: Seq<R>|
        {
            &&& #[trigger] list_chain::<P, I, R, F>(f, input, ss, rs)
            &&& can_error::<P, I, R, F>(f, ss.last(), e)
        }
}

/// Repeatedly apply the parser `f`, collecting the results, stopping
/// at its first mismatch or at `range.end` applications; match with
/// the vector of results when at least `range.start` were collected,
/// else mismatch with the input rewound to before any of them.
pub fn list_of<P, I, R, F>(f: &F, range: core::ops::Range<usize>, input: I) -> (r: ParseFnResult<
    P,
    Vec<R>,
>)
    where P: ParserInput<Stream = I>, I: ParserInputStream<P>, F: Fn(I) -> ParseFnResult<P, R>,
    requires
        input.wf(),
        parser_callable::<P, I, R, F>(*f),
        parser_wf_preserving::<P, I, R, F>(*f),
    ensures
        r matches Ok(ParseResult::Matched(s, rs)) ==> list_matched::<P, I, R, F>(
            *f,
            input,
            s,
            rs@,
        ) && range.start <= rs@.len() <= range.end && s.wf() && (rs@.len() == range.end
            || can_mismatch::<P, I, R, F>(*f, s)),
        (r matches Ok(pr) && pr is Mismatched) ==> (list_mismatched::<P, I, R, F>(
            *f,
            input,
            range.start as int,
        ) || range.end < range.start),
        r matches Err(e) ==> list_errored::<P, I, R, F>(*f, input, e),
{
    let mut results: Vec<R> = Vec::new();
    let ghost mut ss: Seq<I> = seq![input];
    let mut inp = input;
    let mut n: usize = 0;
    while n < range.end
        invariant
            input.wf(),
            inp.wf(),
            n == results@.len(),
            n <= range.end,
            ss.len() == n + 1,
            ss.last() == inp,
            list_chain::<P, I, R, F>(*f, input, ss, results@),
            parser_callable::<P, I, R, F>(*f),
            parser_wf_preserving::<P, I, R, F>(*f),
        decreases range.end - n,
    {
        match f(inp) {
            Ok(ParseResult::Matched(next, v)) => {
                proof {
                    assert(can_match::<P, I, R, F>(*f, inp, next, v));
                }
                results.push(v);
                proof {
                    ss = ss.push(next);
                    assert(list_chain::<P, I, R, F>(*f, input, ss, results@));
                }
                inp = next;
                n += 1;
            },
            Ok(ParseResult::Mismatched) => {
                proof {
                    assert(can_mismatch::<P, I, R, F>(*f, inp));
                    assert(list_chain::<P, I, R, F>(*f, input, ss, results@));
                }
                if n >= range.start {
                    proof {
                        assert(list_matched::<P, I, R, F>(*f, input, inp, results@));
                    }
                    return Ok(ParseResult::Matched(inp, results));
                } else {
                    proof {
                        assert(list_mismatched::<P, I, R, F>(*f, input, range.start as int));
                    }
                    return Ok(ParseResult::Mismatched);
                }
            },
            Err(e) => {
                proof {
                    assert(can_error::<P, I, R, F>(*f, inp, e));
                    assert(list_chain::<P, I, R, F>(*f, input, ss, results@));
                    assert(list_errored::<P, I, R, F>(*f, input, e));
                }
                return Err(e);
            },
        }
    }
    proof {
        assert(list_chain::<P, I, R, F>(*f, input, ss, results@));
        assert(list_matched::<P, I, R, F>(*f, input, inp, results@));
    }
    if n >= range.start {
        Ok(ParseResult::Matched(inp, results))
    } else {
        Ok(ParseResult::Mismatched)
    }
}

} // verus!
