//! Parsers that read single tokens.

use vstd::prelude::*;

use super::{stream_after, token_after};
use crate::{ParseFnResult, ParseResult, ParserInput, ParserInputStream};

verus! {

/// Read one token and apply `f` to it: when `f` yields a value, match
/// with it and the advanced input; otherwise mismatch, the input
/// unchanged - the read token is discarded along with the rejected
/// branch.  At the end of the input, mismatch; on the input's fatal
/// error, fail with it.
pub fn token_map<P, I, R, F>(f: &F, input: I) -> (r: ParseFnResult<P, R>)
    where
        P: ParserInput<Stream = I>,
        I: ParserInputStream<P>,
        F: Fn(P::Token) -> Option<R>,
    requires
        input.wf(),
        forall|t: P::Token| call_requires(*f, (t,)),
    ensures
        match r {
            Ok(pr) => match pr {
                ParseResult::Matched(s, v) => (match input.spec_get() {
                    Ok(step) => (step matches Some((s1, t)) && s == s1 && call_ensures(
                        *f,
                        (t,),
                        Some(v),
                    )),
                    Err(_) => false,
                }),
                ParseResult::Mismatched => match input.spec_get() {
                    Ok(step) => match step {
                        Some(pair) => call_ensures(*f, (pair.1,), None::<R>),
                        None => true,
                    },
                    Err(_) => false,
                },
            },
            Err(e) => input.spec_get() == Err::<Option<(I, P::Token)>, P::Error>(e),
        },
        r matches Ok(ParseResult::Matched(s, v)) ==> s.wf(),
    {
    proof {
        input.lemma_get_wf();
    }
    match input.get_token() {
        Err(e) => Err(e),
        Ok(None) => Ok(ParseResult::Mismatched),
        Ok(Some((next, token))) => match f(token) {
            Some(v) => Ok(ParseResult::Matched(next, v)),
            None => Ok(ParseResult::Mismatched),
        },
    }
}

/// Read one token and test it with `f`: when the token passes, match
/// with the unit value and the advanced input; otherwise mismatch,
/// the input unchanged.
pub fn token_matches<P, I, F>(f: &F, input: I) -> (r: ParseFnResult<P, ()>)
    where P: ParserInput<Stream = I>, I: ParserInputStream<P>, F: Fn(P::Token) -> bool,
    requires
        input.wf(),
        forall|t: P::Token| call_requires(*f, (t,)),
    ensures
        match r {
            Ok(pr) => match pr {
                ParseResult::Matched(s, v) => (match input.spec_get() {
                    Ok(step) => (step matches Some((s1, t)) && s == s1 && call_ensures(
                        *f,
                        (t,),
                        true,
                    )),
                    Err(_) => false,
                }),
                ParseResult::Mismatched => match input.spec_get() {
                    Ok(step) => match step {
                        Some(pair) => call_ensures(*f, (pair.1,), false),
                        None => true,
                    },
                    Err(_) => false,
                },
            },
            Err(e) => input.spec_get() == Err::<Option<(I, P::Token)>, P::Error>(e),
        },
        r matches Ok(ParseResult::Matched(s, v)) ==> s.wf(),
{
    proof {
        input.lemma_get_wf();
    }
    match input.get_token() {
        Err(e) => Err(e),
        Ok(None) => Ok(ParseResult::Mismatched),
        Ok(Some((next, token))) => {
            if f(token) {
                Ok(ParseResult::Matched(next, ()))
            } else {
                Ok(ParseResult::Mismatched)
            }
        },
    }
}

/// True when the first `n` tokens of `i` all pass `f`.
pub open spec fn counted<P, I, F>(f: F, i: I, n: int) -> bool
    where P: ParserInput<Stream = I>, I: ParserInputStream<P>, F: Fn(P::Token) -> bool,
{
    forall|k: int|
        0 <= k < n ==> (#[trigger] token_after::<P, I>(i, k) matches Some(t) && call_ensures(
            f,
            (t,),
            true,
        ))
}

/// True when the run of tokens passing `f` stops after `n` tokens:
/// the stream ends there, or its next token fails `f`.
pub open spec fn count_stopped<P, I, F>(f: F, i: I, n: int) -> bool
    where P: ParserInput<Stream = I>, I: ParserInputStream<P>, F: Fn(P::Token) -> bool,
{
    match stream_after::<P, I>(i, n) {
        None => false,
        Some(s) => match s.spec_get() {
            Ok(step) => match step {
                Some(pair) => call_ensures(f, (pair.1,), false),
                None => true,
            },
            Err(_) => false,
        },
    }
}

/// Repeatedly test successive tokens with `f`, stopping at the first
/// rejection, at the end of the input, or at `range.end` tokens;
/// match with the count when it reached `range.start`, else mismatch
/// with the input rewound to before any of these tokens - the caller
/// still holds it, untouched.
pub fn token_count<P, I, F>(f: &F, range: core::ops::Range<usize>, input: I) -> (r: ParseFnResult<
    P,
    usize,
>)
    where P: ParserInput<Stream = I>, I: ParserInputStream<P>, F: Fn(P::Token) -> bool,
    requires
        input.wf(),
        forall|t: P::Token| call_requires(*f, (t,)),
    ensures
        match r {
            Ok(pr) => match pr {
                ParseResult::Matched(s, n) => {
                    &&& range.start <= n <= range.end
                    &&& counted::<P, I, F>(*f, input, n as int)
                    &&& stream_after::<P, I>(input, n as int) == Some(s)
                    &&& s.wf()
                    &&& (n == range.end || count_stopped::<P, I, F>(*f, input, n as int))
                },
                ParseResult::Mismatched => exists|n: int|
                    {
                        &&& 0 <= n < range.start
                        &&& n <= range.end
                        &&& #[trigger] counted::<P, I, F>(*f, input, n)
                        &&& (n == range.end || count_stopped::<P, I, F>(*f, input, n))
                    },
            },
            Err(e) => exists|n: int|
                {
                    &&& 0 <= n < range.end
                    &&& #[trigger] counted::<P, I, F>(*f, input, n)
                    &&& (match stream_after::<P, I>(input, n) {
                        Some(s) => s.spec_get() == Err::<Option<(I, P::Token)>, P::Error>(e),
                        None => false,
                    })
                },
        },
{
    let mut inp = input;
    let mut n: usize = 0;
    while n < range.end
        invariant
            input.wf(),
            inp.wf(),
            n <= range.end,
            stream_after::<P, I>(input, n as int) == Some(inp),
            counted::<P, I, F>(*f, input, n as int),
            forall|t: P::Token| call_requires(*f, (t,)),
        decreases range.end - n,
    {
        proof {
            inp.lemma_get_wf();
        }
        match inp.get_token() {
            Err(e) => {
                return Err(e);
            },
            Ok(None) => {
                if n >= range.start {
                    return Ok(ParseResult::Matched(inp, n));
                } else {
                    return Ok(ParseResult::Mismatched);
                }
            },
            Ok(Some((next, token))) => {
                if f(token) {
                    proof {
                        assert(stream_after::<P, I>(input, n + 1) == Some(next));
                        assert(token_after::<P, I>(input, n as int) matches Some(t)
                            && call_ensures(*f, (t,), true));
                        assert forall|k: int|
                            0 <= k < n + 1 implies (#[trigger] token_after::<P, I>(input, k)
                            matches Some(t) && call_ensures(*f, (t,), true)) by {
                        }
                    }
                    inp = next;
                    n += 1;
                } else {
                    if n >= range.start {
                        return Ok(ParseResult::Matched(inp, n));
                    } else {
                        return Ok(ParseResult::Mismatched);
                    }
                }
            },
        }
    }
    if n >= range.start {
        Ok(ParseResult::Matched(inp, n))
    } else {
        Ok(ParseResult::Mismatched)
    }
}

} // verus!
