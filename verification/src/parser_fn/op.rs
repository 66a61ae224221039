//! Post-processing, folding and fallback combinators.

use vstd::prelude::*;

use super::{can_error, can_match, can_mismatch, parser_callable, parser_consuming, parser_nonexpanding, parser_wf_preserving};
use crate::{ParseFnResult, ParseResult, ParserInput, ParserInputStream};

verus! {

/// What a successful [`map`] means: the parser matched to the same
/// stream with some value that `m` maps to the final one.
pub open spec fn map_matched<P, I, T, R, F, M>(f: F, m: M, input: I, s: I, v: R) -> bool
    where
        P: ParserInput<Stream = I>,
        I: ParserInputStream<P>,
        F: Fn(I) -> ParseFnResult<P, T>,
        M: Fn(T) -> R,
{
    exists|t: T|
        {
            &&& #[trigger] can_match::<P, I, T, F>(f, input, s, t)
            &&& call_ensures(m, (t,), v)
        }
}

/// Post-process a match's result value with `m`; mismatches and
/// errors pass through unchanged.
pub fn map<P, I, T, R, F, M>(f: &F, m: &M, input: I) -> (r: ParseFnResult<P, R>)
    where
        P: ParserInput<Stream = I>,
        I: ParserInputStream<P>,
        F: Fn(I) -> ParseFnResult<P, T>,
        M: Fn(T) -> R,
    requires
        input.wf(),
        parser_callable::<P, I, T, F>(*f),
        parser_wf_preserving::<P, I, T, F>(*f),
        forall|t: T| call_requires(*m, (t,)),
    ensures
        r matches Ok(ParseResult::Matched(s, v)) ==> map_matched::<P, I, T, R, F, M>(
            *f,
            *m,
            input,
            s,
            v,
        ) && s.wf(),
        (r matches Ok(pr) && pr is Mismatched) ==> can_mismatch::<P, I, T, F>(*f, input),
        r matches Err(e) ==> can_error::<P, I, T, F>(*f, input, e),
{
    match f(input) {
        Ok(ParseResult::Matched(s, t)) => {
            proof {
                assert(can_match::<P, I, T, F>(*f, input, s, t));
            }
            let v = m(t);
            proof {
                assert(s.wf());
                assert(call_ensures(*m, (t,), v));
                assert(map_matched::<P, I, T, R, F, M>(*f, *m, input, s, v));
            }
            Ok(ParseResult::Matched(s, v))
        },
        Ok(ParseResult::Mismatched) => {
            proof {
                assert(can_mismatch::<P, I, T, F>(*f, input));
            }
            Ok(ParseResult::Mismatched)
        },
        Err(e) => {
            proof {
                assert(can_error::<P, I, T, F>(*f, input, e));
            }
            Err(e)
        },
    }
}

/// Convert a mismatch into a match of "absent": the result is `Some`
/// of the parser's value when it matched, and `None`, with the input
/// unconsumed, when it mismatched.  This combinator never itself
/// mismatches.
pub fn option<P, I, R, F>(f: &F, input: I) -> (r: ParseFnResult<P, Option<R>>)
    where P: ParserInput<Stream = I>, I: ParserInputStream<P>, F: Fn(I) -> ParseFnResult<P, R>,
    requires
        input.wf(),
        parser_callable::<P, I, R, F>(*f),
        parser_wf_preserving::<P, I, R, F>(*f),
    ensures
        r matches Ok(pr) ==> pr is Matched,
        r matches Ok(ParseResult::Matched(s, v)) ==> match v {
            Some(v0) => can_match::<P, I, R, F>(*f, input, s, v0) && s.wf(),
            None => s == input && can_mismatch::<P, I, R, F>(*f, input),
        },
        r matches Err(e) ==> can_error::<P, I, R, F>(*f, input, e),
{
    match f(input) {
        Ok(ParseResult::Matched(s, v)) => {
            proof {
                assert(can_match::<P, I, R, F>(*f, input, s, v));
            }
            Ok(ParseResult::Matched(s, Some(v)))
        },
        Ok(ParseResult::Mismatched) => {
            proof {
                assert(can_mismatch::<P, I, R, F>(*f, input));
            }
            Ok(ParseResult::Matched(input, None))
        },
        Err(e) => {
            proof {
                assert(can_error::<P, I, R, F>(*f, input, e));
            }
            Err(e)
        },
    }
}

/// Invert match and mismatch: when the parser mismatches, match with
/// the substitute `value` and the input unconsumed; when it matches,
/// mismatch, discarding whatever it consumed.
pub fn not<P, I, R, T, F>(f: &F, value: R, input: I) -> (r: ParseFnResult<P, R>)
    where P: ParserInput<Stream = I>, I: ParserInputStream<P>, F: Fn(I) -> ParseFnResult<P, T>,
    requires
        input.wf(),
        parser_callable::<P, I, T, F>(*f),
    ensures
        r matches Ok(ParseResult::Matched(s, v)) ==> s == input && v == value
            && can_mismatch::<P, I, T, F>(*f, input),
        (r matches Ok(pr) && pr is Mismatched) ==> exists|s1: I, t: T| #[trigger] can_match::<
            P,
            I,
            T,
            F,
        >(*f, input, s1, t),
        r matches Err(e) ==> can_error::<P, I, T, F>(*f, input, e),
{
    match f(input) {
        Ok(ParseResult::Matched(s1, t)) => {
            proof {
                assert(can_match::<P, I, T, F>(*f, input, s1, t));
            }
            Ok(ParseResult::Mismatched)
        },
        Ok(ParseResult::Mismatched) => {
            proof {
                assert(can_mismatch::<P, I, T, F>(*f, input));
            }
            Ok(ParseResult::Matched(input, value))
        },
        Err(e) => {
            proof {
                assert(can_error::<P, I, T, F>(*f, input, e));
            }
            Err(e)
        },
    }
}

/// Fall back to an alternative parser on mismatch: the first parser's
/// match or error wins; only its mismatch lets the alternative run,
/// against the same original input.
pub fn or_else<P, I, R, F, G>(f: &F, g: &G, input: I) -> (r: ParseFnResult<P, R>)
    where
        P: ParserInput<Stream = I>,
        I: ParserInputStream<P>,
        F: Fn(I) -> ParseFnResult<P, R>,
        G: Fn(I) -> ParseFnResult<P, R>,
    requires
        input.wf(),
        parser_callable::<P, I, R, F>(*f),
        parser_callable::<P, I, R, G>(*g),
        parser_wf_preserving::<P, I, R, F>(*f),
        parser_wf_preserving::<P, I, R, G>(*g),
    ensures
        r matches Ok(ParseResult::Matched(s, v)) ==> (can_match::<P, I, R, F>(*f, input, s, v) || (
        can_mismatch::<P, I, R, F>(*f, input) && can_match::<P, I, R, G>(*g, input, s, v)))
            && s.wf(),
        (r matches Ok(pr) && pr is Mismatched) ==> can_mismatch::<P, I, R, F>(*f, input)
            && can_mismatch::<P, I, R, G>(*g, input),
        r matches Err(e) ==> (can_error::<P, I, R, F>(*f, input, e) || (can_mismatch::<P, I, R, F>(
            *f,
            input,
        ) && can_error::<P, I, R, G>(*g, input, e))),
{
    match f(input) {
        Ok(ParseResult::Matched(s, v)) => {
            proof {
                assert(can_match::<P, I, R, F>(*f, input, s, v));
            }
            Ok(ParseResult::Matched(s, v))
        },
        Ok(ParseResult::Mismatched) => {
            proof {
                assert(can_mismatch::<P, I, R, F>(*f, input));
            }
            match g(input) {
                Ok(ParseResult::Matched(s, v)) => {
                    proof {
                        assert(can_match::<P, I, R, G>(*g, input, s, v));
                    }
                    Ok(ParseResult::Matched(s, v))
                },
                Ok(ParseResult::Mismatched) => {
                    proof {
                        assert(can_mismatch::<P, I, R, G>(*g, input));
                    }
                    Ok(ParseResult::Mismatched)
                },
                Err(e) => {
                    proof {
                        assert(can_error::<P, I, R, G>(*g, input, e));
                    }
                    Err(e)
                },
            }
        },
        Err(e) => {
            proof {
                assert(can_error::<P, I, R, F>(*f, input, e));
            }
            Err(e)
        },
    }
}

/// Convert the three-way parser outcome into a plain result, for the
/// top level of a grammar entry point: a match yields its value, a
/// mismatch yields the error built by `e_fn`, and a fatal error passes
/// What a successful [`unwrap_or_else`] means: the parser matched to
/// some stream with the final value.
pub open spec fn some_stream_matched<P, I, R, F>(f: F, input: I, v: R) -> bool
    where P: ParserInput<Stream = I>, I: ParserInputStream<P>, F: Fn(I) -> ParseFnResult<P, R>,
{
    exists|s: I| #[trigger] can_match::<P, I, R, F>(f, input, s, v)
}

/// Convert the three-way parser outcome into a plain result, for the
/// top level of a grammar entry point: a match yields its value, a
/// mismatch yields the error built by `e_fn`, and a fatal error passes
/// through.
pub fn unwrap_or_else<P, I, R, F, G>(f: &F, e_fn: &G, input: I) -> (r: Result<
    R,
    <P as ParserInput>::Error,
>)
    where
        P: ParserInput<Stream = I>,
        I: ParserInputStream<P>,
        F: Fn(I) -> ParseFnResult<P, R>,
        G: Fn() -> <P as ParserInput>::Error,
    requires
        input.wf(),
        parser_callable::<P, I, R, F>(*f),
        call_requires(*e_fn, ()),
    ensures
        r matches Ok(v) ==> some_stream_matched::<P, I, R, F>(*f, input, v),
        r matches Err(e) ==> (can_error::<P, I, R, F>(*f, input, e) || (can_mismatch::<P, I, R, F>(
            *f,
            input,
        ) && call_ensures(*e_fn, (), e))),
{
    match f(input) {
        Ok(ParseResult::Matched(s, v)) => {
            proof {
                assert(can_match::<P, I, R, F>(*f, input, s, v));
                assert(some_stream_matched::<P, I, R, F>(*f, input, v));
            }
            Ok(v)
        },
        Ok(ParseResult::Mismatched) => {
            proof {
                assert(can_mismatch::<P, I, R, F>(*f, input));
            }
            Err(e_fn())
        },
        Err(e) => {
            proof {
                assert(can_error::<P, I, R, F>(*f, input, e));
            }
            Err(e)
        },
    }
}

/// One matched first parse followed by a run of loop steps: the
/// streams, the accumulators and the loop results that join them.
/// The accumulator after step `k` is what the combining function
/// allows for the accumulator before it and the step's result.
pub open spec fn fold_chain<P, I, R, T, F, G, H>(
    f: F,
    g: G,
    h: H,
    input: I,
    ss: Seq<I>,
    accs: Seq<R>,
    ts: Seq<T>,
) -> bool
    where
        P: ParserInput<Stream = I>,
        I: ParserInputStream<P>,
        F: Fn(I) -> ParseFnResult<P, R>,
        G: Fn(I) -> ParseFnResult<P, T>,
        H: Fn(usize, R, T) -> R,
{
    &&& ss.len() == ts.len() + 1
    &&& accs.len() == ts.len() + 1
    &&& can_match::<P, I, R, F>(f, input, ss[0], accs[0])
    &&& forall|k: int|
        0 <= k < ts.len() ==> #[trigger] can_match::<P, I, T, G>(g, ss[k], ss[k + 1], ts[k])
    &&& forall|k: int|
        0 <= k < ts.len() ==> #[trigger] call_ensures(h, ((k as usize), accs[k], ts[k]), accs[k
            + 1])
}

/// Parse one `first` result, then repeatedly parse with the loop
/// parser, folding each loop result into the accumulator with
/// `h(iteration, accumulator, loop_result)`, until the loop parser
/// mismatches or `max` iterations are reached; 0 means no bound.  The
/// final accumulator is the match result.  This is the mechanism for
/// building left-associative binary-operator expressions.
pub fn fold<P, I, R, T, F, G, H>(max: usize, h: &H, f: &F, g: &G, input: I) -> (r: ParseFnResult<
    P,
    R,
>)
    where
        P: ParserInput<Stream = I>,
        I: ParserInputStream<P>,
        F: Fn(I) -> ParseFnResult<P, R>,
        G: Fn(I) -> ParseFnResult<P, T>,
        H: Fn(usize, R, T) -> R,
    requires
        input.wf(),
        parser_callable::<P, I, R, F>(*f),
        parser_callable::<P, I, T, G>(*g),
        parser_wf_preserving::<P, I, R, F>(*f),
        parser_wf_preserving::<P, I, T, G>(*g),
        parser_nonexpanding::<P, I, R, F>(*f),
        parser_consuming::<P, I, T, G>(*g),
        input.remaining() <= usize::MAX,
        forall|n: usize, a: R, t: T| call_requires(*h, (n, a, t)),
    ensures
        (r matches Ok(pr) && pr is Mismatched) ==> can_mismatch::<P, I, R, F>(*f, input),
        r matches Ok(ParseResult::Matched(s, acc)) ==> exists|ss: Seq<I>, accs: Seq<R>, ts: Seq<T>|
            {
                &&& #[trigger] fold_chain::<P, I, R, T, F, G, H>(*f, *g, *h, input, ss, accs, ts)
                &&& ss.last() == s
                &&& accs.last() == acc
                &&& s.wf()
                &&& ((max != 0 && (ts.len() as usize) >= max) || can_mismatch::<P, I, T, G>(*g, s))
            },
        r matches Err(e) ==> (can_error::<P, I, R, F>(*f, input, e) || exists|
            ss: Seq<I>,
            accs: Seq<R>,
            ts: Seq<T>,
        |
            {
                &&& #[trigger] fold_chain::<P, I, R, T, F, G, H>(*f, *g, *h, input, ss, accs, ts)
                &&& can_error::<P, I, T, G>(*g, ss.last(), e)
            }),
{
    let (first_s, first_acc) = match f(input) {
        Ok(ParseResult::Matched(a, b)) => (a, b),
        Ok(ParseResult::Mismatched) => {
            proof {
                assert(can_mismatch::<P, I, R, F>(*f, input));
            }
            return Ok(ParseResult::Mismatched);
        },
        Err(e) => {
            proof {
                assert(can_error::<P, I, R, F>(*f, input, e));
            }
            return Err(e);
        },
    };
    proof {
        assert(can_match::<P, I, R, F>(*f, input, first_s, first_acc));
    }
    let mut cur = first_s;
    let mut acc = first_acc;
    let mut n: usize = 0;
    let ghost mut ss: Seq<I> = seq![first_s];
    let ghost mut accs: Seq<R> = seq![first_acc];
    let ghost mut ts: Seq<T> = Seq::<T>::empty();
    loop
        invariant
            input.wf(),
            cur.wf(),
            fold_chain::<P, I, R, T, F, G, H>(*f, *g, *h, input, ss, accs, ts),
            ss.last() == cur,
            accs.last() == acc,
            n == ts.len(),
            ts.len() + cur.remaining() <= input.remaining(),
            input.remaining() <= usize::MAX,
            parser_callable::<P, I, T, G>(*g),
            parser_wf_preserving::<P, I, T, G>(*g),
            parser_consuming::<P, I, T, G>(*g),
            forall|n0: usize, a: R, t: T| call_requires(*h, (n0, a, t)),
        decreases cur.remaining(),
    {
        if max != 0 && n >= max {
            proof {
                assert(fold_chain::<P, I, R, T, F, G, H>(*f, *g, *h, input, ss, accs, ts));
            }
            return Ok(ParseResult::Matched(cur, acc));
        }
        match g(cur) {
            Ok(ParseResult::Mismatched) => {
                proof {
                    assert(can_mismatch::<P, I, T, G>(*g, cur));
                    assert(fold_chain::<P, I, R, T, F, G, H>(*f, *g, *h, input, ss, accs, ts));
                }
                return Ok(ParseResult::Matched(cur, acc));
            },
            Err(e) => {
                proof {
                    assert(can_error::<P, I, T, G>(*g, cur, e));
                    assert(fold_chain::<P, I, R, T, F, G, H>(*f, *g, *h, input, ss, accs, ts));
                }
                return Err(e);
            },
            Ok(ParseResult::Matched(next, t2)) => {
                proof {
                    assert(can_match::<P, I, T, G>(*g, cur, next, t2));
                }
                let acc2 = h(n, acc, t2);
                proof {
                    ss = ss.push(next);
                    accs = accs.push(acc2);
                    ts = ts.push(t2);
                    assert(ss.last() == next);
                    assert(accs.last() == acc2);
                    assert(fold_chain::<P, I, R, T, F, G, H>(*f, *g, *h, input, ss, accs, ts));
                }
                acc = acc2;
                cur = next;
                n = n + 1;
            },
        }
    }
}

/// The left fold of `combine` over `ts` from index `k`, starting from
/// the accumulator `acc`.
pub open spec fn spec_fold_left<R, T>(
    combine: spec_fn(int, R, T) -> R,
    acc: R,
    ts: Seq<T>,
    k: int,
) -> R
    decreases ts.len() - k,
{
    if k < 0 || k >= ts.len() {
        acc
    } else {
        spec_fold_left(combine, combine(k, acc, ts[k]), ts, k + 1)
    }
}

proof fn lemma_fold_left_from<R, T>(combine: spec_fn(int, R, T) -> R, accs: Seq<R>, ts: Seq<T>, j: int)
    requires
        accs.len() == ts.len() + 1,
        ts.len() <= usize::MAX,
        forall|k: int| 0 <= k < ts.len() ==> accs[k + 1] == #[trigger] combine(k, accs[k], ts[k]),
        0 <= j <= ts.len(),
    ensures
        accs.last() == spec_fold_left(combine, accs[j], ts, j),
    decreases ts.len() - j,
{
    if j < ts.len() {
        lemma_fold_left_from(combine, accs, ts, j + 1);
    }
}

/// Left-fold construction: when the combining function is exactly the
/// function `combine` - it allows no result other than
/// `combine(iteration, accumulator, loop_result)` - any accumulator a
/// fold chain can end with is the left fold of `combine` over the
/// chain's loop results.  Folding `a`, then `b`, then `c` therefore
/// builds `combine(1, combine(0, a, b), c)`: the left-nested
/// combination, never a right-nested one.
pub proof fn lemma_fold_left<P, I, R, T, F, G, H>(
    f: F,
    g: G,
    h: H,
    input: I,
    ss: Seq<I>,
    accs: Seq<R>,
    ts: Seq<T>,
    combine: spec_fn(int, R, T) -> R,
)
    where
        P: ParserInput<Stream = I>,
        I: ParserInputStream<P>,
        F: Fn(I) -> ParseFnResult<P, R>,
        G: Fn(I) -> ParseFnResult<P, T>,
        H: Fn(usize, R, T) -> R,
    requires
        fold_chain::<P, I, R, T, F, G, H>(f, g, h, input, ss, accs, ts),
        ts.len() <= usize::MAX,
        forall|n: usize, a: R, t: T, out: R|
            #[trigger] call_ensures(h, (n, a, t), out) ==> out == combine(n as int, a, t),
    ensures
        accs.last() == spec_fold_left(combine, accs[0], ts, 0),
{
    assert forall|k: int| 0 <= k < ts.len() implies accs[k + 1] == #[trigger] combine(
        k,
        accs[k],
        ts[k],
    ) by {
        assert(call_ensures(h, ((k as usize), accs[k], ts[k]), accs[k + 1]));
        assert((k as usize) as int == k);
    }
    lemma_fold_left_from(combine, accs, ts, 0);
}

} // verus!
