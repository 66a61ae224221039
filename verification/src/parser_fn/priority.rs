//! Priority alternation: try alternatives in order against the same
//! original input and take the first match.

use vstd::prelude::*;

use super::{can_error, can_match, can_mismatch, parser_callable, parser_wf_preserving};
use crate::{ParseFnResult, ParseResult, ParserInput, ParserInputStream};

verus! {

/// Try two parsers against the same original input, in order; the
/// first match wins; when both mismatch, mismatch.  A fatal error of
/// either aborts at once - alternation only catches mismatches.
pub fn first_of_2<P, I, R, F1, F2>(f1: &F1, f2: &F2, input: I) -> (r: ParseFnResult<P, R>)
    where
        P: ParserInput<Stream = I>,
        I: ParserInputStream<P>,
        F1: Fn(I) -> ParseFnResult<P, R>,
        F2: Fn(I) -> ParseFnResult<P, R>,
    requires
        input.wf(),
        parser_callable::<P, I, R, F1>(*f1),
        parser_callable::<P, I, R, F2>(*f2),
        parser_wf_preserving::<P, I, R, F1>(*f1),
        parser_wf_preserving::<P, I, R, F2>(*f2),
    ensures
        r matches Ok(ParseResult::Matched(s, v)) ==> (can_match::<P, I, R, F1>(*f1, input, s, v)
            || (can_mismatch::<P, I, R, F1>(*f1, input) && can_match::<P, I, R, F2>(
            *f2,
            input,
            s,
            v,
        ))) && s.wf(),
        (r matches Ok(pr) && pr is Mismatched) ==> can_mismatch::<P, I, R, F1>(*f1, input)
            && can_mismatch::<P, I, R, F2>(*f2, input),
        r matches Err(e) ==> (can_error::<P, I, R, F1>(*f1, input, e) || (can_mismatch::<
            P,
            I,
            R,
            F1,
        >(*f1, input) && can_error::<P, I, R, F2>(*f2, input, e))),
{
    match f1(input) {
        Ok(ParseResult::Matched(s, v)) => {
            proof {
                assert(can_match::<P, I, R, F1>(*f1, input, s, v));
            }
            Ok(ParseResult::Matched(s, v))
        },
        Ok(ParseResult::Mismatched) => {
            proof {
                assert(can_mismatch::<P, I, R, F1>(*f1, input));
            }
            match f2(input) {
                Ok(ParseResult::Matched(s, v)) => {
                    proof {
                        assert(can_match::<P, I, R, F2>(*f2, input, s, v));
                    }
                    Ok(ParseResult::Matched(s, v))
                },
                Ok(ParseResult::Mismatched) => {
                    proof {
                        assert(can_mismatch::<P, I, R, F2>(*f2, input));
                    }
                    Ok(ParseResult::Mismatched)
                },
                Err(e) => {
                    proof {
                        assert(can_error::<P, I, R, F2>(*f2, input, e));
                    }
                    Err(e)
                },
            }
        },
        Err(e) => {
            proof {
                assert(can_error::<P, I, R, F1>(*f1, input, e));
            }
            Err(e)
        },
    }
}

/// Try three parsers against the same original input, in order; the
/// first match wins; when all three mismatch, mismatch.
pub fn first_of_3<P, I, R, F1, F2, F3>(f1: &F1, f2: &F2, f3: &F3, input: I) -> (r: ParseFnResult<
    P,
    R,
>)
    where
        P: ParserInput<Stream = I>,
        I: ParserInputStream<P>,
        F1: Fn(I) -> ParseFnResult<P, R>,
        F2: Fn(I) -> ParseFnResult<P, R>,
        F3: Fn(I) -> ParseFnResult<P, R>,
    requires
        input.wf(),
        parser_callable::<P, I, R, F1>(*f1),
        parser_callable::<P, I, R, F2>(*f2),
        parser_callable::<P, I, R, F3>(*f3),
        parser_wf_preserving::<P, I, R, F1>(*f1),
        parser_wf_preserving::<P, I, R, F2>(*f2),
        parser_wf_preserving::<P, I, R, F3>(*f3),
    ensures
        r matches Ok(ParseResult::Matched(s, v)) ==> (can_match::<P, I, R, F1>(*f1, input, s, v)
            || (can_mismatch::<P, I, R, F1>(*f1, input) && can_match::<P, I, R, F2>(
            *f2,
            input,
            s,
            v,
        )) || (can_mismatch::<P, I, R, F1>(*f1, input) && can_mismatch::<P, I, R, F2>(*f2, input)
            && can_match::<P, I, R, F3>(*f3, input, s, v))) && s.wf(),
        (r matches Ok(pr) && pr is Mismatched) ==> can_mismatch::<P, I, R, F1>(*f1, input)
            && can_mismatch::<P, I, R, F2>(*f2, input) && can_mismatch::<P, I, R, F3>(*f3, input),
        r matches Err(e) ==> (can_error::<P, I, R, F1>(*f1, input, e) || (can_mismatch::<
            P,
            I,
            R,
            F1,
        >(*f1, input) && can_error::<P, I, R, F2>(*f2, input, e)) || (can_mismatch::<P, I, R, F1>(
            *f1,
            input,
        ) && can_mismatch::<P, I, R, F2>(*f2, input) && can_error::<P, I, R, F3>(*f3, input, e))),
{
    match first_of_2(f1, f2, input) {
        Ok(ParseResult::Matched(s, v)) => Ok(ParseResult::Matched(s, v)),
        Ok(ParseResult::Mismatched) => {
            match f3(input) {
                Ok(ParseResult::Matched(s, v)) => {
                    proof {
                        assert(can_match::<P, I, R, F3>(*f3, input, s, v));
                    }
                    Ok(ParseResult::Matched(s, v))
                },
                Ok(ParseResult::Mismatched) => {
                    proof {
                        assert(can_mismatch::<P, I, R, F3>(*f3, input));
                    }
                    Ok(ParseResult::Mismatched)
                },
                Err(e) => {
                    proof {
                        assert(can_error::<P, I, R, F3>(*f3, input, e));
                    }
                    Err(e)
                },
            }
        },
        Err(e) => Err(e),
    }
}

/// Try four parsers against the same original input, in order; the
/// first match wins; when all four mismatch, mismatch.
pub fn first_of_4<P, I, R, F1, F2, F3, F4>(f1: &F1, f2: &F2, f3: &F3, f4: &F4, input: I) -> (r:
    ParseFnResult<P, R>)
    where
        P: ParserInput<Stream = I>,
        I: ParserInputStream<P>,
        F1: Fn(I) -> ParseFnResult<P, R>,
        F2: Fn(I) -> ParseFnResult<P, R>,
        F3: Fn(I) -> ParseFnResult<P, R>,
        F4: Fn(I) -> ParseFnResult<P, R>,
    requires
        input.wf(),
        parser_callable::<P, I, R, F1>(*f1),
        parser_callable::<P, I, R, F2>(*f2),
        parser_callable::<P, I, R, F3>(*f3),
        parser_callable::<P, I, R, F4>(*f4),
        parser_wf_preserving::<P, I, R, F1>(*f1),
        parser_wf_preserving::<P, I, R, F2>(*f2),
        parser_wf_preserving::<P, I, R, F3>(*f3),
        parser_wf_preserving::<P, I, R, F4>(*f4),
    ensures
        r matches Ok(ParseResult::Matched(s, v)) ==> (can_match::<P, I, R, F1>(*f1, input, s, v)
            || (can_mismatch::<P, I, R, F1>(*f1, input) && can_match::<P, I, R, F2>(
            *f2,
            input,
            s,
            v,
        )) || (can_mismatch::<P, I, R, F1>(*f1, input) && can_mismatch::<P, I, R, F2>(*f2, input)
            && can_match::<P, I, R, F3>(*f3, input, s, v)) || (can_mismatch::<P, I, R, F1>(
            *f1,
            input,
        ) && can_mismatch::<P, I, R, F2>(*f2, input) && can_mismatch::<P, I, R, F3>(*f3, input)
            && can_match::<P, I, R, F4>(*f4, input, s, v))) && s.wf(),
        (r matches Ok(pr) && pr is Mismatched) ==> can_mismatch::<P, I, R, F1>(*f1, input)
            && can_mismatch::<P, I, R, F2>(*f2, input) && can_mismatch::<P, I, R, F3>(*f3, input)
            && can_mismatch::<P, I, R, F4>(*f4, input),
        r matches Err(e) ==> (can_error::<P, I, R, F1>(*f1, input, e) || (can_mismatch::<
            P,
            I,
            R,
            F1,
        >(*f1, input) && can_error::<P, I, R, F2>(*f2, input, e)) || (can_mismatch::<P, I, R, F1>(
            *f1,
            input,
        ) && can_mismatch::<P, I, R, F2>(*f2, input) && can_error::<P, I, R, F3>(*f3, input, e))
            || (can_mismatch::<P, I, R, F1>(*f1, input) && can_mismatch::<P, I, R, F2>(*f2, input)
            && can_mismatch::<P, I, R, F3>(*f3, input) && can_error::<P, I, R, F4>(
            *f4,
            input,
            e,
        ))),
{
    match first_of_3(f1, f2, f3, input) {
        Ok(ParseResult::Matched(s, v)) => Ok(ParseResult::Matched(s, v)),
        Ok(ParseResult::Mismatched) => {
            match f4(input) {
                Ok(ParseResult::Matched(s, v)) => {
                    proof {
                        assert(can_match::<P, I, R, F4>(*f4, input, s, v));
                    }
                    Ok(ParseResult::Matched(s, v))
                },
                Ok(ParseResult::Mismatched) => {
                    proof {
                        assert(can_mismatch::<P, I, R, F4>(*f4, input));
                    }
                    Ok(ParseResult::Mismatched)
                },
                Err(e) => {
                    proof {
                        assert(can_error::<P, I, R, F4>(*f4, input, e));
                    }
                    Err(e)
                },
            }
        },
        Err(e) => Err(e),
    }
}

/// Try two parsers in order; when both mismatch, raise the fatal
/// error built by `e_fn` instead of mismatching.  This is how "the
/// grammar must produce something" boundaries are enforced.
pub fn first_of_2_else<P, I, R, F1, F2, FE>(f1: &F1, f2: &F2, e_fn: &FE, input: I) -> (r:
    ParseFnResult<P, R>)
    where
        P: ParserInput<Stream = I>,
        I: ParserInputStream<P>,
        F1: Fn(I) -> ParseFnResult<P, R>,
        F2: Fn(I) -> ParseFnResult<P, R>,
        FE: Fn() -> <P as ParserInput>::Error,
    requires
        input.wf(),
        parser_callable::<P, I, R, F1>(*f1),
        parser_callable::<P, I, R, F2>(*f2),
        parser_wf_preserving::<P, I, R, F1>(*f1),
        parser_wf_preserving::<P, I, R, F2>(*f2),
        call_requires(*e_fn, ()),
    ensures
        r matches Ok(pr) ==> pr is Matched,
        r matches Ok(ParseResult::Matched(s, v)) ==> (can_match::<P, I, R, F1>(*f1, input, s, v)
            || (can_mismatch::<P, I, R, F1>(*f1, input) && can_match::<P, I, R, F2>(
            *f2,
            input,
            s,
            v,
        ))) && s.wf(),
        r matches Err(e) ==> (can_error::<P, I, R, F1>(*f1, input, e) || (can_mismatch::<
            P,
            I,
            R,
            F1,
        >(*f1, input) && can_error::<P, I, R, F2>(*f2, input, e)) || (can_mismatch::<P, I, R, F1>(
            *f1,
            input,
        ) && can_mismatch::<P, I, R, F2>(*f2, input) && call_ensures(*e_fn, (), e))),
{
    match first_of_2(f1, f2, input) {
        Ok(ParseResult::Matched(s, v)) => Ok(ParseResult::Matched(s, v)),
        Ok(ParseResult::Mismatched) => Err(e_fn()),
        Err(e) => Err(e),
    }
}

/// Try three parsers in order; when all three mismatch, raise the
/// fatal error built by `e_fn` instead of mismatching.
pub fn first_of_3_else<P, I, R, F1, F2, F3, FE>(
    f1: &F1,
    f2: &F2,
    f3: &F3,
    e_fn: &FE,
    input: I,
) -> (r: ParseFnResult<P, R>)
    where
        P: ParserInput<Stream = I>,
        I: ParserInputStream<P>,
        F1: Fn(I) -> ParseFnResult<P, R>,
        F2: Fn(I) -> ParseFnResult<P, R>,
        F3: Fn(I) -> ParseFnResult<P, R>,
        FE: Fn() -> <P as ParserInput>::Error,
    requires
        input.wf(),
        parser_callable::<P, I, R, F1>(*f1),
        parser_callable::<P, I, R, F2>(*f2),
        parser_callable::<P, I, R, F3>(*f3),
        parser_wf_preserving::<P, I, R, F1>(*f1),
        parser_wf_preserving::<P, I, R, F2>(*f2),
        parser_wf_preserving::<P, I, R, F3>(*f3),
        call_requires(*e_fn, ()),
    ensures
        r matches Ok(pr) ==> pr is Matched,
        r matches Ok(ParseResult::Matched(s, v)) ==> (can_match::<P, I, R, F1>(*f1, input, s, v)
            || (can_mismatch::<P, I, R, F1>(*f1, input) && can_match::<P, I, R, F2>(
            *f2,
            input,
            s,
            v,
        )) || (can_mismatch::<P, I, R, F1>(*f1, input) && can_mismatch::<P, I, R, F2>(*f2, input)
            && can_match::<P, I, R, F3>(*f3, input, s, v))) && s.wf(),
        r matches Err(e) ==> (can_error::<P, I, R, F1>(*f1, input, e) || (can_mismatch::<
            P,
            I,
            R,
            F1,
        >(*f1, input) && can_error::<P, I, R, F2>(*f2, input, e)) || (can_mismatch::<P, I, R, F1>(
            *f1,
            input,
        ) && can_mismatch::<P, I, R, F2>(*f2, input) && can_error::<P, I, R, F3>(*f3, input, e))
            || (can_mismatch::<P, I, R, F1>(*f1, input) && can_mismatch::<P, I, R, F2>(*f2, input)
            && can_mismatch::<P, I, R, F3>(*f3, input) && call_ensures(*e_fn, (), e))),
{
    match first_of_3(f1, f2, f3, input) {
        Ok(ParseResult::Matched(s, v)) => Ok(ParseResult::Matched(s, v)),
        Ok(ParseResult::Mismatched) => Err(e_fn()),
        Err(e) => Err(e),
    }
}

/// Try four parsers in order; when all four mismatch, raise the fatal
/// error built by `e_fn` instead of mismatching.
pub fn first_of_4_else<P, I, R, F1, F2, F3, F4, FE>(
    f1: &F1,
    f2: &F2,
    f3: &F3,
    f4: &F4,
    e_fn: &FE,
    input: I,
) -> (r: ParseFnResult<P, R>)
    where
        P: ParserInput<Stream = I>,
        I: ParserInputStream<P>,
        F1: Fn(I) -> ParseFnResult<P, R>,
        F2: Fn(I) -> ParseFnResult<P, R>,
        F3: Fn(I) -> ParseFnResult<P, R>,
        F4: Fn(I) -> ParseFnResult<P, R>,
        FE: Fn() -> <P as ParserInput>::Error,
    requires
        input.wf(),
        parser_callable::<P, I, R, F1>(*f1),
        parser_callable::<P, I, R, F2>(*f2),
        parser_callable::<P, I, R, F3>(*f3),
        parser_callable::<P, I, R, F4>(*f4),
        parser_wf_preserving::<P, I, R, F1>(*f1),
        parser_wf_preserving::<P, I, R, F2>(*f2),
        parser_wf_preserving::<P, I, R, F3>(*f3),
        parser_wf_preserving::<P, I, R, F4>(*f4),
        call_requires(*e_fn, ()),
    ensures
        r matches Ok(pr) ==> pr is Matched,
        r matches Ok(ParseResult::Matched(s, v)) ==> (can_match::<P, I, R, F1>(*f1, input, s, v)
            || (can_mismatch::<P, I, R, F1>(*f1, input) && can_match::<P, I, R, F2>(
            *f2,
            input,
            s,
            v,
        )) || (can_mismatch::<P, I, R, F1>(*f1, input) && can_mismatch::<P, I, R, F2>(*f2, input)
            && can_match::<P, I, R, F3>(*f3, input, s, v)) || (can_mismatch::<P, I, R, F1>(
            *f1,
            input,
        ) && can_mismatch::<P, I, R, F2>(*f2, input) && can_mismatch::<P, I, R, F3>(*f3, input)
            && can_match::<P, I, R, F4>(*f4, input, s, v))) && s.wf(),
        r matches Err(e) ==> (can_error::<P, I, R, F1>(*f1, input, e) || (can_mismatch::<
            P,
            I,
            R,
            F1,
        >(*f1, input) && can_error::<P, I, R, F2>(*f2, input, e)) || (can_mismatch::<P, I, R, F1>(
            *f1,
            input,
        ) && can_mismatch::<P, I, R, F2>(*f2, input) && can_error::<P, I, R, F3>(*f3, input, e))
            || (can_mismatch::<P, I, R, F1>(*f1, input) && can_mismatch::<P, I, R, F2>(*f2, input)
            && can_mismatch::<P, I, R, F3>(*f3, input) && can_error::<P, I, R, F4>(*f4, input, e))
            || (can_mismatch::<P, I, R, F1>(*f1, input) && can_mismatch::<P, I, R, F2>(*f2, input)
            && can_mismatch::<P, I, R, F3>(*f3, input) && can_mismatch::<P, I, R, F4>(*f4, input)
            && call_ensures(*e_fn, (), e))),
{
    match first_of_4(f1, f2, f3, f4, input) {
        Ok(ParseResult::Matched(s, v)) => Ok(ParseResult::Matched(s, v)),
        Ok(ParseResult::Mismatched) => Err(e_fn()),
        Err(e) => Err(e),
    }
}

/// True when every parser before index `k` in the list allows a
/// mismatch on `input`.
pub open spec fn all_mismatch_before<P, I, R, F>(fs: Seq<F>, input: I, k: int) -> bool
    where P: ParserInput<Stream = I>, I: ParserInputStream<P>, F: Fn(I) -> ParseFnResult<P, R>,
{
    forall|j: int| 0 <= j < k ==> #[trigger] can_mismatch::<P, I, R, F>(fs[j], input)
}

/// Try each parser in the slice against the same original input, in
/// the given order, and return the first match; when every parser
/// mismatches, mismatch.
pub fn first_of_n<P, I, R, F>(fs: &[F], input: I) -> (r: ParseFnResult<P, R>)
    where P: ParserInput<Stream = I>, I: ParserInputStream<P>, F: Fn(I) -> ParseFnResult<P, R>,
    requires
        input.wf(),
        forall|j: int|
            0 <= j < fs@.len() ==> parser_callable::<P, I, R, F>(#[trigger] fs@[j]),
        forall|j: int|
            0 <= j < fs@.len() ==> parser_wf_preserving::<P, I, R, F>(#[trigger] fs@[j]),
    ensures
        r matches Ok(ParseResult::Matched(s, v)) ==> exists|k: int|
            {
                &&& 0 <= k < fs@.len()
                &&& #[trigger] can_match::<P, I, R, F>(fs@[k], input, s, v)
                &&& all_mismatch_before::<P, I, R, F>(fs@, input, k)
                &&& s.wf()
            },
        (r matches Ok(pr) && pr is Mismatched) ==> all_mismatch_before::<P, I, R, F>(
            fs@,
            input,
            fs@.len() as int,
        ),
        r matches Err(e) ==> exists|k: int|
            {
                &&& 0 <= k < fs@.len()
                &&& #[trigger] can_error::<P, I, R, F>(fs@[k], input, e)
                &&& all_mismatch_before::<P, I, R, F>(fs@, input, k)
            },
{
    let mut k: usize = 0;
    while k < fs.len()
        invariant
            input.wf(),
            k <= fs@.len(),
            all_mismatch_before::<P, I, R, F>(fs@, input, k as int),
            forall|j: int|
                0 <= j < fs@.len() ==> parser_callable::<P, I, R, F>(#[trigger] fs@[j]),
            forall|j: int|
                0 <= j < fs@.len() ==> parser_wf_preserving::<P, I, R, F>(#[trigger] fs@[j]),
        decreases fs@.len() - k,
    {
        let p = &fs[k];
        match p(input) {
            Ok(ParseResult::Matched(s, v)) => {
                proof {
                    assert(can_match::<P, I, R, F>(fs@[k as int], input, s, v));
                }
                return Ok(ParseResult::Matched(s, v));
            },
            Ok(ParseResult::Mismatched) => {
                proof {
                    assert(can_mismatch::<P, I, R, F>(fs@[k as int], input));
                }
            },
            Err(e) => {
                proof {
                    assert(can_error::<P, I, R, F>(fs@[k as int], input, e));
                }
                return Err(e);
            },
        }
        k += 1;
    }
    Ok(ParseResult::Mismatched)
}

/// Try each parser in the slice in order and return the first match;
/// when every parser mismatches, raise the fatal error built by
/// `e_fn` instead of mismatching.
pub fn first_of_n_else<P, I, R, F, FE>(fs: &[F], e_fn: &FE, input: I) -> (r: ParseFnResult<P, R>)
    where
        P: ParserInput<Stream = I>,
        I: ParserInputStream<P>,
        F: Fn(I) -> ParseFnResult<P, R>,
        FE: Fn() -> <P as ParserInput>::Error,
    requires
        input.wf(),
        forall|j: int|
            0 <= j < fs@.len() ==> parser_callable::<P, I, R, F>(#[trigger] fs@[j]),
        forall|j: int|
            0 <= j < fs@.len() ==> parser_wf_preserving::<P, I, R, F>(#[trigger] fs@[j]),
        call_requires(*e_fn, ()),
    ensures
        r matches Ok(pr) ==> pr is Matched,
        r matches Ok(ParseResult::Matched(s, v)) ==> exists|k: int|
            {
                &&& 0 <= k < fs@.len()
                &&& #[trigger] can_match::<P, I, R, F>(fs@[k], input, s, v)
                &&& all_mismatch_before::<P, I, R, F>(fs@, input, k)
                &&& s.wf()
            },
        r matches Err(e) ==> ((exists|k: int|
            {
                &&& 0 <= k < fs@.len()
                &&& #[trigger] can_error::<P, I, R, F>(fs@[k], input, e)
                &&& all_mismatch_before::<P, I, R, F>(fs@, input, k)
            }) || (all_mismatch_before::<P, I, R, F>(fs@, input, fs@.len() as int) && call_ensures(
            *e_fn,
            (),
            e,
        ))),
{
    match first_of_n(fs, input) {
        Ok(ParseResult::Matched(s, v)) => Ok(ParseResult::Matched(s, v)),
        Ok(ParseResult::Mismatched) => Err(e_fn()),
        Err(e) => Err(e),
    }
}

} // verus!
