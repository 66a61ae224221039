//! Sequencing combinators: pairs, tuples and delimiters.

use vstd::prelude::*;

use super::{can_error, can_match, can_mismatch, parser_callable, parser_wf_preserving};
use crate::{ParseFnResult, ParseResult, ParserInput, ParserInputStream};

verus! {

/// What a successful [`pair`] means: some middle stream joins the two
/// sub-parses, in order.
pub open spec fn pair_matched<P, I, R1, R2, F1, F2>(f1: F1, f2: F2, input: I, s: I, v: (
    R1,
    R2,
)) -> bool
    where
        P: ParserInput<Stream = I>,
        I: ParserInputStream<P>,
        F1: Fn(I) -> ParseFnResult<P, R1>,
        F2: Fn(I) -> ParseFnResult<P, R2>,
{
    exists|s1: I|
        {
            &&& #[trigger] can_match::<P, I, R1, F1>(f1, input, s1, v.0)
            &&& can_match::<P, I, R2, F2>(f2, s1, s, v.1)
        }
}

/// Apply two parsers strictly in order, threading the advancing
/// input; when both match, match with the pair of their results; when
/// either mismatches, mismatch - the caller only ever observes the
/// original input value it still holds, so nothing is consumed.
pub fn pair<P, I, R1, R2, F1, F2>(f1: &F1, f2: &F2, input: I) -> (r: ParseFnResult<P, (R1, R2)>)
    where
        P: ParserInput<Stream = I>,
        I: ParserInputStream<P>,
        F1: Fn(I) -> ParseFnResult<P, R1>,
        F2: Fn(I) -> ParseFnResult<P, R2>,
    requires
        input.wf(),
        parser_callable::<P, I, R1, F1>(*f1),
        parser_callable::<P, I, R2, F2>(*f2),
        parser_wf_preserving::<P, I, R1, F1>(*f1),
        parser_wf_preserving::<P, I, R2, F2>(*f2),
    ensures
        r matches Ok(ParseResult::Matched(s, v)) ==> pair_matched::<P, I, R1, R2, F1, F2>(
            *f1,
            *f2,
            input,
            s,
            v,
        ) && s.wf(),
        (r matches Ok(pr) && pr is Mismatched) ==> (can_mismatch::<P, I, R1, F1>(*f1, input)
            || (exists|s1: I, v1: R1|
            {
                &&& #[trigger] can_match::<P, I, R1, F1>(*f1, input, s1, v1)
                &&& can_mismatch::<P, I, R2, F2>(*f2, s1)
            })),
        r matches Err(e) ==> (can_error::<P, I, R1, F1>(*f1, input, e)
            || (exists|s1: I, v1: R1|
            {
                &&& #[trigger] can_match::<P, I, R1, F1>(*f1, input, s1, v1)
                &&& can_error::<P, I, R2, F2>(*f2, s1, e)
            })),
{
    let (s1, r1) = match f1(input) {
        Ok(ParseResult::Matched(a, b)) => (a, b),
        Ok(ParseResult::Mismatched) => {
            proof {
                assert(can_mismatch::<P, I, R1, F1>(*f1, input));
            }
            return Ok(ParseResult::Mismatched);
        },
        Err(e) => {
            proof {
                assert(can_error::<P, I, R1, F1>(*f1, input, e));
            }
            return Err(e);
        },
    };
    proof {
        assert(can_match::<P, I, R1, F1>(*f1, input, s1, r1));
        assert(s1.wf());
    }
    let (s2, r2) = match f2(s1) {
        Ok(ParseResult::Matched(a, b)) => (a, b),
        Ok(ParseResult::Mismatched) => {
            proof {
                assert(can_mismatch::<P, I, R2, F2>(*f2, s1));
            }
            return Ok(ParseResult::Mismatched);
        },
        Err(e) => {
            proof {
                assert(can_error::<P, I, R2, F2>(*f2, s1, e));
            }
            return Err(e);
        },
    };
    proof {
        assert(can_match::<P, I, R2, F2>(*f2, s1, s2, r2));
        assert(s2.wf());
    }
    let v = (r1, r2);
    proof {
        assert(v.0 == r1 && v.1 == r2);
        assert(can_match::<P, I, R1, F1>(*f1, input, s1, v.0));
        assert(can_match::<P, I, R2, F2>(*f2, s1, s2, v.1));
        assert(pair_matched::<P, I, R1, R2, F1, F2>(*f1, *f2, input, s2, v));
    }
    Ok(ParseResult::Matched(s2, v))
}

/// What a successful [`tuple3`] means: middle streams join the three
/// sub-parses, in order.
pub open spec fn tuple3_matched<P, I, R1, R2, R3, F1, F2, F3>(
    f1: F1,
    f2: F2,
    f3: F3,
    input: I,
    s: I,
    v: (R1, R2, R3),
) -> bool
    where
        P: ParserInput<Stream = I>,
        I: ParserInputStream<P>,
        F1: Fn(I) -> ParseFnResult<P, R1>,
        F2: Fn(I) -> ParseFnResult<P, R2>,
        F3: Fn(I) -> ParseFnResult<P, R3>,
{
    exists|s1: I, s2: I|
        {
            &&& #[trigger] can_match::<P, I, R1, F1>(f1, input, s1, v.0)
            &&& #[trigger] can_match::<P, I, R2, F2>(f2, s1, s2, v.1)
            &&& can_match::<P, I, R3, F3>(f3, s2, s, v.2)
        }
}

/// Apply three parsers strictly in order; when all three match, match
/// with the triple of their results; when any mismatches, mismatch.
pub fn tuple3<P, I, R1, R2, R3, F1, F2, F3>(f1: &F1, f2: &F2, f3: &F3, input: I) -> (r:
    ParseFnResult<P, (R1, R2, R3)>)
    where
        P: ParserInput<Stream = I>,
        I: ParserInputStream<P>,
        F1: Fn(I) -> ParseFnResult<P, R1>,
        F2: Fn(I) -> ParseFnResult<P, R2>,
        F3: Fn(I) -> ParseFnResult<P, R3>,
    requires
        input.wf(),
        parser_callable::<P, I, R1, F1>(*f1),
        parser_callable::<P, I, R2, F2>(*f2),
        parser_callable::<P, I, R3, F3>(*f3),
        parser_wf_preserving::<P, I, R1, F1>(*f1),
        parser_wf_preserving::<P, I, R2, F2>(*f2),
        parser_wf_preserving::<P, I, R3, F3>(*f3),
    ensures
        r matches Ok(ParseResult::Matched(s, v)) ==> tuple3_matched::<P, I, R1, R2, R3, F1, F2, F3>(
            *f1,
            *f2,
            *f3,
            input,
            s,
            v,
        ) && s.wf(),
        (r matches Ok(pr) && pr is Mismatched) ==> (can_mismatch::<P, I, R1, F1>(*f1, input)
            || (exists|s1: I, v1: R1|
            {
                &&& #[trigger] can_match::<P, I, R1, F1>(*f1, input, s1, v1)
                &&& can_mismatch::<P, I, R2, F2>(*f2, s1)
            })
            || (exists|s1: I, v1: R1, s2: I, v2: R2|
            {
                &&& #[trigger] can_match::<P, I, R1, F1>(*f1, input, s1, v1)
                &&& #[trigger] can_match::<P, I, R2, F2>(*f2, s1, s2, v2)
                &&& can_mismatch::<P, I, R3, F3>(*f3, s2)
            })),
        r matches Err(e) ==> (can_error::<P, I, R1, F1>(*f1, input, e)
            || (exists|s1: I, v1: R1|
            {
                &&& #[trigger] can_match::<P, I, R1, F1>(*f1, input, s1, v1)
                &&& can_error::<P, I, R2, F2>(*f2, s1, e)
            })
            || (exists|s1: I, v1: R1, s2: I, v2: R2|
            {
                &&& #[trigger] can_match::<P, I, R1, F1>(*f1, input, s1, v1)
                &&& #[trigger] can_match::<P, I, R2, F2>(*f2, s1, s2, v2)
                &&& can_error::<P, I, R3, F3>(*f3, s2, e)
            })),
{
    let (s1, r1) = match f1(input) {
        Ok(ParseResult::Matched(a, b)) => (a, b),
        Ok(ParseResult::Mismatched) => {
            proof {
                assert(can_mismatch::<P, I, R1, F1>(*f1, input));
            }
            return Ok(ParseResult::Mismatched);
        },
        Err(e) => {
            proof {
                assert(can_error::<P, I, R1, F1>(*f1, input, e));
            }
            return Err(e);
        },
    };
    proof {
        assert(can_match::<P, I, R1, F1>(*f1, input, s1, r1));
        assert(s1.wf());
    }
    let (s2, r2) = match f2(s1) {
        Ok(ParseResult::Matched(a, b)) => (a, b),
        Ok(ParseResult::Mismatched) => {
            proof {
                assert(can_mismatch::<P, I, R2, F2>(*f2, s1));
            }
            return Ok(ParseResult::Mismatched);
        },
        Err(e) => {
            proof {
                assert(can_error::<P, I, R2, F2>(*f2, s1, e));
            }
            return Err(e);
        },
    };
    proof {
        assert(can_match::<P, I, R2, F2>(*f2, s1, s2, r2));
        assert(s2.wf());
    }
    let (s3, r3) = match f3(s2) {
        Ok(ParseResult::Matched(a, b)) => (a, b),
        Ok(ParseResult::Mismatched) => {
            proof {
                assert(can_mismatch::<P, I, R3, F3>(*f3, s2));
            }
            return Ok(ParseResult::Mismatched);
        },
        Err(e) => {
            proof {
                assert(can_error::<P, I, R3, F3>(*f3, s2, e));
            }
            return Err(e);
        },
    };
    proof {
        assert(can_match::<P, I, R3, F3>(*f3, s2, s3, r3));
        assert(s3.wf());
    }
    let v = (r1, r2, r3);
    proof {
        assert(v.0 == r1 && v.1 == r2 && v.2 == r3);
        assert(can_match::<P, I, R1, F1>(*f1, input, s1, v.0));
        assert(can_match::<P, I, R2, F2>(*f2, s1, s2, v.1));
        assert(can_match::<P, I, R3, F3>(*f3, s2, s3, v.2));
        assert(tuple3_matched::<P, I, R1, R2, R3, F1, F2, F3>(*f1, *f2, *f3, input, s3, v));
    }
    Ok(ParseResult::Matched(s3, v))
}

/// What a successful [`tuple4`] means: middle streams join the four
/// sub-parses, in order.
pub open spec fn tuple4_matched<P, I, R1, R2, R3, R4, F1, F2, F3, F4>(
    f1: F1,
    f2: F2,
    f3: F3,
    f4: F4,
    input: I,
    s: I,
    v: (R1, R2, R3, R4),
) -> bool
    where
        P: ParserInput<Stream = I>,
        I: ParserInputStream<P>,
        F1: Fn(I) -> ParseFnResult<P, R1>,
        F2: Fn(I) -> ParseFnResult<P, R2>,
        F3: Fn(I) -> ParseFnResult<P, R3>,
        F4: Fn(I) -> ParseFnResult<P, R4>,
{
    exists|s1: I, s2: I, s3: I|
        {
            &&& #[trigger] can_match::<P, I, R1, F1>(f1, input, s1, v.0)
            &&& #[trigger] can_match::<P, I, R2, F2>(f2, s1, s2, v.1)
            &&& #[trigger] can_match::<P, I, R3, F3>(f3, s2, s3, v.2)
            &&& can_match::<P, I, R4, F4>(f4, s3, s, v.3)
        }
}

/// Apply four parsers strictly in order; when all four match, match
/// with the 4-tuple of their results; when any mismatches, mismatch.
pub fn tuple4<P, I, R1, R2, R3, R4, F1, F2, F3, F4>(
    f1: &F1,
    f2: &F2,
    f3: &F3,
    f4: &F4,
    input: I,
) -> (r: ParseFnResult<P, (R1, R2, R3, R4)>)
    where
        P: ParserInput<Stream = I>,
        I: ParserInputStream<P>,
        F1: Fn(I) -> ParseFnResult<P, R1>,
        F2: Fn(I) -> ParseFnResult<P, R2>,
        F3: Fn(I) -> ParseFnResult<P, R3>,
        F4: Fn(I) -> ParseFnResult<P, R4>,
    requires
        input.wf(),
        parser_callable::<P, I, R1, F1>(*f1),
        parser_callable::<P, I, R2, F2>(*f2),
        parser_callable::<P, I, R3, F3>(*f3),
        parser_callable::<P, I, R4, F4>(*f4),
        parser_wf_preserving::<P, I, R1, F1>(*f1),
        parser_wf_preserving::<P, I, R2, F2>(*f2),
        parser_wf_preserving::<P, I, R3, F3>(*f3),
        parser_wf_preserving::<P, I, R4, F4>(*f4),
    ensures
        r matches Ok(ParseResult::Matched(s, v)) ==> tuple4_matched::<
            P,
            I,
            R1,
            R2,
            R3,
            R4,
            F1,
            F2,
            F3,
            F4,
        >(*f1, *f2, *f3, *f4, input, s, v) && s.wf(),
        (r matches Ok(pr) && pr is Mismatched) ==> (can_mismatch::<P, I, R1, F1>(*f1, input)
            || (exists|s1: I, v1: R1|
            {
                &&& #[trigger] can_match::<P, I, R1, F1>(*f1, input, s1, v1)
                &&& can_mismatch::<P, I, R2, F2>(*f2, s1)
            })
            || (exists|s1: I, v1: R1, s2: I, v2: R2|
            {
                &&& #[trigger] can_match::<P, I, R1, F1>(*f1, input, s1, v1)
                &&& #[trigger] can_match::<P, I, R2, F2>(*f2, s1, s2, v2)
                &&& can_mismatch::<P, I, R3, F3>(*f3, s2)
            })
            || (exists|s1: I, v1: R1, s2: I, v2: R2, s3: I, v3: R3|
            {
                &&& #[trigger] can_match::<P, I, R1, F1>(*f1, input, s1, v1)
                &&& #[trigger] can_match::<P, I, R2, F2>(*f2, s1, s2, v2)
                &&& #[trigger] can_match::<P, I, R3, F3>(*f3, s2, s3, v3)
                &&& can_mismatch::<P, I, R4, F4>(*f4, s3)
            })),
        r matches Err(e) ==> (can_error::<P, I, R1, F1>(*f1, input, e)
            || (exists|s1: I, v1: R1|
            {
                &&& #[trigger] can_match::<P, I, R1, F1>(*f1, input, s1, v1)
                &&& can_error::<P, I, R2, F2>(*f2, s1, e)
            })
            || (exists|s1: I, v1: R1, s2: I, v2: R2|
            {
                &&& #[trigger] can_match::<P, I, R1, F1>(*f1, input, s1, v1)
                &&& #[trigger] can_match::<P, I, R2, F2>(*f2, s1, s2, v2)
                &&& can_error::<P, I, R3, F3>(*f3, s2, e)
            })
            || (exists|s1: I, v1: R1, s2: I, v2: R2, s3: I, v3: R3|
            {
                &&& #[trigger] can_match::<P, I, R1, F1>(*f1, input, s1, v1)
                &&& #[trigger] can_match::<P, I, R2, F2>(*f2, s1, s2, v2)
                &&& #[trigger] can_match::<P, I, R3, F3>(*f3, s2, s3, v3)
                &&& can_error::<P, I, R4, F4>(*f4, s3, e)
            })),
{
    let (s1, r1) = match f1(input) {
        Ok(ParseResult::Matched(a, b)) => (a, b),
        Ok(ParseResult::Mismatched) => {
            proof {
                assert(can_mismatch::<P, I, R1, F1>(*f1, input));
            }
            return Ok(ParseResult::Mismatched);
        },
        Err(e) => {
            proof {
                assert(can_error::<P, I, R1, F1>(*f1, input, e));
            }
            return Err(e);
        },
    };
    proof {
        assert(can_match::<P, I, R1, F1>(*f1, input, s1, r1));
        assert(s1.wf());
    }
    let (s2, r2) = match f2(s1) {
        Ok(ParseResult::Matched(a, b)) => (a, b),
        Ok(ParseResult::Mismatched) => {
            proof {
                assert(can_mismatch::<P, I, R2, F2>(*f2, s1));
            }
            return Ok(ParseResult::Mismatched);
        },
        Err(e) => {
            proof {
                assert(can_error::<P, I, R2, F2>(*f2, s1, e));
            }
            return Err(e);
        },
    };
    proof {
        assert(can_match::<P, I, R2, F2>(*f2, s1, s2, r2));
        assert(s2.wf());
    }
    let (s3, r3) = match f3(s2) {
        Ok(ParseResult::Matched(a, b)) => (a, b),
        Ok(ParseResult::Mismatched) => {
            proof {
                assert(can_mismatch::<P, I, R3, F3>(*f3, s2));
            }
            return Ok(ParseResult::Mismatched);
        },
        Err(e) => {
            proof {
                assert(can_error::<P, I, R3, F3>(*f3, s2, e));
            }
            return Err(e);
        },
    };
    proof {
        assert(can_match::<P, I, R3, F3>(*f3, s2, s3, r3));
        assert(s3.wf());
    }
    let (s4, r4) = match f4(s3) {
        Ok(ParseResult::Matched(a, b)) => (a, b),
        Ok(ParseResult::Mismatched) => {
            proof {
                assert(can_mismatch::<P, I, R4, F4>(*f4, s3));
            }
            return Ok(ParseResult::Mismatched);
        },
        Err(e) => {
            proof {
                assert(can_error::<P, I, R4, F4>(*f4, s3, e));
            }
            return Err(e);
        },
    };
    proof {
        assert(can_match::<P, I, R4, F4>(*f4, s3, s4, r4));
        assert(s4.wf());
    }
    let v = (r1, r2, r3, r4);
    proof {
        assert(v.0 == r1 && v.1 == r2 && v.2 == r3 && v.3 == r4);
        assert(can_match::<P, I, R1, F1>(*f1, input, s1, v.0));
        assert(can_match::<P, I, R2, F2>(*f2, s1, s2, v.1));
        assert(can_match::<P, I, R3, F3>(*f3, s2, s3, v.2));
        assert(can_match::<P, I, R4, F4>(*f4, s3, s4, v.3));
        assert(tuple4_matched::<P, I, R1, R2, R3, R4, F1, F2, F3, F4>(
            *f1, *f2, *f3, *f4, input, s4, v));
    }
    Ok(ParseResult::Matched(s4, v))
}

/// What a successful [`separated_pair`] means: the three sub-parses
/// join in order, with the separator's result discarded.
pub open spec fn separated_pair_matched<P, I, R1, R2, R3, F1, F2, F3>(
    f1: F1,
    f2: F2,
    f3: F3,
    input: I,
    s: I,
    v: (R1, R3),
) -> bool
    where
        P: ParserInput<Stream = I>,
        I: ParserInputStream<P>,
        F1: Fn(I) -> ParseFnResult<P, R1>,
        F2: Fn(I) -> ParseFnResult<P, R2>,
        F3: Fn(I) -> ParseFnResult<P, R3>,
{
    exists|s1: I, s2: I, v2: R2|
        {
            &&& #[trigger] can_match::<P, I, R1, F1>(f1, input, s1, v.0)
            &&& #[trigger] can_match::<P, I, R2, F2>(f2, s1, s2, v2)
            &&& can_match::<P, I, R3, F3>(f3, s2, s, v.1)
        }
}

/// Apply the parsers `a`, `sep`, `b` in order and, when all three
/// match, match with the pair of `a`'s and `b`'s results, discarding
/// the separator's.
pub fn separated_pair<P, I, R1, R2, R3, F1, F2, F3>(f1: &F1, f2: &F2, f3: &F3, input: I) -> (r:
    ParseFnResult<P, (R1, R3)>)
    where
        P: ParserInput<Stream = I>,
        I: ParserInputStream<P>,
        F1: Fn(I) -> ParseFnResult<P, R1>,
        F2: Fn(I) -> ParseFnResult<P, R2>,
        F3: Fn(I) -> ParseFnResult<P, R3>,
    requires
        input.wf(),
        parser_callable::<P, I, R1, F1>(*f1),
        parser_callable::<P, I, R2, F2>(*f2),
        parser_callable::<P, I, R3, F3>(*f3),
        parser_wf_preserving::<P, I, R1, F1>(*f1),
        parser_wf_preserving::<P, I, R2, F2>(*f2),
        parser_wf_preserving::<P, I, R3, F3>(*f3),
    ensures
        r matches Ok(ParseResult::Matched(s, v)) ==> separated_pair_matched::<
            P,
            I,
            R1,
            R2,
            R3,
            F1,
            F2,
            F3,
        >(*f1, *f2, *f3, input, s, v) && s.wf(),
        (r matches Ok(pr) && pr is Mismatched) ==> (can_mismatch::<P, I, R1, F1>(*f1, input)
            || (exists|s1: I, v1: R1|
            {
                &&& #[trigger] can_match::<P, I, R1, F1>(*f1, input, s1, v1)
                &&& can_mismatch::<P, I, R2, F2>(*f2, s1)
            })
            || (exists|s1: I, v1: R1, s2: I, v2: R2|
            {
                &&& #[trigger] can_match::<P, I, R1, F1>(*f1, input, s1, v1)
                &&& #[trigger] can_match::<P, I, R2, F2>(*f2, s1, s2, v2)
                &&& can_mismatch::<P, I, R3, F3>(*f3, s2)
            })),
        r matches Err(e) ==> (can_error::<P, I, R1, F1>(*f1, input, e)
            || (exists|s1: I, v1: R1|
            {
                &&& #[trigger] can_match::<P, I, R1, F1>(*f1, input, s1, v1)
                &&& can_error::<P, I, R2, F2>(*f2, s1, e)
            })
            || (exists|s1: I, v1: R1, s2: I, v2: R2|
            {
                &&& #[trigger] can_match::<P, I, R1, F1>(*f1, input, s1, v1)
                &&& #[trigger] can_match::<P, I, R2, F2>(*f2, s1, s2, v2)
                &&& can_error::<P, I, R3, F3>(*f3, s2, e)
            })),
{
    let (s1, r1) = match f1(input) {
        Ok(ParseResult::Matched(a, b)) => (a, b),
        Ok(ParseResult::Mismatched) => {
            proof {
                assert(can_mismatch::<P, I, R1, F1>(*f1, input));
            }
            return Ok(ParseResult::Mismatched);
        },
        Err(e) => {
            proof {
                assert(can_error::<P, I, R1, F1>(*f1, input, e));
            }
            return Err(e);
        },
    };
    proof {
        assert(can_match::<P, I, R1, F1>(*f1, input, s1, r1));
        assert(s1.wf());
    }
    let (s2, r2) = match f2(s1) {
        Ok(ParseResult::Matched(a, b)) => (a, b),
        Ok(ParseResult::Mismatched) => {
            proof {
                assert(can_mismatch::<P, I, R2, F2>(*f2, s1));
            }
            return Ok(ParseResult::Mismatched);
        },
        Err(e) => {
            proof {
                assert(can_error::<P, I, R2, F2>(*f2, s1, e));
            }
            return Err(e);
        },
    };
    proof {
        assert(can_match::<P, I, R2, F2>(*f2, s1, s2, r2));
        assert(s2.wf());
    }
    let (s3, r3) = match f3(s2) {
        Ok(ParseResult::Matched(a, b)) => (a, b),
        Ok(ParseResult::Mismatched) => {
            proof {
                assert(can_mismatch::<P, I, R3, F3>(*f3, s2));
            }
            return Ok(ParseResult::Mismatched);
        },
        Err(e) => {
            proof {
                assert(can_error::<P, I, R3, F3>(*f3, s2, e));
            }
            return Err(e);
        },
    };
    proof {
        assert(can_match::<P, I, R3, F3>(*f3, s2, s3, r3));
        assert(s3.wf());
    }
    let v = (r1, r3);
    proof {
        assert(v.0 == r1 && v.1 == r3);
        assert(can_match::<P, I, R1, F1>(*f1, input, s1, v.0));
        assert(can_match::<P, I, R3, F3>(*f3, s2, s3, v.1));
        assert(separated_pair_matched::<P, I, R1, R2, R3, F1, F2, F3>(
            *f1, *f2, *f3, input, s3, v));
    }
    Ok(ParseResult::Matched(s3, v))
}

/// What a successful [`delimited`] means: the three sub-parses join in
/// order, and only the middle result is kept.
pub open spec fn delimited_matched<P, I, R1, R2, R3, F1, F2, F3>(
    f1: F1,
    f2: F2,
    f3: F3,
    input: I,
    s: I,
    v: R2,
) -> bool
    where
        P: ParserInput<Stream = I>,
        I: ParserInputStream<P>,
        F1: Fn(I) -> ParseFnResult<P, R1>,
        F2: Fn(I) -> ParseFnResult<P, R2>,
        F3: Fn(I) -> ParseFnResult<P, R3>,
{
    exists|s1: I, v1: R1, s2: I, v3: R3|
        {
            &&& #[trigger] can_match::<P, I, R1, F1>(f1, input, s1, v1)
            &&& #[trigger] can_match::<P, I, R2, F2>(f2, s1, s2, v)
            &&& #[trigger] can_match::<P, I, R3, F3>(f3, s2, s, v3)
        }
}

/// Apply the parsers `open`, `content`, `close` in order and, when
/// all three match, match with `content`'s result alone.
pub fn delimited<P, I, R1, R2, R3, F1, F2, F3>(f1: &F1, f2: &F2, f3: &F3, input: I) -> (r:
    ParseFnResult<P, R2>)
    where
        P: ParserInput<Stream = I>,
        I: ParserInputStream<P>,
        F1: Fn(I) -> ParseFnResult<P, R1>,
        F2: Fn(I) -> ParseFnResult<P, R2>,
        F3: Fn(I) -> ParseFnResult<P, R3>,
    requires
        input.wf(),
        parser_callable::<P, I, R1, F1>(*f1),
        parser_callable::<P, I, R2, F2>(*f2),
        parser_callable::<P, I, R3, F3>(*f3),
        parser_wf_preserving::<P, I, R1, F1>(*f1),
        parser_wf_preserving::<P, I, R2, F2>(*f2),
        parser_wf_preserving::<P, I, R3, F3>(*f3),
    ensures
        r matches Ok(ParseResult::Matched(s, v)) ==> delimited_matched::<
            P,
            I,
            R1,
            R2,
            R3,
            F1,
            F2,
            F3,
        >(*f1, *f2, *f3, input, s, v) && s.wf(),
        (r matches Ok(pr) && pr is Mismatched) ==> (can_mismatch::<P, I, R1, F1>(*f1, input)
            || (exists|s1: I, v1: R1|
            {
                &&& #[trigger] can_match::<P, I, R1, F1>(*f1, input, s1, v1)
                &&& can_mismatch::<P, I, R2, F2>(*f2, s1)
            })
            || (exists|s1: I, v1: R1, s2: I, v2: R2|
            {
                &&& #[trigger] can_match::<P, I, R1, F1>(*f1, input, s1, v1)
                &&& #[trigger] can_match::<P, I, R2, F2>(*f2, s1, s2, v2)
                &&& can_mismatch::<P, I, R3, F3>(*f3, s2)
            })),
        r matches Err(e) ==> (can_error::<P, I, R1, F1>(*f1, input, e)
            || (exists|s1: I, v1: R1|
            {
                &&& #[trigger] can_match::<P, I, R1, F1>(*f1, input, s1, v1)
                &&& can_error::<P, I, R2, F2>(*f2, s1, e)
            })
            || (exists|s1: I, v1: R1, s2: I, v2: R2|
            {
                &&& #[trigger] can_match::<P, I, R1, F1>(*f1, input, s1, v1)
                &&& #[trigger] can_match::<P, I, R2, F2>(*f2, s1, s2, v2)
                &&& can_error::<P, I, R3, F3>(*f3, s2, e)
            })),
{
    let (s1, r1) = match f1(input) {
        Ok(ParseResult::Matched(a, b)) => (a, b),
        Ok(ParseResult::Mismatched) => {
            proof {
                assert(can_mismatch::<P, I, R1, F1>(*f1, input));
            }
            return Ok(ParseResult::Mismatched);
        },
        Err(e) => {
            proof {
                assert(can_error::<P, I, R1, F1>(*f1, input, e));
            }
            return Err(e);
        },
    };
    proof {
        assert(can_match::<P, I, R1, F1>(*f1, input, s1, r1));
        assert(s1.wf());
    }
    let (s2, r2) = match f2(s1) {
        Ok(ParseResult::Matched(a, b)) => (a, b),
        Ok(ParseResult::Mismatched) => {
            proof {
                assert(can_mismatch::<P, I, R2, F2>(*f2, s1));
            }
            return Ok(ParseResult::Mismatched);
        },
        Err(e) => {
            proof {
                assert(can_error::<P, I, R2, F2>(*f2, s1, e));
            }
            return Err(e);
        },
    };
    proof {
        assert(can_match::<P, I, R2, F2>(*f2, s1, s2, r2));
        assert(s2.wf());
    }
    let (s3, r3) = match f3(s2) {
        Ok(ParseResult::Matched(a, b)) => (a, b),
        Ok(ParseResult::Mismatched) => {
            proof {
                assert(can_mismatch::<P, I, R3, F3>(*f3, s2));
            }
            return Ok(ParseResult::Mismatched);
        },
        Err(e) => {
            proof {
                assert(can_error::<P, I, R3, F3>(*f3, s2, e));
            }
            return Err(e);
        },
    };
    proof {
        assert(can_match::<P, I, R3, F3>(*f3, s2, s3, r3));
        assert(s3.wf());
    }
    proof {
        assert(delimited_matched::<P, I, R1, R2, R3, F1, F2, F3>(*f1, *f2, *f3, input, s3, r2));
    }
    Ok(ParseResult::Matched(s3, r2))
}

/// What a successful [`preceded`] means: both sub-parses join in
/// order, and only the second result is kept.
pub open spec fn preceded_matched<P, I, R1, R2, F1, F2>(f1: F1, f2: F2, input: I, s: I, v: R2) -> bool
    where
        P: ParserInput<Stream = I>,
        I: ParserInputStream<P>,
        F1: Fn(I) -> ParseFnResult<P, R1>,
        F2: Fn(I) -> ParseFnResult<P, R2>,
{
    exists|s1: I, v1: R1|
        {
            &&& #[trigger] can_match::<P, I, R1, F1>(f1, input, s1, v1)
            &&& #[trigger] can_match::<P, I, R2, F2>(f2, s1, s, v)
        }
}

/// Apply the parsers `prefix` and `content` in order and, when both
/// match, match with `content`'s result alone.
pub fn preceded<P, I, R1, R2, F1, F2>(f1: &F1, f2: &F2, input: I) -> (r: ParseFnResult<P, R2>)
    where
        P: ParserInput<Stream = I>,
        I: ParserInputStream<P>,
        F1: Fn(I) -> ParseFnResult<P, R1>,
        F2: Fn(I) -> ParseFnResult<P, R2>,
    requires
        input.wf(),
        parser_callable::<P, I, R1, F1>(*f1),
        parser_callable::<P, I, R2, F2>(*f2),
        parser_wf_preserving::<P, I, R1, F1>(*f1),
        parser_wf_preserving::<P, I, R2, F2>(*f2),
    ensures
        r matches Ok(ParseResult::Matched(s, v)) ==> preceded_matched::<P, I, R1, R2, F1, F2>(
            *f1,
            *f2,
            input,
            s,
            v,
        ) && s.wf(),
        (r matches Ok(pr) && pr is Mismatched) ==> (can_mismatch::<P, I, R1, F1>(*f1, input)
            || (exists|s1: I, v1: R1|
            {
                &&& #[trigger] can_match::<P, I, R1, F1>(*f1, input, s1, v1)
                &&& can_mismatch::<P, I, R2, F2>(*f2, s1)
            })),
        r matches Err(e) ==> (can_error::<P, I, R1, F1>(*f1, input, e)
            || (exists|s1: I, v1: R1|
            {
                &&& #[trigger] can_match::<P, I, R1, F1>(*f1, input, s1, v1)
                &&& can_error::<P, I, R2, F2>(*f2, s1, e)
            })),
{
    let (s1, r1) = match f1(input) {
        Ok(ParseResult::Matched(a, b)) => (a, b),
        Ok(ParseResult::Mismatched) => {
            proof {
                assert(can_mismatch::<P, I, R1, F1>(*f1, input));
            }
            return Ok(ParseResult::Mismatched);
        },
        Err(e) => {
            proof {
                assert(can_error::<P, I, R1, F1>(*f1, input, e));
            }
            return Err(e);
        },
    };
    proof {
        assert(can_match::<P, I, R1, F1>(*f1, input, s1, r1));
        assert(s1.wf());
    }
    let (s2, r2) = match f2(s1) {
        Ok(ParseResult::Matched(a, b)) => (a, b),
        Ok(ParseResult::Mismatched) => {
            proof {
                assert(can_mismatch::<P, I, R2, F2>(*f2, s1));
            }
            return Ok(ParseResult::Mismatched);
        },
        Err(e) => {
            proof {
                assert(can_error::<P, I, R2, F2>(*f2, s1, e));
            }
            return Err(e);
        },
    };
    proof {
        assert(can_match::<P, I, R2, F2>(*f2, s1, s2, r2));
        assert(s2.wf());
    }
    proof {
        assert(preceded_matched::<P, I, R1, R2, F1, F2>(*f1, *f2, input, s2, r2));
    }
    Ok(ParseResult::Matched(s2, r2))
}

/// What a successful [`succeeded`] means: both sub-parses join in
/// order, and only the first result is kept.
pub open spec fn succeeded_matched<P, I, R1, R2, F1, F2>(f1: F1, f2: F2, input: I, s: I, v: R1) -> bool
    where
        P: ParserInput<Stream = I>,
        I: ParserInputStream<P>,
        F1: Fn(I) -> ParseFnResult<P, R1>,
        F2: Fn(I) -> ParseFnResult<P, R2>,
{
    exists|s1: I, v2: R2|
        {
            &&& #[trigger] can_match::<P, I, R1, F1>(f1, input, s1, v)
            &&& #[trigger] can_match::<P, I, R2, F2>(f2, s1, s, v2)
        }
}

/// Apply the parsers `content` and `suffix` in order and, when both
/// match, match with `content`'s result alone.
pub fn succeeded<P, I, R1, R2, F1, F2>(f1: &F1, f2: &F2, input: I) -> (r: ParseFnResult<P, R1>)
    where
        P: ParserInput<Stream = I>,
        I: ParserInputStream<P>,
        F1: Fn(I) -> ParseFnResult<P, R1>,
        F2: Fn(I) -> ParseFnResult<P, R2>,
    requires
        input.wf(),
        parser_callable::<P, I, R1, F1>(*f1),
        parser_callable::<P, I, R2, F2>(*f2),
        parser_wf_preserving::<P, I, R1, F1>(*f1),
        parser_wf_preserving::<P, I, R2, F2>(*f2),
    ensures
        r matches Ok(ParseResult::Matched(s, v)) ==> succeeded_matched::<P, I, R1, R2, F1, F2>(
            *f1,
            *f2,
            input,
            s,
            v,
        ) && s.wf(),
        (r matches Ok(pr) && pr is Mismatched) ==> (can_mismatch::<P, I, R1, F1>(*f1, input)
            || (exists|s1: I, v1: R1|
            {
                &&& #[trigger] can_match::<P, I, R1, F1>(*f1, input, s1, v1)
                &&& can_mismatch::<P, I, R2, F2>(*f2, s1)
            })),
        r matches Err(e) ==> (can_error::<P, I, R1, F1>(*f1, input, e)
            || (exists|s1: I, v1: R1|
            {
                &&& #[trigger] can_match::<P, I, R1, F1>(*f1, input, s1, v1)
                &&& can_error::<P, I, R2, F2>(*f2, s1, e)
            })),
{
    let (s1, r1) = match f1(input) {
        Ok(ParseResult::Matched(a, b)) => (a, b),
        Ok(ParseResult::Mismatched) => {
            proof {
                assert(can_mismatch::<P, I, R1, F1>(*f1, input));
            }
            return Ok(ParseResult::Mismatched);
        },
        Err(e) => {
            proof {
                assert(can_error::<P, I, R1, F1>(*f1, input, e));
            }
            return Err(e);
        },
    };
    proof {
        assert(can_match::<P, I, R1, F1>(*f1, input, s1, r1));
        assert(s1.wf());
    }
    let (s2, r2) = match f2(s1) {
        Ok(ParseResult::Matched(a, b)) => (a, b),
        Ok(ParseResult::Mismatched) => {
            proof {
                assert(can_mismatch::<P, I, R2, F2>(*f2, s1));
            }
            return Ok(ParseResult::Mismatched);
        },
        Err(e) => {
            proof {
                assert(can_error::<P, I, R2, F2>(*f2, s1, e));
            }
            return Err(e);
        },
    };
    proof {
        assert(can_match::<P, I, R2, F2>(*f2, s1, s2, r2));
        assert(s2.wf());
    }
    proof {
        assert(succeeded_matched::<P, I, R1, R2, F1, F2>(*f1, *f2, input, s2, r1));
    }
    Ok(ParseResult::Matched(s2, r1))
}

} // verus!
