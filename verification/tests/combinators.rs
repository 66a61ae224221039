//! The parser-combinator algebra over a slice-backed token stream.

use lexer::parser_fn;
use lexer::{ParseFnResult, ParseResult, ParserInputStream, TokenStream};

#[derive(Debug, Clone, Copy, PartialEq, Eq)]
enum Err0 {
    Boundary,
    Raised,
}

type S<'a> = TokenStream<'a, u32, Err0>;

fn one(input: S) -> ParseFnResult<S, u32> {
    parser_fn::token_map(&|t: u32| if t == 1 { Some(t) } else { None }, input)
}

fn two(input: S) -> ParseFnResult<S, u32> {
    parser_fn::token_map(&|t: u32| if t == 2 { Some(t) } else { None }, input)
}

fn is_small(input: S) -> ParseFnResult<S, ()> {
    parser_fn::token_matches(&|t: u32| t < 10, input)
}

#[test]
fn stream_yields_tokens_then_terminal() {
    let tokens = vec![7u32, 8];
    let s = S::new(&tokens, Some(Err0::Raised));
    let (s, t) = s.get_token().unwrap().unwrap();
    assert_eq!(t, 7);
    let (s, t) = s.get_token().unwrap().unwrap();
    assert_eq!(t, 8);
    assert_eq!(s.get_token().unwrap_err(), Err0::Raised);
    // The error channel is shared with any future read.
    assert_eq!(s.get_token().unwrap_err(), Err0::Raised);
}

#[test]
fn backtracking_purity() {
    // After a combinator mismatches, the stream the caller still holds
    // observes exactly what it observed before the combinator ran.
    let tokens = vec![2u32, 1];
    let s = S::new(&tokens, None);
    let before = s.get_token().unwrap().unwrap();
    assert!(matches!(one(s), Ok(ParseResult::Mismatched)));
    let after = s.get_token().unwrap().unwrap();
    assert_eq!(before.1, after.1);
    assert_eq!(before.0.idx, after.0.idx);
    // And the untouched value parses fine with the other alternative.
    assert!(matches!(two(s), Ok(ParseResult::Matched(_, 2))));
}

#[test]
fn immediates() {
    let tokens = vec![1u32];
    let s = S::new(&tokens, None);
    assert!(matches!(
        parser_fn::success::<S, S, u32>(9, s),
        Ok(ParseResult::Matched(_, 9))
    ));
    assert!(matches!(parser_fn::fail::<S, S, u32>(s), Ok(ParseResult::Mismatched)));
    assert_eq!(parser_fn::error::<S, S, u32>(Err0::Raised, s).unwrap_err(), Err0::Raised);
}

#[test]
fn token_count_all_or_nothing() {
    let tokens = vec![1u32, 1, 1, 5];
    let s = S::new(&tokens, None);
    // Three ones, stopped by the 5.
    match parser_fn::token_count(&|t: u32| t == 1, 1..10, s) {
        Ok(ParseResult::Matched(rest, n)) => {
            assert_eq!(n, 3);
            assert_eq!(rest.idx, 3);
        },
        r => panic!("the count should match but was {:?}", r),
    }
    // Capped at the range end.
    match parser_fn::token_count(&|t: u32| t == 1, 0..2, s) {
        Ok(ParseResult::Matched(rest, n)) => {
            assert_eq!(n, 2);
            assert_eq!(rest.idx, 2);
        },
        r => panic!("the count should match but was {:?}", r),
    }
    // Below the minimum: mismatch, nothing consumed for the caller.
    assert!(matches!(
        parser_fn::token_count(&|t: u32| t == 1, 4..10, s),
        Ok(ParseResult::Mismatched)
    ));
    assert_eq!(s.idx, 0);
}

#[test]
fn count_of_and_matching() {
    let tokens = vec![3u32, 3, 9];
    let s = S::new(&tokens, None);
    assert!(matches!(is_small(s), Ok(ParseResult::Matched(_, ()))));
    match parser_fn::count_of(&|t: u32| t == 3, 0..100, s) {
        Ok(ParseResult::Matched(_, n)) => assert_eq!(n, 2),
        r => panic!("the count should match but was {:?}", r),
    }
    assert!(matches!(
        parser_fn::matching::matches(&|t: u32| t == 3, s),
        Ok(ParseResult::Matched(_, ()))
    ));
    assert!(matches!(
        parser_fn::matching::matches(&|t: u32| t == 9, s),
        Ok(ParseResult::Mismatched)
    ));
}

#[test]
fn list_of_collects() {
    let tokens = vec![1u32, 1, 2];
    let s = S::new(&tokens, None);
    match parser_fn::list_of(&one, 0..10, s) {
        Ok(ParseResult::Matched(rest, rs)) => {
            assert_eq!(rs, vec![1u32, 1]);
            assert_eq!(rest.idx, 2);
        },
        r => panic!("the list should match but was {:?}", r),
    }
    assert!(matches!(parser_fn::list_of(&one, 3..10, s), Ok(ParseResult::Mismatched)));
}

#[test]
fn sequencing() {
    let tokens = vec![1u32, 2, 1, 2];
    let s = S::new(&tokens, None);
    match parser_fn::pair(&one, &two, s) {
        Ok(ParseResult::Matched(rest, v)) => {
            assert_eq!(v, (1, 2));
            assert_eq!(rest.idx, 2);
        },
        r => panic!("the pair should match but was {:?}", r),
    }
    assert!(matches!(parser_fn::pair(&two, &one, s), Ok(ParseResult::Mismatched)));
    match parser_fn::tuple3(&one, &two, &one, s) {
        Ok(ParseResult::Matched(_, v)) => assert_eq!(v, (1, 2, 1)),
        r => panic!("the triple should match but was {:?}", r),
    }
    match parser_fn::tuple4(&one, &two, &one, &two, s) {
        Ok(ParseResult::Matched(rest, v)) => {
            assert_eq!(v, (1, 2, 1, 2));
            assert!(rest.get_token().unwrap().is_none());
        },
        r => panic!("the 4-tuple should match but was {:?}", r),
    }
    match parser_fn::separated_pair(&one, &two, &one, s) {
        Ok(ParseResult::Matched(_, v)) => assert_eq!(v, (1, 1)),
        r => panic!("the separated pair should match but was {:?}", r),
    }
    match parser_fn::delimited(&one, &two, &one, s) {
        Ok(ParseResult::Matched(_, v)) => assert_eq!(v, 2),
        r => panic!("the delimited content should match but was {:?}", r),
    }
    match parser_fn::preceded(&one, &two, s) {
        Ok(ParseResult::Matched(_, v)) => assert_eq!(v, 2),
        r => panic!("the preceded content should match but was {:?}", r),
    }
    match parser_fn::succeeded(&one, &two, s) {
        Ok(ParseResult::Matched(_, v)) => assert_eq!(v, 1),
        r => panic!("the succeeded content should match but was {:?}", r),
    }
}

fn one_as_10(i: S) -> ParseFnResult<S, u32> {
    parser_fn::token_map(&|t: u32| if t == 1 { Some(10u32) } else { None }, i)
}

fn one_as_20(i: S) -> ParseFnResult<S, u32> {
    parser_fn::token_map(&|t: u32| if t == 1 { Some(20u32) } else { None }, i)
}

fn never(i: S) -> ParseFnResult<S, u32> {
    parser_fn::token_map(&|_t: u32| None::<u32>, i)
}

fn raise(i: S) -> ParseFnResult<S, u32> {
    parser_fn::error::<S, S, u32>(Err0::Raised, i)
}

fn any_token(i: S) -> ParseFnResult<S, u32> {
    parser_fn::token_map(&|t: u32| Some(t), i)
}

fn leaf(i: S) -> ParseFnResult<S, Tree> {
    parser_fn::op::map(&any_token, &|v: u32| Tree::Leaf(v), i)
}

#[test]
fn alternation_takes_the_first_match() {
    let tokens = vec![1u32];
    let s = S::new(&tokens, None);
    match parser_fn::first_of_2(&one_as_10, &one_as_20, s) {
        Ok(ParseResult::Matched(_, v)) => assert_eq!(v, 10),
        r => panic!("the first alternative should win but was {:?}", r),
    }
    match parser_fn::first_of_2(&one_as_20, &one_as_10, s) {
        Ok(ParseResult::Matched(_, v)) => assert_eq!(v, 20),
        r => panic!("the first alternative should win but was {:?}", r),
    }
    match parser_fn::first_of_3(&never, &never, &one_as_10, s) {
        Ok(ParseResult::Matched(_, v)) => assert_eq!(v, 10),
        r => panic!("the last alternative should match but was {:?}", r),
    }
    assert!(matches!(
        parser_fn::first_of_4(&never, &never, &never, &never, s),
        Ok(ParseResult::Mismatched)
    ));
    // The `_else` boundary turns a full mismatch into a fatal error.
    assert_eq!(
        parser_fn::first_of_2_else(&never, &never, &|| Err0::Boundary, s).unwrap_err(),
        Err0::Boundary
    );
    assert_eq!(
        parser_fn::first_of_3_else(&never, &never, &never, &|| Err0::Boundary, s).unwrap_err(),
        Err0::Boundary
    );
    assert_eq!(
        parser_fn::first_of_4_else(&never, &never, &never, &never, &|| Err0::Boundary, s)
            .unwrap_err(),
        Err0::Boundary
    );
}

#[test]
fn alternation_does_not_catch_fatal_errors() {
    let tokens = vec![1u32];
    let s = S::new(&tokens, None);
    assert_eq!(parser_fn::first_of_2(&raise, &one, s).unwrap_err(), Err0::Raised);
    assert_eq!(parser_fn::or_else(&raise, &one, s).unwrap_err(), Err0::Raised);
}

#[test]
fn postprocessing() {
    let tokens = vec![1u32, 2];
    let s = S::new(&tokens, None);
    match parser_fn::op::map(&one, &|v: u32| v + 100, s) {
        Ok(ParseResult::Matched(_, v)) => assert_eq!(v, 101),
        r => panic!("the mapped match should come through but was {:?}", r),
    }
    match parser_fn::option(&two, s) {
        Ok(ParseResult::Matched(rest, v)) => {
            assert_eq!(v, None);
            assert_eq!(rest.idx, 0);
        },
        r => panic!("the absent option should match but was {:?}", r),
    }
    match parser_fn::option(&one, s) {
        Ok(ParseResult::Matched(_, v)) => assert_eq!(v, Some(1)),
        r => panic!("the present option should match but was {:?}", r),
    }
    match parser_fn::not(&two, 5u32, s) {
        Ok(ParseResult::Matched(rest, v)) => {
            assert_eq!(v, 5);
            assert_eq!(rest.idx, 0);
        },
        r => panic!("the inverted mismatch should match but was {:?}", r),
    }
    assert!(matches!(parser_fn::not(&one, 5u32, s), Ok(ParseResult::Mismatched)));
    match parser_fn::or_else(&two, &one, s) {
        Ok(ParseResult::Matched(_, v)) => assert_eq!(v, 1),
        r => panic!("the fallback should match but was {:?}", r),
    }
    assert_eq!(parser_fn::unwrap_or_else(&one, &|| Err0::Boundary, s), Ok(1));
    assert_eq!(parser_fn::unwrap_or_else(&two, &|| Err0::Boundary, s), Err(Err0::Boundary));
}

#[derive(Debug, PartialEq)]
enum Tree {
    Leaf(u32),
    Node(Box<Tree>, u32),
}

#[test]
fn fold_builds_left_nested_results() {
    // Folding a (+ b) (+ c) with a left-combining function produces
    // ((a + b) + c), never a right-nested combination.
    let tokens = vec![1u32, 2, 3];
    let s = S::new(&tokens, None);
    match parser_fn::fold(
        0,
        &|_n: usize, acc: Tree, t: u32| Tree::Node(Box::new(acc), t),
        &leaf,
        &any_token,
        s,
    ) {
        Ok(ParseResult::Matched(rest, tree)) => {
            assert_eq!(
                tree,
                Tree::Node(Box::new(Tree::Node(Box::new(Tree::Leaf(1)), 2)), 3)
            );
            assert!(rest.get_token().unwrap().is_none());
        },
        r => panic!("the fold should match but was {:?}", r),
    }
    // A bounded fold stops after the given number of iterations.
    match parser_fn::fold(
        1,
        &|_n: usize, acc: Tree, t: u32| Tree::Node(Box::new(acc), t),
        &leaf,
        &any_token,
        s,
    ) {
        Ok(ParseResult::Matched(rest, tree)) => {
            assert_eq!(tree, Tree::Node(Box::new(Tree::Leaf(1)), 2));
            assert_eq!(rest.idx, 2);
        },
        r => panic!("the bounded fold should match but was {:?}", r),
    }
    // A fold whose first parser mismatches, mismatches.
    fn none(i: S) -> ParseFnResult<S, Tree> {
        parser_fn::token_map(&|_t: u32| None::<Tree>, i)
    }
    assert!(matches!(
        parser_fn::fold(
            0,
            &|_n: usize, acc: Tree, t: u32| Tree::Node(Box::new(acc), t),
            &none,
            &any_token,
            s,
        ),
        Ok(ParseResult::Mismatched)
    ));
}
