//! Counted repetition and alternation over a stream of characters:
//! two grammars of a/b/c runs, tried in order with an error boundary.

use lexer::parser_fn;
use lexer::{ParseFnResult, ParseResult, ParserInputStream, TokenStream};

#[derive(Debug, Clone, Copy, PartialEq, Eq)]
enum AbcError {
    Other,
}

type AbcStream<'a> = TokenStream<'a, char, AbcError>;

fn at_least_one_a(input: AbcStream) -> ParseFnResult<AbcStream, usize> {
    parser_fn::count_of(&|t: char| t == 'a', 1..1000, input)
}

fn some_bs(input: AbcStream) -> ParseFnResult<AbcStream, usize> {
    parser_fn::count_of(&|t: char| t == 'b', 0..1000, input)
}

fn at_least_one_c(input: AbcStream) -> ParseFnResult<AbcStream, usize> {
    parser_fn::count_of(&|t: char| t == 'c', 1..1000, input)
}

fn grammar1(input: AbcStream) -> ParseFnResult<AbcStream, (usize, usize, usize)> {
    parser_fn::tuple3(&at_least_one_a, &some_bs, &at_least_one_c, input)
}

fn grammar2(input: AbcStream) -> ParseFnResult<AbcStream, (usize, usize, usize)> {
    parser_fn::tuple3(&at_least_one_c, &some_bs, &at_least_one_a, input)
}

type AbcParserFn = fn(AbcStream) -> ParseFnResult<AbcStream, (usize, usize, usize)>;

fn either_grammar(input: AbcStream) -> Result<ParseResult<AbcStream, (usize, usize, usize)>, AbcError> {
    let grammars: [AbcParserFn; 2] = [grammar1, grammar2];
    parser_fn::first_of_n_else(&grammars, &|| AbcError::Other, input)
}

fn do_test(s: &str) {
    let tokens: Vec<char> = s.chars().collect();
    let stream = AbcStream::new(&tokens, None);
    println!("{:?}", at_least_one_a(stream));
    println!("{:?}", grammar1(stream));
    println!("{:?}", grammar2(stream));
    println!("{:?}", either_grammar(stream));
}

#[test]
fn abc_test_me() {
    do_test("abc");
    do_test("abbbbbc");
    do_test("cba");
    do_test(&format!("cba"));
}

#[test]
fn abc_grammars() {
    let tokens: Vec<char> = "abbbbbc".chars().collect();
    let stream = AbcStream::new(&tokens, None);
    match at_least_one_a(stream) {
        Ok(ParseResult::Matched(_, n)) => assert_eq!(n, 1),
        r => panic!("'a' run should match but was {:?}", r),
    }
    match grammar1(stream) {
        Ok(ParseResult::Matched(rest, counts)) => {
            assert_eq!(counts, (1, 5, 1));
            assert!(rest.get_token().unwrap().is_none());
        },
        r => panic!("first grammar should match but was {:?}", r),
    }
    assert!(matches!(grammar2(stream), Ok(ParseResult::Mismatched)));
    match either_grammar(stream) {
        Ok(ParseResult::Matched(_, counts)) => assert_eq!(counts, (1, 5, 1)),
        r => panic!("one grammar should match but was {:?}", r),
    }

    let tokens: Vec<char> = "cba".chars().collect();
    let stream = AbcStream::new(&tokens, None);
    assert!(matches!(grammar1(stream), Ok(ParseResult::Mismatched)));
    match either_grammar(stream) {
        Ok(ParseResult::Matched(_, counts)) => assert_eq!(counts, (1, 1, 1)),
        r => panic!("the second grammar should match but was {:?}", r),
    }

    let tokens: Vec<char> = "bbb".chars().collect();
    let stream = AbcStream::new(&tokens, None);
    assert_eq!(either_grammar(stream).unwrap_err(), AbcError::Other);
}
