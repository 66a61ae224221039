//! Tokenizing a small program text with the ready-made simple-token
//! matchers, through the token iterator.

use lexer::{LexerOfStr, LexerParseResult, ParserIterator, SimpleToken, TokenParseError};

type P = usize;
type K = u64;
type Token = SimpleToken<P, K>;
type E = TokenParseError<P>;
type L<'a> = LexerOfStr<'a, P, Token, E>;

fn parse_keywords(l: &L, state: P, c: char) -> LexerParseResult<P, Token, E> {
    let keywords: [(&[u8], u64); 2] = [(b"let", 0), (b"if", 1)];
    Token::parse_keyword(l, state, c, &keywords)
}

fn parse_whitespace(l: &L, state: P, c: char) -> LexerParseResult<P, Token, E> {
    Token::parse_whitespace(l, state, c)
}

fn parse_digits(l: &L, state: P, c: char) -> LexerParseResult<P, Token, E> {
    Token::parse_digits(l, state, c)
}

fn parse_id(l: &L, state: P, c: char) -> LexerParseResult<P, Token, E> {
    Token::parse_id(l, state, c, char::is_alphabetic, char::is_alphanumeric)
}

fn parse_char(l: &L, state: P, c: char) -> LexerParseResult<P, Token, E> {
    Token::parse_char(l, state, c)
}

type ParseFn = fn(&L, P, char) -> LexerParseResult<P, Token, E>;

#[test]
fn lexer_test_me() {
    let a = r##"let add x y = x + y; add 2 3
"##;

    let span = L::new(a);

    let parsers: [ParseFn; 5] =
        [parse_digits, parse_whitespace, parse_keywords, parse_id, parse_char];
    let mut count: usize = 0;
    let mut iter = span.iter_tokens(&parsers);
    while let Some(t) = iter.next() {
        println!("{:?}", t.unwrap());
        count += 1;
    }
    // One keyword, six ids, two digit runs, ten whitespace runs,
    // three single characters, and the final newline.
    assert_eq!(count, 23);
}

#[test]
fn lexer_keyword_first() {
    // With the keyword matcher ahead of the id matcher, "let" lexes as
    // a keyword; with the order swapped, the id matcher wins.
    let a = "let";
    let span = L::new(a);
    let keyword_first: [ParseFn; 2] = [parse_keywords, parse_id];
    let id_first: [ParseFn; 2] = [parse_id, parse_keywords];
    match span.parse(0, &keyword_first) {
        Ok(Some((_, SimpleToken::Keyword(pos, k)))) => {
            assert_eq!(pos, 0);
            assert_eq!(k, 0);
        },
        r => panic!("'let' should lex as a keyword but was {:?}", r),
    }
    match span.parse(0, &id_first) {
        Ok(Some((next, SimpleToken::Id(span_)))) => {
            assert_eq!(*span_.start(), 0);
            assert_eq!(*span_.end(), 3);
            assert_eq!(next, 3);
        },
        r => panic!("'let' should lex as an id but was {:?}", r),
    }
}

#[test]
fn lexer_iterator_stops_after_error() {
    // '?' matches no supplied matcher: the iterator yields the failure
    // once, and then stops permanently.
    let a = "a ?";
    let span = L::new(a);
    let parsers: [ParseFn; 2] = [parse_whitespace, parse_id];
    let mut iter = ParserIterator::new(&span, 0, &parsers);
    assert!(matches!(iter.next(), Some(Ok(SimpleToken::Id(_)))));
    assert!(matches!(iter.next(), Some(Ok(SimpleToken::Whitespace(_)))));
    match iter.next() {
        Some(Err(e)) => {
            assert_eq!(e.ch, '?');
            assert_eq!(e.pos, 2);
        },
        r => panic!("the bad character should fail the tokenization but gave {:?}", r),
    }
    assert!(iter.next().is_none());
    assert!(iter.next().is_none());
}
