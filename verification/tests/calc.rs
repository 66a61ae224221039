//! A small calculator built on the lexer and the parser combinators:
//! tokenizing arithmetic text, then parsing it with precedence-layered
//! fold/pair/delimited combinators and evaluating the result.

use lexer::parser_fn;
use lexer::{LexerOfStr, LexerParseResult, LineColumn, StreamCharPos, TokenParseError};
use lexer::{ParseFnResult, ParseResult, ParserInputStream, TokenStream};

type TPos = StreamCharPos<LineColumn>;
type LexError = TokenParseError<TPos>;
type TextLexer<'a> = LexerOfStr<'a, TPos, Token, LexError>;
type LexResult = LexerParseResult<TPos, Token, LexError>;

#[derive(Debug, Clone, Copy, PartialEq, Eq, Hash)]
enum Op {
    Plus,
    Minus,
    Times,
    Divide,
}

impl Op {
    fn evaluate(&self, v1: f64, v2: f64) -> Result<f64, String> {
        match self {
            Self::Plus => Ok(v1 + v2),
            Self::Minus => Ok(v1 - v2),
            Self::Times => Ok(v1 * v2),
            Self::Divide => Ok(v1 / v2),
        }
    }
}

#[derive(Debug, Clone, Copy, PartialEq)]
enum Token {
    Whitespace,
    Let,
    Semicolon,
    Open,
    Close,
    Op(Op),
    Value(f64),
    Id(TPos, TPos),
}

fn parse_char_fn(stream: &TextLexer, state: TPos, ch: char) -> LexResult {
    if let Some(t) = {
        match ch {
            '+' => Some(Token::Op(Op::Plus)),
            '-' => Some(Token::Op(Op::Minus)),
            '*' => Some(Token::Op(Op::Times)),
            '/' => Some(Token::Op(Op::Divide)),
            '(' => Some(Token::Open),
            ')' => Some(Token::Close),
            ';' => Some(Token::Semicolon),
            _ => None,
        }
    } {
        Ok(Some((stream.consumed_char(state, ch), t)))
    } else {
        Ok(None)
    }
}

fn parse_id_fn(stream: &TextLexer, state: TPos, ch: char) -> LexResult {
    let is_start_id = |ch| ('a'..='z').contains(&ch) || ('A'..='Z').contains(&ch) || ch == '_';
    let is_digit = |ch| ('0'..='9').contains(&ch);
    let is_valid_id = |n: usize, ch: char| is_start_id(ch) || ((n > 0) && is_digit(ch));
    let (state, opt_x) = stream.do_while(state, ch, &is_valid_id);
    if let Some((start, _n)) = opt_x {
        Ok(Some((state, Token::Id(start, state))))
    } else {
        Ok(None)
    }
}

fn parse_value_fn(stream: &TextLexer, state: TPos, ch: char) -> LexResult {
    let is_digit = |_n: usize, ch: char| ('0'..='9').contains(&ch);
    let (state, opt_x) = stream.do_while(state, ch, &is_digit);
    if let Some((start, _n)) = opt_x {
        let s = stream.get_text(start, state);
        let value: f64 = s.parse().unwrap();
        Ok(Some((state, Token::Value(value))))
    } else {
        Ok(None)
    }
}

fn parse_whitespace_fn(stream: &TextLexer, state: TPos, ch: char) -> LexResult {
    let is_whitespace = |_n: usize, ch: char| ch == ' ' || ch == '\t' || ch == '\n';
    let (state, opt_x) = stream.do_while(state, ch, &is_whitespace);
    if let Some((_start, _n)) = opt_x {
        Ok(Some((state, Token::Whitespace)))
    } else {
        Ok(None)
    }
}

fn parse_keyword_fn(stream: &TextLexer, state: TPos, _ch: char) -> LexResult {
    if stream.matches_str(&state, "let") {
        let state = stream.consumed_ascii_str(state, "let");
        Ok(Some((state, Token::Let)))
    } else {
        Ok(None)
    }
}

type LexParseFn = fn(&TextLexer, TPos, char) -> LexResult;

fn lex_parsers() -> [LexParseFn; 5] {
    [parse_whitespace_fn, parse_keyword_fn, parse_id_fn, parse_value_fn, parse_char_fn]
}

#[test]
fn test_lex_0() {
    let l = TextLexer::new("1+3");
    let state = TPos::default();
    let (state, t) = l.parse(state, &lex_parsers()).unwrap().unwrap();
    assert_eq!(t, Token::Value(1.0));
    let (state, t) = l.parse(state, &lex_parsers()).unwrap().unwrap();
    assert_eq!(t, Token::Op(Op::Plus));
    let (state, t) = l.parse(state, &lex_parsers()).unwrap().unwrap();
    assert_eq!(t, Token::Value(3.0));
    let x = l.parse(state, &lex_parsers()).unwrap();
    assert!(x.is_none());
}

#[test]
fn test_lex_1() {
    let l = TextLexer::new("2() \t-\n+*/let;");
    let mut state = TPos::default();
    for exp_t in [
        Token::Value(2.0),
        Token::Open,
        Token::Close,
        Token::Whitespace,
        Token::Op(Op::Minus),
        Token::Whitespace,
        Token::Op(Op::Plus),
        Token::Op(Op::Times),
        Token::Op(Op::Divide),
        Token::Let,
        Token::Semicolon,
    ] {
        let (next_state, t) = l.parse(state, &lex_parsers()).unwrap().unwrap();
        assert_eq!(t, exp_t);
        state = next_state;
    }
    let x = l.parse(state, &lex_parsers()).unwrap();
    assert!(x.is_none());
}

#[test]
fn test_lex_ids() {
    let l = TextLexer::new("x y _h");
    let mut state = TPos::default();
    for id in ["x", "y", "_h"] {
        let t = loop {
            let (next_state, t) = l.parse(state, &lex_parsers()).unwrap().unwrap();
            state = next_state;
            if t != Token::Whitespace {
                break t;
            }
        };
        if let Token::Id(s, e) = &t {
            assert_eq!(l.get_text(*s, *e), id);
        } else {
            panic!("Token should have been an ID of '{}' but it was {:?}", id, t);
        }
    }
    let x = l.parse(state, &lex_parsers()).unwrap();
    assert!(x.is_none());
}

struct Scope();

#[derive(Debug)]
enum Expr {
    Value(f64),
    BinaryOp(Op, Box<Expr>, Box<Expr>),
}

impl Expr {
    fn from_token(token: &Token) -> Option<Self> {
        match token {
            Token::Value(v) => Some(Expr::Value(*v)),
            _ => None,
        }
    }

    fn evaluate(&self, scope: &Scope) -> Result<f64, String> {
        match self {
            Self::Value(v) => Ok(*v),
            Self::BinaryOp(o, e1, e2) => {
                let v1 = e1.evaluate(scope)?;
                let v2 = e2.evaluate(scope)?;
                o.evaluate(v1, v2)
            },
        }
    }
}

#[derive(Debug, Clone, Copy, PartialEq, Eq)]
enum CalcError {
    Failure,
}

type TokStream<'a> = TokenStream<'a, Token, CalcError>;

fn parse_eof(input: TokStream) -> ParseFnResult<TokStream, ()> {
    if input.get_token()?.is_some() {
        Ok(ParseResult::Mismatched)
    } else {
        Ok(ParseResult::Matched(input, ()))
    }
}

fn parse_value(i: TokStream) -> ParseFnResult<TokStream, Expr> {
    parser_fn::token_map(&|t: Token| Expr::from_token(&t), i)
}

fn match_open(j: TokStream) -> ParseFnResult<TokStream, ()> {
    parser_fn::matching::matches(&|t| matches!(t, Token::Open), j)
}

fn match_close(j: TokStream) -> ParseFnResult<TokStream, ()> {
    parser_fn::matching::matches(&|t| matches!(t, Token::Close), j)
}

fn parse_bracketed(i: TokStream) -> ParseFnResult<TokStream, Expr> {
    parser_fn::delimited(&match_open, &parse_expr, &match_close, i)
}

fn parse_leaf(input: TokStream) -> ParseFnResult<TokStream, Expr> {
    parser_fn::first_of_2(&parse_value, &parse_bracketed, input)
}

fn combine(_n: usize, v1: Expr, (o, v2): (Op, Expr)) -> Expr {
    Expr::BinaryOp(o, Box::new(v1), Box::new(v2))
}

fn mul_op(j: TokStream) -> ParseFnResult<TokStream, Op> {
    parser_fn::token_map(
        &|t: Token| {
            match t {
                Token::Op(Op::Times) => Some(Op::Times),
                Token::Op(Op::Divide) => Some(Op::Divide),
                _ => None,
            }
        },
        j,
    )
}

fn add_op(j: TokStream) -> ParseFnResult<TokStream, Op> {
    parser_fn::token_map(
        &|t: Token| {
            match t {
                Token::Op(Op::Plus) => Some(Op::Plus),
                Token::Op(Op::Minus) => Some(Op::Minus),
                _ => None,
            }
        },
        j,
    )
}

fn mul_loop(i: TokStream) -> ParseFnResult<TokStream, (Op, Expr)> {
    parser_fn::pair(&mul_op, &parse_leaf, i)
}

fn add_loop(i: TokStream) -> ParseFnResult<TokStream, (Op, Expr)> {
    parser_fn::pair(&add_op, &parse_binop_1, i)
}

fn parse_binop_1(input: TokStream) -> ParseFnResult<TokStream, Expr> {
    parser_fn::fold(0, &combine, &parse_leaf, &mul_loop, input)
}

fn parse_binop_2(input: TokStream) -> ParseFnResult<TokStream, Expr> {
    parser_fn::fold(0, &combine, &parse_binop_1, &add_loop, input)
}

fn parse_expr(input: TokStream) -> ParseFnResult<TokStream, Expr> {
    parse_binop_2(input)
}

fn lex_all(text: &str) -> Vec<Token> {
    let l = TextLexer::new(text);
    let mut state = TPos::default();
    let mut tokens = Vec::new();
    loop {
        match l.parse(state, &lex_parsers()) {
            Ok(None) => return tokens,
            Ok(Some((next_state, t))) => {
                state = next_state;
                tokens.push(t);
            },
            Err(e) => panic!("Text should lex cleanly but failed with {:?}", e),
        }
    }
}

fn parse_expr_then_eof(i: TokStream) -> ParseFnResult<TokStream, Expr> {
    parser_fn::succeeded(&parse_expr, &parse_eof, i)
}

fn parse_expr_eof(ts: TokStream) -> Result<Expr, CalcError> {
    parser_fn::unwrap_or_else(&parse_expr_then_eof, &|| CalcError::Failure, ts)
}

#[test]
fn parse_and_evaluate() {
    let tokens = lex_all("1+2*3+4+(5+6)");
    let ts = TokStream::new(&tokens, None);
    let e = parse_expr_eof(ts).expect("Expression should parse cleanly");
    assert_eq!(e.evaluate(&Scope()).unwrap(), 22.0);

    let tokens = lex_all("1+2*(3+4)+5+6");
    let ts = TokStream::new(&tokens, None);
    let e = parse_expr_eof(ts).expect("Expression should parse cleanly");
    assert_eq!(e.evaluate(&Scope()).unwrap(), 26.0);

    let tokens = lex_all("1+2*(4-3+2)+5+6");
    let ts = TokStream::new(&tokens, None);
    let e = parse_expr_eof(ts).expect("Expression should parse cleanly");
    assert_eq!(e.evaluate(&Scope()).unwrap(), 18.0);

    let tokens = lex_all("1++2*(4-3+2)+5+6");
    let ts = TokStream::new(&tokens, None);
    assert_eq!(parse_expr_eof(ts).unwrap_err(), CalcError::Failure);
}

#[test]
fn tokenize_mixed_symbols() {
    // Tokenizing with the digit, character and whitespace matchers
    // yields the ordered token sequence, then the end of the input.
    let l = TextLexer::new("2() \t-\n*+/");
    let mut state = TPos::default();
    for exp_t in [
        Token::Value(2.0),
        Token::Open,
        Token::Close,
        Token::Whitespace,
        Token::Op(Op::Minus),
        Token::Whitespace,
        Token::Op(Op::Times),
        Token::Op(Op::Plus),
        Token::Op(Op::Divide),
    ] {
        let (next_state, t) = l.parse(state, &lex_parsers()).unwrap().unwrap();
        assert_eq!(t, exp_t);
        state = next_state;
    }
    assert!(l.parse(state, &lex_parsers()).unwrap().is_none());
}
