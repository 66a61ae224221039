//! The owned-text lexer and the contextual error renderer.

use lexer::{fmt_context, fmt_usize, LexerOfString, LineColumn, SimpleParseError, StreamCharPos};

type P = lexer::StreamCharPos<LineColumn>;
type L = LexerOfString<P, char, SimpleParseError<P>>;

#[test]
fn decimal_rendering() {
    assert_eq!(fmt_usize(0), "0");
    assert_eq!(fmt_usize(7), "7");
    assert_eq!(fmt_usize(42), "42");
    assert_eq!(fmt_usize(1234), "1234");
    assert_eq!(fmt_usize(98765), "98765");
}

#[test]
fn owned_text_round_trip() {
    let l = L::default().set_text("hello\nworld\n".to_string());
    assert_eq!(l.text(), "hello\nworld\n");
    let lexer = l.lexer();
    let p0 = P::default();
    assert_eq!(lexer.peek_at(&p0), Some('h'));
    let mut l = l;
    let taken = l.take_text();
    assert_eq!(taken, "hello\nworld\n");
    assert_eq!(l.text(), "");
}

#[test]
fn context_single_line() {
    let l = L::default().set_text("hello\nworld there\nlast".to_string());
    let start = StreamCharPos { byte_ofs: 0, pos: LineColumn { line: 2, column: 7 } };
    let end = StreamCharPos { byte_ofs: 0, pos: LineColumn { line: 2, column: 12 } };
    let mut out = String::new();
    fmt_context(&l, &mut out, &start, &end);
    let expected = "    |  hello\n   2|  world there\n    |        ^^^^^\n    |  \n";
    assert_eq!(out, expected);
}

#[test]
fn context_single_line_at_top() {
    // On line 1 there is no previous line to show, and a zero-width
    // span still gets one caret.
    let l = L::default().set_text("abc\ndef".to_string());
    let start = StreamCharPos { byte_ofs: 0, pos: LineColumn { line: 1, column: 2 } };
    let end = StreamCharPos { byte_ofs: 0, pos: LineColumn { line: 1, column: 2 } };
    let mut out = String::new();
    fmt_context(&l, &mut out, &start, &end);
    let expected = "   1|  abc\n    |   ^\n    |  \n";
    assert_eq!(out, expected);
}

#[test]
fn context_to_next_line_start() {
    // A span running exactly to column 0 of the next line renders as a
    // single line, highlighting to the line's length.
    let l = L::default().set_text("ab\ncd".to_string());
    let start = StreamCharPos { byte_ofs: 0, pos: LineColumn { line: 1, column: 1 } };
    let end = StreamCharPos { byte_ofs: 0, pos: LineColumn { line: 2, column: 0 } };
    let mut out = String::new();
    fmt_context(&l, &mut out, &start, &end);
    let expected = "   1|  ab\n    |  ^^\n    |  \n";
    assert_eq!(out, expected);
}

#[test]
fn context_few_lines_all_shown() {
    let l = L::default().set_text("l1\nl2\nl3\nl4\nl5\nl6".to_string());
    let start = StreamCharPos { byte_ofs: 0, pos: LineColumn { line: 2, column: 1 } };
    let end = StreamCharPos { byte_ofs: 0, pos: LineColumn { line: 3, column: 2 } };
    let mut out = String::new();
    fmt_context(&l, &mut out, &start, &end);
    // Lines 1 through 4 are rendered; only lines 2 and 3 - the span -
    // are numbered.
    let expected = "    |  l1\n   2|  l2\n   3|  l3\n    |  l4\n";
    assert_eq!(out, expected);
}

#[test]
fn context_many_lines_collapse() {
    let text = "l1\nl2\nl3\nl4\nl5\nl6\nl7\nl8\nl9\nl10\nl11\nl12";
    let l = L::default().set_text(text.to_string());
    let start = StreamCharPos { byte_ofs: 0, pos: LineColumn { line: 2, column: 1 } };
    let end = StreamCharPos { byte_ofs: 0, pos: LineColumn { line: 10, column: 3 } };
    let mut out = String::new();
    fmt_context(&l, &mut out, &start, &end);
    // Eleven lines would be rendered, so the middle collapses into one
    // ellipsis marker; the first and last lines of the range stay.
    let expected = "    |  l1\n   2|  l2\n   3|  l3\n   4|  l4\n    |...\n   9|  l9\n  10|  l10\n    |  l11\n";
    assert_eq!(out, expected);
}

#[test]
fn render_a_lexing_error_in_context() {
    // Lex until the bad character, then render the context of its
    // position - the whole path a client follows on a fatal error.
    let l = L::default().set_text("ab\ncd?e\nfg".to_string());
    let lexer = l.lexer();
    let matcher = |stream: &lexer::LexerOfStr<P, char, SimpleParseError<P>>,
                   state: P,
                   ch: char|
     -> lexer::LexerParseResult<P, char, SimpleParseError<P>> {
        if ch.is_ascii_alphanumeric() || ch == '\n' {
            Ok(Some((stream.consumed_char(state, ch), ch)))
        } else {
            Ok(None)
        }
    };
    let parsers = [matcher];
    let mut state = P::default();
    let err = loop {
        match lexer.parse(state, &parsers) {
            Ok(Some((next, _))) => state = next,
            Ok(None) => panic!("the bad character should stop the tokenization"),
            Err(e) => break e,
        }
    };
    assert_eq!(err.ch, '?');
    assert_eq!(err.pos.pos().line, 2);
    assert_eq!(err.pos.pos().column, 3);
    let mut out = String::new();
    lexer::fmt_context(&l, &mut out, &err.pos, &err.pos);
    let expected = "    |  ab\n   2|  cd?e\n    |    ^\n    |  \n";
    assert_eq!(out, expected);
}
