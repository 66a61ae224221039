//! The character-stream primitives: positions, spans, UTF-8
//! boundaries, scanning, and the ordered dispatch.

use lexer::{LexerOfStr, LexerParseResult, LineColumn, StreamCharPos, StreamCharSpan};
use lexer::{PosnInCharStream, SimpleParseError, UserPosn};

type TPos = StreamCharPos<LineColumn>;
type E = SimpleParseError<TPos>;
type L<'a> = LexerOfStr<'a, TPos, u32, E>;
type ParseFn = fn(&L, TPos, char) -> LexerParseResult<TPos, u32, E>;

#[test]
fn positions_track_lines_and_columns() {
    let p = TPos::default();
    assert_eq!(p.byte_ofs(), 0);
    assert_eq!(p.line(), 1);
    assert_eq!(p.column(), 1);
    let p = p.advance_cols(5, 5);
    assert_eq!(p.byte_ofs(), 5);
    assert_eq!(p.line(), 1);
    assert_eq!(p.column(), 6);
    let p = p.advance_line(1);
    assert_eq!(p.byte_ofs(), 6);
    assert_eq!(p.line(), 2);
    assert_eq!(p.column(), 1);
    assert_eq!(p.pos(), LineColumn { line: 2, column: 1 });
    assert_eq!(p.pos().error_text(), "line 2 column 1");
}

#[test]
fn spans_give_byte_ranges() {
    let a = TPos::default().advance_cols(2, 2);
    let b = a.advance_cols(3, 3);
    let span = StreamCharSpan::new(a, b);
    assert_eq!(span.start().byte_ofs(), 2);
    assert_eq!(span.end().byte_ofs(), 5);
    let range = span.byte_range();
    assert_eq!(range.start, 2);
    assert_eq!(range.end, 5);
}

#[test]
fn peek_and_scan_multibyte() {
    // A text with 1-, 2- and 3-byte encodings in it.
    let text = "a\u{e9}\u{20ac}b";
    let l = L::new(text);
    let p0 = TPos::default();
    assert_eq!(l.peek_at(&p0), Some('a'));
    let p1 = l.consumed_char(p0, 'a');
    assert_eq!(p1.byte_ofs(), 1);
    assert_eq!(l.peek_at(&p1), Some('\u{e9}'));
    let p2 = l.consumed_char(p1, '\u{e9}');
    assert_eq!(p2.byte_ofs(), 3);
    assert_eq!(l.peek_at(&p2), Some('\u{20ac}'));
    let p3 = l.consumed_char(p2, '\u{20ac}');
    assert_eq!(p3.byte_ofs(), 6);
    assert_eq!(l.peek_at(&p3), Some('b'));
    let p4 = l.consumed_char(p3, 'b');
    assert_eq!(p4.byte_ofs(), 7);
    assert_eq!(l.peek_at(&p4), None);
    // Every position handed out indexes a character boundary: slicing
    // the text there never fails.
    for p in [p0, p1, p2, p3, p4] {
        assert!(text.get(p.byte_ofs()..).is_some());
        assert_eq!(p.column(), 1 + {
            let mut chars: usize = 0;
            let mut q = p0;
            while q.byte_ofs() < p.byte_ofs() {
                q = l.consumed_char(q, l.peek_at(&q).unwrap());
                chars += 1;
            }
            chars
        });
    }
}

#[test]
fn scan_while_covers_and_reassembles() {
    // Splitting the text into runs of equal characters and putting the
    // extracted spans back together reassembles the text exactly.
    let text = "aa\u{e9}\u{e9}\u{e9}b  cc";
    let l = L::new(text);
    let mut pos = TPos::default();
    let mut rebuilt = String::new();
    while let Some(c) = l.peek_at(&pos) {
        let same = move |_n: usize, c2: char| c2 == c;
        let (next, matched) = l.do_while(pos, c, &same);
        let (start, n) = matched.unwrap();
        assert!(n >= 1);
        rebuilt.push_str(l.get_text(start, next));
        pos = next;
    }
    assert_eq!(rebuilt, text);
}

#[test]
fn scan_while_rejecting_first_character_is_no_match() {
    let text = "abc";
    let l = L::new(text);
    let pos = TPos::default();
    let never = |_n: usize, _c: char| false;
    let (next, matched) = l.do_while(pos, 'a', &never);
    assert!(matched.is_none());
    assert_eq!(next.byte_ofs(), pos.byte_ofs());
}

#[test]
fn consumed_steps_over_newlines() {
    let text = "ab\ncd";
    let l = L::new(text);
    let p = l.consumed(TPos::default(), 4);
    assert_eq!(p.byte_ofs(), 4);
    assert_eq!(p.line(), 2);
    assert_eq!(p.column(), 2);
    // Consuming more characters than remain stops at the end.
    let p = l.consumed(TPos::default(), 99);
    assert_eq!(p.byte_ofs(), 5);
    assert_eq!(l.peek_at(&p), None);
}

#[test]
fn matches_literals() {
    let text = "let x";
    let l = L::new(text);
    let p0 = TPos::default();
    assert!(l.matches_bytes(&p0, b"let"));
    assert!(l.matches_str(&p0, "let"));
    assert!(l.matches_str(&p0, "let x"));
    assert!(!l.matches_str(&p0, "let xx"));
    assert!(!l.matches_bytes(&p0, b"lex"));
    let p1 = l.consumed_ascii_str(p0, "let ");
    assert!(l.matches_bytes(&p1, b"x"));
    assert_eq!(l.range_as_bytes(0, 3), b"let");
    assert_eq!(l.get_text(p0, p1), "let ");
}

fn match_x_as_1(l: &L, state: TPos, ch: char) -> LexerParseResult<TPos, u32, E> {
    if ch == 'x' {
        Ok(Some((l.consumed_char(state, ch), 1)))
    } else {
        Ok(None)
    }
}

fn match_letter_as_2(l: &L, state: TPos, ch: char) -> LexerParseResult<TPos, u32, E> {
    if ch.is_alphabetic() {
        Ok(Some((l.consumed_char(state, ch), 2)))
    } else {
        Ok(None)
    }
}

#[test]
fn dispatch_first_match_wins() {
    // Both matchers accept 'x'; whichever stands earlier in the list
    // wins, whatever the other would have said.
    let text = "x";
    let l = L::new(text);
    let specific_first: [ParseFn; 2] = [match_x_as_1, match_letter_as_2];
    let general_first: [ParseFn; 2] = [match_letter_as_2, match_x_as_1];
    let (_, t) = l.parse(TPos::default(), &specific_first).unwrap().unwrap();
    assert_eq!(t, 1);
    let (_, t) = l.parse(TPos::default(), &general_first).unwrap().unwrap();
    assert_eq!(t, 2);
}

#[test]
fn dispatch_no_match_is_the_failed_to_parse_error() {
    let text = "9";
    let l = L::new(text);
    let parsers: [ParseFn; 2] = [match_x_as_1, match_letter_as_2];
    let e = l.parse(TPos::default(), &parsers).unwrap_err();
    assert_eq!(e, SimpleParseError { ch: '9', pos: TPos::default() });
}

#[test]
fn dispatch_at_end_is_none() {
    let l = L::new("");
    let parsers: [ParseFn; 1] = [match_x_as_1];
    assert!(l.parse(TPos::default(), &parsers).unwrap().is_none());
}

#[test]
fn span_extraction() {
    let text = "abc 123";
    let l = L::new(text);
    let digits = |_n: usize, c: char| c.is_ascii_digit();
    let letters = |_n: usize, c: char| c.is_ascii_lowercase();
    let p0 = TPos::default();
    let (after_word, matched) = l.do_while(p0, 'a', &letters);
    let (word_start, n) = matched.unwrap();
    assert_eq!(n, 3);
    let word = StreamCharSpan::new(word_start, after_word);
    assert_eq!(l.get_text_span(&word), "abc");
    let after_space = l.consumed_char(after_word, ' ');
    let (after_num, matched) = l.do_while(after_space, '1', &digits);
    let (num_start, n) = matched.unwrap();
    assert_eq!(n, 3);
    let num = StreamCharSpan::new(num_start, after_num);
    assert_eq!(l.get_text_span(&num), "123");
    assert_eq!(num.byte_range(), 4..7);
    assert_eq!(l.peek_at(&after_num), None);
}
