//! A ready-made token type with matchers for common lexemes.

use vstd::prelude::*;

use crate::{LexerError, LexerOfStr, LexerParseResult, PosnInCharStream, StreamCharSpan};

verus! {

/// The keyword payload of a [`SimpleToken`]: a small copyable value a
/// client attaches to each keyword it supplies.
pub trait SimpleKeyword: Copy + Sized {

}

impl SimpleKeyword for u8 {

}

impl SimpleKeyword for u16 {

}

impl SimpleKeyword for u32 {

}

impl SimpleKeyword for u64 {

}

impl SimpleKeyword for usize {

}

/// A simple token over a character stream: spans of comments,
/// identifiers, digits and whitespace, and single interesting
/// characters.
#[derive(Debug, Clone, Copy)]
pub enum SimpleToken<P: PosnInCharStream, K: SimpleKeyword> {
    /// A comment introduced by `/`, up to (and not including) a newline.
    CommentLine(StreamCharSpan<P>),
    /// An identifier: an id start character and any id characters after it.
    Id(StreamCharSpan<P>),
    /// A run of decimal digits.
    Digits(StreamCharSpan<P>),
    /// One of `(`, `[` or `{`.
    OpenBra(P, char),
    /// One of `)`, `]` or `}`.
    CloseBra(P, char),
    /// A run of spaces and tabs.
    Whitespace(StreamCharSpan<P>),
    /// One of the ASCII keywords supplied by the caller.
    Keyword(P, K),
    /// A newline.
    Newline(P),
    /// Any other single character.
    Char(P, char),
}

/// True when `c` is a decimal digit.
pub open spec fn spec_is_digit(c: char) -> bool {
    48 <= (c as u32) <= 57
}

/// True when `c` is a space or a tab.
pub open spec fn spec_is_simple_ws(c: char) -> bool {
    c == ' ' || c == '\t'
}

/// The scan predicate of a comment line: two leading `/`, then
/// anything up to a newline.
pub open spec fn spec_is_comment(n: int, c: char) -> bool {
    (n < 2 && c == '/') || (n >= 2 && c != '\n')
}

impl<P, K> SimpleToken<P, K>
    where P: PosnInCharStream, K: SimpleKeyword,
{
    /// Match any single character: a newline, an opening or closing
    /// bracket, or - as a catch-all - any other character.  This
    /// matcher never mismatches, so it must stand last in a matcher
    /// list.
    pub fn parse_char<E: LexerError<P>>(
        stream: &LexerOfStr<P, Self, E>,
        state: P,
        ch: char,
    ) -> (r: LexerParseResult<P, Self, E>)
        requires
            stream.wf(),
            stream.pos_valid(state),
            stream.pos_char_idx(state) < stream.spec_chars().len(),
            ch == stream.spec_chars()[stream.pos_char_idx(state)],
        ensures
            r matches Ok(step) && step matches Some((s2, t)) && {
                &&& s2 == stream.spec_consume_char(state, ch)
                &&& stream.pos_valid(s2)
                &&& stream.pos_char_idx(s2) == stream.pos_char_idx(state) + 1
                &&& t == (if ch == '\n' {
                    SimpleToken::<P, K>::Newline(state)
                } else if ch == '(' || ch == '[' || ch == '{' {
                    SimpleToken::<P, K>::OpenBra(state, ch)
                } else if ch == ')' || ch == ']' || ch == '}' {
                    SimpleToken::<P, K>::CloseBra(state, ch)
                } else {
                    SimpleToken::<P, K>::Char(state, ch)
                })
            },
    {
        proof {
            stream.lemma_consume_char_valid(state, ch);
        }
        let pos = state;
        if ch == '\n' {
            Ok(Some((stream.consumed_newline(state, 1), Self::Newline(pos))))
        } else if ch == '(' || ch == '[' || ch == '{' {
            Ok(Some((stream.consumed_chars(state, 1, 1), Self::OpenBra(pos, ch))))
        } else if ch == ')' || ch == ']' || ch == '}' {
            Ok(Some((stream.consumed_chars(state, 1, 1), Self::CloseBra(pos, ch))))
        } else {
            Ok(Some((stream.consumed_char(state, ch), Self::Char(pos, ch))))
        }
    }

    /// Match a run of decimal digits.
    pub fn parse_digits<E: LexerError<P>>(
        stream: &LexerOfStr<P, Self, E>,
        state: P,
        ch: char,
    ) -> (r: LexerParseResult<P, Self, E>)
        requires
            stream.wf(),
            stream.pos_valid(state),
            stream.pos_char_idx(state) < stream.spec_chars().len(),
            ch == stream.spec_chars()[stream.pos_char_idx(state)],
        ensures
            !spec_is_digit(ch) ==> r == Ok::<Option<(P, Self)>, E>(None),
            spec_is_digit(ch) ==> (r matches Ok(step) && step matches Some((s2, t)) && {
                &&& stream.pos_valid(s2)
                &&& ({
                    let n = stream.pos_char_idx(s2) - stream.pos_char_idx(state);
                    &&& 1 <= n
                    &&& stream.pos_char_idx(state) + n <= stream.spec_chars().len()
                    &&& forall|k: int|
                        0 <= k < n ==> spec_is_digit(
                            #[trigger] stream.spec_chars()[stream.pos_char_idx(state) + k],
                        )
                    &&& (stream.pos_char_idx(state) + n == stream.spec_chars().len()
                        || !spec_is_digit(stream.spec_chars()[stream.pos_char_idx(state) + n]))
                })
                &&& (t matches SimpleToken::Digits(span) && span.spec_start() == state
                    && span.spec_end() == s2)
            }),
    {
        let pred = |n: usize, c: char| -> (b: bool)
            ensures
                b == spec_is_digit(c),
            { (c as u32) >= 48 && (c as u32) <= 57 };
        match stream.do_while(state, ch, &pred) {
            (s2, Some((pos, _n))) => {
                proof {
                    let ci = stream.pos_char_idx(state);
                    let n = stream.pos_char_idx(s2) - ci;
                    assert forall|k: int|
                        0 <= k < n implies spec_is_digit(
                        #[trigger] stream.spec_chars()[ci + k],
                    ) by {
                        assert(call_ensures(pred, ((k as usize), stream.spec_chars()[ci + k]), true));
                    }
                    if ci + n != stream.spec_chars().len() {
                        assert(call_ensures(pred, ((n as usize), stream.spec_chars()[ci + n]), false));
                    }
                    assert(spec_is_digit(stream.spec_chars()[ci + 0]));
                    assert(spec_is_digit(ch));
                }
                let span = StreamCharSpan::new(pos, s2);
                Ok(Some((s2, SimpleToken::Digits(span))))
            },
            (_, None) => {
                proof {
                    assert(call_ensures(pred, (0usize, ch), false));
                }
                Ok(None)
            },
        }
    }

    /// Match a run of spaces and tabs.
    pub fn parse_whitespace<E: LexerError<P>>(
        stream: &LexerOfStr<P, Self, E>,
        state: P,
        ch: char,
    ) -> (r: LexerParseResult<P, Self, E>)
        requires
            stream.wf(),
            stream.pos_valid(state),
            stream.pos_char_idx(state) < stream.spec_chars().len(),
            ch == stream.spec_chars()[stream.pos_char_idx(state)],
        ensures
            !spec_is_simple_ws(ch) ==> r == Ok::<Option<(P, Self)>, E>(None),
            spec_is_simple_ws(ch) ==> (r matches Ok(step) && step matches Some((s2, t)) && {
                &&& stream.pos_valid(s2)
                &&& ({
                    let n = stream.pos_char_idx(s2) - stream.pos_char_idx(state);
                    &&& 1 <= n
                    &&& stream.pos_char_idx(state) + n <= stream.spec_chars().len()
                    &&& forall|k: int|
                        0 <= k < n ==> spec_is_simple_ws(
                            #[trigger] stream.spec_chars()[stream.pos_char_idx(state) + k],
                        )
                    &&& (stream.pos_char_idx(state) + n == stream.spec_chars().len()
                        || !spec_is_simple_ws(stream.spec_chars()[stream.pos_char_idx(state) + n]))
                })
                &&& (t matches SimpleToken::Whitespace(span) && span.spec_start() == state
                    && span.spec_end() == s2)
            }),
    {
        let pred = |n: usize, c: char| -> (b: bool)
            ensures
                b == spec_is_simple_ws(c),
            { c == ' ' || c == '\t' };
        match stream.do_while(state, ch, &pred) {
            (s2, Some((pos, _n))) => {
                proof {
                    let ci = stream.pos_char_idx(state);
                    let n = stream.pos_char_idx(s2) - ci;
                    assert forall|k: int|
                        0 <= k < n implies spec_is_simple_ws(
                        #[trigger] stream.spec_chars()[ci + k],
                    ) by {
                        assert(call_ensures(pred, ((k as usize), stream.spec_chars()[ci + k]), true));
                    }
                    if ci + n != stream.spec_chars().len() {
                        assert(call_ensures(pred, ((n as usize), stream.spec_chars()[ci + n]), false));
                    }
                    assert(spec_is_simple_ws(stream.spec_chars()[ci + 0]));
                    assert(spec_is_simple_ws(ch));
                }
                let span = StreamCharSpan::new(pos, s2);
                Ok(Some((s2, SimpleToken::Whitespace(span))))
            },
            (_, None) => {
                proof {
                    assert(call_ensures(pred, (0usize, ch), false));
                }
                Ok(None)
            },
        }
    }

    /// Match a comment line: `//` and anything up to (and not
    /// including) a newline.
    pub fn parse_comment_line<E: LexerError<P>>(
        stream: &LexerOfStr<P, Self, E>,
        state: P,
        ch: char,
    ) -> (r: LexerParseResult<P, Self, E>)
        requires
            stream.wf(),
            stream.pos_valid(state),
            stream.pos_char_idx(state) < stream.spec_chars().len(),
            ch == stream.spec_chars()[stream.pos_char_idx(state)],
        ensures
            ch != '/' ==> r == Ok::<Option<(P, Self)>, E>(None),
            ch == '/' ==> (r matches Ok(step) && step matches Some((s2, t)) && {
                &&& stream.pos_valid(s2)
                &&& ({
                    let n = stream.pos_char_idx(s2) - stream.pos_char_idx(state);
                    &&& 1 <= n
                    &&& stream.pos_char_idx(state) + n <= stream.spec_chars().len()
                    &&& forall|k: int|
                        0 <= k < n ==> spec_is_comment(
                            k,
                            #[trigger] stream.spec_chars()[stream.pos_char_idx(state) + k],
                        )
                    &&& (stream.pos_char_idx(state) + n == stream.spec_chars().len()
                        || !spec_is_comment(
                        n,
                        stream.spec_chars()[stream.pos_char_idx(state) + n],
                    ))
                })
                &&& (t matches SimpleToken::CommentLine(span) && span.spec_start() == state
                    && span.spec_end() == s2)
            }),
    {
        let pred = |n: usize, c: char| -> (b: bool)
            ensures
                b == spec_is_comment(n as int, c),
            { (n < 2 && c == '/') || (n >= 2 && c != '\n') };
        match stream.do_while(state, ch, &pred) {
            (s2, Some((pos, _n))) => {
                proof {
                    let ci = stream.pos_char_idx(state);
                    let n = stream.pos_char_idx(s2) - ci;
                    assert forall|k: int|
                        0 <= k < n implies spec_is_comment(
                        k,
                        #[trigger] stream.spec_chars()[ci + k],
                    ) by {
                        assert(call_ensures(pred, ((k as usize), stream.spec_chars()[ci + k]), true));
                    }
                    if ci + n != stream.spec_chars().len() {
                        assert(call_ensures(pred, ((n as usize), stream.spec_chars()[ci + n]), false));
                    }
                    assert(spec_is_comment(0, stream.spec_chars()[ci + 0]));
                    assert(ch == '/');
                }
                let span = StreamCharSpan::new(pos, s2);
                Ok(Some((s2, SimpleToken::CommentLine(span))))
            },
            (_, None) => {
                proof {
                    assert(call_ensures(pred, (0usize, ch), false));
                }
                Ok(None)
            },
        }
    }

    /// Match an identifier: a character accepted by `is_id_start`,
    /// then any characters accepted by `is_id`.
    pub fn parse_id<E: LexerError<P>, F1: Fn(char) -> bool + Copy, F2: Fn(char) -> bool + Copy>(
        stream: &LexerOfStr<P, Self, E>,
        state: P,
        ch: char,
        is_id_start: F1,
        is_id: F2,
    ) -> (r: LexerParseResult<P, Self, E>)
        requires
            stream.wf(),
            stream.pos_valid(state),
            stream.pos_char_idx(state) < stream.spec_chars().len(),
            ch == stream.spec_chars()[stream.pos_char_idx(state)],
            forall|c: char| call_requires(is_id_start, (c,)),
            forall|c: char| call_requires(is_id, (c,)),
        ensures
            r matches Ok(step) ==> match step {
                None => call_ensures(is_id_start, (ch,), false),
                Some((s2, t)) => {
                    &&& stream.pos_valid(s2)
                    &&& call_ensures(is_id_start, (ch,), true)
                    &&& ({
                        let n = stream.pos_char_idx(s2) - stream.pos_char_idx(state);
                        &&& 1 <= n
                        &&& stream.pos_char_idx(state) + n <= stream.spec_chars().len()
                        &&& forall|k: int|
                            1 <= k < n ==> call_ensures(
                                is_id,
                                (#[trigger] stream.spec_chars()[stream.pos_char_idx(state) + k],),
                                true,
                            )
                    })
                    &&& (t matches SimpleToken::Id(span) && span.spec_start() == state
                        && span.spec_end() == s2)
                },
            },
            r is Ok,
    {
        let pred = |n: usize, c: char| -> (b: bool)
            requires
                call_requires(is_id_start, (c,)),
                call_requires(is_id, (c,)),
            ensures
                n == 0 ==> call_ensures(is_id_start, (c,), b),
                n != 0 && b ==> call_ensures(is_id, (c,), true),
            {
                if n == 0 {
                    is_id_start(c)
                } else {
                    is_id(c)
                }
            };
        match stream.do_while(state, ch, &pred) {
            (s2, Some((pos, _n))) => {
                proof {
                    let ci = stream.pos_char_idx(state);
                    let n = stream.pos_char_idx(s2) - ci;
                    let k0: int = 0;
                    assert(call_ensures(pred, ((k0 as usize), stream.spec_chars()[ci + k0]), true));
                    assert(call_ensures(is_id_start, (ch,), true));
                    assert forall|k: int|
                        1 <= k < n implies call_ensures(
                        is_id,
                        (#[trigger] stream.spec_chars()[ci + k],),
                        true,
                    ) by {
                        assert(call_ensures(pred, ((k as usize), stream.spec_chars()[ci + k]), true));
                    }
                }
                let span = StreamCharSpan::new(pos, s2);
                Ok(Some((s2, SimpleToken::Id(span))))
            },
            (_, None) => {
                proof {
                    assert(call_ensures(pred, (0usize, ch), false));
                }
                Ok(None)
            },
        }
    }

    /// Match one of the supplied keywords, tried in order; each
    /// keyword is an ASCII byte string (without newlines) paired with
    /// the value to attach to its token.
    pub fn parse_keyword<E: LexerError<P>>(
        stream: &LexerOfStr<P, Self, E>,
        state: P,
        _ch: char,
        keywords: &[(&[u8], K)],
    ) -> (r: LexerParseResult<P, Self, E>)
        requires
            stream.wf(),
            stream.pos_valid(state),
            forall|i: int, j: int|
                0 <= i < keywords@.len() && 0 <= j < keywords@[i].0@.len()
                    ==> #[trigger] keywords@[i].0@[j] < 128,
        ensures
            r matches Ok(step) ==> match step {
                None => forall|i: int|
                    0 <= i < keywords@.len() ==> !stream.spec_bytes_match(
                        state,
                        #[trigger] keywords@[i].0@,
                    ),
                Some((s2, t)) => exists|i: int|
                    {
                        &&& 0 <= i < keywords@.len()
                        &&& #[trigger] stream.spec_bytes_match(state, keywords@[i].0@)
                        &&& forall|j: int|
                            0 <= j < i ==> !stream.spec_bytes_match(
                                state,
                                #[trigger] keywords@[j].0@,
                            )
                        &&& t == SimpleToken::<P, K>::Keyword(state, keywords@[i].1)
                        &&& s2 == state.spec_advance_cols(
                            keywords@[i].0@.len() as usize,
                            keywords@[i].0@.len() as usize,
                        )
                        &&& stream.pos_valid(s2)
                        &&& stream.pos_char_idx(s2) == stream.pos_char_idx(state)
                            + keywords@[i].0@.len()
                    },
            },
            r is Ok,
    {
        let mut i: usize = 0;
        while i < keywords.len()
            invariant
                stream.wf(),
                stream.pos_valid(state),
                i <= keywords@.len(),
                forall|i0: int, j: int|
                    0 <= i0 < keywords@.len() && 0 <= j < keywords@[i0].0@.len()
                        ==> #[trigger] keywords@[i0].0@[j] < 128,
                forall|j: int|
                    0 <= j < i ==> !stream.spec_bytes_match(state, #[trigger] keywords@[j].0@),
            decreases keywords@.len() - i,
        {
            let (k, v) = keywords[i];
            if stream.matches_bytes(&state, k) {
                let n = k.len();
                let pos = state;
                proof {
                    stream.lemma_ascii_advance(state, k@);
                }
                let next = stream.consumed_chars(state, n, n);
                return Ok(Some((next, SimpleToken::Keyword(pos, v))));
            }
            i += 1;
        }
        Ok(None)
    }
}

} // verus!
