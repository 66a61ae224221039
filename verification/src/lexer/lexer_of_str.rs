//! A lexer borrowing a string slice.

use core::marker::PhantomData;

use vstd::prelude::*;
use vstd::string::StringSliceAdditionalSpecFns;
use vstd::string::StrSliceExecFns;
use vstd::utf8::encode_utf8;

use crate::char_stream::{char_at_ofs, char_index_of, char_len_utf8, is_boundary, spec_len_utf8};
use crate::char_stream::{
    lemma_ascii_run, lemma_boundary_bounds, lemma_boundary_end, lemma_boundary_in_prefix,
    lemma_boundary_step, lemma_boundary_zero, lemma_chars_le_bytes, lemma_chars_split,
    lemma_span_chars,
};
use crate::{LexerParseResult, PosnInCharStream, UserPosn};

verus! {

/// A lexer over a borrowed string slice, using an arbitrary stream
/// position type `P`, lexer token `T`, and lexer error `E`.
///
/// The lexer borrows the text for its whole lifetime and is cheap to
/// copy: it allocates nothing.
///
/// Parsing single tokens is provided by [`Self::parse`], which runs an
/// ordered list of token-matching functions at a position and takes
/// the first match; the matching functions themselves are built from
/// the character-stream primitives [`Self::peek_at`],
/// [`Self::do_while`], [`Self::matches_bytes`] and the `consumed` family
/// of position-advancing helpers.
///
/// Every position the lexer hands out stays on a UTF-8 character
/// boundary of the text: `Self::pos_valid` states this invariant, the
/// primitives require it of the positions they are given, and they
/// guarantee it of every position they return.
#[derive(Debug)]
pub struct LexerOfStr<'a, P, T, E>
    where P: PosnInCharStream,
{
    text: &'a str,
    end: usize,
    _phantom_posn: PhantomData<&'a P>,
    _phantom_token: PhantomData<&'a T>,
    _phantom_error: PhantomData<&'a E>,
}

impl<'a, P, T, E> Copy for LexerOfStr<'a, P, T, E> where P: PosnInCharStream {

}

impl<'a, P, T, E> Clone for LexerOfStr<'a, P, T, E>
    where P: PosnInCharStream,
{
    fn clone(&self) -> (r: Self)
        ensures
            r == *self,
    {
        *self
    }
}

impl<'a, P, T, E> LexerOfStr<'a, P, T, E>
    where P: PosnInCharStream,
{
    /// The characters of the borrowed text.
    pub closed spec fn spec_chars(&self) -> Seq<char> {
        self.text@
    }

    /// The UTF-8 bytes of the borrowed text.
    pub open spec fn spec_bytes(&self) -> Seq<u8> {
        encode_utf8(self.spec_chars())
    }

    /// The byte length of the borrowed text.
    pub open spec fn spec_byte_len(&self) -> int {
        self.spec_bytes().len() as int
    }

    /// True when the stream is well formed: its recorded end is the
    /// byte length of the text.  Every constructor establishes this.
    pub closed spec fn wf(&self) -> bool {
        self.end == self.text.spec_bytes().len()
    }

    /// True when `ofs` lies on a UTF-8 character boundary of the text,
    /// the end of the text included.
    pub closed spec fn ofs_valid(&self, ofs: int) -> bool {
        is_boundary(self.text, ofs)
    }

    /// The number of characters of the text that lie wholly before
    /// byte offset `ofs`.
    pub closed spec fn char_idx(&self, ofs: int) -> int {
        char_index_of(self.text, ofs)
    }

    /// True when the position lies on a UTF-8 character boundary of
    /// the text.  All positions the stream hands out satisfy this.
    pub open spec fn pos_valid(&self, state: P) -> bool {
        self.ofs_valid(state.spec_byte_ofs() as int)
    }

    /// The character index a position stands before.
    pub open spec fn pos_char_idx(&self, state: P) -> int {
        self.char_idx(state.spec_byte_ofs() as int)
    }

    /// A valid offset lies within the text, and its character index
    /// within the characters; offset 0 is valid, as is the text's
    /// byte length, where the character index is the character count.
    pub proof fn lemma_ofs_facts(&self, ofs: int)
        ensures
            self.ofs_valid(ofs) ==> 0 <= ofs <= self.spec_byte_len(),
            self.ofs_valid(ofs) ==> 0 <= self.char_idx(ofs) <= self.spec_chars().len(),
            self.ofs_valid(ofs) && ofs < self.spec_byte_len() ==> self.char_idx(ofs)
                < self.spec_chars().len(),
            self.ofs_valid(ofs) && ofs == self.spec_byte_len() ==> self.char_idx(ofs)
                == self.spec_chars().len(),
            self.ofs_valid(0),
            self.char_idx(0) == 0,
            self.ofs_valid(self.spec_byte_len()),
            self.wf() ==> self.spec_byte_len() <= usize::MAX,
    {
        lemma_boundary_zero(self.text);
        lemma_boundary_end(self.text);
        if self.ofs_valid(ofs) {
            lemma_boundary_bounds(self.text, ofs);
            lemma_chars_split(self.text, ofs);
            if ofs < self.spec_byte_len() {
                lemma_boundary_step(self.text, ofs);
            }
        }
    }

    /// Create a new lexer borrowing a string slice.
    pub fn new(text: &'a str) -> (r: Self)
        ensures
            r.wf(),
            r.spec_chars() == text@,
    {
        let end = text.as_bytes().len();
        Self {
            text,
            end,
            _phantom_posn: PhantomData,
            _phantom_token: PhantomData,
            _phantom_error: PhantomData,
        }
    }

    /// Get the character at the byte offset of the state, or `None` at
    /// the end of the text.
    pub fn peek_at(&self, state: &P) -> (r: Option<char>)
        requires
            self.wf(),
            self.pos_valid(*state),
        ensures
            match r {
                Some(c) => {
                    &&& self.pos_char_idx(*state) < self.spec_chars().len()
                    &&& c == self.spec_chars()[self.pos_char_idx(*state)]
                    &&& (state.spec_byte_ofs() as int) < self.spec_byte_len()
                },
                None => state.spec_byte_ofs() == self.spec_byte_len(),
            },
    {
        char_at_ofs(self.text, state.byte_ofs())
    }

    /// Borrow `n` bytes of the text from byte offset `ofs`.
    pub fn range_as_bytes(&self, ofs: usize, n: usize) -> (r: &[u8])
        requires
            self.wf(),
            ofs + n <= self.spec_byte_len(),
        ensures
            r@ =~= self.spec_bytes().subrange(ofs as int, ofs + n),
    {
        let bytes = self.text.as_bytes();
        &bytes[ofs..ofs + n]
    }

    /// True when the bytes of the text starting at `state` are
    /// exactly `s`: the text is long enough, and the window of that
    /// length at the position equals `s`.
    pub open spec fn spec_bytes_match(&self, state: P, s: Seq<u8>) -> bool {
        &&& state.spec_byte_ofs() + s.len() <= self.spec_byte_len()
        &&& self.spec_bytes().subrange(
            state.spec_byte_ofs() as int,
            state.spec_byte_ofs() + s.len(),
        ) =~= s
    }

    /// Advancing over a run of ASCII bytes that match the text at a
    /// valid position lands on a character boundary again, one
    /// character per byte further on, and the characters stepped over
    /// are exactly those bytes.
    pub proof fn lemma_ascii_advance(&self, state: P, s: Seq<u8>)
        requires
            self.wf(),
            self.pos_valid(state),
            self.spec_bytes_match(state, s),
            forall|j: int| 0 <= j < s.len() ==> #[trigger] s[j] < 128,
        ensures
            self.pos_valid(state.spec_advance_cols(s.len() as usize, s.len() as usize)),
            self.pos_char_idx(state.spec_advance_cols(s.len() as usize, s.len() as usize))
                == self.pos_char_idx(state) + s.len(),
            state.spec_advance_cols(s.len() as usize, s.len() as usize).spec_byte_ofs()
                == state.spec_byte_ofs() + s.len(),
            self.pos_char_idx(state) + s.len() <= self.spec_chars().len(),
            forall|k: int|
                0 <= k < s.len() ==> (#[trigger] self.spec_chars()[self.pos_char_idx(state) + k]
                    as u32) == s[k] as u32,
    {
        let ofs = state.spec_byte_ofs() as int;
        let n = s.len() as int;
        assert forall|k: int| 0 <= k < n implies #[trigger] self.text.spec_bytes()[ofs + k]
            < 128 by {
            assert(self.spec_bytes().subrange(ofs, ofs + n)[k] == self.text.spec_bytes()[ofs + k]);
            assert(s[k] < 128);
        }
        lemma_ascii_run(self.text, ofs, n);
        state.lemma_advance_cols_byte_ofs(s.len() as usize, s.len() as usize);
    }

    /// True when the text at the byte offset of `state` starts with
    /// the byte slice `s`; false when it differs, or when `s` would
    /// run past the end of the text.
    pub fn matches_bytes(&self, state: &P, s: &[u8]) -> (r: bool)
        requires
            self.wf(),
        ensures
            r == self.spec_bytes_match(*state, s@),
    {
        let n = s.len();
        let byte_ofs = state.byte_ofs();
        if byte_ofs > self.end || n > self.end - byte_ofs {
            return false;
        }
        let window = self.range_as_bytes(byte_ofs, n);
        let mut i: usize = 0;
        while i < n
            invariant
                self.wf(),
                byte_ofs == state.spec_byte_ofs(),
                byte_ofs + n <= self.spec_byte_len(),
                n == s@.len(),
                n == window@.len(),
                window@ =~= self.spec_bytes().subrange(byte_ofs as int, byte_ofs + n),
                i <= n,
                forall|j: int| 0 <= j < i ==> window@[j] == s@[j],
            decreases n - i,
        {
            if window[i] != s[i] {
                proof {
                    assert(self.spec_bytes().subrange(byte_ofs as int, byte_ofs + n)[i as int]
                        != s@[i as int]);
                }
                return false;
            }
            i += 1;
        }
        proof {
            assert(window@ =~= s@);
        }
        true
    }

    /// Every position the stream accepts or hands out indexes a valid
    /// UTF-8 scalar boundary of the text: slicing the text at its byte
    /// offset is always well defined.
    pub proof fn lemma_pos_on_boundary(&self, state: P)
        requires
            self.wf(),
            self.pos_valid(state),
        ensures
            vstd::utf8::is_char_boundary(self.spec_bytes(), state.spec_byte_ofs() as int),
            0 <= state.spec_byte_ofs() <= self.spec_byte_len(),
    {
        lemma_boundary_bounds(self.text, state.spec_byte_ofs() as int);
    }

    /// The texts of adjacent spans concatenate: for positions `a`,
    /// `b`, `c` on character boundaries and in order, extracting the
    /// span from `a` to `b` and the span from `b` to `c` and
    /// concatenating them gives exactly the span from `a` to `c`.
    pub proof fn lemma_span_concat(&self, a: int, b: int, c: int)
        requires
            self.wf(),
            self.ofs_valid(a),
            self.ofs_valid(b),
            self.ofs_valid(c),
            a <= b <= c,
        ensures
            self.char_idx(a) <= self.char_idx(b) <= self.char_idx(c) <= self.spec_chars().len(),
            self.spec_chars().subrange(self.char_idx(a), self.char_idx(b)) + self.spec_chars()
                .subrange(self.char_idx(b), self.char_idx(c)) =~= self.spec_chars().subrange(
                self.char_idx(a),
                self.char_idx(c),
            ),
    {
        lemma_boundary_bounds(self.text, a);
        lemma_boundary_bounds(self.text, b);
        lemma_boundary_bounds(self.text, c);
        lemma_span_chars(self.text, a, b);
        lemma_span_chars(self.text, b, c);
        lemma_span_chars(self.text, a, c);
    }

    /// The concatenation of the texts of the spans cut at the given
    /// offsets, from the `k`-th cut on.
    pub open spec fn spec_concat_spans(&self, cuts: Seq<int>, k: int) -> Seq<char>
        decreases cuts.len() - k,
    {
        if k < 0 || k + 1 >= cuts.len() {
            Seq::empty()
        } else {
            self.spec_chars().subrange(self.char_idx(cuts[k]), self.char_idx(cuts[k + 1]))
                + self.spec_concat_spans(cuts, k + 1)
        }
    }

    /// Span extraction round-trip: when a sequence of cuts on
    /// character boundaries starts at offset 0, ends at the end of the
    /// text, and never goes backwards, the concatenation of the texts
    /// of the successive spans reassembles the whole text.
    pub proof fn lemma_span_cover(&self, cuts: Seq<int>)
        requires
            self.wf(),
            cuts.len() >= 1,
            cuts[0] == 0,
            cuts.last() == self.spec_byte_len(),
            forall|k: int| 0 <= k < cuts.len() ==> self.ofs_valid(#[trigger] cuts[k]),
            forall|k: int| 0 <= k < cuts.len() - 1 ==> #[trigger] cuts[k] <= cuts[k + 1],
        ensures
            self.spec_concat_spans(cuts, 0) =~= self.spec_chars(),
    {
        self.lemma_span_cover_from(cuts, 0);
        self.lemma_ofs_facts(0);
        assert(self.spec_chars().subrange(0, self.spec_chars().len() as int) =~= self.spec_chars());
    }

    /// The spans from the `k`-th cut on reassemble the text from that
    /// cut's character index to the end.
    proof fn lemma_span_cover_from(&self, cuts: Seq<int>, k: int)
        requires
            self.wf(),
            cuts.len() >= 1,
            0 <= k <= cuts.len() - 1,
            cuts.last() == self.spec_byte_len(),
            forall|j: int| 0 <= j < cuts.len() ==> self.ofs_valid(#[trigger] cuts[j]),
            forall|j: int| 0 <= j < cuts.len() - 1 ==> #[trigger] cuts[j] <= cuts[j + 1],
        ensures
            self.spec_concat_spans(cuts, k) =~= self.spec_chars().subrange(
                self.char_idx(cuts[k]),
                self.spec_chars().len() as int,
            ),
        decreases cuts.len() - k,
    {
        self.lemma_ofs_facts(cuts[k]);
        if k + 1 >= cuts.len() {
            assert(cuts[k] == self.spec_byte_len());
            self.lemma_ofs_facts(self.spec_byte_len());
        } else {
            self.lemma_span_cover_from(cuts, k + 1);
            self.lemma_ofs_facts(cuts[k + 1]);
            lemma_span_chars(self.text, cuts[k], cuts[k + 1]);
        }
    }

    /// The position after consuming the single character `c` at
    /// `state`: over a newline the line advances, over any other
    /// character the column advances.
    pub open spec fn spec_consume_char(&self, state: P, c: char) -> P {
        if c == '\n' {
            state.spec_advance_line(1)
        } else {
            state.spec_advance_cols(spec_len_utf8(c) as usize, 1)
        }
    }

    /// Consuming the character actually at a valid position keeps the
    /// position on a character boundary, one character further on.
    pub proof fn lemma_consume_char_valid(&self, state: P, c: char)
        requires
            self.wf(),
            self.pos_valid(state),
            self.pos_char_idx(state) < self.spec_chars().len(),
            c == self.spec_chars()[self.pos_char_idx(state)],
        ensures
            self.pos_valid(self.spec_consume_char(state, c)),
            self.spec_consume_char(state, c).spec_byte_ofs() == state.spec_byte_ofs()
                + spec_len_utf8(c),
            self.pos_char_idx(self.spec_consume_char(state, c)) == self.pos_char_idx(state) + 1,
    {
        let ofs = state.spec_byte_ofs() as int;
        self.lemma_ofs_facts(ofs);
        lemma_boundary_step(self.text, ofs);
        if c == '\n' {
            state.lemma_advance_line_byte_ofs(1);
            assert(spec_len_utf8('\n') == 1) by {
                vstd::utf8::char_is_scalar('\n');
                assert('\n' as u32 == 10);
            }
        } else {
            state.lemma_advance_cols_byte_ofs(spec_len_utf8(c) as usize, 1);
        }
    }

    /// Get the stream state after consuming the character `ch` at its
    /// current state.
    pub fn consumed_char(&self, state: P, ch: char) -> (r: P)
        ensures
            r == self.spec_consume_char(state, ch),
    {
        if ch == '\n' {
            state.advance_line(1)
        } else {
            proof {
                vstd::utf8::char_is_scalar(ch);
            }
            state.advance_cols(char_len_utf8(ch), 1)
        }
    }

    /// Get the stream state after consuming a newline of `num_bytes`
    /// bytes at its current state.
    pub fn consumed_newline(&self, state: P, num_bytes: usize) -> (r: P)
        ensures
            r == state.spec_advance_line(num_bytes),
            r.spec_byte_ofs() == state.spec_byte_ofs().wrapping_add(num_bytes),
    {
        proof {
            state.lemma_advance_line_byte_ofs(num_bytes);
        }
        state.advance_line(num_bytes)
    }

    /// Get the stream state after consuming a string of `num_bytes`
    /// bytes forming `num_chars` characters, none of them a newline.
    pub fn consumed_chars(&self, state: P, num_bytes: usize, num_chars: usize) -> (r: P)
        ensures
            r == state.spec_advance_cols(num_bytes, num_chars),
            r.spec_byte_ofs() == state.spec_byte_ofs().wrapping_add(num_bytes),
    {
        proof {
            state.lemma_advance_cols_byte_ofs(num_bytes, num_chars);
        }
        state.advance_cols(num_bytes, num_chars)
    }

    /// Get the stream state after consuming the ASCII string `s`,
    /// which must contain no newline.
    pub fn consumed_ascii_str(&self, state: P, s: &str) -> (r: P)
        ensures
            r == state.spec_advance_cols(
                s.spec_bytes().len() as usize,
                s.spec_bytes().len() as usize,
            ),
            r.spec_byte_ofs() == state.spec_byte_ofs().wrapping_add(
                s.spec_bytes().len() as usize,
            ),
    {
        let n = s.as_bytes().len();
        proof {
            state.lemma_advance_cols_byte_ofs(n, n);
        }
        state.advance_cols(n, n)
    }

    /// The state after consuming up to `n` characters, stopping early
    /// at the end of the text.
    pub open spec fn spec_consumed(&self, state: P, n: nat) -> P
        decreases n,
    {
        if n == 0 {
            state
        } else if self.pos_char_idx(state) < self.spec_chars().len() {
            self.spec_consumed(
                self.spec_consume_char(state, self.spec_chars()[self.pos_char_idx(state)]),
                (n - 1) as nat,
            )
        } else {
            state
        }
    }

    /// Move the stream state forward by `num_chars` characters,
    /// stopping early at the end of the text.
    pub fn consumed(&self, state: P, num_chars: usize) -> (r: P)
        requires
            self.wf(),
            self.pos_valid(state),
        ensures
            r == self.spec_consumed(state, num_chars as nat),
            self.pos_valid(r),
    {
        let mut cur = state;
        let mut k: usize = 0;
        while k < num_chars
            invariant
                self.wf(),
                self.pos_valid(cur),
                k <= num_chars,
                self.spec_consumed(state, num_chars as nat) == self.spec_consumed(
                    cur,
                    (num_chars - k) as nat,
                ),
            decreases num_chars - k,
        {
            match self.peek_at(&cur) {
                Some(c) => {
                    proof {
                        self.lemma_consume_char_valid(cur, c);
                    }
                    cur = self.consumed_char(cur, c);
                },
                None => {
                    proof {
                        self.lemma_ofs_facts(cur.spec_byte_ofs() as int);
                        assert(self.spec_consumed(cur, (num_chars - k) as nat) == cur);
                    }
                    return cur;
                },
            }
            k += 1;
        }
        cur
    }

    /// Get the text between the two positions `start` (inclusive) and
    /// `end` (exclusive).
    pub fn get_text(&self, start: P, end: P) -> (r: &'a str)
        requires
            self.wf(),
            self.pos_valid(start),
            self.pos_valid(end),
            start.spec_byte_ofs() <= end.spec_byte_ofs(),
        ensures
            r@ =~= self.spec_chars().subrange(self.pos_char_idx(start), self.pos_char_idx(end)),
            r.spec_bytes() =~= self.spec_bytes().subrange(
                start.spec_byte_ofs() as int,
                end.spec_byte_ofs() as int,
            ),
    {
        let s_ofs = start.byte_ofs();
        let e_ofs = end.byte_ofs();
        let (head, _tail) = self.text.split_at(e_ofs);
        proof {
            lemma_boundary_bounds(self.text, e_ofs as int);
            lemma_boundary_in_prefix(self.text, s_ofs as int, e_ofs as int);
            assert(head.spec_bytes() =~= self.spec_bytes().subrange(0, e_ofs as int));
        }
        let (_pre, r) = head.split_at(s_ofs);
        proof {
            assert(r.spec_bytes() =~= self.spec_bytes().subrange(s_ofs as int, e_ofs as int));
            lemma_span_chars(self.text, s_ofs as int, e_ofs as int);
            vstd::utf8::encode_utf8_decode_utf8(r@);
        }
        r
    }

    /// Get the text of a span whose positions were handed out by this
    /// stream.
    pub fn get_text_span(&self, span: &crate::StreamCharSpan<P>) -> (r: &'a str)
        requires
            self.wf(),
            self.pos_valid(span.spec_start()),
            self.pos_valid(span.spec_end()),
            span.wf(),
        ensures
            r@ =~= self.spec_chars().subrange(
                self.pos_char_idx(span.spec_start()),
                self.pos_char_idx(span.spec_end()),
            ),
            r.spec_bytes() =~= self.spec_bytes().subrange(
                span.spec_start().spec_byte_ofs() as int,
                span.spec_end().spec_byte_ofs() as int,
            ),
    {
        let start = *span.start();
        let end = *span.end();
        self.get_text(start, end)
    }

    /// Step along the stream starting at the provided state (and the
    /// character `ch` found there) while the provided function returns
    /// true; the function is given the index and character (starting
    /// at 0 and `ch`), and returns true when the token continues.
    ///
    /// If the very first invocation of `f` returns false the token
    /// does not match: the state comes back unchanged, with `None`.
    ///
    /// If the first `n` invocations (more than zero) return true, the
    /// result is the stream state after the matched characters, with
    /// the initial state and `n`; the scan stopped either at the end
    /// of the text or on the first rejected character.
    ///
    /// This can be used to match whitespace runs, digit runs, or
    /// identifiers; the text can then be retrieved with
    /// [`Self::get_text`].
    pub fn do_while<F: Fn(usize, char) -> bool>(&self, state: P, ch: char, f: &F) -> (r: (
        P,
        Option<(P, usize)>,
    ))
        requires
            self.wf(),
            self.pos_valid(state),
            self.pos_char_idx(state) < self.spec_chars().len(),
            ch == self.spec_chars()[self.pos_char_idx(state)],
            forall|n: usize, c: char| call_requires(*f, (n, c)),
        ensures
            match r.1 {
                None => r.0 == state && call_ensures(*f, (0usize, ch), false),
                Some((start, n)) => {
                    &&& start == state
                    &&& 1 <= n
                    &&& self.pos_char_idx(state) + n <= self.spec_chars().len()
                    &&& forall|k: int|
                        0 <= k < n ==> #[trigger] call_ensures(
                            *f,
                            ((k as usize), self.spec_chars()[self.pos_char_idx(state) + k]),
                            true,
                        )
                    &&& (self.pos_char_idx(state) + n == self.spec_chars().len() || call_ensures(
                        *f,
                        ((n as usize), self.spec_chars()[self.pos_char_idx(state) + n]),
                        false,
                    ))
                    &&& self.pos_valid(r.0)
                    &&& self.pos_char_idx(r.0) == self.pos_char_idx(state) + n
                    &&& state.spec_byte_ofs() <= r.0.spec_byte_ofs() <= self.spec_byte_len()
                    &&& r.0 == state.spec_advance_cols(
                        (r.0.spec_byte_ofs() - state.spec_byte_ofs()) as usize,
                        n as usize,
                    )
                },
            },
    {
        if !f(0, ch) {
            return (state, None);
        }
        let ghost ci0 = self.pos_char_idx(state);
        let ofs0 = state.byte_ofs();
        proof {
            self.lemma_ofs_facts(ofs0 as int);
            lemma_boundary_step(self.text, ofs0 as int);
        }
        let mut n: usize = 1;
        let mut ofs: usize = ofs0 + char_len_utf8(ch);
        loop
            invariant
                self.wf(),
                self.pos_valid(state),
                ofs0 == state.spec_byte_ofs(),
                ci0 == self.pos_char_idx(state),
                self.ofs_valid(ofs as int),
                ofs0 <= ofs <= self.spec_byte_len(),
                self.char_idx(ofs as int) == ci0 + n,
                1 <= n,
                ci0 + n <= self.spec_chars().len(),
                forall|k: int|
                    0 <= k < n ==> #[trigger] call_ensures(
                        *f,
                        ((k as usize), self.spec_chars()[ci0 + k]),
                        true,
                    ),
                forall|m: usize, c: char| call_requires(*f, (m, c)),
            decreases self.spec_byte_len() - ofs,
        {
            proof {
                self.lemma_ofs_facts(ofs as int);
            }
            let next = char_at_ofs(self.text, ofs);
            let stop = match next {
                None => true,
                Some(c) => !f(n, c),
            };
            if stop {
                let num_bytes = ofs - ofs0;
                proof {
                    state.lemma_advance_cols_byte_ofs(num_bytes, n);
                }
                let end_state = state.advance_cols(num_bytes, n);
                return (end_state, Some((state, n)));
            }
            proof {
                lemma_boundary_step(self.text, ofs as int);
                lemma_chars_le_bytes(self.text);
            }
            let c = next.unwrap();
            n = n + 1;
            ofs = ofs + char_len_utf8(c);
        }
    }

    /// True when the text at the byte offset of `pos` starts with the
    /// string `pat`; false when it differs, or when `pat` would run
    /// past the end of the text.
    pub fn matches_str(&self, pos: &P, pat: &str) -> (r: bool)
        requires
            self.wf(),
        ensures
            r == self.spec_bytes_match(*pos, pat.spec_bytes()),
    {
        self.matches_bytes(pos, pat.as_bytes())
    }
}

impl<'a, P, T, E> crate::Lexer for LexerOfStr<'a, P, T, E>
    where P: PosnInCharStream,
{
    type Token = T;

    type State = P;

    type Error = E;
}

impl<'a, P, T, E> LexerOfStr<'a, P, T, E>
    where P: PosnInCharStream, E: crate::LexerError<P>,
{
    /// True when every matcher before index `k` in the ordered list
    /// mismatched (returned `Ok(None)`) on the character `ch` at
    /// `state`.
    pub open spec fn spec_mismatch_before<F: Fn(&Self, P, char) -> LexerParseResult<P, T, E>>(
        &self,
        state: P,
        ch: char,
        parsers: Seq<F>,
        k: int,
    ) -> bool {
        forall|j: int|
            0 <= j < k ==> call_ensures(parsers[j], (self, state, ch), Ok::<Option<(P, T)>, E>(None))
    }

    /// The parse outcomes the ordered matcher list allows on the
    /// character `ch` at `state`: the result of the first matcher that
    /// matches or fails - every matcher before it mismatched - or, when
    /// every matcher mismatches, the failed-to-parse error.
    ///
    /// Ordering is significant: the dispatcher never reorders or
    /// backtracks across matchers, so whichever matcher stands earlier
    /// in the caller's list wins, whatever the later ones would say.
    pub open spec fn spec_parse_outcome<F: Fn(&Self, P, char) -> LexerParseResult<P, T, E>>(
        &self,
        state: P,
        ch: char,
        parsers: Seq<F>,
        r: LexerParseResult<P, T, E>,
    ) -> bool {
        match r {
            Ok(Some(step)) => exists|k: int|
                0 <= k < parsers.len() && #[trigger] call_ensures(
                    parsers[k],
                    (self, state, ch),
                    Ok::<Option<(P, T)>, E>(Some(step)),
                ) && self.spec_mismatch_before(state, ch, parsers, k),
            Ok(None) => false,
            Err(e) => (exists|k: int|
                0 <= k < parsers.len() && #[trigger] call_ensures(
                    parsers[k],
                    (self, state, ch),
                    Err::<Option<(P, T)>, E>(e),
                ) && self.spec_mismatch_before(state, ch, parsers, k)) || (
            self.spec_mismatch_before(state, ch, parsers, parsers.len() as int) && e
                == E::spec_failed_to_parse(state, ch)),
        }
    }

    /// First-match-wins determinism: when every matcher in the ordered
    /// list is deterministic - on equal arguments it allows only one
    /// result - the dispatcher allows only one outcome at a position,
    /// the result of the earliest matcher that does not mismatch,
    /// whatever the matchers after it would have answered.
    pub proof fn lemma_first_match_wins<F: Fn(&Self, P, char) -> LexerParseResult<P, T, E>>(
        &self,
        state: P,
        ch: char,
        parsers: Seq<F>,
        r1: LexerParseResult<P, T, E>,
        r2: LexerParseResult<P, T, E>,
    )
        requires
            forall|k: int, ra: LexerParseResult<P, T, E>, rb: LexerParseResult<P, T, E>|
                0 <= k < parsers.len() && #[trigger] call_ensures(parsers[k], (self, state, ch), ra)
                    && #[trigger] call_ensures(parsers[k], (self, state, ch), rb) ==> ra == rb,
            self.spec_parse_outcome(state, ch, parsers, r1),
            self.spec_parse_outcome(state, ch, parsers, r2),
        ensures
            r1 == r2,
    {
        let (k1, x1) = self.outcome_witness(state, ch, parsers, r1);
        let (k2, x2) = self.outcome_witness(state, ch, parsers, r2);
        if k1 < k2 {
            assert(call_ensures(parsers[k1], (self, state, ch), Ok::<Option<(P, T)>, E>(None)));
        } else if k2 < k1 {
            assert(call_ensures(parsers[k2], (self, state, ch), Ok::<Option<(P, T)>, E>(None)));
        }
    }

    /// For an allowed outcome that is not the failed-to-parse error,
    /// the index of the matcher that produced it together with its
    /// result; for the failed-to-parse error, the list length.  In
    /// either case every matcher before the index mismatched.
    proof fn outcome_witness<F: Fn(&Self, P, char) -> LexerParseResult<P, T, E>>(
        &self,
        state: P,
        ch: char,
        parsers: Seq<F>,
        r: LexerParseResult<P, T, E>,
    ) -> (kx: (int, LexerParseResult<P, T, E>))
        requires
            self.spec_parse_outcome(state, ch, parsers, r),
        ensures
            0 <= kx.0 <= parsers.len(),
            self.spec_mismatch_before(state, ch, parsers, kx.0),
            kx.0 < parsers.len() ==> call_ensures(parsers[kx.0], (self, state, ch), kx.1) && r
                == kx.1 && !(kx.1 is Ok && kx.1 matches Ok(None)),
            kx.0 == parsers.len() ==> (r matches Err(e) && e == E::spec_failed_to_parse(state, ch)),
    {
        match r {
            Ok(Some(step)) => {
                let k = choose|k: int|
                    0 <= k < parsers.len() && #[trigger] call_ensures(
                        parsers[k],
                        (self, state, ch),
                        Ok::<Option<(P, T)>, E>(Some(step)),
                    ) && self.spec_mismatch_before(state, ch, parsers, k);
                (k, Ok(Some(step)))
            },
            Ok(None) => {
                assert(false);
                (0, r)
            },
            Err(e) => {
                if exists|k: int|
                    0 <= k < parsers.len() && #[trigger] call_ensures(
                        parsers[k],
                        (self, state, ch),
                        Err::<Option<(P, T)>, E>(e),
                    ) && self.spec_mismatch_before(state, ch, parsers, k) {
                    let k = choose|k: int|
                        0 <= k < parsers.len() && #[trigger] call_ensures(
                            parsers[k],
                            (self, state, ch),
                            Err::<Option<(P, T)>, E>(e),
                        ) && self.spec_mismatch_before(state, ch, parsers, k);
                    (k, Err(e))
                } else {
                    (parsers.len() as int, Err(e))
                }
            },
        }
    }

    /// Create an iterator over all the tokens of the text, starting
    /// from the default position, applying the ordered matcher list at
    /// the current position whenever its `next` method is invoked.
    pub fn iter_tokens<'b, F: Fn(&LexerOfStr<'b, P, T, E>, P, char) -> LexerParseResult<
        P,
        T,
        E,
    >>(&'b self, parsers: &'b [F]) -> (r: crate::ParserIterator<'b, P, T, E, F>)
        where P: Default,
        ensures
            call_ensures(P::default, (), r.spec_state()),
            r.spec_parsers() == parsers@,
            !r.spec_done(),
            r.spec_lexer().wf() == self.wf(),
            r.spec_lexer().spec_chars() == self.spec_chars(),
    {
        crate::ParserIterator::new(self, P::default(), parsers)
    }

    /// Attempt to parse the next token found at `state`, by applying
    /// the matchers in order and taking the first match.
    ///
    /// At the end of the text the result is `Ok(None)`.  Otherwise the
    /// result is the first matcher's match or error; if every matcher
    /// mismatches, the result is the failed-to-parse error carrying
    /// the offending character and its position.
    pub fn parse<F: Fn(&Self, P, char) -> LexerParseResult<P, T, E>>(
        &self,
        state: P,
        parsers: &[F],
    ) -> (r: LexerParseResult<P, T, E>)
        requires
            self.wf(),
            self.pos_valid(state),
            self.pos_char_idx(state) < self.spec_chars().len() ==> forall|k: int|
                0 <= k < parsers@.len() ==> call_requires(
                    #[trigger] parsers@[k],
                    (self, state, self.spec_chars()[self.pos_char_idx(state)]),
                ),
        ensures
            state.spec_byte_ofs() == self.spec_byte_len() ==> r == Ok::<Option<(P, T)>, E>(None),
            state.spec_byte_ofs() < self.spec_byte_len() ==> self.spec_parse_outcome(
                state,
                self.spec_chars()[self.pos_char_idx(state)],
                parsers@,
                r,
            ),
            state.spec_byte_ofs() <= self.spec_byte_len(),
    {
        proof {
            self.lemma_ofs_facts(state.spec_byte_ofs() as int);
        }
        match self.peek_at(&state) {
            None => Ok(None),
            Some(ch) => {
                let mut k: usize = 0;
                while k < parsers.len()
                    invariant
                        self.wf(),
                        self.pos_valid(state),
                        self.pos_char_idx(state) < self.spec_chars().len(),
                        state.spec_byte_ofs() < self.spec_byte_len(),
                        ch == self.spec_chars()[self.pos_char_idx(state)],
                        k <= parsers@.len(),
                        self.spec_mismatch_before(state, ch, parsers@, k as int),
                        forall|j: int|
                            0 <= j < parsers@.len() ==> call_requires(
                                #[trigger] parsers@[j],
                                (self, state, ch),
                            ),
                    decreases parsers@.len() - k,
                {
                    let p = &parsers[k];
                    match p(self, state, ch) {
                        Err(e) => {
                            return Err(e);
                        },
                        Ok(Some(step)) => {
                            return Ok(Some(step));
                        },
                        Ok(None) => {},
                    }
                    k += 1;
                }
                Err(E::failed_to_parse(state, ch))
            },
        }
    }
}

} // verus!
