//! Parser input traits and a slice-backed token stream.

use vstd::prelude::*;

verus! {

/// The bundle of types involved in one parse: the token consumed, the
/// error reported on a fatal failure, and the stream that yields the
/// tokens.
///
/// Grouping them in one trait lets clients name them once and lets the
/// combinator functions infer them from the stream value they are
/// given.
pub trait ParserInput: Sized {
    /// The type of tokens that are parsed; a stream of these is
    /// effectively the input to the parser.
    type Token;

    /// The error type that a parse returns on a fatal failure.
    type Error;

    /// The input type that provides the `get_token` function, by
    /// implementing [`ParserInputStream`].  It must be cheap to copy:
    /// parsers keep copies of it so that they can backtrack on
    /// mismatches simply by using the old value again.
    type Stream;
}

/// The capability a parser requires of its input: yield the next token
/// together with an advanced copy of the stream, or the end of the
/// input, or the fatal error of the underlying token source.
///
/// A stream is a pure value: what `get_token` yields is exactly
/// `spec_get` of the stream value, so reading never changes the stream
/// it is called on, and equal stream values always yield equal
/// results.  Backtracking is therefore free - a caller that still
/// holds an old stream value can resume from it as if nothing had been
/// read.
pub trait ParserInputStream<P: ParserInput<Stream = Self>>: Copy + Sized {
    /// True when the stream value is well formed; `get_token` may only
    /// be called on well-formed streams, and only yields well-formed
    /// streams.
    spec fn wf(&self) -> bool;

    /// What reading one token from this stream value yields.
    spec fn spec_get(&self) -> Result<Option<(Self, P::Token)>, P::Error>;

    /// How many tokens the stream can still yield, at most; reading a
    /// token strictly decreases it, so parsers that consume input can
    /// be shown to terminate.
    spec fn remaining(&self) -> nat;

    /// Reading from a well-formed stream yields a well-formed stream
    /// with strictly less remaining input.
    proof fn lemma_get_wf(&self)
        requires
            self.wf(),
        ensures
            self.spec_get() matches Ok(step) ==> (step matches Some((s, t)) ==> s.wf()
                && s.remaining() < self.remaining()),
    ;

    /// Yield the next token and the advanced stream, or `None` at the
    /// end of the input, or the fatal error of the token source.
    fn get_token(&self) -> (r: Result<Option<(Self, P::Token)>, P::Error>)
        requires
            self.wf(),
        ensures
            r == self.spec_get(),
    ;
}

/// Backtracking purity: reading a token is a pure function of the
/// stream value.  A combinator receives the stream by value and cannot
/// mutate the caller's copy, so after any combinator mismatches, the
/// stream the caller still holds observes exactly what it observed
/// before the combinator ran.
pub proof fn lemma_backtracking_purity<P, I>(i1: I, i2: I)
    where P: ParserInput<Stream = I>, I: ParserInputStream<P>,
    requires
        i1 == i2,
    ensures
        i1.spec_get() == i2.spec_get(),
{
}

/// A parser input reading tokens from a borrowed slice, with an
/// optional terminal error standing where the slice ends.
///
/// This is the canonical way to parse the output of a lexer: collect
/// its tokens into a vector, keeping the fatal error, if the lexer
/// raised one, as the terminal error; every copy of the stream is just
/// an index into the shared slice.
#[derive(Debug)]
#[verifier::reject_recursive_types(T)]
#[verifier::reject_recursive_types(E)]
pub struct TokenStream<'a, T, E> {
    /// The tokens the stream reads from.
    pub tokens: &'a [T],
    /// The index of the next token to be read.
    pub idx: usize,
    /// The terminal error standing where the tokens end, if any.
    pub err: Option<E>,
}

impl<'a, T, E> Copy for TokenStream<'a, T, E> where E: Copy {

}

impl<'a, T, E> Clone for TokenStream<'a, T, E>
    where E: Copy,
{
    fn clone(&self) -> (r: Self)
        ensures
            r == *self,
    {
        *self
    }
}

impl<'a, T, E> TokenStream<'a, T, E>
    where T: Copy, E: Copy,
{
    /// The tokens the stream reads from.
    pub open spec fn spec_tokens(&self) -> Seq<T> {
        self.tokens@
    }

    /// The index of the next token to be read.
    pub open spec fn spec_idx(&self) -> int {
        self.idx as int
    }

    /// The terminal error standing where the tokens end, if any.
    pub open spec fn spec_err(&self) -> Option<E> {
        self.err
    }

    /// Create a stream reading the given tokens from the start; a
    /// terminal error, if given, stands where the tokens end.
    pub fn new(tokens: &'a [T], err: Option<E>) -> (r: Self)
        ensures
            r.spec_tokens() == tokens@,
            r.spec_idx() == 0,
            r.spec_err() == err,
            r.wf(),
    {
        Self { tokens, idx: 0, err }
    }
}

impl<'a, T, E> ParserInput for TokenStream<'a, T, E>
    where T: Copy, E: Copy,
{
    type Token = T;

    type Error = E;

    type Stream = Self;
}

impl<'a, T, E> ParserInputStream<TokenStream<'a, T, E>> for TokenStream<'a, T, E>
    where T: Copy, E: Copy,
{
    open spec fn wf(&self) -> bool {
        0 <= self.spec_idx() <= self.spec_tokens().len()
    }

    open spec fn spec_get(&self) -> Result<Option<(Self, T)>, E> {
        if self.spec_idx() < self.spec_tokens().len() {
            Ok(
                Some(
                    (
                        TokenStream {
                            tokens: self.tokens,
                            idx: (self.idx + 1) as usize,
                            err: self.err,
                        },
                        self.spec_tokens()[self.spec_idx()],
                    ),
                ),
            )
        } else {
            match self.spec_err() {
                Some(e) => Err(e),
                None => Ok(None),
            }
        }
    }

    open spec fn remaining(&self) -> nat {
        if self.spec_idx() <= self.spec_tokens().len() {
            (self.spec_tokens().len() - self.spec_idx()) as nat
        } else {
            0
        }
    }

    proof fn lemma_get_wf(&self) {
        vstd::slice::axiom_spec_len::<T>(self.tokens);
    }

    fn get_token(&self) -> (r: Result<Option<(Self, T)>, E>) {
        if self.idx < self.tokens.len() {
            let t = self.tokens[self.idx];
            Ok(Some((TokenStream { tokens: self.tokens, idx: self.idx + 1, err: self.err }, t)))
        } else {
            match self.err {
                Some(e) => Err(e),
                None => Ok(None),
            }
        }
    }
}

} // verus!
