//! An iterator-style adapter yielding the tokens of a lexer.

use vstd::prelude::*;

use crate::{LexerError, LexerOfStr, LexerParseResult, PosnInCharStream};

verus! {

/// A lazy, single-pass sequence of the tokens parsed from a lexer.
///
/// Each step runs the lexer's ordered matcher list at the current
/// position: on a match it yields the token and advances; at the end
/// of the input it stops, permanently; on a fatal error it yields the
/// error exactly once and then stops permanently.
#[verifier::reject_recursive_types(P)]
#[verifier::reject_recursive_types(T)]
#[verifier::reject_recursive_types(E)]
pub struct ParserIterator<'a, P, T, E, F>
    where
        P: PosnInCharStream,
        E: LexerError<P>,
        F: Fn(&LexerOfStr<'a, P, T, E>, P, char) -> LexerParseResult<P, T, E>,
{
    lexer: &'a LexerOfStr<'a, P, T, E>,
    state: P,
    parsers: &'a [F],
    done: bool,
}

impl<'a, P, T, E, F> ParserIterator<'a, P, T, E, F>
    where
        P: PosnInCharStream,
        E: LexerError<P>,
        F: Fn(&LexerOfStr<'a, P, T, E>, P, char) -> LexerParseResult<P, T, E>,
{
    /// The lexer whose text is being tokenized.
    pub closed spec fn spec_lexer(&self) -> LexerOfStr<'a, P, T, E> {
        *self.lexer
    }

    /// The position the next token will be parsed at.
    pub closed spec fn spec_state(&self) -> P {
        self.state
    }

    /// The ordered matcher list.
    pub closed spec fn spec_parsers(&self) -> Seq<F> {
        self.parsers@
    }

    /// True once the iterator has stopped permanently, after the end
    /// of the input or a fatal error.
    pub closed spec fn spec_done(&self) -> bool {
        self.done
    }

    /// True when the iterator can keep stepping: the lexer and its
    /// position are well formed, every matcher accepts every call, and
    /// every state a matcher hands back lies on a character boundary.
    pub open spec fn wf_iter(&self) -> bool {
        &&& self.spec_lexer().wf()
        &&& self.spec_lexer().pos_valid(self.spec_state())
        &&& forall|k: int, s: P, c: char|
            0 <= k < self.spec_parsers().len() ==> #[trigger] call_requires(
                self.spec_parsers()[k],
                (&self.spec_lexer(), s, c),
            )
        &&& forall|k: int, s: P, c: char, s2: P, t: T|
            0 <= k < self.spec_parsers().len() && #[trigger] call_ensures(
                self.spec_parsers()[k],
                (&self.spec_lexer(), s, c),
                Ok::<Option<(P, T)>, E>(Some((s2, t))),
            ) ==> self.spec_lexer().pos_valid(s2)
    }

    /// Create a new token iterator that parses the lexer's text from
    /// the given state with the given ordered matcher list.
    pub fn new(lexer: &'a LexerOfStr<'a, P, T, E>, state: P, parsers: &'a [F]) -> (r: Self)
        ensures
            r.spec_lexer() == *lexer,
            r.spec_state() == state,
            r.spec_parsers() == parsers@,
            !r.spec_done(),
    {
        Self { lexer, state, parsers, done: false }
    }

    /// Yield the next token, or `None` after the end of the input, or
    /// the fatal error that ends the tokenization.
    #[verifier::rlimit(60)]
    #[verifier::spinoff_prover]
    pub fn next(&mut self) -> (r: Option<Result<T, E>>)
        requires
            old(self).wf_iter(),
        ensures
            final(self).spec_lexer() == old(self).spec_lexer(),
            final(self).spec_parsers() == old(self).spec_parsers(),
            final(self).wf_iter(),
            old(self).spec_done() ==> r is None && *final(self) == *old(self),
            !old(self).spec_done() && r is None ==> {
                &&& old(self).spec_state().spec_byte_ofs()
                    == old(self).spec_lexer().spec_byte_len()
                &&& final(self).spec_done()
                &&& final(self).spec_state() == old(self).spec_state()
            },
            !old(self).spec_done() ==> (r matches Some(Ok(t)) ==> {
                &&& old(self).spec_lexer().spec_parse_outcome(
                    old(self).spec_state(),
                    old(self).spec_lexer().spec_chars()[old(self).spec_lexer().pos_char_idx(
                        old(self).spec_state(),
                    )],
                    old(self).spec_parsers(),
                    Ok(Some((final(self).spec_state(), t))),
                )
                &&& !final(self).spec_done()
            }),
            !old(self).spec_done() ==> (r matches Some(Err(e)) ==> {
                &&& old(self).spec_lexer().spec_parse_outcome(
                    old(self).spec_state(),
                    old(self).spec_lexer().spec_chars()[old(self).spec_lexer().pos_char_idx(
                        old(self).spec_state(),
                    )],
                    old(self).spec_parsers(),
                    Err(e),
                )
                &&& final(self).spec_done()
                &&& final(self).spec_state() == old(self).spec_state()
            }),
    {
        if self.done {
            return None;
        }
        proof {
            let l = *self.lexer;
            let c0 = l.spec_chars()[l.pos_char_idx(self.state)];
            assert forall|k: int| 0 <= k < self.parsers@.len() implies call_requires(
                #[trigger] self.parsers@[k],
                (self.lexer, self.state, c0),
            ) by {
                assert(call_requires(self.spec_parsers()[k], (&self.spec_lexer(), self.state, c0)));
            }
        }
        match self.lexer.parse(self.state, self.parsers) {
            Ok(Some((state, token))) => {
                proof {
                    let l = *self.lexer;
                    let c0 = l.spec_chars()[l.pos_char_idx(self.state)];
                    assert(l.spec_parse_outcome(
                        self.state,
                        c0,
                        self.parsers@,
                        Ok(Some((state, token))),
                    ));
                    let k = choose|k: int|
                        0 <= k < self.parsers@.len() && #[trigger] call_ensures(
                            self.parsers@[k],
                            (self.lexer, self.state, c0),
                            Ok::<Option<(P, T)>, E>(Some((state, token))),
                        ) && l.spec_mismatch_before(self.state, c0, self.parsers@, k);
                    assert(call_ensures(
                        self.spec_parsers()[k],
                        (&self.spec_lexer(), self.state, c0),
                        Ok::<Option<(P, T)>, E>(Some((state, token))),
                    ));
                    assert(l.pos_valid(state));
                }
                self.state = state;
                Some(Ok(token))
            },
            Ok(None) => {
                self.done = true;
                None
            },
            Err(e) => {
                self.done = true;
                Some(Err(e))
            },
        }
    }
}

} // verus!
