//! A byte offset within a stream paired with a user position.

use vstd::prelude::*;

use crate::{PosnInCharStream, UserPosn};

verus! {

/// The byte offset of a character within a stream, with an associated
/// user position that might also accurately provide line and column
/// numbers of the position.
#[derive(Debug, Copy, Clone, PartialEq, Eq, Hash)]
pub struct StreamCharPos<P>
    where P: UserPosn,
{
    /// The byte offset into the stream.
    pub byte_ofs: usize,
    /// The user position, tracking lines and columns if it chooses to.
    pub pos: P,
}

impl<P> Default for StreamCharPos<P>
    where P: UserPosn + Default,
{
    /// The position of the very start of a stream: byte offset 0, with
    /// the default user position.
    fn default() -> (r: Self)
        ensures
            r.spec_byte_ofs() == 0usize,
            call_ensures(P::default, (), r.spec_pos()),
    {
        Self { byte_ofs: 0, pos: P::default() }
    }
}

impl<P> StreamCharPos<P>
    where P: UserPosn,
{
    /// The user position that `self` includes.
    pub open spec fn spec_pos(&self) -> P {
        self.pos
    }

    /// Get the descriptive position that `self` includes; if that type
    /// provides them accurately, this can give the line number and
    /// column number of the position.
    pub fn pos(&self) -> (r: P)
        ensures
            r == self.spec_pos(),
    {
        self.pos
    }
}

impl<P> UserPosn for StreamCharPos<P>
    where P: UserPosn,
{
    open spec fn spec_line(&self) -> usize {
        self.pos.spec_line()
    }

    open spec fn spec_column(&self) -> usize {
        self.pos.spec_column()
    }

    open spec fn spec_advance_cols(&self, num_bytes: usize, num_chars: usize) -> Self {
        StreamCharPos {
            byte_ofs: self.byte_ofs.wrapping_add(num_bytes),
            pos: self.pos.spec_advance_cols(num_bytes, num_chars),
        }
    }

    open spec fn spec_advance_line(&self, num_bytes: usize) -> Self {
        StreamCharPos {
            byte_ofs: self.byte_ofs.wrapping_add(num_bytes),
            pos: self.pos.spec_advance_line(num_bytes),
        }
    }

    fn advance_cols(self, num_bytes: usize, num_chars: usize) -> Self {
        StreamCharPos {
            byte_ofs: self.byte_ofs.wrapping_add(num_bytes),
            pos: self.pos.advance_cols(num_bytes, num_chars),
        }
    }

    fn advance_line(self, num_bytes: usize) -> Self {
        StreamCharPos {
            byte_ofs: self.byte_ofs.wrapping_add(num_bytes),
            pos: self.pos.advance_line(num_bytes),
        }
    }

    fn line(&self) -> usize {
        self.pos.line()
    }

    fn column(&self) -> usize {
        self.pos.column()
    }
}

impl<P> PosnInCharStream for StreamCharPos<P>
    where P: UserPosn,
{
    open spec fn spec_byte_ofs(&self) -> usize {
        self.byte_ofs
    }

    fn byte_ofs(&self) -> usize {
        self.byte_ofs
    }

    proof fn lemma_advance_cols_byte_ofs(self, num_bytes: usize, num_chars: usize) {
    }

    proof fn lemma_advance_line_byte_ofs(self, num_bytes: usize) {
    }
}

} // verus!
