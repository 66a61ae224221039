//! Traits for locations within a stream.

use vstd::prelude::*;

verus! {

/// Trait for a location within a stream.
///
/// This base trait is used to track the position of a token parser
/// within a stream in a manner that is useful for human-readable error
/// messages.
///
/// A trivial implementation can track nothing at all, if the position
/// is not critical for error messages - for example, parsing a simple
/// string in a test; `usize` tracks just the byte offset this way.
///
/// Every method has a specification twin, and each executable method is
/// required to return exactly what its twin describes: a position is a
/// pure value, and advancing it is deterministic.  Implementations must
/// be total, so the advancing twins are stated with wrapping
/// arithmetic; a stream only ever advances a position by byte counts
/// that fit inside its text, where no wrapping can occur.
pub trait UserPosn: Sized + Copy + PartialEq {
    /// The line this position reports (0 when lines are not tracked).
    spec fn spec_line(&self) -> usize;

    /// The column this position reports (0 when columns are not tracked).
    spec fn spec_column(&self) -> usize;

    /// The position after consuming `num_bytes` bytes forming
    /// `num_chars` characters, none of which is a newline.
    spec fn spec_advance_cols(&self, num_bytes: usize, num_chars: usize) -> Self;

    /// The position after consuming `num_bytes` bytes, the last of
    /// which ends a line.
    spec fn spec_advance_line(&self, num_bytes: usize) -> Self;

    /// Advance the position by a number of bytes and a number of
    /// characters; the characters are guaranteed by the caller to not
    /// be newlines.
    ///
    /// For character streams (where `num_bytes` is not the same as
    /// `num_chars`) this must only be invoked to move on to a new UTF-8
    /// character boundary - hence `num_bytes` must be a sum of UTF-8
    /// encoding lengths for the text at the byte offset of `self`.
    fn advance_cols(self, num_bytes: usize, num_chars: usize) -> (r: Self)
        ensures
            r == self.spec_advance_cols(num_bytes, num_chars),
    ;

    /// Advance the position by a number of bytes, to the start of the
    /// next line; the consumed bytes are guaranteed by the caller to
    /// end exactly after a newline character.
    fn advance_line(self, num_bytes: usize) -> (r: Self)
        ensures
            r == self.spec_advance_line(num_bytes),
    ;

    /// Return the line number (if tracked, else 0).
    fn line(&self) -> (r: usize)
        ensures
            r == self.spec_line(),
    ;

    /// Return the column number (if tracked, else 0).
    fn column(&self) -> (r: usize)
        ensures
            r == self.spec_column(),
    ;
}

/// Trait for a location within a character stream.
///
/// This tracks a byte offset within the stream so that strings can be
/// retrieved from the stream.  Byte offsets must always be kept on
/// UTF-8 character boundaries; the stream that owns the text is the
/// only place positions are advanced, and it only advances them by
/// whole characters.
pub trait PosnInCharStream: UserPosn {
    /// The byte offset into the stream of the position.
    spec fn spec_byte_ofs(&self) -> usize;

    /// Return the byte offset into the stream of the position.
    fn byte_ofs(&self) -> (r: usize)
        ensures
            r == self.spec_byte_ofs(),
    ;

    /// Advancing over columns moves the byte offset forward by exactly
    /// the consumed byte count (with wrapping on overflow, which a
    /// stream never causes).
    proof fn lemma_advance_cols_byte_ofs(self, num_bytes: usize, num_chars: usize)
        ensures
            self.spec_advance_cols(num_bytes, num_chars).spec_byte_ofs()
                == self.spec_byte_ofs().wrapping_add(num_bytes),
    ;

    /// Advancing over a line end moves the byte offset forward by
    /// exactly the consumed byte count (with wrapping on overflow,
    /// which a stream never causes).
    proof fn lemma_advance_line_byte_ofs(self, num_bytes: usize)
        ensures
            self.spec_advance_line(num_bytes).spec_byte_ofs()
                == self.spec_byte_ofs().wrapping_add(num_bytes),
    ;
}

impl UserPosn for usize {
    open spec fn spec_line(&self) -> usize {
        0
    }

    open spec fn spec_column(&self) -> usize {
        0
    }

    open spec fn spec_advance_cols(&self, num_bytes: usize, num_chars: usize) -> Self {
        (*self).wrapping_add(num_bytes)
    }

    open spec fn spec_advance_line(&self, num_bytes: usize) -> Self {
        (*self).wrapping_add(num_bytes)
    }

    fn advance_cols(self, num_bytes: usize, num_chars: usize) -> Self {
        self.wrapping_add(num_bytes)
    }

    fn advance_line(self, num_bytes: usize) -> Self {
        self.wrapping_add(num_bytes)
    }

    fn line(&self) -> usize {
        0
    }

    fn column(&self) -> usize {
        0
    }
}

impl PosnInCharStream for usize {
    open spec fn spec_byte_ofs(&self) -> usize {
        *self
    }

    fn byte_ofs(&self) -> usize {
        *self
    }

    proof fn lemma_advance_cols_byte_ofs(self, num_bytes: usize, num_chars: usize) {
    }

    proof fn lemma_advance_line_byte_ofs(self, num_bytes: usize) {
    }
}

} // verus!
