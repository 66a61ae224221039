//! A span between two positions within a stream.

use vstd::prelude::*;

use crate::PosnInCharStream;

verus! {

/// A span between two byte offsets within a stream; the start and end
/// have an associated position that might also accurately provide line
/// and column numbers.
///
/// A span only ever slices text or reports a range for diagnostics; it
/// is derived from two positions handed out by the stream, with the
/// start not beyond the end.
#[derive(Debug, Clone, Copy)]
pub struct StreamCharSpan<P>
    where P: PosnInCharStream,
{
    start: P,
    end: P,
}

impl<P> StreamCharSpan<P>
    where P: PosnInCharStream,
{
    /// The start position of the span.
    pub closed spec fn spec_start(&self) -> P {
        self.start
    }

    /// The end position of the span.
    pub closed spec fn spec_end(&self) -> P {
        self.end
    }

    /// True when the span's start is not beyond its end.
    pub open spec fn wf(&self) -> bool {
        self.spec_start().spec_byte_ofs() <= self.spec_end().spec_byte_ofs()
    }

    /// Create a new span from a start and an end position.
    pub fn new(start: P, end: P) -> (r: Self)
        ensures
            r.spec_start() == start,
            r.spec_end() == end,
    {
        Self { start, end }
    }

    /// Get the start of the span.
    pub fn start(&self) -> (r: &P)
        ensures
            *r == self.spec_start(),
    {
        &self.start
    }

    /// Get the end of the span.
    pub fn end(&self) -> (r: &P)
        ensures
            *r == self.spec_end(),
    {
        &self.end
    }

    /// Get the range between the two byte offsets of this span.
    pub fn byte_range(&self) -> (r: core::ops::Range<usize>)
        ensures
            r.start == self.spec_start().spec_byte_ofs(),
            r.end == self.spec_end().spec_byte_ofs(),
    {
        let start = self.start.byte_ofs();
        let end = self.end.byte_ofs();
        core::ops::Range { start, end }
    }
}

} // verus!
