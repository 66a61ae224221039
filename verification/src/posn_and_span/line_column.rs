//! A line and column position.

use vstd::prelude::*;

use crate::UserPosn;

verus! {

/// A line and column within a text stream.
///
/// Lines and columns are counted from 1; advancing over characters
/// increments the column, and advancing over a line end resets the
/// column and increments the line.
#[derive(Debug, Copy, Clone, PartialEq, Eq, Hash, Structural)]
pub struct LineColumn {
    /// The line number, counted from 1.
    pub line: usize,
    /// The column number, counted from 1.
    pub column: usize,
}

impl Default for LineColumn {
    /// The position of the very start of a text: line 1, column 1.
    fn default() -> (r: Self)
        ensures
            r.spec_line() == 1usize,
            r.spec_column() == 1usize,
    {
        Self { line: 1, column: 1 }
    }
}

impl LineColumn {
    /// Render the position for an error message.
    pub fn error_text(&self) -> String {
        let mut s = String::new();
        s.append("line ");
        s.append(crate::fmt_usize(self.line).as_str());
        s.append(" column ");
        s.append(crate::fmt_usize(self.column).as_str());
        s
    }
}

impl UserPosn for LineColumn {
    open spec fn spec_line(&self) -> usize {
        self.line
    }

    open spec fn spec_column(&self) -> usize {
        self.column
    }

    open spec fn spec_advance_cols(&self, num_bytes: usize, num_chars: usize) -> Self {
        LineColumn { line: self.line, column: self.column.wrapping_add(num_chars) }
    }

    open spec fn spec_advance_line(&self, num_bytes: usize) -> Self {
        LineColumn { line: self.line.wrapping_add(1), column: 1 }
    }

    fn advance_cols(self, num_bytes: usize, num_chars: usize) -> Self {
        LineColumn { line: self.line, column: self.column.wrapping_add(num_chars) }
    }

    fn advance_line(self, num_bytes: usize) -> Self {
        LineColumn { line: self.line.wrapping_add(1), column: 1 }
    }

    fn line(&self) -> usize {
        self.line
    }

    fn column(&self) -> usize {
        self.column
    }
}

} // verus!
