//! Positions within a text stream, and spans between two positions.

mod line_column;
mod traits;

pub use line_column::LineColumn;
pub use traits::{PosnInCharStream, UserPosn};

mod stream_char_pos;
mod stream_char_span;

pub use stream_char_pos::StreamCharPos;
pub use stream_char_span::StreamCharSpan;
