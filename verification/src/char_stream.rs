//! Formatting support for contextual error messages.

mod fmt_context;
mod utf8_ofs;

pub use fmt_context::fmt_usize;
pub use fmt_context::spec_decimal;
pub use fmt_context::FmtContext;
pub use fmt_context::{fmt_context, fmt_context_multiple_lines, fmt_context_single_line};
pub use fmt_context::{
    spec_context, spec_context_multiple_lines, spec_context_single_line, spec_ellipsis_line,
    spec_gutter, spec_line_num_gutter, spec_ml_cat, spec_ml_piece, spec_ml_shape, spec_repeat,
    spec_single_line,
};
pub use utf8_ofs::{char_at_ofs, char_index_of, char_len_utf8, is_boundary, spec_len_utf8};
pub use utf8_ofs::{
    lemma_ascii_run, lemma_boundary_bounds, lemma_boundary_end, lemma_boundary_in_prefix,
    lemma_boundary_step, lemma_boundary_zero, lemma_chars_le_bytes, lemma_chars_split,
    lemma_span_chars,
};
