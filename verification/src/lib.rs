//! A lexical-analysis and parser-combinator toolkit.
//!
//! The crate turns a borrowed text buffer into a stream of tokens via
//! pluggable matching functions, and provides an algebra of combinators
//! for building parsers over a stream of tokens.
//!
//! Positions within the text are tracked byte-accurately and are always
//! kept on UTF-8 character boundaries; spans between two positions can be
//! sliced back out of the text, and a contextual formatter can render
//! human-readable excerpts around a span for diagnostics.

mod char_stream;
mod lexer;
mod parser;
pub mod parser_fn;
mod posn_and_span;
mod token_parse_error;

pub use char_stream::fmt_usize;
pub use char_stream::FmtContext;
pub use char_stream::{fmt_context, fmt_context_multiple_lines, fmt_context_single_line};

pub use crate::lexer::LexerOfStr;
pub use crate::lexer::LexerOfString;
pub use crate::lexer::ParserIterator;
pub use crate::lexer::SimpleParseError;
pub use crate::lexer::{Lexer, LexerError, LexerParseResult};
pub use crate::lexer::{SimpleKeyword, SimpleToken};
pub use token_parse_error::TokenParseError;

pub use parser::{lemma_backtracking_purity, ParseFnResult, ParseResult};
pub use parser::{ParserInput, ParserInputStream, TokenStream};

pub use posn_and_span::LineColumn;
pub use posn_and_span::StreamCharPos;
pub use posn_and_span::StreamCharSpan;
pub use posn_and_span::{PosnInCharStream, UserPosn};
