//! Lexical analysis: streams that parse text into tokens.

mod lexer_of_str;
mod lexer_of_string;
mod parser_iter;
mod simple;
mod simple_parse_error;
mod traits;

pub use lexer_of_str::LexerOfStr;
pub use lexer_of_string::{lines_wf, LexerOfString};
pub use parser_iter::ParserIterator;
pub use simple::{SimpleKeyword, SimpleToken};
pub use simple_parse_error::SimpleParseError;
pub use traits::{Lexer, LexerError, LexerParseResult};
