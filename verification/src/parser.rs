//! The abstract token-input capability that parsers consume.

mod input;
mod traits;

pub use input::{lemma_backtracking_purity, ParserInput, ParserInputStream, TokenStream};
pub use traits::{ParseFnResult, ParseResult};
