//! A lexical scanner for a small language.
//!
//! A [`Tokenizer`] owns a source text and hands out its [`Token`]s one by one,
//! until the end of the input or a [`ScanError`]. What a call does is stated
//! against [`grammar::scan`], a function on sequences of characters, and
//! [`laws`] holds what is proved of that function for every text.

pub mod chars;
pub mod grammar;
pub mod laws;
mod text;
pub mod token;
pub mod tokenizer;

pub use grammar::ScanError;
pub use token::Token;
pub use tokenizer::Tokenizer;
