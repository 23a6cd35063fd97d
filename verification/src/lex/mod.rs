//! From source characters to tokens.

pub mod chars;
pub mod error;
pub mod lexers;
pub mod token;

pub use error::Error;
pub use token::{ShallowTokenKind, Span, Token, TokenKind};
