//! From tokens to the syntax tree.

pub mod common_parsers;
pub mod error;
pub mod expr_parsers;
pub mod stmt_parsers;
pub mod tokens_ext;

pub use error::{Error, ErrorKind};
pub use stmt_parsers::parse_stmt_list;
