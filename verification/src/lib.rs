//! A tree-walking interpreter for a small dynamically typed scripting language:
//! a lexer, a recursive-descent parser and an evaluator over a garbage-collected heap.
//!
//! Source text becomes tokens (`lex`), tokens become a syntax tree (`parse`, `ast`), and the
//! tree is evaluated in a `Context` (`interpreter`), which holds the stack of bindings and
//! the heap of values. Numbers are doubles: the library carries them, and the program that
//! embeds it computes with them, through the trait `Host`, which also stands for the
//! functions that the embedding program offers to scripts.
//!
//! Every function is verified against its contract. The lexer and the parsers are stated
//! against the grammar, the evaluator against the relations of `interpreter::semantics`, the
//! collector against reachability.

use vstd::prelude::*;

pub mod ast;
pub mod diagnostics;
pub mod interpreter;
pub mod lex;
pub mod parse;
pub mod text;

pub use ast::Program;
pub use lex::{Error as LexError, Token, TokenKind};
pub use parse::{Error as ParseError, ErrorKind as ParseErrorKind};

use ast::{stmt_views, StmtView};
use lex::lexers::{token_views, tokens_from};
use lex::token::TokenView;
use parse::stmt_parsers::parsed_stmt_list;

verus! {

/// A failure to turn source text into a program.
#[derive(Debug)]
pub enum Error {
    /// A problem was encountered while lexing.
    Lex(LexError),
    /// A problem was encountered while parsing.
    Parse(ParseError),
}

/// Completely lex a string into a series of tokens.
pub fn lex_string(source: &str) -> (tokens: Result<Vec<Token>, LexError>)
    ensures
        match tokens {
            Ok(tokens) => tokens_from(source@, 0) == Ok::<Seq<TokenView>, LexError>(
                token_views(tokens@),
            ),
            Err(e) => tokens_from(source@, 0) == Err::<Seq<TokenView>, LexError>(e),
        },
{
    let separated = text::chars_of(source);
    lex::lexers::lex_to_end(separated.as_slice())
}

/// Completely parse tokens into a program.
pub fn parse_tokens(tokens: &[Token]) -> (program: Result<Program, ParseError>)
    ensures
        match program {
            Ok(stmts) => parsed_stmt_list(tokens@) == Ok::<Seq<StmtView>, ParseError>(
                stmt_views(stmts),
            ),
            Err(e) => parsed_stmt_list(tokens@) == Err::<Seq<StmtView>, ParseError>(e),
        },
{
    parse::parse_stmt_list(tokens)
}

/// Lexes and parses a string: `lex_string`, then `parse_tokens`.
pub fn parse_string(source: &str) -> (program: Result<Program, Error>)
    ensures
        match program {
            Ok(stmts) => exists|tokens: Seq<Token>|
                tokens_from(source@, 0) == Ok::<Seq<TokenView>, LexError>(token_views(tokens))
                    && #[trigger] parsed_stmt_list(tokens) == Ok::<Seq<StmtView>, ParseError>(
                    stmt_views(stmts),
                ),
            Err(Error::Lex(e)) => tokens_from(source@, 0) == Err::<Seq<TokenView>, LexError>(e),
            Err(Error::Parse(e)) => exists|tokens: Seq<Token>|
                tokens_from(source@, 0) == Ok::<Seq<TokenView>, LexError>(token_views(tokens))
                    && #[trigger] parsed_stmt_list(tokens) == Err::<Seq<StmtView>, ParseError>(e),
        },
{
    let tokens = match lex_string(source) {
        Ok(tokens) => tokens,
        Err(e) => {
            return Err(Error::Lex(e));
        },
    };
    match parse::parse_stmt_list(tokens.as_slice()) {
        Ok(program) => Ok(program),
        Err(e) => Err(Error::Parse(e)),
    }
}

} // verus!
