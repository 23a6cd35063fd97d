//! What the parsers report when a production does not apply or is malformed.

use vstd::prelude::*;
use vstd::string::StringExecFns;
use crate::lex::{ShallowTokenKind, Token};

verus! {

/// A failure to parse.
#[derive(Debug)]
pub struct Error {
    /// The index of the token at which the failure was noticed.
    pub index: usize,
    pub kind: ErrorKind,
    /// Whether another production may still apply to the same tokens. A parser reports a
    /// recoverable error while it has not yet seen what commits it to its production, and an
    /// unrecoverable one after that. An unrecoverable error is handed up unchanged.
    pub is_recoverable: bool,
}

#[derive(Debug)]
pub enum ErrorKind {
    ExpectedToken { expected: ShallowTokenKind, received: Option<Token> },
    ExpectedBinaryOperator { received: Option<Token> },
    ExpectedAssignmentOperator { received: Option<Token> },
    ExpectedLiteral { received: Option<Token> },
    /// A production applied to the first tokens of a slice that it had to consume whole.
    FailedToConsume,
    NoValidExpr,
    NoTokensProvided,
}

/// How a token that was received in place of another describes itself; the end of the tokens
/// where none was received.
pub open spec fn received_description(received: Option<Token>) -> Seq<char> {
    match received {
        Some(token) => token.kind.description(),
        None => "to the end of the buffer."@,
    }
}

/// Describes what was received.
fn describe_received(received: &Option<Token>) -> (description: String)
    ensures
        description@ == received_description(*received),
{
    match received {
        Some(token) => token.kind.to_string(),
        None => String::from_str("to the end of the buffer."),
    }
}

impl ErrorKind {
    /// The message that describes the failure.
    pub open spec fn message(&self) -> Seq<char> {
        match self {
            ErrorKind::ExpectedToken { expected, received } => "Expected "@ + expected.name()
                + " got "@ + received_description(*received),
            ErrorKind::ExpectedBinaryOperator { received } => "Expected binary operator got "@
                + received_description(*received),
            ErrorKind::ExpectedAssignmentOperator { received } => "Expected assignment operator got "@
                + received_description(*received),
            ErrorKind::ExpectedLiteral { received } => "Expected literal got "@
                + received_description(*received),
            ErrorKind::FailedToConsume => "Failed to consume the provided input."@,
            ErrorKind::NoValidExpr => "No valid expression was found."@,
            ErrorKind::NoTokensProvided => "No tokens were provided."@,
        }
    }

    /// The message that describes the failure.
    pub fn to_string(&self) -> (message: String)
        ensures
            message@ == self.message(),
    {
        match self {
            ErrorKind::ExpectedToken { expected, received } => String::from_str(
                "Expected ",
            ).concat(expected.to_string().as_str()).concat(" got ").concat(
                describe_received(received).as_str(),
            ),
            ErrorKind::ExpectedBinaryOperator { received } => String::from_str(
                "Expected binary operator got ",
            ).concat(describe_received(received).as_str()),
            ErrorKind::ExpectedAssignmentOperator { received } => String::from_str(
                "Expected assignment operator got ",
            ).concat(describe_received(received).as_str()),
            ErrorKind::ExpectedLiteral { received } => String::from_str(
                "Expected literal got ",
            ).concat(describe_received(received).as_str()),
            ErrorKind::FailedToConsume => String::from_str("Failed to consume the provided input."),
            ErrorKind::NoValidExpr => String::from_str("No valid expression was found."),
            ErrorKind::NoTokensProvided => String::from_str("No tokens were provided."),
        }
    }
}

/// The sum of two indices, held at the largest index where the sum would pass it.
pub open spec fn index_sum(a: usize, b: usize) -> usize {
    if a + b <= usize::MAX {
        (a + b) as usize
    } else {
        usize::MAX
    }
}

/// The sum of two indices, held at the largest index where the sum would pass it.
#[verifier::when_used_as_spec(index_sum)]
pub fn add_index(a: usize, b: usize) -> (sum: usize)
    ensures
        sum == index_sum(a, b),
{
    if b <= usize::MAX - a {
        a + b
    } else {
        usize::MAX
    }
}

impl Error {
    /// The error with its index moved on by `by`.
    pub open spec fn moved(self, by: usize) -> Error {
        Error { index: index_sum(self.index, by), kind: self.kind, is_recoverable: self.is_recoverable }
    }

    /// The error marked as unrecoverable.
    pub open spec fn fatal(self) -> Error {
        Error { index: self.index, kind: self.kind, is_recoverable: false }
    }

    /// Adjusts the index by an offset: an error found in a slice of the tokens is reported
    /// relative to the whole.
    #[verifier::when_used_as_spec(moved)]
    pub fn offset(self, by: usize) -> (moved: Self)
        ensures
            moved == self.moved(by),
    {
        Error { index: add_index(self.index, by), kind: self.kind, is_recoverable: self.is_recoverable }
    }

    /// Marks the error as one that no other production can recover from.
    #[verifier::when_used_as_spec(fatal)]
    pub fn unrecoverable(self) -> (fatal: Self)
        ensures
            fatal == self.fatal(),
    {
        Error { index: self.index, kind: self.kind, is_recoverable: false }
    }

    pub fn expected_token(at_index: usize, expected: ShallowTokenKind, received: Option<Token>) -> (e:
        Self)
        ensures
            e == (Error {
                index: at_index,
                kind: ErrorKind::ExpectedToken { expected, received },
                is_recoverable: true,
            }),
    {
        Self {
            index: at_index,
            kind: ErrorKind::ExpectedToken { expected, received },
            is_recoverable: true,
        }
    }

    pub fn expected_binary_operator(at_index: usize, received: Option<Token>) -> (e: Self)
        ensures
            e == (Error {
                index: at_index,
                kind: ErrorKind::ExpectedBinaryOperator { received },
                is_recoverable: true,
            }),
    {
        Self {
            index: at_index,
            kind: ErrorKind::ExpectedBinaryOperator { received },
            is_recoverable: true,
        }
    }

    pub fn expected_assignment_operator(at_index: usize, received: Option<Token>) -> (e: Self)
        ensures
            e == (Error {
                index: at_index,
                kind: ErrorKind::ExpectedAssignmentOperator { received },
                is_recoverable: true,
            }),
    {
        Self {
            index: at_index,
            kind: ErrorKind::ExpectedAssignmentOperator { received },
            is_recoverable: true,
        }
    }

    pub fn expected_literal(at_index: usize, received: Option<Token>) -> (e: Self)
        ensures
            e == (Error {
                index: at_index,
                kind: ErrorKind::ExpectedLiteral { received },
                is_recoverable: true,
            }),
    {
        Self { index: at_index, kind: ErrorKind::ExpectedLiteral { received }, is_recoverable: true }
    }

    pub fn failed_to_consume(at_index: usize) -> (e: Self)
        ensures
            e == (Error { index: at_index, kind: ErrorKind::FailedToConsume, is_recoverable: true }),
    {
        Self { index: at_index, kind: ErrorKind::FailedToConsume, is_recoverable: true }
    }

    pub fn no_valid_expr(at_index: usize) -> (e: Self)
        ensures
            e == (Error { index: at_index, kind: ErrorKind::NoValidExpr, is_recoverable: true }),
    {
        Self { index: at_index, kind: ErrorKind::NoValidExpr, is_recoverable: true }
    }

    pub fn no_tokens_provided() -> (e: Self)
        ensures
            e == (Error { index: 0, kind: ErrorKind::NoTokensProvided, is_recoverable: true }),
    {
        Self { index: 0, kind: ErrorKind::NoTokensProvided, is_recoverable: true }
    }
}

} // verus!
