//! What can go wrong while a program is evaluated.

use vstd::prelude::*;
use crate::ast::BinaryOpKind;
use crate::interpreter::value::{Number, ShallowValue};

verus! {

/// A failure of an evaluation.
#[derive(Debug)]
pub enum Error {
    /// A value has already been assigned to the name.
    Redeclaration(String),
    /// The name is not bound.
    Undeclared(String),
    /// A value of one kind is used where a value of another kind should stand: first the kind
    /// that should, then the kind that is used.
    TypeError(ShallowValue, ShallowValue),
    /// The operator does not take operands of these kinds.
    InvalidBinaryOpArgs(ShallowValue, ShallowValue, BinaryOpKind),
    /// A function is called with the wrong number of arguments: first the number that it
    /// takes, then the number that it was given.
    IncorrectArgumentCount(usize, usize),
    /// The number is used as an index and is no integer.
    ExpectedInteger(Number),
    /// The index is at or behind the end of the string or array.
    IndexOutOfBounds(usize),
    /// The object has no field of this name.
    ObjectMissingKey(String),
    /// A value of this kind cannot be indexed.
    CannotIndexType(ShallowValue),
    /// A `break` or `continue` left the body of a function.
    UnexpectedBlockExit,
    /// The evaluation took more steps than the context allows.
    StepLimitExceeded,
    /// The host does not know the function that it was asked to call.
    UnknownNativeFn(usize),
}

} // verus!
