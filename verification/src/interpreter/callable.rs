//! What can be called: functions of the program, functions of the library and functions of
//! the host.

use std::rc::Rc;
use vstd::prelude::*;
use crate::ast::{BinaryOpKind, Stmt};
use crate::interpreter::context::Context;
use crate::interpreter::error::Error;
use crate::interpreter::heap::HeapItem;
use crate::interpreter::value::{is_arithmetic, is_comparison, Number};

verus! {

/// A function that the program declared.
#[derive(Debug)]
pub struct InterpretedFn {
    /// The number of bindings that stood on the stack when the function was declared.
    pub stack_height: usize,
    /// The names of the parameters.
    pub prop_idents: Vec<String>,
    pub body: Vec<Stmt>,
}

impl InterpretedFn {
    pub fn new(stack_height: usize, prop_idents: Vec<String>, body: Vec<Stmt>) -> (f: Self)
        ensures
            f.stack_height == stack_height,
            f.prop_idents == prop_idents,
            f.body == body,
    {
        Self { stack_height, prop_idents, body }
    }
}

/// A function of the host, by the number under which the host knows it.
#[derive(Debug, Clone, Copy, PartialEq, Eq, Structural)]
pub struct NativeFn(pub usize);

/// A function of the library itself.
#[derive(Debug, Clone, Copy, PartialEq, Eq, Structural)]
pub enum Builtin {
    /// `push(array, value, ..)` appends the values to the array.
    Push,
    /// `pop(array)` takes the last element off the array.
    Pop,
    /// `unshift(array, value, ..)` puts each value in front of the array, one after the other.
    Unshift,
    /// `shift(array)` takes the first element off the array.
    Shift,
    /// `len(value)` is the length of a string, an array or an object.
    Len,
}

/// What a call can reach.
#[derive(Debug)]
pub enum Callable {
    Interpreted(Rc<InterpretedFn>),
    Builtin(Builtin),
    Native(NativeFn),
}

/// `Rc::clone` makes another pointer to the same value.
#[verifier::external_body]
fn share(function: &Rc<InterpretedFn>) -> (shared: Rc<InterpretedFn>)
    ensures
        shared == *function,
{
    Rc::clone(function)
}

impl Clone for Callable {
    fn clone(&self) -> (copy: Self)
        ensures
            copy == *self,
    {
        match self {
            Callable::Interpreted(f) => Callable::Interpreted(share(f)),
            Callable::Builtin(b) => Callable::Builtin(*b),
            Callable::Native(n) => Callable::Native(*n),
        }
    }
}

/// What the embedding program supplies to an evaluation: the arithmetic of doubles, and the
/// functions that it has registered.
///
/// The library carries numbers and never looks into one: whatever the arithmetic returns is
/// the result. A call of a function may do anything that keeps the context well formed, its
/// stack where it was, and the handles that the evaluator holds alive.
pub trait Host {
    /// The double nearest to the decimal numeral `numeral`.
    fn number(&self, numeral: &str) -> Number;

    /// Computes `a op b` for one of `+ - * / **`.
    fn arithmetic(&self, op: BinaryOpKind, a: Number, b: Number) -> Number
        requires
            is_arithmetic(op),
    ;

    /// Computes `a op b` for one of `> < ==`.
    fn compare(&self, op: BinaryOpKind, a: Number, b: Number) -> bool
        requires
            is_comparison(op),
    ;

    /// The index that `n` is: `None` where `n` is no integer; else the integer, zero where it
    /// is negative, and the largest index where it is above that.
    fn index(&self, n: Number) -> Option<usize>;

    /// The double nearest to `count`.
    fn count(&self, count: usize) -> Number;

    /// How `n` is written.
    fn show(&self, n: Number) -> String;

    /// Calls the function that the host knows as `id`.
    fn call(&mut self, id: usize, context: &mut Context, args: &Vec<HeapItem>) -> (result: Result<
        HeapItem,
        Error,
    >)
        requires
            old(context).wf(),
            forall|i: int| 0 <= i < args@.len() ==> old(context).values.contains(args@[i]),
        ensures
            old(context).advances_to(final(context)),
            result matches Ok(handle) ==> final(context).values.contains(handle),
    ;
}

} // verus!
