//! What evaluation is: for each kind of expression and statement, how the context after it
//! and its result follow from the context before it. The evaluator is proved to do this.
//!
//! The relations leave open what the library does not decide: which free handle a new value
//! gets, what the host computes with numbers, and what a function of the host does.

use vstd::prelude::*;
use crate::ast::{
    stmt_views,
    AssignOpKind,
    BinaryOp,
    Expr,
    Field,
    FnCall,
    FnDecl,
    IfElse,
    Member,
    Stmt,
    VarAssign,
    VarDecl,
    WhileLoop,
};
use crate::interpreter::callable::{Callable, InterpretedFn};
use crate::interpreter::stdlib::builtin_yields;
use crate::interpreter::context::{BlockExit, Context};
use crate::interpreter::error::Error;
use crate::interpreter::heap::HeapItem;
use crate::interpreter::stack::binding_index;
use crate::interpreter::value::{
    binary_op_error,
    is_binary_op_result,
    key_index,
    ObjectField,
    ShallowValue,
    Value,
};

verus! {

/// Marks two contexts that an evaluation passes through. It is true of all: it serves to
/// name them.
pub open spec fn passes(earlier: Context, later: Context) -> bool {
    true
}

/// Marks how far the evaluation of a list came, and where it stood. It is true always.
pub open spec fn reaches(k: int, c: Context, handles: Seq<HeapItem>, after: Context) -> bool {
    true
}

/// Marks a step of the evaluation of the fields of an object. It is true always.
pub open spec fn passes_field(
    earlier: Context,
    evaluated: Context,
    before: Seq<ObjectField>,
    handle: HeapItem,
) -> bool {
    true
}

/// Marks how far the evaluation of the fields of an object came. It is true always.
pub open spec fn reaches_field(k: int, c: Context, object: Seq<ObjectField>, after: Context) -> bool {
    true
}

/// Marks what happened while two operands were evaluated. It is true always.
pub open spec fn traces(t: OperandsTrace, index: Option<usize>) -> bool {
    true
}

/// Whether `result` is what looking up `name` in `c` gives: the handle of the most recent
/// binding, or the failure that the name is not declared.
pub open spec fn looked_up(c: Context, name: Seq<char>, result: Result<HeapItem, Error>) -> bool {
    let at = binding_index(c.stack.values@, name, c.stack.values@.len() as int);
    match result {
        Ok(handle) => 0 <= at < c.stack.values@.len() && handle == c.stack.values@[at].1,
        Err(e) => at == -1 && e is Undeclared && e->Undeclared_0@ == name,
    }
}

/// Whether evaluating `e` in `c0` can leave `c1` and give `r`.
///
/// A name gives the handle that it is bound to and changes nothing. A literal puts its
/// value on the heap.
pub open spec fn evals_expr(c0: Context, e: Expr, c1: Context, r: Result<HeapItem, Error>) -> bool
    decreases c0.steps, 1int, e, 5int,
{
    match e {
        Expr::Ident(name) => c1 == c0 && looked_up(c0, name@, r),
        Expr::NumberLiteral(_) => {
            &&& r is Ok
            &&& c1.values.value(r->Ok_0) is Number
            &&& c0.allocating(c1.values.value(r->Ok_0), r->Ok_0, &c1)
        },
        Expr::StringLiteral(text) => {
            &&& r is Ok
            &&& c1.values.value(r->Ok_0) is String
            &&& c1.values.value(r->Ok_0)->String_0@ == text@
            &&& c0.allocating(c1.values.value(r->Ok_0), r->Ok_0, &c1)
        },
        Expr::BoolLiteral(b) => r is Ok && c0.allocating(Value::Bool(b), r->Ok_0, &c1),
        Expr::ArrayLiteral(items) => evals_array(c0, items, c1, r),
        Expr::ObjectLiteral(fields) => evals_object(c0, fields, c1, r),
        Expr::BinaryOp(op) => evals_binary_op(c0, op, c1, r),
        Expr::FnCall(call) => evals_call(c0, call, c1, r),
        Expr::Member(member) => evals_member(c0, member, c1, r),
    }
}

/// Whether evaluating the first `k` of `items` from `c0` on, each held once it is evaluated,
/// can leave `c` and give `handles`.
pub open spec fn items_evaluated(
    c0: Context,
    items: Vec<Expr>,
    k: int,
    c: Context,
    handles: Seq<HeapItem>,
) -> bool
    decreases c0.steps, 1int, items, 2 * k + 1,
{
    if k <= 0 {
        c == c0 && handles.len() == 0
    } else if k > items.len() {
        false
    } else {
        exists|earlier: Context, evaluated: Context|
            #![trigger passes(earlier, evaluated)]
            item_evaluated(c0, items, k, earlier, evaluated, c, handles)
    }
}

/// The step from `k - 1` items to `k`: in `earlier` the item is evaluated, which leaves
/// `evaluated`, and its handle is held, which leaves `c`.
pub open spec fn item_evaluated(
    c0: Context,
    items: Vec<Expr>,
    k: int,
    earlier: Context,
    evaluated: Context,
    c: Context,
    handles: Seq<HeapItem>,
) -> bool
    decreases c0.steps, 1int, items, 2 * k,
{
    &&& 0 < k <= items.len()
    &&& handles.len() == k
    &&& items_evaluated(c0, items, k - 1, earlier, handles.drop_last())
    &&& earlier.steps <= c0.steps
    &&& evals_expr(earlier, items[k - 1], evaluated, Ok(handles.last()))
    &&& evaluated.holding(handles.last(), &c)
}

/// Whether evaluating the array literal of `items` in `c0` can leave `c1` and give `r`:
/// the items are evaluated from left to right; the first failure is the failure of the
/// literal; else the handles of the items are put on the heap as an array.
pub open spec fn evals_array(c0: Context, items: Vec<Expr>, c1: Context, r: Result<HeapItem, Error>)
    -> bool
    decreases c0.steps, 1int, items, 2 * items.len() + 5,
{
    exists|k: int, c: Context, handles: Seq<HeapItem>, after: Context|
        #![trigger reaches(k, c, handles, after)]
        array_evaluated(c0, items, k, c, handles, after, c1, r)
}

/// The steps of an array literal: `k` items are evaluated, which leaves `c`; then either the
/// next item fails, or all are evaluated and the array is put on the heap.
pub open spec fn array_evaluated(
    c0: Context,
    items: Vec<Expr>,
    k: int,
    c: Context,
    handles: Seq<HeapItem>,
    after: Context,
    c1: Context,
    r: Result<HeapItem, Error>,
) -> bool
    decreases c0.steps, 1int, items, 2 * items.len() + 4,
{
    &&& 0 <= k <= items.len()
    &&& items_evaluated(c0, items, k, c, handles)
    &&& if k < items.len() {
        &&& c.steps <= c0.steps
        &&& r is Err
        &&& evals_expr(c, items[k], after, r)
        &&& after.releasing(c0.temps@.len() as int, &c1)
    } else {
        &&& c.releasing(c0.temps@.len() as int, &after)
        &&& r is Ok
        &&& c1.values.value(r->Ok_0) is Array
        &&& c1.values.value(r->Ok_0)->Array_0@ == handles
        &&& after.allocating(c1.values.value(r->Ok_0), r->Ok_0, &c1)
    }
}

/// Whether `next` is `fields` with the key `key` set to `value`: in place where the key is
/// there, at the end where it is new.
pub open spec fn field_set(
    fields: Seq<ObjectField>,
    key: Seq<char>,
    value: HeapItem,
    next: Seq<ObjectField>,
) -> bool {
    let at = key_index(fields, key, 0);
    if 0 <= at < fields.len() {
        &&& next.len() == fields.len()
        &&& next[at].key@ == key
        &&& next[at].value == value
        &&& forall|i: int| 0 <= i < fields.len() && i != at ==> next[i] == fields[i]
    } else {
        &&& next.len() == fields.len() + 1
        &&& next.last().key@ == key
        &&& next.last().value == value
        &&& next.drop_last() == fields
    }
}

/// Whether evaluating the values of the first `k` of `fields` from `c0` on, each held once
/// it is evaluated, can leave `c` and give the fields `object` of the object.
pub open spec fn fields_evaluated(
    c0: Context,
    fields: Vec<Field>,
    k: int,
    c: Context,
    object: Seq<ObjectField>,
) -> bool
    decreases c0.steps, 1int, fields, 2 * k + 1,
{
    if k <= 0 {
        c == c0 && object.len() == 0
    } else if k > fields.len() {
        false
    } else {
        exists|earlier: Context, evaluated: Context, before: Seq<ObjectField>, handle: HeapItem|
            #![trigger passes_field(earlier, evaluated, before, handle)]
            field_evaluated(c0, fields, k, earlier, evaluated, before, handle, c, object)
    }
}

/// The step from `k - 1` fields to `k`.
pub open spec fn field_evaluated(
    c0: Context,
    fields: Vec<Field>,
    k: int,
    earlier: Context,
    evaluated: Context,
    before: Seq<ObjectField>,
    handle: HeapItem,
    c: Context,
    object: Seq<ObjectField>,
) -> bool
    decreases c0.steps, 1int, fields, 2 * k,
{
    &&& 0 < k <= fields.len()
    &&& fields_evaluated(c0, fields, k - 1, earlier, before)
    &&& earlier.steps <= c0.steps
    &&& evals_expr(earlier, fields[k - 1].value, evaluated, Ok(handle))
    &&& evaluated.holding(handle, &c)
    &&& field_set(before, fields[k - 1].key@, handle, object)
}

/// Whether evaluating the object literal of `fields` in `c0` can leave `c1` and give `r`:
/// the values are evaluated in the order of the fields; the first failure is the failure of
/// the literal; else the object is put on the heap, each key with the value that was
/// evaluated for it last.
pub open spec fn evals_object(c0: Context, fields: Vec<Field>, c1: Context, r: Result<HeapItem, Error>)
    -> bool
    decreases c0.steps, 1int, fields, 2 * fields.len() + 5,
{
    exists|k: int, c: Context, object: Seq<ObjectField>, after: Context|
        #![trigger reaches_field(k, c, object, after)]
        object_evaluated(c0, fields, k, c, object, after, c1, r)
}

/// The steps of an object literal.
pub open spec fn object_evaluated(
    c0: Context,
    fields: Vec<Field>,
    k: int,
    c: Context,
    object: Seq<ObjectField>,
    after: Context,
    c1: Context,
    r: Result<HeapItem, Error>,
) -> bool
    decreases c0.steps, 1int, fields, 2 * fields.len() + 4,
{
    &&& 0 <= k <= fields.len()
    &&& fields_evaluated(c0, fields, k, c, object)
    &&& if k < fields.len() {
        &&& c.steps <= c0.steps
        &&& r is Err
        &&& evals_expr(c, fields[k].value, after, r)
        &&& after.releasing(c0.temps@.len() as int, &c1)
    } else {
        &&& c.releasing(c0.temps@.len() as int, &after)
        &&& r is Ok
        &&& c1.values.value(r->Ok_0) is Object
        &&& c1.values.value(r->Ok_0)->Object_0@ == object
        &&& after.allocating(c1.values.value(r->Ok_0), r->Ok_0, &c1)
    }
}

/// What happens between the start and the end of the evaluation of two operands.
pub ghost struct OperandsTrace {
    /// The context after the first operand.
    pub after_a: Context,
    /// What the first operand gave.
    pub a: Result<HeapItem, Error>,
    /// The context with the first handle held.
    pub held: Context,
    /// The context after the second operand.
    pub after_b: Context,
    /// What the second operand gave.
    pub b: Result<HeapItem, Error>,
    /// The context with the first handle released.
    pub released: Context,
}

/// Whether evaluating the binary operation `op` in `c0` can leave `c1` and give `r`: the
/// left operand is evaluated, then the right one; the first failure is the failure of the
/// operation; else the operator is applied to the two values as they are by then, and what
/// it gives is put on the heap, or is the failure.
pub open spec fn evals_binary_op(c0: Context, op: BinaryOp, c1: Context, r: Result<HeapItem, Error>)
    -> bool
    decreases c0.steps, 1int, op, 1int,
{
    exists|t: OperandsTrace|
        #![trigger traces(t, None)]
        binary_op_evaluated(c0, op, t, c1, r)
}

/// The steps of a binary operation.
pub open spec fn binary_op_evaluated(
    c0: Context,
    op: BinaryOp,
    t: OperandsTrace,
    c1: Context,
    r: Result<HeapItem, Error>,
) -> bool
    decreases c0.steps, 1int, op, 0int,
{
    &&& evals_expr(c0, *op.a, t.after_a, t.a)
    &&& match t.a {
        Err(e) => c1 == t.after_a && r == Err::<HeapItem, Error>(e),
        Ok(a) => {
            &&& t.after_a.holding(a, &t.held)
            &&& t.held.steps <= c0.steps
            &&& evals_expr(t.held, *op.b, t.after_b, t.b)
            &&& t.after_b.releasing(c0.temps@.len() as int, &t.released)
            &&& match t.b {
                Err(e) => c1 == t.released && r == Err::<HeapItem, Error>(e),
                Ok(b) => {
                    let left = t.released.values.value(a);
                    let right = t.released.values.value(b);
                    match binary_op_error(left.shallow(), right.shallow(), op.kind) {
                        Some(e) => c1 == t.released && r == Err::<HeapItem, Error>(e),
                        None => {
                            &&& r is Ok
                            &&& is_binary_op_result(
                                left,
                                right,
                                op.kind,
                                c1.values.value(r->Ok_0),
                            )
                            &&& t.released.allocating(c1.values.value(r->Ok_0), r->Ok_0, &c1)
                        },
                    }
                },
            }
        },
    }
}

/// What indexing `parent` with `child` gives, where `index` is the index that the host reads
/// from a child that is a number: the failure, or else nothing.
pub open spec fn member_error(parent: Value, child: Value, index: Option<usize>) -> Option<Error> {
    match parent {
        Value::String(s) => match child {
            Value::Number(n) => match index {
                None => Some(Error::ExpectedInteger(n)),
                Some(i) => if i < s@.len() {
                    None
                } else {
                    Some(Error::IndexOutOfBounds(i))
                },
            },
            _ => Some(Error::TypeError(ShallowValue::Number, child.shallow())),
        },
        Value::Array(items) => match child {
            Value::Number(n) => match index {
                None => Some(Error::ExpectedInteger(n)),
                Some(i) => if i < items@.len() {
                    None
                } else {
                    Some(Error::IndexOutOfBounds(i))
                },
            },
            _ => Some(Error::TypeError(ShallowValue::Number, child.shallow())),
        },
        Value::Object(fields) => match child {
            Value::String(_) => None,
            _ => Some(Error::TypeError(ShallowValue::String, child.shallow())),
        },
        _ => Some(Error::CannotIndexType(parent.shallow())),
    }
}

/// Whether indexing the value of `parent` with the value of `child` in `c0` can leave `c1`
/// and give `r`, where `index` is the index that the host reads from a child that is a
/// number.
///
/// A string gives a fresh string of the one character at the index, an array the handle of
/// the element at the index, an object the handle of the field that the child names. Only
/// the string changes the context.
pub open spec fn member_yields(
    c0: Context,
    parent: HeapItem,
    child: HeapItem,
    index: Option<usize>,
    c1: Context,
    r: Result<HeapItem, Error>,
) -> bool {
    match member_error(c0.values.value(parent), c0.values.value(child), index) {
        Some(e) => r == Err::<HeapItem, Error>(e) && c1 == c0,
        None => match (c0.values.value(parent), c0.values.value(child)) {
            (Value::String(s), _) => {
                &&& r is Ok
                &&& c1.values.value(r->Ok_0) is String
                &&& c1.values.value(r->Ok_0)->String_0@ == seq![s@[index->0 as int]]
                &&& c0.allocating(c1.values.value(r->Ok_0), r->Ok_0, &c1)
            },
            (Value::Array(items), _) => r == Ok::<HeapItem, Error>(items@[index->0 as int]) && c1
                == c0,
            (Value::Object(fields), Value::String(key)) => {
                let at = key_index(fields@, key@, 0);
                &&& c1 == c0
                &&& if 0 <= at < fields@.len() {
                    r == Ok::<HeapItem, Error>(fields@[at].value)
                } else {
                    r is Err && r->Err_0 is ObjectMissingKey && r->Err_0->ObjectMissingKey_0@
                        == key@
                }
            },
            _ => false,
        },
    }
}

/// Whether evaluating the member expression `member` in `c0` can leave `c1` and give `r`:
/// the parent is evaluated, then the child; the first failure is the failure of the
/// expression; else the parent is indexed with the child.
pub open spec fn evals_member(c0: Context, member: Member, c1: Context, r: Result<HeapItem, Error>)
    -> bool
    decreases c0.steps, 1int, member, 1int,
{
    exists|t: OperandsTrace, index: Option<usize>|
        #![trigger traces(t, index)]
        member_evaluated(c0, member, t, index, c1, r)
}

/// The steps of a member expression.
pub open spec fn member_evaluated(
    c0: Context,
    member: Member,
    t: OperandsTrace,
    index: Option<usize>,
    c1: Context,
    r: Result<HeapItem, Error>,
) -> bool
    decreases c0.steps, 1int, member, 0int,
{
    &&& evals_expr(c0, *member.parent, t.after_a, t.a)
    &&& match t.a {
        Err(e) => c1 == t.after_a && r == Err::<HeapItem, Error>(e),
        Ok(parent) => {
            &&& t.after_a.holding(parent, &t.held)
            &&& t.held.steps <= c0.steps
            &&& evals_expr(t.held, *member.child, t.after_b, t.b)
            &&& t.after_b.releasing(c0.temps@.len() as int, &t.released)
            &&& match t.b {
                Err(e) => c1 == t.released && r == Err::<HeapItem, Error>(e),
                Ok(child) => {
                    &&& !(t.released.values.value(child) is Number) ==> index is None
                    &&& member_yields(t.released, parent, child, index, c1, r)
                },
            }
        },
    }
}

/// Marks a step of the evaluation of the arguments of a call. It is true always.
pub open spec fn passes_arg(earlier: Context, evaluated: Context, value: HeapItem, copied: Context) -> bool {
    true
}

/// Whether evaluating the first `k` of the arguments `args` from `c0` on, each copied as for
/// a binding and held once it is evaluated, can leave `c` and give `handles`.
pub open spec fn args_evaluated(
    c0: Context,
    args: Vec<Expr>,
    k: int,
    c: Context,
    handles: Seq<HeapItem>,
) -> bool
    decreases c0.steps, 1int, args, 2 * k + 1,
{
    if k <= 0 {
        c == c0 && handles.len() == 0
    } else if k > args.len() {
        false
    } else {
        exists|earlier: Context, evaluated: Context, value: HeapItem, copied: Context|
            #![trigger passes_arg(earlier, evaluated, value, copied)]
            arg_evaluated(c0, args, k, earlier, evaluated, value, copied, c, handles)
    }
}

/// The step from `k - 1` arguments to `k`.
pub open spec fn arg_evaluated(
    c0: Context,
    args: Vec<Expr>,
    k: int,
    earlier: Context,
    evaluated: Context,
    value: HeapItem,
    copied: Context,
    c: Context,
    handles: Seq<HeapItem>,
) -> bool
    decreases c0.steps, 1int, args, 2 * k,
{
    &&& 0 < k <= args.len()
    &&& handles.len() == k
    &&& args_evaluated(c0, args, k - 1, earlier, handles.drop_last())
    &&& earlier.steps <= c0.steps
    &&& evals_expr(earlier, args[k - 1], evaluated, Ok(value))
    &&& evaluated.copying(value, handles.last(), &copied)
    &&& copied.holding(handles.last(), &c)
}

/// Whether a call of a function of the host in `c` can leave `after` and give `r`: the
/// host may do what an evaluation may do.
pub open spec fn host_yields(c: Context, after: Context, r: Result<HeapItem, Error>) -> bool {
    c.advances_to(&after) && (r matches Ok(handle) ==> after.values.contains(handle))
}

/// What a call gives whose body ended in `exit`: the value that the body returned; nothing,
/// which the caller sees as null, where it returned nothing or ran to its end; and a failure
/// where a `break` or a `continue` left the body.
pub open spec fn call_outcome(exit: BlockExit) -> Result<Option<HeapItem>, Error> {
    match exit {
        BlockExit::Returned(returned) => Ok(returned),
        BlockExit::Completed => Ok(None),
        BlockExit::Break | BlockExit::Continue => Err(Error::UnexpectedBlockExit),
    }
}

/// Marks what a call of a function of the program passes through. It is true always.
pub open spec fn passes_body(entered: Context, inner: Context, exit: Result<BlockExit, Error>, left: Context)
    -> bool {
    true
}

/// Whether calling the function `f` of the program, whose binding stands at `at`, with
/// `args` in `c` can leave `c1` and give `r`: the body is evaluated where it sees the
/// globals up to the function itself, and its parameters; then the stack is what it was,
/// and so is what the evaluator holds.
pub open spec fn interpreted_yields(
    c: Context,
    f: InterpretedFn,
    at: int,
    args: Seq<HeapItem>,
    c1: Context,
    r: Result<HeapItem, Error>,
) -> bool
    decreases c.steps, 4int, f, 1int,
{
    exists|entered: Context, inner: Context, exit: Result<BlockExit, Error>, left: Context|
        #![trigger passes_body(entered, inner, exit, left)]
        interpreted_evaluated(c, f, at, args, entered, inner, exit, left, c1, r)
}

/// The steps of a call of a function of the program.
pub open spec fn interpreted_evaluated(
    c: Context,
    f: InterpretedFn,
    at: int,
    args: Seq<HeapItem>,
    entered: Context,
    inner: Context,
    exit: Result<BlockExit, Error>,
    left: Context,
    c1: Context,
    r: Result<HeapItem, Error>,
) -> bool
    decreases c.steps, 4int, f, 0int,
{
    &&& c.entering(f.prop_idents@, at, args, &entered)
    &&& entered.steps <= c.steps
    &&& evals_program(entered, f.body, inner, exit)
    &&& c.leaving(&inner, &left)
    &&& match exit {
        Err(e) => c1 == left && r == Err::<HeapItem, Error>(e),
        Ok(exit) => match call_outcome(exit) {
            Err(e) => c1 == left && r == Err::<HeapItem, Error>(e),
            Ok(Some(value)) => c1 == left && r == Ok::<HeapItem, Error>(value),
            Ok(None) => r is Ok && left.allocating(Value::Null, r->Ok_0, &c1),
        },
    }
}

/// Whether calling `callable`, whose binding stands at `at`, with `args` in `c` can leave
/// `after` and give `r`. A function of the program must get as many arguments as it has
/// parameters, and takes a step.
pub open spec fn called(
    c: Context,
    callable: Callable,
    at: int,
    args: Seq<HeapItem>,
    after: Context,
    r: Result<HeapItem, Error>,
) -> bool
    decreases c.steps, 0int,
{
    match callable {
        Callable::Native(_) => host_yields(c, after, r),
        Callable::Builtin(builtin) => builtin_yields(c, builtin, args, after, r),
        Callable::Interpreted(f) => if args.len() != f.prop_idents@.len() {
            after == c && r == Err::<HeapItem, Error>(
                Error::IncorrectArgumentCount(f.prop_idents@.len() as usize, args.len() as usize),
            )
        } else if c.steps == 0 {
            after == c && r == Err::<HeapItem, Error>(Error::StepLimitExceeded)
        } else {
            interpreted_yields(c.stepped(), *f, at, args, after, r)
        },
    }
}

/// Whether evaluating the call `call` in `c0` can leave `c1` and give `r`: the arguments
/// are evaluated from left to right, each copied as for a binding; the first failure is the
/// failure of the call; then the name is looked up, which must be bound to a callable, and
/// the callable is called.
pub open spec fn evals_call(c0: Context, call: FnCall, c1: Context, r: Result<HeapItem, Error>) -> bool
    decreases c0.steps, 1int, call, 1int,
{
    exists|k: int, c: Context, handles: Seq<HeapItem>, after: Context|
        #![trigger reaches(k, c, handles, after)]
        call_evaluated(c0, call, k, c, handles, after, c1, r)
}

/// The steps of a call.
pub open spec fn call_evaluated(
    c0: Context,
    call: FnCall,
    k: int,
    c: Context,
    handles: Seq<HeapItem>,
    after: Context,
    c1: Context,
    r: Result<HeapItem, Error>,
) -> bool
    decreases c0.steps, 1int, call, 0int,
{
    &&& 0 <= k <= call.args.len()
    &&& args_evaluated(c0, call.args, k, c, handles)
    &&& c.steps <= c0.steps
    &&& after.releasing(c0.temps@.len() as int, &c1)
    &&& if k < call.args.len() {
        r is Err && evals_expr(c, call.args[k], after, r)
    } else {
        let at = binding_index(c.stack.values@, call.ident@, c.stack.values@.len() as int);
        if !(0 <= at < c.stack.values@.len()) {
            after == c && r is Err && r->Err_0 is Undeclared && r->Err_0->Undeclared_0@
                == call.ident@
        } else {
            match c.values.value(c.stack.values@[at].1) {
                Value::Callable(callable) => called(c, callable, at, handles, after, r),
                other => after == c && r == Err::<HeapItem, Error>(
                    Error::TypeError(ShallowValue::Callable, other.shallow()),
                ),
            }
        }
    }
}

/// Marks a context and a result that an evaluation passes through. It is true always.
pub open spec fn gives(c: Context, r: Result<HeapItem, Error>) -> bool {
    true
}

/// Marks how far the evaluation of a block came. It is true always.
pub open spec fn reaches_stmt(k: int, c: Context) -> bool {
    true
}

/// What the evaluation of a declaration passes through.
pub ghost struct DeclTrace {
    /// The context after the collection, if there was one.
    pub collected: Context,
    /// The context after the initializer.
    pub evaluated: Context,
    /// What the initializer gave.
    pub value: Result<HeapItem, Error>,
    /// The context after the copy.
    pub copied: Context,
    /// The handle that is bound.
    pub copy: HeapItem,
}

/// Marks what a declaration passed through. It is true always.
pub open spec fn traces_decl(t: DeclTrace) -> bool {
    true
}

/// What the evaluation of an assignment passes through.
pub ghost struct AssignTrace {
    /// The context after the value.
    pub evaluated: Context,
    /// What the value gave.
    pub value: Result<HeapItem, Error>,
    /// The context after the copy.
    pub copied: Context,
    /// The handle of the copy.
    pub copy: HeapItem,
    /// The context with the copy held.
    pub held: Context,
    /// The context after the target.
    pub targeted: Context,
    /// What the target gave.
    pub target: Result<HeapItem, Error>,
    /// The context with the copy released.
    pub released: Context,
}

/// Marks what an assignment passed through. It is true always.
pub open spec fn traces_assign(t: AssignTrace) -> bool {
    true
}

/// What a round of a loop passes through.
pub ghost struct RoundTrace {
    /// The context before the round.
    pub before: Context,
    /// The context after the condition.
    pub tested: Context,
    /// What the condition gave.
    pub condition: Result<HeapItem, Error>,
}

/// Marks what a round of a loop passed through. It is true always.
pub open spec fn traces_round(t: RoundTrace) -> bool {
    true
}

/// Marks how many rounds a loop made, and where it stood then. It is true always.
pub open spec fn reaches_round(n: int, c: Context, t: RoundTrace) -> bool {
    true
}

/// Whether evaluating the first `k` of `stmts` from `c0` on, each to its end, can leave `c`.
pub open spec fn stmts_completed(c0: Context, stmts: Vec<Stmt>, k: int, c: Context) -> bool
    decreases c0.steps, 3int, stmts, 2 * k + 1,
{
    if k <= 0 {
        c == c0
    } else if k > stmts.len() {
        false
    } else {
        exists|earlier: Context|
            #![trigger passes(earlier, c)]
            stmt_completed(c0, stmts, k, earlier, c)
    }
}

/// The step from `k - 1` statements to `k`.
pub open spec fn stmt_completed(c0: Context, stmts: Vec<Stmt>, k: int, earlier: Context, c: Context)
    -> bool
    decreases c0.steps, 3int, stmts, 2 * k,
{
    &&& 0 < k <= stmts.len()
    &&& stmts_completed(c0, stmts, k - 1, earlier)
    &&& earlier.steps <= c0.steps
    &&& evals_stmt(earlier, stmts[k - 1], c, Ok(BlockExit::Completed))
}

/// Whether evaluating the statements `stmts` in `c0` can leave `c1` and give `r`: they are
/// evaluated in order; the first that does not run to its end, be it that it fails or that
/// it leaves the block, ends the evaluation, and how it ends is how the block ends.
pub open spec fn evals_program(
    c0: Context,
    stmts: Vec<Stmt>,
    c1: Context,
    r: Result<BlockExit, Error>,
) -> bool
    decreases c0.steps, 3int, stmts, 2 * stmts.len() + 5,
{
    exists|k: int, c: Context|
        #![trigger reaches_stmt(k, c)]
        program_evaluated(c0, stmts, k, c, c1, r)
}

/// The steps of a block: `k` statements run to their end, which leaves `c`; then either the
/// next statement ends otherwise, or none is left.
pub open spec fn program_evaluated(
    c0: Context,
    stmts: Vec<Stmt>,
    k: int,
    c: Context,
    c1: Context,
    r: Result<BlockExit, Error>,
) -> bool
    decreases c0.steps, 3int, stmts, 2 * stmts.len() + 4,
{
    &&& 0 <= k <= stmts.len()
    &&& stmts_completed(c0, stmts, k, c)
    &&& if k < stmts.len() {
        &&& c.steps <= c0.steps
        &&& r != Ok::<BlockExit, Error>(BlockExit::Completed)
        &&& evals_stmt(c, stmts[k], c1, r)
    } else {
        c1 == c && r == Ok::<BlockExit, Error>(BlockExit::Completed)
    }
}

/// Whether evaluating `body` in a frame of its own in `c0` can leave `c1` and give `r`: a
/// frame is opened, the statements are evaluated, and the frame is closed, however the
/// statements ended.
pub open spec fn evals_block(c0: Context, body: Vec<Stmt>, c1: Context, r: Result<BlockExit, Error>)
    -> bool
    decreases c0.steps, 3int, body, 2 * body.len() + 7,
{
    exists|opened: Context, inner: Context|
        #![trigger passes(opened, inner)]
        block_evaluated(c0, body, opened, inner, c1, r)
}

/// The steps of a block in a frame of its own.
pub open spec fn block_evaluated(
    c0: Context,
    body: Vec<Stmt>,
    opened: Context,
    inner: Context,
    c1: Context,
    r: Result<BlockExit, Error>,
) -> bool
    decreases c0.steps, 3int, body, 2 * body.len() + 6,
{
    &&& c0.opening(&opened)
    &&& evals_program(opened, body, inner, r)
    &&& c0.closing(&inner, &c1)
}

/// How a statement ends that evaluates an expression and drops its value.
pub open spec fn dropped(r: Result<HeapItem, Error>) -> Result<BlockExit, Error> {
    match r {
        Ok(_) => Ok(BlockExit::Completed),
        Err(e) => Err(e),
    }
}

/// How a statement ends that returns the value of an expression.
pub open spec fn returned(r: Result<HeapItem, Error>) -> Result<BlockExit, Error> {
    match r {
        Ok(handle) => Ok(BlockExit::Returned(Some(handle))),
        Err(e) => Err(e),
    }
}

/// How a statement ends that a declaration or an assignment is.
pub open spec fn done(r: Result<(), Error>) -> Result<BlockExit, Error> {
    match r {
        Ok(()) => Ok(BlockExit::Completed),
        Err(e) => Err(e),
    }
}

/// Whether evaluating the statement `s` in `c0` can leave `c1` and give `r`.
pub open spec fn evals_stmt(c0: Context, s: Stmt, c1: Context, r: Result<BlockExit, Error>) -> bool
    decreases c0.steps, 3int, s, 5int,
{
    match s {
        Stmt::VarDecl(decl) => exists|result: Result<(), Error>|
            #![trigger done(result)]
            r == done(result) && evals_var_decl(c0, decl, c1, result),
        Stmt::VarAssign(assign) => exists|result: Result<(), Error>|
            #![trigger done(result)]
            r == done(result) && evals_var_assign(c0, assign, c1, result),
        Stmt::FnDecl(decl) => exists|result: Result<(), Error>|
            #![trigger done(result)]
            r == done(result) && declares_fn(c0, decl, c1, result),
        Stmt::Expr(e) => exists|value: Result<HeapItem, Error>|
            #![trigger dropped(value)]
            r == dropped(value) && evals_expr(c0, e, c1, value),
        Stmt::IfElse(if_else) => evals_if_else(c0, if_else, c1, r),
        Stmt::WhileLoop(while_loop) => evals_while(c0, while_loop, c1, r),
        Stmt::BlockExit(crate::ast::BlockExit::FnReturn(Some(e))) => exists|
            value: Result<HeapItem, Error>,
        |
            #![trigger returned(value)]
            r == returned(value) && evals_expr(c0, e, c1, value),
        Stmt::BlockExit(crate::ast::BlockExit::FnReturn(None)) => c1 == c0 && r == Ok::<
            BlockExit,
            Error,
        >(BlockExit::Returned(None)),
        Stmt::BlockExit(crate::ast::BlockExit::Break) => c1 == c0 && r == Ok::<BlockExit, Error>(
            BlockExit::Break,
        ),
        Stmt::BlockExit(crate::ast::BlockExit::Continue) => c1 == c0 && r == Ok::<
            BlockExit,
            Error,
        >(BlockExit::Continue),
    }
}

/// Whether `value` is the callable that the declaration `fn_decl` makes at the stack height
/// `height`.
pub open spec fn declares(value: Value, height: nat, fn_decl: FnDecl) -> bool {
    match value {
        Value::Callable(Callable::Interpreted(f)) => {
            &&& f.stack_height == height
            &&& f.prop_idents@ == fn_decl.prop_idents@
            &&& stmt_views(f.body) == stmt_views(fn_decl.body)
        },
        _ => false,
    }
}

/// Whether declaring the function `decl` in `c0` can leave `c1` and give `r`: where the
/// name is bound, that is the failure, and nothing changes; else a callable with the
/// parameters, the body and the height of the stack is put on the heap, and the name is
/// bound to it.
pub open spec fn declares_fn(c0: Context, decl: FnDecl, c1: Context, r: Result<(), Error>) -> bool {
    if binding_index(c0.stack.values@, decl.ident@, c0.stack.values@.len() as int) >= 0 {
        c1 == c0 && r is Err && r->Err_0 is Redeclaration && r->Err_0->Redeclaration_0@
            == decl.ident@
    } else {
        let handle = c1.stack.values@.last().1;
        &&& r is Ok
        &&& c1.stack.values@.len() > 0
        &&& declares(c1.values.value(handle), c0.stack.values@.len(), decl)
        &&& exists|allocated: Context|
            #![trigger passes(allocated, c1)]
            c0.allocating(c1.values.value(handle), handle, &allocated) && allocated.binding(
                decl.ident@,
                handle,
                &c1,
            )
    }
}

/// What a value is as a condition: `true` or `false` where it is a boolean, else the error
/// of comparing it to a boolean.
pub open spec fn condition_of(value: Value) -> Result<bool, Error> {
    match value {
        Value::Bool(b) => Ok(b),
        _ => Err(binary_op_error(value.shallow(), ShallowValue::Bool, crate::ast::BinaryOpKind::Equals)->0),
    }
}

/// Whether declaring the variable `decl` in `c0` can leave `c1` and give `r`: the collector
/// runs where it is on; the initializer is evaluated; its failure is the failure of the
/// declaration, and so it is that the name is bound; else the name is bound to the value, or
/// to a copy where the value is a scalar.
pub open spec fn evals_var_decl(c0: Context, decl: VarDecl, c1: Context, r: Result<(), Error>) -> bool
    decreases c0.steps, 2int, decl, 1int,
{
    exists|t: DeclTrace|
        #![trigger traces_decl(t)]
        var_decl_evaluated(c0, decl, t, c1, r)
}

/// The steps of a declaration.
pub open spec fn var_decl_evaluated(
    c0: Context,
    decl: VarDecl,
    t: DeclTrace,
    c1: Context,
    r: Result<(), Error>,
) -> bool
    decreases c0.steps, 2int, decl, 0int,
{
    &&& if c0.use_gc {
        c0.collecting(&t.collected)
    } else {
        t.collected == c0
    }
    &&& t.collected.steps <= c0.steps
    &&& evals_expr(t.collected, decl.initializer, t.evaluated, t.value)
    &&& match t.value {
        Err(e) => c1 == t.evaluated && r == Err::<(), Error>(e),
        Ok(value) => if binding_index(
            t.evaluated.stack.values@,
            decl.ident@,
            t.evaluated.stack.values@.len() as int,
        ) >= 0 {
            c1 == t.evaluated && r is Err && r->Err_0 is Redeclaration
                && r->Err_0->Redeclaration_0@ == decl.ident@
        } else {
            &&& r is Ok
            &&& t.evaluated.copying(value, t.copy, &t.copied)
            &&& t.copied.binding(decl.ident@, t.copy, &c1)
        },
    }
}

/// Whether evaluating the assignment `assign` in `c0` can leave `c1` and give `r`: the
/// value is evaluated and copied as for a binding; the copy is held while the target is
/// evaluated; the first failure is the failure of the assignment; else a value like the new
/// one, or what the operator makes of the old value and the new one, is written over the
/// value of the target, under the handle that the target has.
pub open spec fn evals_var_assign(c0: Context, assign: VarAssign, c1: Context, r: Result<(), Error>)
    -> bool
    decreases c0.steps, 2int, assign, 1int,
{
    exists|t: AssignTrace|
        #![trigger traces_assign(t)]
        var_assign_evaluated(c0, assign, t, c1, r)
}

/// The steps of an assignment.
pub open spec fn var_assign_evaluated(
    c0: Context,
    assign: VarAssign,
    t: AssignTrace,
    c1: Context,
    r: Result<(), Error>,
) -> bool
    decreases c0.steps, 2int, assign, 0int,
{
    &&& evals_expr(c0, assign.value, t.evaluated, t.value)
    &&& match t.value {
        Err(e) => c1 == t.evaluated && r == Err::<(), Error>(e),
        Ok(value) => {
            &&& t.evaluated.copying(value, t.copy, &t.copied)
            &&& t.copied.holding(t.copy, &t.held)
            &&& t.held.steps <= c0.steps
            &&& evals_expr(t.held, assign.to, t.targeted, t.target)
            &&& t.targeted.releasing(c0.temps@.len() as int, &t.released)
            &&& match t.target {
                Err(e) => c1 == t.released && r == Err::<(), Error>(e),
                Ok(target) => {
                    let old_value = t.released.values.value(target);
                    let new_value = t.released.values.value(t.copy);
                    match assign.op {
                        AssignOpKind::NoOp => {
                            &&& r is Ok
                            &&& c1.values.value(target).alike(&new_value)
                            &&& t.released.storing(target, c1.values.value(target), &c1)
                        },
                        AssignOpKind::Op(op) => match binary_op_error(
                            old_value.shallow(),
                            new_value.shallow(),
                            op,
                        ) {
                            Some(e) => c1 == t.released && r == Err::<(), Error>(e),
                            None => {
                                &&& r is Ok
                                &&& is_binary_op_result(
                                    old_value,
                                    new_value,
                                    op,
                                    c1.values.value(target),
                                )
                                &&& t.released.storing(target, c1.values.value(target), &c1)
                            },
                        },
                    }
                },
            }
        },
    }
}

/// Whether evaluating the conditional `if_else` in `c0` can leave `c1` and give `r`: the
/// condition is evaluated; its failure, or that it is no boolean, is the failure of the
/// conditional; else the branch that it selects is evaluated in a frame of its own, and how
/// it ends is how the conditional ends.
pub open spec fn evals_if_else(c0: Context, if_else: IfElse, c1: Context, r: Result<BlockExit, Error>)
    -> bool
    decreases c0.steps, 3int, if_else, 1int,
{
    exists|tested: Context, condition: Result<HeapItem, Error>|
        #![trigger gives(tested, condition)]
        if_else_evaluated(c0, if_else, tested, condition, c1, r)
}

/// The steps of a conditional.
pub open spec fn if_else_evaluated(
    c0: Context,
    if_else: IfElse,
    tested: Context,
    condition: Result<HeapItem, Error>,
    c1: Context,
    r: Result<BlockExit, Error>,
) -> bool
    decreases c0.steps, 3int, if_else, 0int,
{
    &&& evals_expr(c0, if_else.condition, tested, condition)
    &&& match condition {
        Err(e) => c1 == tested && r == Err::<BlockExit, Error>(e),
        Ok(handle) => match condition_of(tested.values.value(handle)) {
            Err(e) => c1 == tested && r == Err::<BlockExit, Error>(e),
            Ok(truth) => {
                &&& tested.steps <= c0.steps
                &&& if truth {
                    evals_block(tested, if_else.true_branch, c1, r)
                } else {
                    evals_block(tested, if_else.else_branch, c1, r)
                }
            },
        },
    }
}

/// How a loop goes on after its body ended in `exit`: `None` where the next iteration
/// follows, which is after a `continue` and after the end of the body, else how the loop
/// itself ends: a `break` ends it, a `return` ends it and what is around it.
pub open spec fn loop_end(exit: BlockExit) -> Option<BlockExit> {
    match exit {
        BlockExit::Returned(returned) => Some(BlockExit::Returned(returned)),
        BlockExit::Break => Some(BlockExit::Completed),
        BlockExit::Continue | BlockExit::Completed => None,
    }
}

/// Whether `n` rounds of the loop `w`, from `c0` on, after each of which the loop goes on,
/// can leave `c`.
pub open spec fn rounds_completed(c0: Context, w: WhileLoop, n: int, c: Context) -> bool
    decreases c0.steps, 3int, w, 0int, 2 * n + 1,
{
    if n <= 0 {
        c == c0
    } else {
        exists|t: RoundTrace|
            #![trigger traces_round(t)]
            round_completed(c0, w, n, t, c)
    }
}

/// The step from `n - 1` rounds to `n`: the condition is `true`, a step is left and is
/// taken, and the body, in a frame of its own, ends so that the loop goes on.
pub open spec fn round_completed(c0: Context, w: WhileLoop, n: int, t: RoundTrace, c: Context) -> bool
    decreases c0.steps, 3int, w, 0int, 2 * n,
{
    &&& 0 < n
    &&& rounds_completed(c0, w, n - 1, t.before)
    &&& t.before.steps <= c0.steps
    &&& evals_expr(t.before, w.condition, t.tested, t.condition)
    &&& t.condition is Ok
    &&& condition_of(t.tested.values.value(t.condition->Ok_0)) == Ok::<bool, Error>(true)
    &&& 0 < t.tested.steps <= c0.steps
    &&& exists|exit: BlockExit|
        #![trigger loop_end(exit)]
        loop_end(exit) is None && evals_block(t.tested.stepped(), w.body, c, Ok(exit))
}

/// Whether evaluating the loop `w` in `c0` can leave `c1` and give `r`: rounds are made
/// as long as the condition is `true`; the loop ends where the condition fails, is no
/// boolean or is `false`, where no step is left, and where the body fails, breaks or
/// returns.
pub open spec fn evals_while(c0: Context, w: WhileLoop, c1: Context, r: Result<BlockExit, Error>) -> bool
    decreases c0.steps, 3int, w, 1int, 1int,
{
    exists|n: int, c: Context, t: RoundTrace|
        #![trigger reaches_round(n, c, t)]
        while_evaluated(c0, w, n, c, t, c1, r)
}

/// The steps of a loop: `n` rounds, which leave `c`, and the round that ends the loop.
pub open spec fn while_evaluated(
    c0: Context,
    w: WhileLoop,
    n: int,
    c: Context,
    t: RoundTrace,
    c1: Context,
    r: Result<BlockExit, Error>,
) -> bool
    decreases c0.steps, 3int, w, 1int, 0int,
{
    &&& 0 <= n
    &&& rounds_completed(c0, w, n, c)
    &&& c.steps <= c0.steps
    &&& t.before == c
    &&& evals_expr(c, w.condition, t.tested, t.condition)
    &&& match t.condition {
        Err(e) => c1 == t.tested && r == Err::<BlockExit, Error>(e),
        Ok(handle) => match condition_of(t.tested.values.value(handle)) {
            Err(e) => c1 == t.tested && r == Err::<BlockExit, Error>(e),
            Ok(false) => c1 == t.tested && r == Ok::<BlockExit, Error>(BlockExit::Completed),
            Ok(true) => if t.tested.steps == 0 {
                c1 == t.tested && r == Err::<BlockExit, Error>(Error::StepLimitExceeded)
            } else {
                &&& t.tested.steps <= c0.steps
                &&& exists|exit: Result<BlockExit, Error>|
                    #![trigger last_round(exit)]
                    evals_block(t.tested.stepped(), w.body, c1, exit) && r == last_round(exit)
                        && !(exit matches Ok(e) && loop_end(e) is None)
            },
        },
    }
}

/// How the loop ends whose last round ended in `exit`.
pub open spec fn last_round(exit: Result<BlockExit, Error>) -> Result<BlockExit, Error> {
    match exit {
        Err(e) => Err(e),
        Ok(exit) => match loop_end(exit) {
            Some(end) => Ok(end),
            None => Ok(BlockExit::Completed),
        },
    }
}

} // verus!
