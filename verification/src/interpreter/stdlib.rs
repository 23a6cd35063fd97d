//! The functions that the library itself offers to programs: those on arrays, and `len`.

use vstd::prelude::*;
use vstd::string::StringExecFns;
use crate::interpreter::callable::{Builtin, Callable, Host};
use crate::interpreter::context::Context;
use crate::interpreter::error::Error;
use crate::interpreter::heap::HeapItem;
use crate::interpreter::semantics::passes;
use crate::interpreter::value::{ShallowValue, Value};

verus! {

/// `items` with the arguments from `from` on put in front, one after the other: the one that
/// comes last stands first.
pub open spec fn unshifted(items: Seq<HeapItem>, args: Seq<HeapItem>, from: int) -> Seq<HeapItem>
    decreases args.len() - from,
{
    if from < 0 || from >= args.len() {
        items
    } else {
        unshifted(seq![args[from]] + items, args, from + 1)
    }
}

/// The error of a call of a function on arrays with `args`, where it needs `needed` of them:
/// too few arguments, or a first argument that is no array.
pub open spec fn array_call_error(context: Context, args: Seq<HeapItem>, needed: usize) -> Option<
    Error,
> {
    if args.len() < needed {
        Some(Error::IncorrectArgumentCount(needed, args.len() as usize))
    } else if !(context.values.value(args[0]) is Array) {
        Some(Error::TypeError(ShallowValue::Array, context.values.value(args[0]).shallow()))
    } else {
        None
    }
}

/// What all builtins require of their arguments: they are alive.
pub open spec fn live_args(context: Context, args: Seq<HeapItem>) -> bool {
    forall|i: int| 0 <= i < args.len() ==> context.values.contains(#[trigger] args[i])
}

/// The array that the first argument names, copied, or the error of the call.
fn array_argument(context: &Context, args: &Vec<HeapItem>, needed: usize) -> (items: Result<
    Vec<HeapItem>,
    Error,
>)
    requires
        context.wf(),
        live_args(*context, args@),
        needed >= 1,
    ensures
        match array_call_error(*context, args@, needed) {
            Some(e) => items == Err::<Vec<HeapItem>, Error>(e),
            None => items is Ok && context.values.value(args@[0]) is Array && items->Ok_0@
                == context.values.value(args@[0])->Array_0@,
        },
{
    if args.len() < needed {
        return Err(Error::IncorrectArgumentCount(needed, args.len()));
    }
    match context.value_of(args[0]) {
        Value::Array(items) => Ok(items.clone()),
        other => Err(Error::TypeError(ShallowValue::Array, other.as_shallow())),
    }
}

/// Whether `push` with `args` in `c0` can leave `c1` and give `r`: the arguments behind the
/// first are appended, in their order, to the array that the first names, and `r` is a
/// fresh null.
pub open spec fn push_yields(c0: Context, args: Seq<HeapItem>, c1: Context, r: Result<HeapItem, Error>)
    -> bool {
    match array_call_error(c0, args, 2) {
        Some(e) => r == Err::<HeapItem, Error>(e) && c1 == c0,
        None => r is Ok && exists|stored: Context|
            #![trigger passes(stored, c1)]
            {
                &&& stored.values.value(args[0]) is Array
                &&& stored.values.value(args[0])->Array_0@ == c0.values.value(args[0])->Array_0@
                    + args.subrange(1, args.len() as int)
                &&& c0.storing(args[0], stored.values.value(args[0]), &stored)
                &&& stored.allocating(Value::Null, r->Ok_0, &c1)
            },
    }
}

/// `push(array, value, ..)`: appends the values to the array, in order, and gives null.
pub fn push(context: &mut Context, args: &Vec<HeapItem>) -> (value: Result<HeapItem, Error>)
    requires
        old(context).wf(),
        live_args(*old(context), args@),
    ensures
        old(context).advances_to(final(context)),
        push_yields(*old(context), args@, *final(context), value),
        value matches Ok(handle) ==> final(context).values.contains(handle),
{
    assert(context.stack.values@.subrange(0, context.stack.values@.len() as int)
        =~= context.stack.values@);
    let mut items = match array_argument(context, args, 2) {
        Ok(items) => items,
        Err(e) => {
            return Err(e);
        },
    };
    let ghost initial = items@;
    assert(initial == context.values.value(args@[0]).children());
    let mut index: usize = 1;
    assert(items@ =~= initial + args@.subrange(1, 1));
    while index < args.len()
        invariant
            1 <= index <= args@.len(),
            items@ == initial + args@.subrange(1, index as int),
        decreases args@.len() - index,
    {
        items.push(args[index]);
        index += 1;
        assert(items@ =~= initial + args@.subrange(1, index as int));
    }
    let ghost before = *context;
    context.store(args[0], Value::Array(items));
    let ghost stored = *context;
    let handle = context.allocate(Value::Null);
    proof {
        before.lemma_follows(&stored, context);
        assert(passes(stored, *context));
    }
    Ok(handle)
}

/// Whether `pop` with `args` in `c0` can leave `c1` and give `r`: the last element is taken
/// off the array that the first argument names, and is `r`; where the array is empty, `r`
/// is a fresh null.
pub open spec fn pop_yields(c0: Context, args: Seq<HeapItem>, c1: Context, r: Result<HeapItem, Error>)
    -> bool {
    match array_call_error(c0, args, 1) {
        Some(e) => r == Err::<HeapItem, Error>(e) && c1 == c0,
        None => {
            let items = c0.values.value(args[0])->Array_0@;
            if items.len() == 0 {
                r is Ok && c0.allocating(Value::Null, r->Ok_0, &c1)
            } else {
                &&& r == Ok::<HeapItem, Error>(items.last())
                &&& c1.values.value(args[0]) is Array
                &&& c1.values.value(args[0])->Array_0@ == items.drop_last()
                &&& c0.storing(args[0], c1.values.value(args[0]), &c1)
            }
        },
    }
}

/// `pop(array)`: takes the last element off the array and gives it; null where the array is
/// empty.
pub fn pop(context: &mut Context, args: &Vec<HeapItem>) -> (value: Result<HeapItem, Error>)
    requires
        old(context).wf(),
        live_args(*old(context), args@),
    ensures
        old(context).advances_to(final(context)),
        pop_yields(*old(context), args@, *final(context), value),
        value matches Ok(handle) ==> final(context).values.contains(handle),
{
    assert(context.stack.values@.subrange(0, context.stack.values@.len() as int)
        =~= context.stack.values@);
    let mut items = match array_argument(context, args, 1) {
        Ok(items) => items,
        Err(e) => {
            return Err(e);
        },
    };
    assert(items@ == context.values.value(args@[0]).children());
    match items.pop() {
        None => Ok(context.allocate(Value::Null)),
        Some(last) => {
            assert(context.values.contains(context.values.value(args@[0]).children()[items@.len() as int]));
            context.store(args[0], Value::Array(items));
            Ok(last)
        },
    }
}

/// Whether `unshift` with `args` in `c0` can leave `c1` and give `r`: the arguments behind
/// the first are put in front of the array that the first names, one after the other, and
/// `r` is a fresh null.
pub open spec fn unshift_yields(
    c0: Context,
    args: Seq<HeapItem>,
    c1: Context,
    r: Result<HeapItem, Error>,
) -> bool {
    match array_call_error(c0, args, 2) {
        Some(e) => r == Err::<HeapItem, Error>(e) && c1 == c0,
        None => r is Ok && exists|stored: Context|
            #![trigger passes(stored, c1)]
            {
                &&& stored.values.value(args[0]) is Array
                &&& stored.values.value(args[0])->Array_0@ == unshifted(
                    c0.values.value(args[0])->Array_0@,
                    args,
                    1,
                )
                &&& c0.storing(args[0], stored.values.value(args[0]), &stored)
                &&& stored.allocating(Value::Null, r->Ok_0, &c1)
            },
    }
}

/// `unshift(array, value, ..)`: puts each value in front of the array, one after the other,
/// and gives null.
pub fn unshift(context: &mut Context, args: &Vec<HeapItem>) -> (value: Result<HeapItem, Error>)
    requires
        old(context).wf(),
        live_args(*old(context), args@),
    ensures
        old(context).advances_to(final(context)),
        unshift_yields(*old(context), args@, *final(context), value),
        value matches Ok(handle) ==> final(context).values.contains(handle),
{
    assert(context.stack.values@.subrange(0, context.stack.values@.len() as int)
        =~= context.stack.values@);
    let mut items = match array_argument(context, args, 2) {
        Ok(items) => items,
        Err(e) => {
            return Err(e);
        },
    };
    let ghost initial = items@;
    assert(initial == context.values.value(args@[0]).children());
    let mut index: usize = 1;
    while index < args.len()
        invariant
            1 <= index <= args@.len(),
            unshifted(initial, args@, 1) == unshifted(items@, args@, index as int),
            forall|i: int| 0 <= i < items@.len() ==> context.values.contains(#[trigger] items@[i]),
            live_args(*context, args@),
        decreases args@.len() - index,
    {
        let ghost earlier = items@;
        items.insert(0, args[index]);
        assert(items@ =~= seq![args@[index as int]] + earlier);
        index += 1;
    }
    let ghost before = *context;
    context.store(args[0], Value::Array(items));
    let ghost stored = *context;
    let handle = context.allocate(Value::Null);
    proof {
        before.lemma_follows(&stored, context);
        assert(passes(stored, *context));
    }
    Ok(handle)
}

/// Whether `shift` with `args` in `c0` can leave `c1` and give `r`: the first element is
/// taken off the array that the first argument names, and is `r`; where the array is empty,
/// `r` is a fresh null.
pub open spec fn shift_yields(c0: Context, args: Seq<HeapItem>, c1: Context, r: Result<HeapItem, Error>)
    -> bool {
    match array_call_error(c0, args, 1) {
        Some(e) => r == Err::<HeapItem, Error>(e) && c1 == c0,
        None => {
            let items = c0.values.value(args[0])->Array_0@;
            if items.len() == 0 {
                r is Ok && c0.allocating(Value::Null, r->Ok_0, &c1)
            } else {
                &&& r == Ok::<HeapItem, Error>(items[0])
                &&& c1.values.value(args[0]) is Array
                &&& c1.values.value(args[0])->Array_0@ == items.subrange(1, items.len() as int)
                &&& c0.storing(args[0], c1.values.value(args[0]), &c1)
            }
        },
    }
}

/// `shift(array)`: takes the first element off the array and gives it; null where the array
/// is empty.
pub fn shift(context: &mut Context, args: &Vec<HeapItem>) -> (value: Result<HeapItem, Error>)
    requires
        old(context).wf(),
        live_args(*old(context), args@),
    ensures
        old(context).advances_to(final(context)),
        shift_yields(*old(context), args@, *final(context), value),
        value matches Ok(handle) ==> final(context).values.contains(handle),
{
    assert(context.stack.values@.subrange(0, context.stack.values@.len() as int)
        =~= context.stack.values@);
    let mut items = match array_argument(context, args, 1) {
        Ok(items) => items,
        Err(e) => {
            return Err(e);
        },
    };
    assert(items@ == context.values.value(args@[0]).children());
    if items.len() == 0 {
        return Ok(context.allocate(Value::Null));
    }
    assert(context.values.contains(context.values.value(args@[0]).children()[0]));
    let ghost initial = items@;
    let first = items.remove(0);
    assert(items@ =~= initial.subrange(1, initial.len() as int));
    context.store(args[0], Value::Array(items));
    Ok(first)
}

/// The length of a value: the bytes of a string as UTF-8, the elements of an array, the
/// fields of an object. Other values have none.
pub open spec fn length_of(value: Value) -> Result<usize, Error> {
    match value {
        Value::String(s) => Ok(vstd::utf8::encode_utf8(s@).len() as usize),
        Value::Array(items) => Ok(items@.len() as usize),
        Value::Object(fields) => Ok(fields@.len() as usize),
        _ => Err(Error::CannotIndexType(value.shallow())),
    }
}

/// The length of a value.
pub fn measure(value: &Value) -> (length: Result<usize, Error>)
    ensures
        length == length_of(*value),
{
    match value {
        Value::String(s) => Ok(s.as_str().len()),
        Value::Array(items) => Ok(items.len()),
        Value::Object(fields) => Ok(fields.len()),
        other => Err(Error::CannotIndexType(other.as_shallow())),
    }
}

/// Whether `len` with `args` in `c0` can leave `c1` and give `r`: a fresh number, which
/// the host makes of the length of the value that the first argument names.
pub open spec fn len_yields(c0: Context, args: Seq<HeapItem>, c1: Context, r: Result<HeapItem, Error>)
    -> bool {
    if args.len() == 0 {
        r == Err::<HeapItem, Error>(Error::IncorrectArgumentCount(1, 0)) && c1 == c0
    } else {
        match length_of(c0.values.value(args[0])) {
            Err(e) => r == Err::<HeapItem, Error>(e) && c1 == c0,
            Ok(_) => {
                &&& r is Ok
                &&& c1.values.value(r->Ok_0) is Number
                &&& c0.allocating(c1.values.value(r->Ok_0), r->Ok_0, &c1)
            },
        }
    }
}

/// `len(value)`: the length of a string, an array or an object, as the number that the host
/// makes of it.
pub fn len<H: Host>(context: &mut Context, host: &H, args: &Vec<HeapItem>) -> (value: Result<
    HeapItem,
    Error,
>)
    requires
        old(context).wf(),
        live_args(*old(context), args@),
    ensures
        old(context).advances_to(final(context)),
        len_yields(*old(context), args@, *final(context), value),
        value matches Ok(handle) ==> final(context).values.contains(handle),
{
    assert(context.stack.values@.subrange(0, context.stack.values@.len() as int)
        =~= context.stack.values@);
    if args.len() == 0 {
        return Err(Error::IncorrectArgumentCount(1, args.len()));
    }
    let length = match measure(context.value_of(args[0])) {
        Ok(length) => length,
        Err(e) => {
            return Err(e);
        },
    };
    let n = host.count(length);
    Ok(context.allocate(Value::Number(n)))
}

/// Whether calling the function `builtin` of the library with `args` in `c0` can leave `c1`
/// and give `r`.
pub open spec fn builtin_yields(
    c0: Context,
    builtin: Builtin,
    args: Seq<HeapItem>,
    c1: Context,
    r: Result<HeapItem, Error>,
) -> bool {
    match builtin {
        Builtin::Push => push_yields(c0, args, c1, r),
        Builtin::Pop => pop_yields(c0, args, c1, r),
        Builtin::Unshift => unshift_yields(c0, args, c1, r),
        Builtin::Shift => shift_yields(c0, args, c1, r),
        Builtin::Len => len_yields(c0, args, c1, r),
    }
}

/// Calls a function of the library.
pub fn call_builtin<H: Host>(
    context: &mut Context,
    host: &H,
    builtin: Builtin,
    args: &Vec<HeapItem>,
) -> (value: Result<HeapItem, Error>)
    requires
        old(context).wf(),
        live_args(*old(context), args@),
    ensures
        old(context).advances_to(final(context)),
        builtin_yields(*old(context), builtin, args@, *final(context), value),
        value matches Ok(handle) ==> final(context).values.contains(handle),
{
    match builtin {
        Builtin::Push => push(context, args),
        Builtin::Pop => pop(context, args),
        Builtin::Unshift => unshift(context, args),
        Builtin::Shift => shift(context, args),
        Builtin::Len => len(context, host, args),
    }
}

/// Binds the functions of the library in `context`: `push`, `pop`, `unshift`, `shift`, `len`.
pub fn add_stdlib(context: &mut Context)
    requires
        old(context).wf(),
    ensures
        final(context).wf(),
        final(context).stack.frames@ == old(context).stack.frames@,
        final(context).stack.values@.len() == old(context).stack.values@.len() + 5,
        final(context).stack.values@.subrange(0, old(context).stack.values@.len() as int) == old(
            context).stack.values@,
        old(context).values.kept_by(&final(context).values),
        final(context).temps@ == old(context).temps@,
        final(context).steps == old(context).steps,
        final(context).use_gc == old(context).use_gc,
{
    let ghost start = context.stack.values@;
    context.register_callable(String::from_str("push"), Callable::Builtin(Builtin::Push));
    let ghost one = context.stack.values@;
    assert(one.subrange(0, start.len() as int) =~= one.drop_last());
    context.register_callable(String::from_str("pop"), Callable::Builtin(Builtin::Pop));
    let ghost two = context.stack.values@;
    assert(two.subrange(0, start.len() as int) =~= two.drop_last().subrange(0, start.len() as int));
    context.register_callable(String::from_str("unshift"), Callable::Builtin(Builtin::Unshift));
    let ghost three = context.stack.values@;
    assert(three.subrange(0, start.len() as int) =~= three.drop_last().subrange(
        0,
        start.len() as int,
    ));
    context.register_callable(String::from_str("shift"), Callable::Builtin(Builtin::Shift));
    let ghost four = context.stack.values@;
    assert(four.subrange(0, start.len() as int) =~= four.drop_last().subrange(
        0,
        start.len() as int,
    ));
    context.register_callable(String::from_str("len"), Callable::Builtin(Builtin::Len));
    let ghost five = context.stack.values@;
    assert(five.subrange(0, start.len() as int) =~= five.drop_last().subrange(
        0,
        start.len() as int,
    ));
}

} // verus!
