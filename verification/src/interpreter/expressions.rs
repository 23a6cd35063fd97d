//! The evaluation of expressions.

use vstd::prelude::*;
use vstd::string::StrSliceExecFns;
use crate::ast::{BinaryOp, Expr, Field, FnCall, Member};
use crate::interpreter::callable::Host;
use crate::interpreter::context::Context;
use crate::interpreter::error::Error;
use crate::interpreter::heap::HeapItem;
use crate::interpreter::stack::binding_index;
use crate::interpreter::value::{field_handles, key_index, Number, ObjectField, ShallowValue, Value};
use crate::interpreter::semantics::{
    array_evaluated,
    binary_op_evaluated,
    evals_array,
    evals_binary_op,
    evals_expr,
    evals_member,
    evals_object,
    field_evaluated,
    field_set,
    fields_evaluated,
    item_evaluated,
    items_evaluated,
    member_evaluated,
    member_yields,
    object_evaluated,
    passes,
    passes_field,
    reaches,
    reaches_field,
    traces,
    OperandsTrace,
};
use crate::text::same_text;

verus! {

/// Sets the field `key` of an object to `value`: in place where the key is there, at the end
/// where it is new.
pub fn object_insert(fields: &mut Vec<ObjectField>, key: String, value: HeapItem)
    requires
        forall|i: int, j: int|
            0 <= i < j < old(fields)@.len() ==> old(fields)@[i].key@ != old(fields)@[j].key@,
    ensures
        forall|i: int, j: int|
            0 <= i < j < final(fields)@.len() ==> final(fields)@[i].key@ != final(fields)@[j].key@,
        ({
            let at = key_index(old(fields)@, key@, 0);
            if 0 <= at < old(fields)@.len() {
                final(fields)@ == old(fields)@.update(at, ObjectField { key, value })
            } else {
                final(fields)@ == old(fields)@.push(ObjectField { key, value })
            }
        }),
        final(fields)@.len() >= old(fields)@.len(),
        forall|i: int|
            0 <= i < final(fields)@.len() ==> (#[trigger] final(fields)@[i]).value == value || (i
                < old(fields)@.len() && final(fields)@[i] == old(fields)@[i]),
{
    let mut index: usize = 0;
    while index < fields.len()
        invariant
            index <= fields@.len(),
            fields@ == old(fields)@,
            key_index(fields@, key@, 0) == key_index(fields@, key@, index as int),
            forall|i: int| 0 <= i < index ==> fields@[i].key@ != key@,
            forall|i: int, j: int|
                0 <= i < j < fields@.len() ==> fields@[i].key@ != fields@[j].key@,
        decreases fields@.len() - index,
    {
        if same_text(fields[index].key.as_str(), key.as_str()) {
            let ghost replaced = ObjectField { key, value };
            fields.set(index, ObjectField { key, value });
            assert(fields@ == old(fields)@.update(index as int, replaced));
            assert forall|i: int, j: int| 0 <= i < j < fields@.len() implies fields@[i].key@
                != fields@[j].key@ by {
                assert(fields@[i].key@ == old(fields)@[i].key@);
                assert(fields@[j].key@ == old(fields)@[j].key@);
            }
            return ;
        }
        index += 1;
    }
    fields.push(ObjectField { key, value });
}

/// The index of the field with the key `key`, if there is one.
pub fn find_field(fields: &Vec<ObjectField>, key: &str) -> (found: Option<usize>)
    ensures
        match found {
            Some(at) => at < fields@.len() && at as int == key_index(fields@, key@, 0)
                && fields@[at as int].key@ == key@,
            None => key_index(fields@, key@, 0) >= fields@.len(),
        },
{
    let mut at: usize = 0;
    while at < fields.len()
        invariant
            at <= fields@.len(),
            key_index(fields@, key@, 0) == key_index(fields@, key@, at as int),
        decreases fields@.len() - at,
    {
        if same_text(fields[at].key.as_str(), key) {
            return Some(at);
        }
        at += 1;
    }
    None
}

impl Context {
    /// Evaluates an expression to the handle of its value. A name gives the handle that it
    /// is bound to; a literal and an operation give a fresh one.
    pub fn eval_expr<H: Host>(&mut self, host: &mut H, expr: &Expr) -> (value: Result<
        HeapItem,
        Error,
    >)
        requires
            old(self).wf(),
        ensures
            old(self).advances_to(final(self)),
            evals_expr(*old(self), *expr, *final(self), value),
            value matches Ok(handle) ==> final(self).values.contains(handle),
            expr matches Expr::Ident(name) ==> final(self).stack.values@ == old(
                self).stack.values@ && final(self).values == old(self).values && (match value {
                Ok(handle) => binding_index(
                    old(self).stack.values@,
                    name@,
                    old(self).stack.values@.len() as int,
                ) >= 0 && handle == old(self).stack.values@[binding_index(
                    old(self).stack.values@,
                    name@,
                    old(self).stack.values@.len() as int,
                )].1,
                Err(e) => binding_index(
                    old(self).stack.values@,
                    name@,
                    old(self).stack.values@.len() as int,
                ) == -1 && e is Undeclared && e->Undeclared_0@ == name@,
            }),
            expr matches Expr::StringLiteral(text) ==> value is Ok && !old(self).values.contains(
                value->Ok_0,
            ) && final(self).values.value(value->Ok_0) is String && final(self).values.value(
                value->Ok_0,
            )->String_0@ == text@,
            expr matches Expr::BoolLiteral(b) ==> value is Ok && !old(self).values.contains(
                value->Ok_0,
            ) && final(self).values.value(value->Ok_0) == Value::Bool(*b),
            expr is NumberLiteral ==> value is Ok && !old(self).values.contains(value->Ok_0)
                && final(self).values.value(value->Ok_0) is Number,
        decreases old(self).steps, 0int, expr, 5int,
    {
        assert(self.stack.values@.subrange(0, self.stack.values@.len() as int)
            =~= self.stack.values@);
        match expr {
            Expr::Ident(name) => match self.find_with_ident(name.as_str()) {
                Ok(found) => Ok(found.value),
                Err(e) => Err(e),
            },
            Expr::NumberLiteral(numeral) => {
                let n = host.number(numeral.as_str());
                Ok(self.allocate(Value::Number(n)))
            },
            Expr::StringLiteral(text) => Ok(self.allocate(Value::String(text.clone()))),
            Expr::BoolLiteral(b) => Ok(self.allocate(Value::Bool(*b))),
            Expr::ArrayLiteral(items) => self.eval_array_lit(host, items),
            Expr::ObjectLiteral(fields) => self.eval_object_lit(host, fields),
            Expr::BinaryOp(bin_op) => self.eval_binary_op(host, bin_op),
            Expr::FnCall(fn_call) => self.run_fn(host, fn_call),
            Expr::Member(member) => self.eval_member(host, member),
        }
    }

    /// Evaluates the items of an array literal from left to right, to a fresh array of their
    /// handles.
    pub fn eval_array_lit<H: Host>(&mut self, host: &mut H, arr: &Vec<Expr>) -> (value: Result<
        HeapItem,
        Error,
    >)
        requires
            old(self).wf(),
        ensures
            old(self).advances_to(final(self)),
            evals_array(*old(self), *arr, *final(self), value),
            value matches Ok(handle) ==> final(self).values.contains(handle) && final(
                self).values.value(handle) is Array && final(self).values.value(
                handle,
            )->Array_0@.len() == arr@.len(),
        decreases old(self).steps, 0int, arr, 0int,
    {
        let ghost start = *self;
        assert(start.stack.values@.subrange(0, start.stack.values@.len() as int)
            =~= start.stack.values@);
        let base = self.temps.len();
        let mut results: Vec<HeapItem> = Vec::new();
        let mut index: usize = 0;
        assert(self.temps@ =~= start.temps@ + results@);

        while index < arr.len()
            invariant
                index <= arr@.len(),
                results@.len() == index,
                start == *old(self),
                start.follows(self),
                base == start.temps@.len(),
                self.temps@ == start.temps@ + results@,
                items_evaluated(start, *arr, index as int, *self, results@),
            decreases arr@.len() - index,
        {
            let ghost before = *self;
            let ghost earlier = results@;
            match self.eval_expr(host, &arr[index]) {
                Err(e) => {
                    let ghost failed = *self;
                    self.release_to(base);
                    proof {
                        start.lemma_follows(&before, &failed);
                        assert(self.temps@ =~= start.temps@);
                        assert(array_evaluated(
                            start,
                            *arr,
                            index as int,
                            before,
                            earlier,
                            failed,
                            *self,
                            Err(e),
                        ));
                        assert(reaches(index as int, before, earlier, failed));
                        assert(evals_array(start, *arr, *self, Err(e)));
                    }
                    return Err(e);
                },
                Ok(handle) => {
                    let ghost evaluated = *self;
                    self.hold(handle);
                    results.push(handle);
                    proof {
                        start.lemma_follows(&before, &evaluated);
                        assert(self.temps@ =~= start.temps@ + results@);
                        assert(results@.drop_last() =~= earlier);
                        assert(item_evaluated(
                            start,
                            *arr,
                            index + 1,
                            before,
                            evaluated,
                            *self,
                            results@,
                        ));
                        assert(passes(before, evaluated));
                        assert(items_evaluated(start, *arr, index + 1, *self, results@));
                    }
                },
            }
            index += 1;
        }
        proof {
            assert forall|i: int| 0 <= i < results@.len() implies self.values.contains(
                #[trigger] results@[i],
            ) by {
                assert(self.temps@[base + i] == results@[i]);
            }
        }
        let ghost filled = *self;
        let ghost handles = results@;
        self.release_to(base);
        assert(self.temps@ =~= start.temps@);
        let ghost released = *self;
        let handle = self.allocate(Value::Array(results));
        proof {
            start.lemma_follows(&released, self);
            assert(array_evaluated(
                start,
                *arr,
                arr@.len() as int,
                filled,
                handles,
                released,
                *self,
                Ok(handle),
            ));
            assert(reaches(arr@.len() as int, filled, handles, released));
            assert(evals_array(start, *arr, *self, Ok(handle)));
        }
        Ok(handle)
    }

    /// Evaluates the values of the fields of an object literal, to a fresh object.
    pub fn eval_object_lit<H: Host>(&mut self, host: &mut H, obj: &Vec<Field>) -> (value: Result<
        HeapItem,
        Error,
    >)
        requires
            old(self).wf(),
        ensures
            old(self).advances_to(final(self)),
            evals_object(*old(self), *obj, *final(self), value),
            value matches Ok(handle) ==> final(self).values.contains(handle) && final(
                self).values.value(handle) is Object,
        decreases old(self).steps, 0int, obj, 0int,
    {
        let ghost start = *self;
        assert(start.stack.values@.subrange(0, start.stack.values@.len() as int)
            =~= start.stack.values@);
        let base = self.temps.len();
        let mut results: Vec<ObjectField> = Vec::new();
        let mut index: usize = 0;
        assert(self.temps@.subrange(0, base as int) =~= start.temps@);

        while index < obj.len()
            invariant
                index <= obj@.len(),
                start == *old(self),
                start.follows(self),
                base == start.temps@.len(),
                base <= self.temps@.len(),
                self.temps@.subrange(0, base as int) == start.temps@,
                forall|i: int|
                    0 <= i < results@.len() ==> self.temps@.contains((#[trigger] results@[i]).value),
                forall|i: int, j: int|
                    0 <= i < j < results@.len() ==> results@[i].key@ != results@[j].key@,
                fields_evaluated(start, *obj, index as int, *self, results@),
            decreases obj@.len() - index,
        {
            let ghost before = *self;
            let ghost object = results@;
            let field = &obj[index];
            match self.eval_expr(host, &field.value) {
                Err(e) => {
                    let ghost failed = *self;
                    self.release_to(base);
                    proof {
                        start.lemma_follows(&before, &failed);
                        assert(object_evaluated(
                            start,
                            *obj,
                            index as int,
                            before,
                            object,
                            failed,
                            *self,
                            Err(e),
                        ));
                        assert(reaches_field(index as int, before, object, failed));
                        assert(evals_object(start, *obj, *self, Err(e)));
                    }
                    return Err(e);
                },
                Ok(handle) => {
                    let ghost evaluated = *self;
                    self.hold(handle);
                    let ghost earlier = results@;
                    object_insert(&mut results, field.key.clone(), handle);
                    proof {
                        start.lemma_follows(&before, &evaluated);
                        assert(self.temps@.subrange(0, base as int) =~= start.temps@);
                        assert(self.temps@[evaluated.temps@.len() as int] == handle);
                        assert forall|i: int| 0 <= i < results@.len() implies self.temps@.contains(
                            (#[trigger] results@[i]).value,
                        ) by {
                            if results@[i].value != handle {
                                assert(i < earlier.len() && earlier[i] == results@[i]);
                                let j = choose|j: int|
                                    0 <= j < evaluated.temps@.len() && evaluated.temps@[j]
                                        == earlier[i].value;
                                assert(self.temps@[j] == earlier[i].value);
                            }
                        }
                        let at = key_index(earlier, obj@[index as int].key@, 0);
                        if !(0 <= at < earlier.len()) {
                            assert(results@.drop_last() =~= earlier);
                        }
                        assert(field_set(earlier, obj@[index as int].key@, handle, results@));
                        assert(field_evaluated(
                            start,
                            *obj,
                            index + 1,
                            before,
                            evaluated,
                            earlier,
                            handle,
                            *self,
                            results@,
                        ));
                        assert(passes_field(before, evaluated, earlier, handle));
                        assert(fields_evaluated(start, *obj, index + 1, *self, results@));
                    }
                },
            }
            index += 1;
        }
        proof {
            assert forall|i: int| 0 <= i < results@.len() implies self.values.contains(
                (#[trigger] results@[i]).value,
            ) by {
                let j = choose|j: int|
                    0 <= j < self.temps@.len() && self.temps@[j] == results@[i].value;
                assert(self.values.contains(self.temps@[j]));
            }
        }
        let ghost filled = *self;
        let ghost fields = results@;
        self.release_to(base);
        let ghost released = *self;
        let object = Value::Object(results);
        assert(object.children() =~= field_handles(results@));
        let handle = self.allocate(object);
        proof {
            start.lemma_follows(&released, self);
            assert(object_evaluated(
                start,
                *obj,
                obj@.len() as int,
                filled,
                fields,
                released,
                *self,
                Ok(handle),
            ));
            assert(reaches_field(obj@.len() as int, filled, fields, released));
            assert(evals_object(start, *obj, *self, Ok(handle)));
        }
        Ok(handle)
    }

    /// Evaluates the left operand, then the right one, and puts the result of the operation
    /// on the heap.
    pub fn eval_binary_op<H: Host>(&mut self, host: &mut H, bin_op: &BinaryOp) -> (value: Result<
        HeapItem,
        Error,
    >)
        requires
            old(self).wf(),
        ensures
            old(self).advances_to(final(self)),
            evals_binary_op(*old(self), *bin_op, *final(self), value),
            value matches Ok(handle) ==> final(self).values.contains(handle) && final(
                self).values.value(handle).is_scalar(),
        decreases old(self).steps, 0int, bin_op, 0int,
    {
        let ghost start = *self;
        let base = self.temps.len();
        let a = match self.eval_expr(host, &bin_op.a) {
            Ok(a) => a,
            Err(e) => {
                proof {
                    let t = OperandsTrace {
                        after_a: *self,
                        a: Err(e),
                        held: *self,
                        after_b: *self,
                        b: Err(e),
                        released: *self,
                    };
                    assert(binary_op_evaluated(start, *bin_op, t, *self, Err(e)));
                    assert(traces(t, None));
                    assert(evals_binary_op(start, *bin_op, *self, Err(e)));
                }
                return Err(e);
            },
        };
        let ghost first = *self;
        self.hold(a);
        let ghost held = *self;
        let b = match self.eval_expr(host, &bin_op.b) {
            Ok(b) => b,
            Err(e) => {
                let ghost failed = *self;
                self.release_to(base);
                proof {
                    start.lemma_follows(&first, &failed);
                    assert(self.temps@ =~= start.temps@);
                    let t = OperandsTrace {
                        after_a: first,
                        a: Ok(a),
                        held,
                        after_b: failed,
                        b: Err(e),
                        released: *self,
                    };
                    assert(binary_op_evaluated(start, *bin_op, t, *self, Err(e)));
                    assert(traces(t, None));
                    assert(evals_binary_op(start, *bin_op, *self, Err(e)));
                }
                return Err(e);
            },
        };
        let ghost second = *self;
        assert(self.values.contains(self.temps@[base as int]));
        self.release_to(base);
        proof {
            start.lemma_follows(&first, &second);
            assert(self.temps@ =~= start.temps@);
        }
        let ghost released = *self;
        let ghost t = OperandsTrace {
            after_a: first,
            a: Ok(a),
            held,
            after_b: second,
            b: Ok(b),
            released,
        };
        let result = match self.value_of(a).run_binary_op(self.value_of(b), bin_op.kind, &*host) {
            Ok(result) => result,
            Err(e) => {
                proof {
                    assert(binary_op_evaluated(start, *bin_op, t, *self, Err(e)));
                    assert(traces(t, None));
                    assert(evals_binary_op(start, *bin_op, *self, Err(e)));
                }
                return Err(e);
            },
        };
        let handle = self.allocate(result);
        proof {
            start.lemma_follows(&released, self);
            assert(binary_op_evaluated(start, *bin_op, t, *self, Ok(handle)));
            assert(traces(t, None));
            assert(evals_binary_op(start, *bin_op, *self, Ok(handle)));
        }
        Ok(handle)
    }

    /// Indexes the value of `parent` with the value of `child`. `index` is the index that the
    /// host reads from the child where the child is a number.
    ///
    /// A string gives a fresh string of the one character at the index, an array the handle
    /// of the element at the index, an object the handle of the field that the child names.
    pub fn member(&mut self, parent: HeapItem, child: HeapItem, index: Option<usize>) -> (value:
        Result<HeapItem, Error>)
        requires
            old(self).wf(),
            old(self).values.contains(parent),
            old(self).values.contains(child),
        ensures
            old(self).advances_to(final(self)),
            final(self).stack == old(self).stack,
            final(self).steps == old(self).steps,
            old(self).values.kept_by(&final(self).values),
            value matches Ok(handle) ==> final(self).values.contains(handle),
            member_yields(*old(self), parent, child, index, *final(self), value),
    {
        assert(self.stack.values@.subrange(0, self.stack.values@.len() as int)
            =~= self.stack.values@);
        let character = match self.value_of(parent) {
            Value::String(s) => match self.value_of(child) {
                Value::Number(n) => match index {
                    None => {
                        return Err(Error::ExpectedInteger(*n));
                    },
                    Some(i) => {
                        if i < s.as_str().unicode_len() {
                            s.as_str().get_char(i)
                        } else {
                            return Err(Error::IndexOutOfBounds(i));
                        }
                    },
                },
                other => {
                    return Err(Error::TypeError(ShallowValue::Number, other.as_shallow()));
                },
            },
            Value::Array(items) => match self.value_of(child) {
                Value::Number(n) => match index {
                    None => {
                        return Err(Error::ExpectedInteger(*n));
                    },
                    Some(i) => {
                        if i < items.len() {
                            proof {
                                assert(self.values.value(parent).children()[i as int]
                                    == items@[i as int]);
                            }
                            return Ok(items[i]);
                        } else {
                            return Err(Error::IndexOutOfBounds(i));
                        }
                    },
                },
                other => {
                    return Err(Error::TypeError(ShallowValue::Number, other.as_shallow()));
                },
            },
            Value::Object(fields) => match self.value_of(child) {
                Value::String(key) => {
                    match find_field(fields, key.as_str()) {
                        Some(at) => {
                            proof {
                                assert(field_handles(fields@)[at as int] == fields@[at as int].value);
                                assert(self.values.value(parent).children()[at as int]
                                    == fields@[at as int].value);
                            }
                            return Ok(fields[at].value);
                        },
                        None => {
                            return Err(Error::ObjectMissingKey(key.clone()));
                        },
                    }
                },
                other => {
                    return Err(Error::TypeError(ShallowValue::String, other.as_shallow()));
                },
            },
            other => {
                return Err(Error::CannotIndexType(other.as_shallow()));
            },
        };
        let mut text = String::new();
        text.push(character);
        Ok(self.allocate(Value::String(text)))
    }

    /// Evaluates the parent, then the child, and indexes the one with the other.
    pub fn eval_member<H: Host>(&mut self, host: &mut H, member: &Member) -> (value: Result<
        HeapItem,
        Error,
    >)
        requires
            old(self).wf(),
        ensures
            old(self).advances_to(final(self)),
            evals_member(*old(self), *member, *final(self), value),
            value matches Ok(handle) ==> final(self).values.contains(handle),
        decreases old(self).steps, 0int, member, 0int,
    {
        let ghost start = *self;
        let base = self.temps.len();
        let parent = match self.eval_expr(host, &member.parent) {
            Ok(parent) => parent,
            Err(e) => {
                proof {
                    let t = OperandsTrace {
                        after_a: *self,
                        a: Err(e),
                        held: *self,
                        after_b: *self,
                        b: Err(e),
                        released: *self,
                    };
                    assert(member_evaluated(start, *member, t, None, *self, Err(e)));
                    assert(traces(t, None));
                    assert(evals_member(start, *member, *self, Err(e)));
                }
                return Err(e);
            },
        };
        let ghost first = *self;
        self.hold(parent);
        let ghost held = *self;
        let child = match self.eval_expr(host, &member.child) {
            Ok(child) => child,
            Err(e) => {
                let ghost failed = *self;
                self.release_to(base);
                proof {
                    start.lemma_follows(&first, &failed);
                    assert(self.temps@ =~= start.temps@);
                    let t = OperandsTrace {
                        after_a: first,
                        a: Ok(parent),
                        held,
                        after_b: failed,
                        b: Err(e),
                        released: *self,
                    };
                    assert(member_evaluated(start, *member, t, None, *self, Err(e)));
                    assert(traces(t, None));
                    assert(evals_member(start, *member, *self, Err(e)));
                }
                return Err(e);
            },
        };
        let ghost second = *self;
        assert(self.values.contains(self.temps@[base as int]));
        self.release_to(base);
        proof {
            start.lemma_follows(&first, &second);
            assert(self.temps@ =~= start.temps@);
        }
        let ghost released = *self;
        let index = match self.value_of(child) {
            Value::Number(n) => host.index(*n),
            _ => None,
        };
        let value = self.member(parent, child, index);
        proof {
            start.lemma_follows(&released, self);
            let t = OperandsTrace {
                after_a: first,
                a: Ok(parent),
                held,
                after_b: second,
                b: Ok(child),
                released,
            };
            assert(member_evaluated(start, *member, t, index, *self, value));
            assert(traces(t, index));
            assert(evals_member(start, *member, *self, value));
        }
        value
    }
}

} // verus!
