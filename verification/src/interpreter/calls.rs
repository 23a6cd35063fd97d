//! Calls: of functions of the program, of the library and of the host.

use vstd::prelude::*;
use crate::ast::FnCall;
use crate::interpreter::callable::{Builtin, Callable, Host, InterpretedFn, NativeFn};
use crate::interpreter::context::{BlockExit, Context};
use crate::interpreter::error::Error;
use crate::interpreter::heap::HeapItem;
use crate::interpreter::stdlib::call_builtin;
use crate::interpreter::value::{ShallowValue, Value};
use crate::interpreter::semantics::{
    arg_evaluated,
    args_evaluated,
    call_evaluated,
    call_outcome,
    called,
    evals_call,
    interpreted_evaluated,
    interpreted_yields,
    passes_arg,
    passes_body,
    reaches,
};

verus! {

/// The handles that bindings bind, in order.
pub open spec fn bound_handles(values: Seq<(String, HeapItem)>) -> Seq<HeapItem> {
    values.map_values(|binding: (String, HeapItem)| binding.1)
}

/// Decides what a call gives whose body ended in `exit`.
pub fn outcome_of_call(exit: BlockExit) -> (outcome: Result<Option<HeapItem>, Error>)
    ensures
        outcome == call_outcome(exit),
{
    match exit {
        BlockExit::Returned(returned) => Ok(returned),
        BlockExit::Completed => Ok(None),
        BlockExit::Break | BlockExit::Continue => Err(Error::UnexpectedBlockExit),
    }
}

impl Context {
    /// Calls a function of the program whose binding stands at `definition_index`.
    ///
    /// The bindings behind the definition are taken off the stack: the body sees the globals
    /// up to the function itself, and its parameters, in a frame of their own. Afterwards the
    /// stack is what it was. A body that ends without a value gives null.
    pub fn call_interpreted<H: Host>(
        &mut self,
        host: &mut H,
        function: &InterpretedFn,
        definition_index: usize,
        args: &Vec<HeapItem>,
    ) -> (value: Result<HeapItem, Error>)
        requires
            old(self).wf(),
            definition_index < old(self).stack.values@.len(),
            args@.len() == function.prop_idents@.len(),
            forall|i: int| 0 <= i < args@.len() ==> old(self).values.contains(args@[i]),
        ensures
            old(self).advances_to(final(self)),
            interpreted_yields(
                *old(self),
                *function,
                definition_index as int,
                args@,
                *final(self),
                value,
            ),
            final(self).stack.values@ == old(self).stack.values@,
            value matches Ok(handle) ==> final(self).values.contains(handle),
        decreases old(self).steps, 3int, function, 0int,
    {
        let ghost start = *self;
        let base = self.temps.len();
        let popped = self.stack.pop_until_index(definition_index);
        let ghost taken = bound_handles(popped.values@);
        let ghost prefix = self.stack.values@;
        let ghost kept_frames = self.stack.frames@;
        assert forall|i: int| 0 <= i < popped.values@.len() implies self.values.contains(
            (#[trigger] popped.values@[i]).1,
        ) by {
            assert(popped.values@[i] == start.stack.values@[definition_index + 1 + i]);
        }
        assert(self.wf()) by {
            assert forall|i: int| 0 <= i < self.stack.values@.len() implies self.values.contains(
                (#[trigger] self.stack.values@[i]).1,
            ) by {
                assert(self.stack.values@[i] == start.stack.values@[i]);
            }
        }
        let mut index: usize = 0;
        assert(self.temps@ =~= start.temps@ + taken.subrange(0, 0));
        while index < popped.values.len()
            invariant
                index <= popped.values@.len(),
                self.wf(),
                self.stack.values@ == prefix,
                self.stack.frames@ == kept_frames,
                self.values == start.values,
                self.steps == start.steps,
                self.use_gc == start.use_gc,
                taken == bound_handles(popped.values@),
                self.temps@ == start.temps@ + taken.subrange(0, index as int),
                forall|i: int|
                    0 <= i < popped.values@.len() ==> self.values.contains(
                        (#[trigger] popped.values@[i]).1,
                    ),
            decreases popped.values@.len() - index,
        {
            self.hold(popped.values[index].1);
            assert(self.temps@ =~= start.temps@ + taken.subrange(0, index + 1));
            index += 1;
        }
        assert(taken.subrange(0, index as int) =~= taken);
        let height = self.stack.value_len();
        self.stack.open_frame();
        let mut index: usize = 0;
        assert(self.stack.values@.subrange(0, prefix.len() as int) =~= prefix);
        while index < args.len()
            invariant
                index <= args@.len(),
                args@.len() == function.prop_idents@.len(),
                self.wf(),
                height == prefix.len(),
                self.stack.values@.len() == prefix.len() + index,
                self.stack.values@.subrange(0, prefix.len() as int) == prefix,
                forall|i: int|
                    0 <= i < index ==> (#[trigger] self.stack.values@[prefix.len() + i]) == (
                        function.prop_idents@[i],
                        args@[i],
                    ),
                self.stack.frames@ == kept_frames.push(height),
                self.values == start.values,
                self.steps == start.steps,
                self.use_gc == start.use_gc,
                self.temps@ == start.temps@ + taken,
                forall|i: int| 0 <= i < args@.len() ==> self.values.contains(args@[i]),
            decreases args@.len() - index,
        {
            let ghost earlier = self.stack.values@;
            self.stack.push_value(function.prop_idents[index].clone(), args[index]);
            assert(self.stack.values@.subrange(0, prefix.len() as int) =~= earlier.subrange(
                0,
                prefix.len() as int,
            ));
            index += 1;
        }
        let ghost entered = *self;
        proof {
            assert(prefix =~= start.stack.values@.subrange(0, definition_index + 1));
            assert(taken =~= start.stack.values@.subrange(
                definition_index + 1,
                start.stack.values@.len() as int,
            ).map_values(|binding: (String, HeapItem)| binding.1));
            assert(start.entering(function.prop_idents@, definition_index as int, args@, &entered));
        }
        let exit = self.eval_program(host, &function.body);
        let ghost evaluated = *self;
        self.stack.pop_frame();
        proof {
            assert(evaluated.stack.frames@ == kept_frames.push(height));
            assert(evaluated.stack.frames@.last() == height);
            assert(self.stack.frames@ =~= kept_frames);
            assert(evaluated.stack.values@.subrange(0, height as int) =~= entered.stack.values@.subrange(
                0,
                height as int,
            ));
            assert(self.stack.values@ =~= prefix);
        }
        self.stack.push_popped_stack(popped);
        proof {
            assert(self.stack.values@ =~= start.stack.values@);
            assert(self.stack.frames@ =~= start.stack.frames@);
            assert forall|i: int| 0 <= i < self.stack.values@.len() implies self.values.contains(
                (#[trigger] self.stack.values@[i]).1,
            ) by {
                if i <= definition_index {
                    assert(evaluated.stack.values@[i] == prefix[i]);
                    assert(evaluated.values.contains(evaluated.stack.values@[i].1));
                } else {
                    let j = i - definition_index - 1;
                    assert(taken[j] == self.stack.values@[i].1);
                    assert(evaluated.temps@[base + j] == taken[j]);
                    assert(evaluated.values.contains(evaluated.temps@[base + j]));
                }
            }
            assert(self.wf());
        }
        self.release_to(base);
        let ghost left = *self;
        proof {
            assert(self.temps@ =~= start.temps@);
            assert(self.stack.values@.subrange(0, self.stack.values@.len() as int)
                =~= self.stack.values@);
            assert(start.leaving(&evaluated, &left));
            assert(passes_body(entered, evaluated, exit, left));
        }
        let value = match exit {
            Err(e) => Err(e),
            Ok(body_exit) => match outcome_of_call(body_exit) {
                Err(e) => Err(e),
                Ok(Some(returned)) => Ok(returned),
                Ok(None) => Ok(self.allocate(Value::Null)),
            },
        };
        proof {
            assert(interpreted_evaluated(
                start,
                *function,
                definition_index as int,
                args@,
                entered,
                evaluated,
                exit,
                left,
                *self,
                value,
            ));
        }
        value
    }

    /// Calls a function: the arguments are evaluated from left to right, and bound as a
    /// declaration would bind them; then the name is looked up, which must be bound to a
    /// callable; then the callable is called.
    pub fn run_fn<H: Host>(&mut self, host: &mut H, fn_call: &FnCall) -> (value: Result<
        HeapItem,
        Error,
    >)
        requires
            old(self).wf(),
        ensures
            old(self).advances_to(final(self)),
            evals_call(*old(self), *fn_call, *final(self), value),
            value matches Ok(handle) ==> final(self).values.contains(handle),
        decreases old(self).steps, 0int, fn_call, 0int,
    {
        let ghost start = *self;
        assert(start.stack.values@.subrange(0, start.stack.values@.len() as int)
            =~= start.stack.values@);
        let base = self.temps.len();
        let mut args: Vec<HeapItem> = Vec::new();
        let mut index: usize = 0;
        assert(self.temps@ =~= start.temps@ + args@);
        while index < fn_call.args.len()
            invariant
                index <= fn_call.args@.len(),
                args@.len() == index,
                start == *old(self),
                start.follows(self),
                base == start.temps@.len(),
                self.temps@ == start.temps@ + args@,
                args_evaluated(start, fn_call.args, index as int, *self, args@),
            decreases fn_call.args@.len() - index,
        {
            let ghost before = *self;
            let ghost earlier = args@;
            match self.eval_expr(host, &fn_call.args[index]) {
                Err(e) => {
                    let ghost failed = *self;
                    self.release_to(base);
                    proof {
                        start.lemma_follows(&before, &failed);
                        assert(self.temps@ =~= start.temps@);
                        assert(call_evaluated(
                            start,
                            *fn_call,
                            index as int,
                            before,
                            earlier,
                            failed,
                            *self,
                            Err(e),
                        ));
                        assert(reaches(index as int, before, earlier, failed));
                    }
                    return Err(e);
                },
                Ok(handle) => {
                    let ghost evaluated = *self;
                    let copy = self.shallow_copy(handle);
                    let ghost copied = *self;
                    self.hold(copy);
                    args.push(copy);
                    proof {
                        start.lemma_follows(&before, &evaluated);
                        start.lemma_follows(&evaluated, &copied);
                        assert(self.temps@ =~= start.temps@ + args@);
                        assert(args@.drop_last() =~= earlier);
                        assert(arg_evaluated(
                            start,
                            fn_call.args,
                            index + 1,
                            before,
                            evaluated,
                            handle,
                            copied,
                            *self,
                            args@,
                        ));
                        assert(passes_arg(before, evaluated, handle, copied));
                    }
                },
            }
            index += 1;
        }
        proof {
            assert forall|i: int| 0 <= i < args@.len() implies self.values.contains(args@[i]) by {
                assert(self.temps@[base + i] == args@[i]);
            }
        }
        let ghost prepared = *self;
        let ghost handles = args@;
        let ghost count = fn_call.args@.len() as int;
        let found = match self.find_with_ident(fn_call.ident.as_str()) {
            Ok(found) => found,
            Err(e) => {
                self.release_to(base);
                proof {
                    assert(self.temps@ =~= start.temps@);
                    assert(call_evaluated(
                        start,
                        *fn_call,
                        count,
                        prepared,
                        handles,
                        prepared,
                        *self,
                        Err(e),
                    ));
                    assert(reaches(count, prepared, handles, prepared));
                }
                return Err(e);
            },
        };
        let callable = match self.value_of(found.value) {
            Value::Callable(callable) => callable.clone(),
            other => {
                let kind = other.as_shallow();
                self.release_to(base);
                proof {
                    assert(self.temps@ =~= start.temps@);
                    assert(call_evaluated(
                        start,
                        *fn_call,
                        count,
                        prepared,
                        handles,
                        prepared,
                        *self,
                        Err(Error::TypeError(ShallowValue::Callable, kind)),
                    ));
                    assert(reaches(count, prepared, handles, prepared));
                }
                return Err(Error::TypeError(ShallowValue::Callable, kind));
            },
        };
        assert(prepared.stack.values@.subrange(0, prepared.stack.values@.len() as int)
            =~= prepared.stack.values@);
        let value = match callable {
            Callable::Native(NativeFn(id)) => host.call(id, self, &args),
            Callable::Builtin(builtin) => call_builtin(self, &*host, builtin, &args),
            Callable::Interpreted(function) => {
                if args.len() != function.prop_idents.len() {
                    Err(Error::IncorrectArgumentCount(function.prop_idents.len(), args.len()))
                } else if self.steps == 0 {
                    Err(Error::StepLimitExceeded)
                } else {
                    self.steps = self.steps - 1;
                    let ghost stepped = *self;
                    assert(stepped == prepared.stepped());
                    let value = self.call_interpreted(host, &function, found.index, &args);
                    proof {
                        prepared.lemma_follows(&stepped, self);
                    }
                    value
                }
            },
        };
        let ghost after = *self;
        assert(prepared.follows(&after));
        assert(after.temps@ == prepared.temps@);
        assert(called(prepared, callable, found.index as int, handles, after, value));
        self.release_to(base);
        proof {
            start.lemma_follows(&prepared, &after);
            assert(self.temps@ =~= start.temps@);
            assert(call_evaluated(start, *fn_call, count, prepared, handles, after, *self, value));
            assert(reaches(count, prepared, handles, after));
        }
        value
    }
}

} // verus!
