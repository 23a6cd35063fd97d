//! The context of an evaluation and the evaluator itself.

use vstd::prelude::*;
use crate::interpreter::callable::{Callable, NativeFn};
use crate::interpreter::error::Error;
use crate::interpreter::heap::{Heap, HeapItem};
use crate::interpreter::stack::{binding_index, frames_within, FoundIdent, Stack};
use vstd::string::StringExecFns;
use crate::interpreter::value::{field_handles, Number, ShallowValue, Value};
use crate::interpreter::stdlib::add_stdlib;

verus! {

/// How the evaluation of a block ended.
#[derive(Debug)]
pub enum BlockExit {
    /// A `return`, with the value that was returned, if one was.
    Returned(Option<HeapItem>),
    Break,
    Continue,
    /// The block ran to its end.
    Completed,
}

/// The state of an evaluation: the bindings, the values, and what bounds the work.
#[derive(Debug)]
pub struct Context {
    /// The bindings. Each name is bound to the handle of a value.
    pub stack: Stack<HeapItem>,
    /// The values.
    pub values: Heap<Value>,
    /// The handles that the evaluator holds while it works: the collector keeps them alive.
    pub temps: Vec<HeapItem>,
    /// Whether the collector runs.
    pub use_gc: bool,
    /// The number of steps that the evaluation may still take.
    pub steps: usize,
}

impl Context {
    /// The stack and the heap are well formed, and no handle dangles: what the stack binds,
    /// what the evaluator holds and what the living values hold is alive.
    pub open spec fn wf(&self) -> bool {
        &&& self.stack.wf()
        &&& self.stack.based()
        &&& self.values.wf()
        &&& forall|i: int|
            0 <= i < self.stack.values@.len() ==> self.values.contains(
                (#[trigger] self.stack.values@[i]).1,
            )
        &&& forall|i: int|
            0 <= i < self.temps@.len() ==> self.values.contains(#[trigger] self.temps@[i])
        &&& forall|key: HeapItem, i: int|
            self.values.contains(key) && 0 <= i < self.values.value(key).children().len()
                ==> self.values.contains(#[trigger] self.values.value(key).children()[i])
        &&& forall|key: HeapItem|
            #![trigger self.values.contains(key)]
            self.values.contains(key) ==> self.values.value(key).wf()
    }

    /// Whether `later` can come out of an evaluation that starts from `self`: it follows
    /// `self`, and the evaluator holds what it held.
    pub open spec fn advances_to(&self, later: &Context) -> bool {
        &&& self.follows(later)
        &&& later.temps@ == self.temps@
    }

    /// Whether `later` is `self` but for what the evaluator holds.
    pub open spec fn same_but_temps(&self, later: &Context) -> bool {
        &&& later.stack == self.stack
        &&& later.values == self.values
        &&& later.steps == self.steps
        &&& later.use_gc == self.use_gc
    }

    /// Whether `later` is `self` with `handle` held in addition.
    pub open spec fn holding(&self, handle: HeapItem, later: &Context) -> bool {
        &&& self.same_but_temps(later)
        &&& later.temps@ == self.temps@.push(handle)
    }

    /// Whether `later` is `self` with all but the first `count` held handles released.
    pub open spec fn releasing(&self, count: int, later: &Context) -> bool {
        &&& self.same_but_temps(later)
        &&& 0 <= count <= self.temps@.len()
        &&& later.temps@ == self.temps@.subrange(0, count)
    }

    /// Whether `later` is `self` with a frame opened behind the last binding.
    pub open spec fn opening(&self, later: &Context) -> bool {
        &&& later.stack.values@ == self.stack.values@
        &&& later.stack.frames@ == self.stack.frames@.push(self.stack.values@.len() as usize)
        &&& later.values == self.values
        &&& later.temps@ == self.temps@
        &&& later.steps == self.steps
        &&& later.use_gc == self.use_gc
    }

    /// Whether `later` is `inner` with the stack of `self` again: what `inner`, which came
    /// out of a frame opened in `self`, has bound in the frame is gone, and the frame too.
    pub open spec fn closing(&self, inner: &Context, later: &Context) -> bool {
        &&& later.stack.values@ == self.stack.values@
        &&& later.stack.frames@ == self.stack.frames@
        &&& later.values == inner.values
        &&& later.temps@ == inner.temps@
        &&& later.steps == inner.steps
        &&& later.use_gc == inner.use_gc
    }

    /// `self` a step later: with one step less to go.
    pub open spec fn stepped(&self) -> Context {
        Context {
            stack: self.stack,
            values: self.values,
            temps: self.temps,
            use_gc: self.use_gc,
            steps: (self.steps - 1) as usize,
        }
    }

    /// Whether `later` is the context in which the body of a function runs that is called in
    /// `self` with `args` for its parameters `names`, and whose binding stands at `at`: the
    /// bindings behind `at` are off the stack and are held instead, the frames that start
    /// behind `at` are gone, and the parameters are bound in a frame of their own.
    pub open spec fn entering(
        &self,
        names: Seq<String>,
        at: int,
        args: Seq<HeapItem>,
        later: &Context,
    ) -> bool {
        let rest = self.stack.values@.subrange(at + 1, self.stack.values@.len() as int);
        &&& 0 <= at < self.stack.values@.len()
        &&& args.len() == names.len()
        &&& later.values == self.values
        &&& later.steps == self.steps
        &&& later.use_gc == self.use_gc
        &&& later.temps@ == self.temps@ + rest.map_values(|binding: (String, HeapItem)| binding.1)
        &&& later.stack.frames@ == self.stack.frames@.subrange(
            0,
            frames_within(self.stack.frames@, at, 0),
        ).push((at + 1) as usize)
        &&& later.stack.values@.len() == at + 1 + args.len()
        &&& later.stack.values@.subrange(0, at + 1) == self.stack.values@.subrange(0, at + 1)
        &&& forall|i: int|
            0 <= i < args.len() ==> (#[trigger] later.stack.values@[at + 1 + i]) == (
                names[i],
                args[i],
            )
    }

    /// Whether `later` is `inner` with the stack of `self` and what `self` holds: `inner`
    /// came out of the body of a function that was called in `self`.
    pub open spec fn leaving(&self, inner: &Context, later: &Context) -> bool {
        &&& later.stack.values@ == self.stack.values@
        &&& later.stack.frames@ == self.stack.frames@
        &&& later.temps@ == self.temps@
        &&& later.values == inner.values
        &&& later.steps == inner.steps
        &&& later.use_gc == inner.use_gc
    }

    /// Whether `later` is `self` but for its heap.
    pub open spec fn same_but_values(&self, later: &Context) -> bool {
        &&& later.stack == self.stack
        &&& later.temps@ == self.temps@
        &&& later.steps == self.steps
        &&& later.use_gc == self.use_gc
    }

    /// Whether `later` is `self` with `value` put on the heap under the fresh handle
    /// `handle`.
    pub open spec fn allocating(&self, value: Value, handle: HeapItem, later: &Context) -> bool {
        &&& self.same_but_values(later)
        &&& !self.values.contains(handle)
        &&& later.values.contains(handle)
        &&& later.values.value(handle) == value
        &&& forall|other: HeapItem|
            #![trigger later.values.contains(other)]
            other != handle ==> later.values.contains(other) == self.values.contains(other) && (
            self.values.contains(other) ==> later.values.value(other) == self.values.value(other))
    }

    /// Whether `later` is `self` with `value` written over the value of `handle`.
    pub open spec fn storing(&self, handle: HeapItem, value: Value, later: &Context) -> bool {
        &&& self.same_but_values(later)
        &&& self.values.contains(handle)
        &&& later.values.contains(handle)
        &&& later.values.value(handle) == value
        &&& forall|other: HeapItem|
            #![trigger later.values.contains(other)]
            other != handle ==> later.values.contains(other) == self.values.contains(other) && (
            self.values.contains(other) ==> later.values.value(other) == self.values.value(other))
    }

    /// Whether `later` is `self` after binding the value of `handle`, and `copy` the handle
    /// to bind: for a scalar a fresh handle to a value like it, else `handle` itself, with
    /// nothing changed.
    pub open spec fn copying(&self, handle: HeapItem, copy: HeapItem, later: &Context) -> bool {
        if self.values.value(handle).is_scalar() {
            &&& later.values.contains(copy)
            &&& later.values.value(copy).alike(&self.values.value(handle))
            &&& self.allocating(later.values.value(copy), copy, later)
        } else {
            copy == handle && later == self
        }
    }

    /// Whether `later` is `self` with `name` bound to `handle`, behind all other bindings.
    pub open spec fn binding(&self, name: Seq<char>, handle: HeapItem, later: &Context) -> bool {
        &&& later.values == self.values
        &&& later.temps@ == self.temps@
        &&& later.steps == self.steps
        &&& later.use_gc == self.use_gc
        &&& later.stack.frames@ == self.stack.frames@
        &&& later.stack.values@.len() == self.stack.values@.len() + 1
        &&& later.stack.values@.drop_last() == self.stack.values@
        &&& later.stack.values@.last().0@ == name
        &&& later.stack.values@.last().1 == handle
    }

    /// Whether `later` is `self` after a collection: what can be reached is as it was, and
    /// nothing else is left.
    pub open spec fn collecting(&self, later: &Context) -> bool {
        &&& later.stack == self.stack
        &&& later.temps == self.temps
        &&& later.steps == self.steps
        &&& later.use_gc == self.use_gc
        &&& forall|key: HeapItem|
            #![trigger later.values.contains(key)]
            later.values.contains(key) == (self.values.contains(key) && self.reachable(key))
        &&& forall|key: HeapItem|
            #![trigger later.values.value(key)]
            later.values.contains(key) ==> later.values.value(key) == self.values.value(key)
    }

    /// Whether `value` can be put on the heap: it is well formed and holds living handles.
    pub open spec fn admits(&self, value: &Value) -> bool {
        &&& value.wf()
        &&& forall|i: int|
            0 <= i < value.children().len() ==> self.values.contains(#[trigger] value.children()[i])
    }

    /// Whether every handle of `handles` is alive.
    fn all_live(&self, handles: &Vec<HeapItem>) -> (ok: bool)
        ensures
            ok == (forall|i: int|
                0 <= i < handles@.len() ==> self.values.contains(#[trigger] handles@[i])),
    {
        let mut index: usize = 0;
        while index < handles.len()
            invariant
                index <= handles@.len(),
                forall|i: int| 0 <= i < index ==> self.values.contains(#[trigger] handles@[i]),
            decreases handles@.len() - index,
        {
            if !self.values.is_live(handles[index]) {
                return false;
            }
            index += 1;
        }
        true
    }

    /// Whether the value at `place`, if one lives there, is well formed and holds living
    /// handles only.
    fn place_is_sound(&self, place: usize) -> (ok: bool)
        requires
            place < self.values.slots@.len(),
        ensures
            ok == (self.values.slots@[place as int] matches Some(value) ==> self.admits(&value)),
    {
        match &self.values.slots[place] {
            None => true,
            Some(value) => {
                if !value.is_well_formed() {
                    return false;
                }
                match value {
                    Value::Array(items) => self.all_live(items),
                    Value::Object(fields) => {
                        let mut index: usize = 0;
                        while index < fields.len()
                            invariant
                                index <= fields@.len(),
                                place < self.values.slots@.len(),
                                self.values.slots@[place as int] == Some(*value),
                                value.wf(),
                                value.children() == field_handles(fields@),
                                forall|i: int|
                                    0 <= i < index ==> self.values.contains(
                                        #[trigger] value.children()[i],
                                    ),
                            decreases fields@.len() - index,
                        {
                            assert(value.children()[index as int] == fields@[index as int].value);
                            if !self.values.is_live(fields[index].value) {
                                return false;
                            }
                            index += 1;
                        }
                        true
                    },
                    _ => true,
                }
            },
        }
    }

    /// Whether the context is well formed: whether an evaluation may start from it.
    pub fn is_well_formed(&self) -> (ok: bool)
        ensures
            ok == self.wf(),
    {
        if !self.stack.is_well_formed() || !self.stack.is_based() || !self.values.is_well_formed() {
            return false;
        }
        let bound = self.stack.iter_values();
        if !self.all_live(&bound) {
            proof {
                let at = choose|i: int|
                    0 <= i < bound@.len() && !self.values.contains(#[trigger] bound@[i]);
                assert(!self.values.contains(self.stack.values@[at].1));
            }
            return false;
        }
        proof {
            assert forall|i: int| 0 <= i < self.stack.values@.len() implies self.values.contains(
                (#[trigger] self.stack.values@[i]).1,
            ) by {
                assert(self.values.contains(bound@[i]));
            }
        }
        if !self.all_live(&self.temps) {
            return false;
        }
        let mut place: usize = 0;
        while place < self.values.slots.len()
            invariant
                place <= self.values.slots@.len(),
                forall|at: int|
                    0 <= at < place ==> ((#[trigger] self.values.slots@[at]) matches Some(value)
                        ==> self.admits(&value)),
            decreases self.values.slots@.len() - place,
        {
            if !self.place_is_sound(place) {
                proof {
                    let key = HeapItem { index: place };
                    assert(self.values.contains(key));
                    assert(self.values.value(key) == self.values.slots@[place as int]->0);
                }
                return false;
            }
            place += 1;
        }
        proof {
            assert forall|key: HeapItem, i: int|
                self.values.contains(key) && 0 <= i < self.values.value(
                    key,
                ).children().len() implies self.values.contains(
                #[trigger] self.values.value(key).children()[i],
            ) by {
                assert(self.values.slots@[key.index as int] is Some);
            }
            assert forall|key: HeapItem|
                #![trigger self.values.contains(key)]
                self.values.contains(key) implies self.values.value(key).wf() by {
                assert(self.values.slots@[key.index as int] is Some);
            }
        }
        true
    }

    /// A context without bindings and values, with the collector on or off. It allows as many
    /// steps as can be counted.
    pub fn new(use_gc: bool) -> (context: Self)
        ensures
            context.wf(),
            context.use_gc == use_gc,
            context.steps == usize::MAX,
            context.stack.values@.len() == 0,
            context.stack.frames@ == seq![0usize],
            context.temps@.len() == 0,
            context.values.live() == 0,
    {
        Self {
            stack: Stack::new(),
            values: Heap::new(),
            temps: Vec::new(),
            use_gc,
            steps: usize::MAX,
        }
    }

    /// Bounds the number of loop iterations and calls that evaluations may still make.
    pub fn set_step_limit(&mut self, steps: usize)
        requires
            old(self).wf(),
        ensures
            final(self).wf(),
            final(self).steps == steps,
            final(self).stack == old(self).stack,
            final(self).values == old(self).values,
            final(self).temps == old(self).temps,
            final(self).use_gc == old(self).use_gc,
    {
        self.steps = steps;
    }

    /// Puts `value` on the heap.
    pub fn allocate(&mut self, value: Value) -> (handle: HeapItem)
        requires
            old(self).wf(),
            old(self).admits(&value),
        ensures
            old(self).advances_to(final(self)),
            old(self).allocating(value, handle, final(self)),
            final(self).stack == old(self).stack,
            final(self).steps == old(self).steps,
            !old(self).values.contains(handle),
            final(self).values.contains(handle),
            final(self).values.value(handle) == value,
            old(self).values.kept_by(&final(self).values),
            final(self).values.live() == old(self).values.live() + 1,
    {
        let handle = self.values.push(value);
        assert(self.stack.values@.subrange(0, self.stack.values@.len() as int)
            =~= self.stack.values@);
        handle
    }

    /// Replaces the value that `handle` names.
    pub fn store(&mut self, handle: HeapItem, value: Value)
        requires
            old(self).wf(),
            old(self).values.contains(handle),
            old(self).admits(&value),
        ensures
            old(self).advances_to(final(self)),
            old(self).storing(handle, value, final(self)),
            final(self).stack == old(self).stack,
            final(self).steps == old(self).steps,
            final(self).values.value(handle) == value,
            forall|other: HeapItem|
                other != handle ==> final(self).values.contains(other) == old(self).values.contains(
                    other,
                ) && (old(self).values.contains(other) ==> final(self).values.value(other) == old(
                    self).values.value(other)),
            final(self).values.contains(handle),
            final(self).values.live() == old(self).values.live(),
    {
        self.values.set(handle, value);
        assert(self.stack.values@.subrange(0, self.stack.values@.len() as int)
            =~= self.stack.values@);
    }

    /// Holds `handle`: the collector keeps its value alive until the handle is released.
    pub fn hold(&mut self, handle: HeapItem)
        requires
            old(self).wf(),
            old(self).values.contains(handle),
        ensures
            final(self).wf(),
            old(self).holding(handle, final(self)),
            final(self).temps@ == old(self).temps@.push(handle),
            final(self).stack == old(self).stack,
            final(self).values == old(self).values,
            final(self).steps == old(self).steps,
            final(self).use_gc == old(self).use_gc,
    {
        self.temps.push(handle);
    }

    /// Releases the handles that were held last, down to the first `count`.
    pub fn release_to(&mut self, count: usize)
        requires
            old(self).wf(),
            count <= old(self).temps@.len(),
        ensures
            final(self).wf(),
            old(self).releasing(count as int, final(self)),
            final(self).temps@ == old(self).temps@.subrange(0, count as int),
            final(self).stack == old(self).stack,
            final(self).values == old(self).values,
            final(self).steps == old(self).steps,
            final(self).use_gc == old(self).use_gc,
    {
        self.temps.truncate(count);
    }

    /// The value that `handle` names.
    pub fn value_of(&self, handle: HeapItem) -> (value: &Value)
        requires
            self.values.contains(handle),
        ensures
            *value == self.values.value(handle),
    {
        self.values.get(handle)
    }

    /// The handle to bind for `handle`: a handle to a fresh copy where the value is a scalar,
    /// the handle itself where the value is compound.
    pub fn shallow_copy(&mut self, handle: HeapItem) -> (copy: HeapItem)
        requires
            old(self).wf(),
            old(self).values.contains(handle),
        ensures
            old(self).advances_to(final(self)),
            old(self).copying(handle, copy, final(self)),
            final(self).stack == old(self).stack,
            final(self).steps == old(self).steps,
            old(self).values.kept_by(&final(self).values),
            final(self).values.contains(copy),
            if old(self).values.value(handle).is_scalar() {
                !old(self).values.contains(copy) && final(self).values.value(copy).alike(
                    &old(self).values.value(handle),
                )
            } else {
                copy == handle && final(self).values == old(self).values
            },
    {
        let copied = match self.values.get(handle) {
            Value::Number(n) => Value::Number(*n),
            Value::String(s) => Value::String(s.clone()),
            Value::Bool(b) => Value::Bool(*b),
            Value::Null => Value::Null,
            _ => {
                assert(self.stack.values@.subrange(0, self.stack.values@.len() as int)
                    =~= self.stack.values@);
                return handle;
            },
        };
        self.allocate(copied)
    }

    /// Binds `name` to a function of the host. The name shadows any binding that it had.
    pub fn add_native_function(&mut self, name: String, native_fn: NativeFn)
        requires
            old(self).wf(),
        ensures
            final(self).wf(),
            final(self).stack.frames@ == old(self).stack.frames@,
            final(self).stack.values@.len() == old(self).stack.values@.len() + 1,
            final(self).stack.values@.drop_last() == old(self).stack.values@,
            final(self).stack.values@.last().0 == name,
            final(self).values.value(final(self).stack.values@.last().1) == Value::Callable(
                Callable::Native(native_fn),
            ),
            old(self).values.kept_by(&final(self).values),
            final(self).temps@ == old(self).temps@,
            final(self).steps == old(self).steps,
            final(self).use_gc == old(self).use_gc,
    {
        self.register_callable(name, Callable::Native(native_fn));
    }

    /// Binds `name` to `callable`. The name shadows any binding that it had.
    pub fn register_callable(&mut self, name: String, callable: Callable)
        requires
            old(self).wf(),
        ensures
            final(self).wf(),
            final(self).stack.frames@ == old(self).stack.frames@,
            final(self).stack.values@.len() == old(self).stack.values@.len() + 1,
            final(self).stack.values@.drop_last() == old(self).stack.values@,
            final(self).stack.values@.last().0 == name,
            final(self).values.value(final(self).stack.values@.last().1) == Value::Callable(
                callable,
            ),
            old(self).values.kept_by(&final(self).values),
            final(self).temps@ == old(self).temps@,
            final(self).steps == old(self).steps,
            final(self).use_gc == old(self).use_gc,
    {
        let handle = self.allocate(Value::Callable(callable));
        self.stack.push_value(name, handle);
        assert(self.stack.values@.drop_last() =~= old(self).stack.values@);
    }

    /// The most recent binding of `ident`.
    pub fn find_with_ident(&self, ident: &str) -> (found: Result<FoundIdent<HeapItem>, Error>)
        ensures
            match found {
                Ok(found) => found.index as int == binding_index(
                    self.stack.values@,
                    ident@,
                    self.stack.values@.len() as int,
                ) && found.index < self.stack.values@.len() && found.value
                    == self.stack.values@[found.index as int].1,
                Err(e) => {
                    &&& binding_index(
                        self.stack.values@,
                        ident@,
                        self.stack.values@.len() as int,
                    ) == -1
                    &&& e matches Error::Undeclared(name) && name@ == ident@
                },
            },
    {
        match self.stack.find_with_ident(ident) {
            Some(found) => Ok(found),
            None => Err(Error::Undeclared(String::from_str(ident))),
        }
    }

    /// The number of bindings on the stack.
    pub fn stack_size(&self) -> (size: usize)
        ensures
            size == self.stack.values@.len(),
    {
        self.stack.value_len()
    }

    /// The number of values on the heap.
    pub fn heap_size(&self) -> (size: usize)
        ensures
            size == self.values.live(),
    {
        self.values.len()
    }

    /// The number of values on the heap of one kind.
    pub fn heap_size_of(&self, kind: ShallowValue) -> (size: usize)
        ensures
            size == count_of_kind(self.values.slots@, kind),
    {
        let mut count: usize = 0;
        let mut index: usize = 0;
        assert(self.values.slots@.subrange(0, 0) =~= Seq::<Option<Value>>::empty());
        while index < self.values.slots.len()
            invariant
                index <= self.values.slots@.len(),
                count <= index,
                count == count_of_kind(self.values.slots@.subrange(0, index as int), kind),
            decreases self.values.slots@.len() - index,
        {
            assert(self.values.slots@.subrange(0, index + 1).drop_last()
                =~= self.values.slots@.subrange(0, index as int));
            let counts = match &self.values.slots[index] {
                Some(value) => value.as_shallow() == kind,
                None => false,
            };
            if counts {
                count += 1;
            }
            index += 1;
        }
        assert(self.values.slots@.subrange(0, index as int) =~= self.values.slots@);
        count
    }

    /// The number of arrays on the heap.
    pub fn array_heap_size(&self) -> (size: usize)
        ensures
            size == count_of_kind(self.values.slots@, ShallowValue::Array),
    {
        self.heap_size_of(ShallowValue::Array)
    }

    /// The number of objects on the heap.
    pub fn object_heap_size(&self) -> (size: usize)
        ensures
            size == count_of_kind(self.values.slots@, ShallowValue::Object),
    {
        self.heap_size_of(ShallowValue::Object)
    }

    /// The number of values on the heap, of whatever kind.
    pub fn value_heap_size(&self) -> (size: usize)
        ensures
            size == self.values.live(),
    {
        self.values.len()
    }

    /// Whether `later` can come out of work that starts from `self`, whatever the evaluator
    /// holds by then: it is well formed, it has the frames of `self` and, first, the bindings
    /// of `self`, no step was won, and nothing was freed unless the collector is on.
    pub open spec fn follows(&self, later: &Context) -> bool {
        &&& later.wf()
        &&& self.stack.grown_to(&later.stack)
        &&& later.steps <= self.steps
        &&& later.use_gc == self.use_gc
        &&& !self.use_gc ==> forall|key: HeapItem|
            #![trigger later.values.contains(key)]
            self.values.contains(key) ==> later.values.contains(key)
    }

    /// Whether the handle that `exit` returns, if it returns one, is alive.
    pub open spec fn exit_is_live(&self, exit: BlockExit) -> bool {
        exit matches BlockExit::Returned(Some(handle)) ==> self.values.contains(handle)
    }

    /// What follows what follows `self` follows `self`.
    pub proof fn lemma_follows(&self, between: &Context, later: &Context)
        requires
            self.follows(between),
            between.follows(later),
        ensures
            self.follows(later),
    {
        assert(later.stack.values@.subrange(0, self.stack.values@.len() as int)
            =~= between.stack.values@.subrange(0, self.stack.values@.len() as int));
    }

    /// Binds the functions of the library: `push`, `pop`, `unshift`, `shift` and `len`.
    pub fn add_stdlib(&mut self)
        requires
            old(self).wf(),
        ensures
            final(self).wf(),
            final(self).stack.frames@ == old(self).stack.frames@,
            final(self).stack.values@.len() == old(self).stack.values@.len() + 5,
            final(self).stack.values@.subrange(0, old(self).stack.values@.len() as int) == old(
                self).stack.values@,
            old(self).values.kept_by(&final(self).values),
            final(self).temps@ == old(self).temps@,
            final(self).steps == old(self).steps,
            final(self).use_gc == old(self).use_gc,
    {
        add_stdlib(self);
    }
}

/// The number of places of `slots` that hold a value of `kind`.
pub open spec fn count_of_kind(slots: Seq<Option<Value>>, kind: ShallowValue) -> nat
    decreases slots.len(),
{
    if slots.len() == 0 {
        0
    } else {
        count_of_kind(slots.drop_last(), kind) + if slots.last() is Some && slots.last()->0.shallow()
            == kind {
            1nat
        } else {
            0nat
        }
    }
}

impl Default for Context {
    /// A context without bindings and values, with the collector off.
    fn default() -> (context: Self)
        ensures
            context.wf(),
            !context.use_gc,
            context.steps == usize::MAX,
            context.stack.values@.len() == 0,
            context.stack.frames@ == seq![0usize],
            context.temps@.len() == 0,
            context.values.live() == 0,
    {
        Context::new(false)
    }
}

} // verus!
