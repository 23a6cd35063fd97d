//! The collector: it marks what can be reached from the stack and from what the evaluator
//! holds, and frees the rest.

use vstd::prelude::*;
use crate::interpreter::context::Context;
use crate::interpreter::heap::HeapItem;
use crate::interpreter::value::{field_handles, Value};

verus! {

/// Whether the place of `handle` is marked.
pub open spec fn marked(marks: Seq<bool>, handle: HeapItem) -> bool {
    handle.index < marks.len() && marks[handle.index as int]
}

/// The number of places that are not marked.
pub open spec fn count_unmarked(marks: Seq<bool>) -> nat
    decreases marks.len(),
{
    if marks.len() == 0 {
        0
    } else {
        count_unmarked(marks.drop_last()) + if marks.last() {
            0nat
        } else {
            1nat
        }
    }
}

/// Marking a place that was not marked leaves one unmarked place less.
pub proof fn lemma_mark(marks: Seq<bool>, index: int)
    requires
        0 <= index < marks.len(),
        !marks[index],
    ensures
        count_unmarked(marks.update(index, true)) + 1 == count_unmarked(marks),
    decreases marks.len(),
{
    if index == marks.len() - 1 {
        assert(marks.update(index, true).drop_last() =~= marks.drop_last());
    } else {
        lemma_mark(marks.drop_last(), index);
        assert(marks.update(index, true).drop_last() =~= marks.drop_last().update(index, true));
    }
}

impl Context {
    /// Whether the stack binds a name to `handle`, or the evaluator holds it.
    pub open spec fn is_root(&self, handle: HeapItem) -> bool {
        ||| exists|i: int|
            0 <= i < self.stack.values@.len() && (#[trigger] self.stack.values@[i]).1 == handle
        ||| self.temps@.contains(handle)
    }

    /// Whether the value of `from` holds `to`.
    pub open spec fn points_to(&self, from: HeapItem, to: HeapItem) -> bool {
        self.values.contains(from) && self.values.value(from).children().contains(to)
    }

    /// Whether `path` leads from a root along handles that values hold.
    pub open spec fn is_path(&self, path: Seq<HeapItem>) -> bool {
        &&& path.len() > 0
        &&& self.is_root(path[0])
        &&& forall|i: int|
            #![trigger path[i]]
            0 <= i < path.len() - 1 ==> self.points_to(path[i], path[i + 1])
    }

    /// Whether `handle` can be reached: a root, or held by a value that can be reached.
    pub open spec fn reachable(&self, handle: HeapItem) -> bool {
        exists|path: Seq<HeapItem>| #[trigger] self.is_path(path) && path.last() == handle
    }

    /// A root can be reached.
    pub proof fn lemma_root_reachable(&self, handle: HeapItem)
        requires
            self.is_root(handle),
        ensures
            self.reachable(handle),
    {
        let path = seq![handle];
        assert(self.is_path(path));
        assert(path.last() == handle);
    }

    /// What a value that can be reached holds can be reached.
    pub proof fn lemma_child_reachable(&self, from: HeapItem, to: HeapItem)
        requires
            self.reachable(from),
            self.points_to(from, to),
        ensures
            self.reachable(to),
    {
        let path = choose|path: Seq<HeapItem>| #[trigger] self.is_path(path) && path.last() == from;
        let longer = path.push(to);
        assert forall|i: int| #![trigger longer[i]] 0 <= i < longer.len() - 1 implies self.points_to(
            longer[i],
            longer[i + 1],
        ) by {
            if i < path.len() - 1 {
                assert(self.points_to(path[i], path[i + 1]));
            }
        }
        assert(self.is_path(longer));
        assert(longer.last() == to);
    }

    /// Whatever stands on a path can be reached.
    pub proof fn lemma_on_path_reachable(&self, path: Seq<HeapItem>, at: int)
        requires
            self.is_path(path),
            0 <= at < path.len(),
        ensures
            self.reachable(path[at]),
    {
        let shorter = path.subrange(0, at + 1);
        assert forall|i: int| #![trigger shorter[i]] 0 <= i < shorter.len() - 1 implies self.points_to(
            shorter[i],
            shorter[i + 1],
        ) by {
            assert(self.points_to(path[i], path[i + 1]));
        }
        assert(self.is_path(shorter));
        assert(shorter.last() == path[at]);
    }

    /// Where two contexts have the same roots, and the values that can be reached in the one
    /// live on unchanged in the other, what can be reached in the one can be reached in the
    /// other.
    pub proof fn lemma_reachable_in(&self, other: &Context, handle: HeapItem)
        requires
            self.reachable(handle),
            other.stack.values@ == self.stack.values@,
            other.temps@ == self.temps@,
            forall|key: HeapItem|
                #![trigger other.values.contains(key)]
                self.values.contains(key) && self.reachable(key) ==> other.values.contains(key)
                    && other.values.value(key) == self.values.value(key),
        ensures
            other.reachable(handle),
    {
        let path = choose|path: Seq<HeapItem>| #[trigger] self.is_path(path) && path.last() == handle;
        assert forall|i: int| #![trigger path[i]] 0 <= i < path.len() - 1 implies other.points_to(
            path[i],
            path[i + 1],
        ) by {
            self.lemma_on_path_reachable(path, i);
            assert(self.points_to(path[i], path[i + 1]));
            assert(other.values.contains(path[i]));
        }
        assert(other.is_path(path));
    }

    /// Where the roots are marked and whatever a marked value holds is marked, everything on
    /// a path is marked.
    pub proof fn lemma_path_marked(&self, marks: Seq<bool>, path: Seq<HeapItem>, at: int)
        requires
            self.is_path(path),
            0 <= at < path.len(),
            forall|h: HeapItem| #![trigger self.is_root(h)] self.is_root(h) ==> marked(marks, h),
            forall|a: HeapItem, b: HeapItem|
                #![trigger self.points_to(a, b)]
                marked(marks, a) && self.points_to(a, b) ==> marked(marks, b),
        ensures
            marked(marks, path[at]),
        decreases at,
    {
        if at > 0 {
            self.lemma_path_marked(marks, path, at - 1);
            assert(self.points_to(path[at - 1], path[at]));
        }
    }

    /// Puts what the value of `handle` holds at the end of `queue`.
    fn push_children(&self, handle: HeapItem, queue: &mut Vec<HeapItem>)
        requires
            self.wf(),
            self.values.contains(handle),
            self.reachable(handle),
            forall|i: int|
                0 <= i < old(queue)@.len() ==> self.values.contains(#[trigger] old(queue)@[i])
                    && self.reachable(old(queue)@[i]),
        ensures
            final(queue)@ == old(queue)@ + self.values.value(handle).children(),
            forall|i: int|
                0 <= i < final(queue)@.len() ==> self.values.contains(#[trigger] final(queue)@[i])
                    && self.reachable(final(queue)@[i]),
    {
        let ghost children = self.values.value(handle).children();
        let ghost start = queue@;
        match self.values.get(handle) {
            Value::Array(items) => {
                let mut at: usize = 0;
                while at < items.len()
                    invariant
                        self.wf(),
                        self.values.contains(handle),
                        self.reachable(handle),
                        children == self.values.value(handle).children(),
                        children == items@,
                        at <= items@.len(),
                        queue@ == start + children.subrange(0, at as int),
                        forall|i: int|
                            0 <= i < queue@.len() ==> self.values.contains(#[trigger] queue@[i])
                                && self.reachable(queue@[i]),
                    decreases items@.len() - at,
                {
                    let child = items[at];
                    proof {
                        assert(children[at as int] == child);
                        assert(self.points_to(handle, child));
                        self.lemma_child_reachable(handle, child);
                    }
                    queue.push(child);
                    assert(queue@ =~= start + children.subrange(0, at + 1));
                    at += 1;
                }
                assert(children.subrange(0, at as int) =~= children);
            },
            Value::Object(fields) => {
                let mut at: usize = 0;
                while at < fields.len()
                    invariant
                        self.wf(),
                        self.values.contains(handle),
                        self.reachable(handle),
                        children == self.values.value(handle).children(),
                        children == field_handles(fields@),
                        at <= fields@.len(),
                        queue@ == start + children.subrange(0, at as int),
                        forall|i: int|
                            0 <= i < queue@.len() ==> self.values.contains(#[trigger] queue@[i])
                                && self.reachable(queue@[i]),
                    decreases fields@.len() - at,
                {
                    let child = fields[at].value;
                    proof {
                        assert(children[at as int] == child);
                        assert(self.points_to(handle, child));
                        self.lemma_child_reachable(handle, child);
                    }
                    queue.push(child);
                    assert(queue@ =~= start + children.subrange(0, at + 1));
                    at += 1;
                }
                assert(children.subrange(0, at as int) =~= children);
            },
            _ => {
                assert(queue@ =~= start + children);
            },
        }
    }

    /// The roots: what the stack binds and what the evaluator holds.
    fn roots(&self) -> (roots: Vec<HeapItem>)
        requires
            self.wf(),
        ensures
            forall|h: HeapItem| self.is_root(h) <==> roots@.contains(h),
    {
        let mut roots: Vec<HeapItem> = Vec::new();
        let mut index: usize = 0;
        while index < self.stack.values.len()
            invariant
                index <= self.stack.values@.len(),
                roots@.len() == index,
                forall|i: int| 0 <= i < index ==> roots@[i] == (#[trigger] self.stack.values@[i]).1,
            decreases self.stack.values@.len() - index,
        {
            roots.push(self.stack.values[index].1);
            index += 1;
        }
        let bound = roots.len();
        let mut index: usize = 0;
        while index < self.temps.len()
            invariant
                index <= self.temps@.len(),
                bound == self.stack.values@.len(),
                roots@.len() == bound + index,
                forall|i: int| 0 <= i < bound ==> roots@[i] == (#[trigger] self.stack.values@[i]).1,
                forall|i: int| 0 <= i < index ==> roots@[bound + i] == #[trigger] self.temps@[i],
            decreases self.temps@.len() - index,
        {
            roots.push(self.temps[index]);
            index += 1;
        }
        proof {
            assert forall|h: HeapItem| self.is_root(h) implies roots@.contains(h) by {
                if self.temps@.contains(h) {
                    let i = choose|i: int| 0 <= i < self.temps@.len() && self.temps@[i] == h;
                    assert(roots@[bound + i] == h);
                } else {
                    let i = choose|i: int|
                        0 <= i < self.stack.values@.len() && (#[trigger] self.stack.values@[i]).1
                            == h;
                    assert(roots@[i] == h);
                }
            }
            assert forall|h: HeapItem| roots@.contains(h) implies self.is_root(h) by {
                let j = choose|j: int| 0 <= j < roots@.len() && roots@[j] == h;
                if j < bound {
                    assert(self.stack.values@[j].1 == h);
                } else {
                    assert(self.temps@[j - bound] == h);
                }
            }
        }
        roots
    }

    /// Marks the places of the values that can be reached.
    pub fn mark(&self) -> (marks: Vec<bool>)
        requires
            self.wf(),
        ensures
            marks@.len() == self.values.slots@.len(),
            forall|h: HeapItem|
                #![trigger marked(marks@, h)]
                marked(marks@, h) <==> self.values.contains(h) && self.reachable(h),
    {
        let places = self.values.capacity();
        let mut marks: Vec<bool> = Vec::new();
        while marks.len() < places
            invariant
                marks@.len() <= places,
                forall|i: int| 0 <= i < marks@.len() ==> !marks@[i],
            decreases places - marks@.len(),
        {
            marks.push(false);
        }
        let mut queue = self.roots();
        proof {
            assert forall|i: int| 0 <= i < queue@.len() implies self.values.contains(
                #[trigger] queue@[i],
            ) && self.reachable(queue@[i]) by {
                assert(queue@.contains(queue@[i]));
                self.lemma_root_reachable(queue@[i]);
            }
        }
        while queue.len() > 0
            invariant
                self.wf(),
                marks@.len() == places,
                places == self.values.slots@.len(),
                forall|i: int|
                    0 <= i < queue@.len() ==> self.values.contains(#[trigger] queue@[i])
                        && self.reachable(queue@[i]),
                forall|h: HeapItem|
                    #![trigger marked(marks@, h)]
                    marked(marks@, h) ==> self.values.contains(h) && self.reachable(h),
                forall|h: HeapItem|
                    #![trigger self.is_root(h)]
                    self.is_root(h) ==> marked(marks@, h) || queue@.contains(h),
                forall|a: HeapItem, b: HeapItem|
                    #![trigger self.points_to(a, b)]
                    marked(marks@, a) && self.points_to(a, b) ==> marked(marks@, b)
                        || queue@.contains(b),
            decreases count_unmarked(marks@), queue@.len(),
        {
            let ghost queue_before = queue@;
            let ghost marks_before = marks@;
            assert(self.values.contains(queue@[queue@.len() - 1]) && self.reachable(
                queue@[queue@.len() - 1],
            ));
            let handle = queue.pop().unwrap();
            let ghost queue_popped = queue@;
            proof {
                assert forall|h: HeapItem| queue_before.contains(h) implies queue_popped.contains(
                    h,
                ) || h == handle by {
                    let j = choose|j: int| 0 <= j < queue_before.len() && queue_before[j] == h;
                    if j < queue_popped.len() {
                        assert(queue_popped[j] == h);
                    }
                }
            }
            if !marks[handle.index] {
                proof {
                    lemma_mark(marks@, handle.index as int);
                }
                marks.set(handle.index, true);
                self.push_children(handle, &mut queue);
                proof {
                    let children = self.values.value(handle).children();
                    assert forall|h: HeapItem| queue_popped.contains(h) implies queue@.contains(
                        h,
                    ) by {
                        let j = choose|j: int| 0 <= j < queue_popped.len() && queue_popped[j] == h;
                        assert(queue@[j] == h);
                    }
                    assert forall|b: HeapItem| children.contains(b) implies queue@.contains(b) by {
                        let j = choose|j: int| 0 <= j < children.len() && children[j] == b;
                        assert(queue@[queue_popped.len() + j] == b);
                    }
                    assert forall|h: HeapItem|
                        #![trigger marked(marks@, h)]
                        marked(marks@, h) implies self.values.contains(h) && self.reachable(h) by {
                        if h != handle {
                            assert(marked(marks_before, h));
                        }
                    }
                    assert forall|a: HeapItem, b: HeapItem|
                        #![trigger self.points_to(a, b)]
                        marked(marks@, a) && self.points_to(a, b) implies marked(marks@, b)
                        || queue@.contains(b) by {
                        if a == handle {
                            assert(children.contains(b));
                        } else {
                            assert(marked(marks_before, a));
                            if !marked(marks_before, b) {
                                assert(queue_before.contains(b));
                            }
                        }
                    }
                    assert forall|h: HeapItem|
                        #![trigger self.is_root(h)]
                        self.is_root(h) implies marked(marks@, h) || queue@.contains(h) by {
                        if !marked(marks_before, h) {
                            assert(queue_before.contains(h));
                        }
                    }
                }
            } else {
                proof {
                    assert forall|a: HeapItem, b: HeapItem|
                        #![trigger self.points_to(a, b)]
                        marked(marks@, a) && self.points_to(a, b) implies marked(marks@, b)
                        || queue@.contains(b) by {
                        if !marked(marks@, b) {
                            assert(queue_before.contains(b));
                        }
                    }
                    assert forall|h: HeapItem|
                        #![trigger self.is_root(h)]
                        self.is_root(h) implies marked(marks@, h) || queue@.contains(h) by {
                        if !marked(marks@, h) {
                            assert(queue_before.contains(h));
                        }
                    }
                }
            }
        }
        proof {
            assert forall|h: HeapItem|
                #![trigger self.is_root(h)]
                self.is_root(h) implies marked(marks@, h) by {
                if !marked(marks@, h) {
                    assert(queue@.contains(h));
                }
            }
            assert forall|a: HeapItem, b: HeapItem|
                #![trigger self.points_to(a, b)]
                marked(marks@, a) && self.points_to(a, b) implies marked(marks@, b) by {
                if !marked(marks@, b) {
                    assert(queue@.contains(b));
                }
            }
            assert forall|h: HeapItem|
                #![trigger marked(marks@, h)]
                self.values.contains(h) && self.reachable(h) implies marked(marks@, h) by {
                let path = choose|path: Seq<HeapItem>| #[trigger]
                    self.is_path(path) && path.last() == h;
                self.lemma_path_marked(marks@, path, path.len() - 1);
            }
        }
        marks
    }

    /// Frees every value that cannot be reached from the stack or from what the evaluator
    /// holds. What can be reached stays as it is, under the handle that it has.
    pub fn collect_garbage(&mut self)
        requires
            old(self).wf(),
        ensures
            final(self).wf(),
            old(self).collecting(final(self)),
            final(self).stack == old(self).stack,
            final(self).temps == old(self).temps,
            final(self).steps == old(self).steps,
            final(self).use_gc == old(self).use_gc,
            forall|key: HeapItem|
                final(self).values.contains(key) == (old(self).values.contains(key) && old(
                    self).reachable(key)),
            forall|key: HeapItem|
                #![trigger final(self).values.contains(key)]
                final(self).values.contains(key) ==> final(self).values.value(key) == old(
                    self).values.value(key),
            forall|key: HeapItem|
                #![trigger final(self).reachable(key)]
                final(self).reachable(key) == old(self).reachable(key),
    {
        let ghost before = *self;
        let marks = self.mark();
        self.values.sweep(&marks);
        proof {
            assert forall|key: HeapItem|
                self.values.contains(key) == (before.values.contains(key) && before.reachable(
                    key,
                )) by {
                if before.values.contains(key) {
                    assert(marked(marks@, key) == marks@[key.index as int]);
                }
            }
            assert forall|i: int| 0 <= i < self.stack.values@.len() implies self.values.contains(
                (#[trigger] self.stack.values@[i]).1,
            ) by {
                assert(before.is_root(self.stack.values@[i].1));
                before.lemma_root_reachable(self.stack.values@[i].1);
            }
            assert forall|i: int| 0 <= i < self.temps@.len() implies self.values.contains(
                #[trigger] self.temps@[i],
            ) by {
                assert(before.temps@.contains(self.temps@[i]));
                assert(before.is_root(self.temps@[i]));
                before.lemma_root_reachable(self.temps@[i]);
            }
            assert forall|key: HeapItem, i: int|
                self.values.contains(key) && 0 <= i < self.values.value(
                    key,
                ).children().len() implies self.values.contains(
                #[trigger] self.values.value(key).children()[i],
            ) by {
                let child = before.values.value(key).children()[i];
                assert(before.points_to(key, child));
                before.lemma_child_reachable(key, child);
            }
            assert forall|key: HeapItem|
                #![trigger self.reachable(key)]
                self.reachable(key) == before.reachable(key) by {
                if before.reachable(key) {
                    before.lemma_reachable_in(self, key);
                }
                if self.reachable(key) {
                    assert forall|live: HeapItem|
                        #![trigger before.values.contains(live)]
                        self.values.contains(live) && self.reachable(
                            live,
                        ) implies before.values.contains(live) && before.values.value(live)
                        == self.values.value(live) by {}
                    self.lemma_reachable_in(&before, key);
                }
            }
        }
    }
}

} // verus!
