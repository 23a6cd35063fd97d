//! The heap: an arena of values that are named by handles and freed by the collector.

use vstd::prelude::*;

verus! {

/// A handle to a value of the heap. Two handles are equal where they name the same place,
/// whatever the values are; a copy of a handle names the same place.
#[derive(Debug, Clone, Copy, PartialEq, Eq, Structural, Hash)]
pub struct HeapItem {
    pub index: usize,
}

impl HeapItem {
    /// The handle to the place `index`.
    pub fn new(index: usize) -> (item: Self)
        ensures
            item.index == index,
    {
        Self { index }
    }
}

/// The number of places of `slots` that hold a value.
pub open spec fn count_live<T>(slots: Seq<Option<T>>) -> nat
    decreases slots.len(),
{
    if slots.len() == 0 {
        0
    } else {
        count_live(slots.drop_last()) + if slots.last() is Some {
            1nat
        } else {
            0nat
        }
    }
}

/// An arena of values. A freed place is kept for the next value that is pushed.
#[derive(Debug)]
pub struct Heap<T> {
    /// The places: `Some` where a value lives, `None` where one was freed.
    pub slots: Vec<Option<T>>,
    /// The freed places, each once.
    pub free: Vec<usize>,
}

impl<T> Heap<T> {
    /// The free list names freed places only, and each of them once.
    pub open spec fn wf(&self) -> bool {
        &&& forall|i: int|
            0 <= i < self.free@.len() ==> (#[trigger] self.free@[i]) < self.slots@.len()
                && self.slots@[self.free@[i] as int] is None
        &&& forall|i: int, j: int|
            0 <= i < j < self.free@.len() ==> self.free@[i] != self.free@[j]
    }

    /// Whether `key` names a living value.
    pub open spec fn contains(&self, key: HeapItem) -> bool {
        key.index < self.slots@.len() && self.slots@[key.index as int] is Some
    }

    /// The value that `key` names.
    pub open spec fn value(&self, key: HeapItem) -> T
        recommends
            self.contains(key),
    {
        self.slots@[key.index as int]->0
    }

    /// The number of living values.
    pub open spec fn live(&self) -> nat {
        count_live(self.slots@)
    }

    /// Whether every value of `self` lives on in `later`, unchanged.
    pub open spec fn kept_by(&self, later: &Heap<T>) -> bool {
        forall|key: HeapItem|
            #![trigger self.contains(key)]
            self.contains(key) ==> later.contains(key) && later.value(key) == self.value(key)
    }

    /// Whether the free list names freed places only, and each of them once.
    pub fn is_well_formed(&self) -> (ok: bool)
        ensures
            ok == self.wf(),
    {
        let places = self.slots.len();
        let mut seen: Vec<bool> = Vec::new();
        while seen.len() < places
            invariant
                seen@.len() <= places,
                forall|i: int| 0 <= i < seen@.len() ==> !seen@[i],
            decreases places - seen@.len(),
        {
            seen.push(false);
        }
        let mut index: usize = 0;
        while index < self.free.len()
            invariant
                index <= self.free@.len(),
                places == self.slots@.len(),
                seen@.len() == places,
                forall|i: int|
                    0 <= i < index ==> (#[trigger] self.free@[i]) < self.slots@.len()
                        && self.slots@[self.free@[i] as int] is None,
                forall|i: int, j: int| 0 <= i < j < index ==> self.free@[i] != self.free@[j],
                forall|place: int|
                    0 <= place < places ==> (#[trigger] seen@[place]) == (exists|i: int|
                        0 <= i < index && #[trigger] self.free@[i] == place),
            decreases self.free@.len() - index,
        {
            let place = self.free[index];
            if place >= places {
                return false;
            }
            if self.slots[place].is_some() {
                return false;
            }
            if seen[place] {
                proof {
                    let twin = choose|i: int| 0 <= i < index && #[trigger] self.free@[i] == place;
                    assert(self.free@[twin] == self.free@[index as int]);
                }
                return false;
            }
            seen.set(place, true);
            index += 1;
        }
        true
    }

    /// The empty heap.
    pub fn new() -> (heap: Self)
        ensures
            heap.wf(),
            heap.live() == 0,
            forall|key: HeapItem| !heap.contains(key),
    {
        Self { slots: Vec::new(), free: Vec::new() }
    }

    /// Puts `item` on the heap and returns the handle that names it from now on. No living
    /// value is touched.
    pub fn push(&mut self, item: T) -> (key: HeapItem)
        requires
            old(self).wf(),
        ensures
            final(self).wf(),
            !old(self).contains(key),
            final(self).contains(key),
            final(self).value(key) == item,
            forall|other: HeapItem|
                other != key ==> final(self).contains(other) == old(self).contains(other) && (
                old(self).contains(other) ==> final(self).value(other) == old(self).value(other)),
            final(self).live() == old(self).live() + 1,
    {
        match self.free.pop() {
            Some(index) => {
                proof {
                    lemma_count_update(old(self).slots@, index as int, Some(item));
                }
                self.slots.set(index, Some(item));
                HeapItem::new(index)
            },
            None => {
                let index = self.slots.len();
                self.slots.push(Some(item));
                assert(self.slots@.drop_last() =~= old(self).slots@);
                HeapItem::new(index)
            },
        }
    }

    /// Replaces the value that `key` names.
    pub fn set(&mut self, key: HeapItem, new_value: T)
        requires
            old(self).wf(),
            old(self).contains(key),
        ensures
            final(self).wf(),
            final(self).contains(key),
            final(self).value(key) == new_value,
            forall|other: HeapItem|
                other != key ==> final(self).contains(other) == old(self).contains(other) && (
                old(self).contains(other) ==> final(self).value(other) == old(self).value(other)),
            final(self).live() == old(self).live(),
            final(self).slots@.len() == old(self).slots@.len(),
    {
        proof {
            lemma_count_update(self.slots@, key.index as int, Some(new_value));
        }
        self.slots.set(key.index, Some(new_value));
    }

    /// The value that `key` names.
    pub fn get(&self, key: HeapItem) -> (value: &T)
        requires
            self.contains(key),
        ensures
            *value == self.value(key),
    {
        self.slots[key.index].as_ref().unwrap()
    }

    /// The value that `key` names, to be changed in place.
    pub fn get_mut(&mut self, key: HeapItem) -> (value: &mut T)
        requires
            old(self).wf(),
            old(self).contains(key),
        ensures
            *value == old(self).value(key),
            final(self).free == old(self).free,
            final(self).slots@ == old(self).slots@.update(key.index as int, Some(*final(value))),
    {
        self.slots[key.index].as_mut().unwrap()
    }

    /// Whether `key` names a living value.
    pub fn is_live(&self, key: HeapItem) -> (live: bool)
        ensures
            live == self.contains(key),
    {
        key.index < self.slots.len() && self.slots[key.index].is_some()
    }

    /// The number of living values.
    pub fn len(&self) -> (count: usize)
        ensures
            count == self.live(),
    {
        let mut count: usize = 0;
        let mut index: usize = 0;
        assert(self.slots@.subrange(0, 0) =~= Seq::<Option<T>>::empty());
        while index < self.slots.len()
            invariant
                index <= self.slots@.len(),
                count <= index,
                count == count_live(self.slots@.subrange(0, index as int)),
            decreases self.slots@.len() - index,
        {
            assert(self.slots@.subrange(0, index + 1).drop_last() =~= self.slots@.subrange(
                0,
                index as int,
            ));
            if self.slots[index].is_some() {
                count += 1;
            }
            index += 1;
        }
        assert(self.slots@.subrange(0, index as int) =~= self.slots@);
        count
    }

    /// The number of places, living and freed.
    pub fn capacity(&self) -> (places: usize)
        ensures
            places == self.slots@.len(),
    {
        self.slots.len()
    }

    /// Frees every value whose place is not marked. `marks` has one entry for each place.
    pub fn sweep(&mut self, marks: &Vec<bool>)
        requires
            old(self).wf(),
            marks@.len() == old(self).slots@.len(),
        ensures
            final(self).wf(),
            final(self).slots@.len() == old(self).slots@.len(),
            forall|key: HeapItem|
                final(self).contains(key) == (old(self).contains(key) && marks@[key.index as int]),
            forall|key: HeapItem|
                #![trigger final(self).contains(key)]
                final(self).contains(key) ==> final(self).value(key) == old(self).value(key),
    {
        let mut index: usize = 0;
        while index < self.slots.len()
            invariant
                self.wf(),
                index <= self.slots@.len(),
                self.slots@.len() == old(self).slots@.len(),
                marks@.len() == self.slots@.len(),
                forall|i: int|
                    index <= i < self.slots@.len() ==> self.slots@[i] == old(self).slots@[i],
                forall|i: int|
                    0 <= i < index ==> (#[trigger] self.slots@[i]) == (if marks@[i] {
                        old(self).slots@[i]
                    } else {
                        None
                    }),
            decreases self.slots@.len() - index,
        {
            if !marks[index] && self.slots[index].is_some() {
                self.slots.set(index, None);
                self.free.push(index);
            }
            index += 1;
        }
    }

    /// Frees every value but those that `to_keep` names.
    pub fn filter_keys(&mut self, to_keep: &[HeapItem])
        requires
            old(self).wf(),
        ensures
            final(self).wf(),
            forall|key: HeapItem|
                final(self).contains(key) == (old(self).contains(key) && to_keep@.contains(key)),
            forall|key: HeapItem|
                #![trigger final(self).contains(key)]
                final(self).contains(key) ==> final(self).value(key) == old(self).value(key),
    {
        let places = self.slots.len();
        let mut marks: Vec<bool> = Vec::new();
        while marks.len() < places
            invariant
                marks@.len() <= places,
                forall|i: int| 0 <= i < marks@.len() ==> !marks@[i],
            decreases places - marks@.len(),
        {
            marks.push(false);
        }
        let mut index: usize = 0;
        while index < to_keep.len()
            invariant
                index <= to_keep@.len(),
                marks@.len() == places,
                forall|i: int|
                    0 <= i < places ==> (#[trigger] marks@[i]) == (exists|j: int|
                        0 <= j < index && (#[trigger] to_keep@[j]).index == i),
            decreases to_keep@.len() - index,
        {
            let key = to_keep[index];
            if key.index < places {
                marks.set(key.index, true);
            }
            index += 1;
        }
        proof {
            assert forall|key: HeapItem| key.index < places implies marks@[key.index as int]
                == to_keep@.contains(key) by {
                if marks@[key.index as int] {
                    let j = choose|j: int|
                        0 <= j < to_keep@.len() && (#[trigger] to_keep@[j]).index == key.index;
                    assert(to_keep@[j] == key);
                }
                if to_keep@.contains(key) {
                    let j = choose|j: int| 0 <= j < to_keep@.len() && to_keep@[j] == key;
                    assert(to_keep@[j].index == key.index);
                }
            }
        }
        self.sweep(&marks);
    }
}

/// Setting one place changes the count of living values by that place alone.
pub proof fn lemma_count_update<T>(slots: Seq<Option<T>>, index: int, value: Option<T>)
    requires
        0 <= index < slots.len(),
    ensures
        count_live(slots.update(index, value)) + (if slots[index] is Some {
            1nat
        } else {
            0nat
        }) == count_live(slots) + (if value is Some {
            1nat
        } else {
            0nat
        }),
    decreases slots.len(),
{
    if index == slots.len() - 1 {
        assert(slots.update(index, value).drop_last() =~= slots.drop_last());
    } else {
        lemma_count_update(slots.drop_last(), index, value);
        assert(slots.update(index, value).drop_last() =~= slots.drop_last().update(index, value));
    }
}

} // verus!
