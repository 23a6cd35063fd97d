//! The stack of bindings: names and what they are bound to, in frames.

use vstd::prelude::*;
use crate::text::same_text;

verus! {

/// A binding that a search found.
#[derive(Debug)]
pub struct FoundIdent<T> {
    /// What the name is bound to.
    pub value: T,
    /// Where the binding stands among the bindings.
    pub index: usize,
}

/// The top of a stack, taken off to be put back later.
#[derive(Debug)]
pub struct PoppedStack<T> {
    pub values: Vec<(String, T)>,
    pub frames: Vec<usize>,
}

/// Bindings in the order in which they were made, and the frames they belong to.
#[derive(Debug)]
pub struct Stack<T> {
    pub values: Vec<(String, T)>,
    /// Each item is the index at which a frame starts: the bindings from there on belong to
    /// that frame or to a later one.
    pub frames: Vec<usize>,
}

/// The index of the last of the first `below` bindings that is named `name`, or -1.
pub open spec fn binding_index<T>(values: Seq<(String, T)>, name: Seq<char>, below: int) -> int
    decreases below,
{
    if below <= 0 || below > values.len() {
        -1
    } else if values[below - 1].0@ == name {
        below - 1
    } else {
        binding_index(values, name, below - 1)
    }
}

/// The number of frames, counted from `from`, that start at or before `index`.
pub open spec fn frames_within(frames: Seq<usize>, index: int, from: int) -> int
    decreases frames.len() - from,
{
    if from < 0 || from >= frames.len() || frames[from] > index {
        from
    } else {
        frames_within(frames, index, from + 1)
    }
}

impl<T: Copy> Stack<T> {
    /// The frames start in order, none behind the last binding.
    pub open spec fn wf(&self) -> bool {
        &&& forall|i: int, j: int|
            0 <= i <= j < self.frames@.len() ==> self.frames@[i] <= self.frames@[j]
        &&& forall|i: int| 0 <= i < self.frames@.len() ==> self.frames@[i] <= self.values@.len()
    }

    /// The first frame starts at the first binding.
    pub open spec fn based(&self) -> bool {
        self.frames@.len() > 0 && self.frames@[0] == 0
    }

    /// Whether `later` holds the frames of `self` and, in front of whatever it has more, the
    /// bindings of `self`.
    pub open spec fn grown_to(&self, later: &Stack<T>) -> bool {
        &&& later.frames@ == self.frames@
        &&& self.values@.len() <= later.values@.len()
        &&& later.values@.subrange(0, self.values@.len() as int) == self.values@
    }

    /// Whether the frames start in order, none behind the last binding.
    pub fn is_well_formed(&self) -> (ok: bool)
        ensures
            ok == self.wf(),
    {
        let mut index: usize = 0;
        while index < self.frames.len()
            invariant
                index <= self.frames@.len(),
                forall|i: int, j: int| 0 <= i <= j < index ==> self.frames@[i] <= self.frames@[j],
                forall|i: int| 0 <= i < index ==> self.frames@[i] <= self.values@.len(),
            decreases self.frames@.len() - index,
        {
            if self.frames[index] > self.values.len() {
                return false;
            }
            if index > 0 && self.frames[index - 1] > self.frames[index] {
                return false;
            }
            index += 1;
        }
        true
    }

    /// Whether the first frame starts at the first binding.
    pub fn is_based(&self) -> (ok: bool)
        ensures
            ok == self.based(),
    {
        self.frames.len() > 0 && self.frames[0] == 0
    }

    /// The stack without bindings, with the one frame that holds the globals.
    pub fn new() -> (stack: Self)
        ensures
            stack.wf(),
            stack.based(),
            stack.values@.len() == 0,
            stack.frames@ == seq![0usize],
    {
        let mut frames: Vec<usize> = Vec::new();
        frames.push(0);
        Self { values: Vec::new(), frames }
    }

    /// Closes the last frame: its bindings leave the stack and are returned. `None` where no
    /// frame is left.
    pub fn pop_frame(&mut self) -> (popped: Option<Vec<(String, T)>>)
        requires
            old(self).wf(),
        ensures
            final(self).wf(),
            match popped {
                None => old(self).frames@.len() == 0 && final(self).frames@ == old(self).frames@
                    && final(self).values@ == old(self).values@,
                Some(bindings) => {
                    let start = old(self).frames@.last() as int;
                    &&& old(self).frames@.len() > 0
                    &&& final(self).frames@ == old(self).frames@.drop_last()
                    &&& final(self).values@ == old(self).values@.subrange(0, start)
                    &&& bindings@ == old(self).values@.subrange(
                        start,
                        old(self).values@.len() as int,
                    )
                },
            },
    {
        match self.frames.pop() {
            None => None,
            Some(frame) => Some(self.values.split_off(frame)),
        }
    }

    /// Opens a frame behind the last binding.
    pub fn open_frame(&mut self)
        requires
            old(self).wf(),
        ensures
            final(self).wf(),
            final(self).values@ == old(self).values@,
            final(self).frames@ == old(self).frames@.push(old(self).values@.len() as usize),
    {
        self.frames.push(self.values.len());
    }

    /// Opens a frame and puts `values` into it.
    pub fn push_frame(&mut self, values: Vec<(String, T)>)
        requires
            old(self).wf(),
        ensures
            final(self).wf(),
            final(self).values@ == old(self).values@ + values@,
            final(self).frames@ == old(self).frames@.push(old(self).values@.len() as usize),
    {
        let mut values = values;
        self.frames.push(self.values.len());
        self.values.append(&mut values);
    }

    /// Binds `ident` to `value`, in the last frame.
    pub fn push_value(&mut self, ident: String, value: T)
        requires
            old(self).wf(),
        ensures
            final(self).wf(),
            final(self).values@ == old(self).values@.push((ident, value)),
            final(self).frames@ == old(self).frames@,
    {
        self.values.push((ident, value));
    }

    /// The number of bindings.
    pub fn value_len(&self) -> (len: usize)
        ensures
            len == self.values@.len(),
    {
        self.values.len()
    }

    /// The number of frames.
    pub fn frame_len(&self) -> (len: usize)
        ensures
            len == self.frames@.len(),
    {
        self.frames.len()
    }

    /// Pops all bindings after `index`, and the frames that start after it.
    pub fn pop_until_index(&mut self, index: usize) -> (popped: PoppedStack<T>)
        requires
            old(self).wf(),
            index < old(self).values@.len(),
        ensures
            final(self).wf(),
            final(self).values@ == old(self).values@.subrange(0, index + 1),
            popped.values@ == old(self).values@.subrange(
                index + 1,
                old(self).values@.len() as int,
            ),
            final(self).frames@ == old(self).frames@.subrange(
                0,
                frames_within(old(self).frames@, index as int, 0),
            ),
            popped.frames@ == old(self).frames@.subrange(
                frames_within(old(self).frames@, index as int, 0),
                old(self).frames@.len() as int,
            ),
            final(self).values@ + popped.values@ == old(self).values@,
            final(self).frames@ + popped.frames@ == old(self).frames@,
            old(self).based() ==> final(self).based(),
    {
        assert(self.values.len() == self.values@.len());
        let values = self.values.split_off(index + 1);
        let mut kept: usize = 0;
        while kept < self.frames.len() && self.frames[kept] <= index
            invariant
                kept <= self.frames@.len(),
                self.frames@ == old(self).frames@,
                frames_within(self.frames@, index as int, 0) == frames_within(
                    self.frames@,
                    index as int,
                    kept as int,
                ),
                forall|i: int| 0 <= i < kept ==> self.frames@[i] <= index,
            decreases self.frames@.len() - kept,
        {
            kept += 1;
        }
        let frames = self.frames.split_off(kept);
        assert(self.values@ + values@ =~= old(self).values@);
        assert(self.frames@ + frames@ =~= old(self).frames@);
        PoppedStack { values, frames }
    }

    /// Puts back what `pop_until_index` took off.
    pub fn push_popped_stack(&mut self, popped: PoppedStack<T>)
        ensures
            final(self).values@ == old(self).values@ + popped.values@,
            final(self).frames@ == old(self).frames@ + popped.frames@,
    {
        let PoppedStack { mut values, mut frames } = popped;
        self.values.append(&mut values);
        self.frames.append(&mut frames);
    }

    /// The most recent binding of `ident`, in whatever frame.
    pub fn find_with_ident(&self, ident: &str) -> (found: Option<FoundIdent<T>>)
        ensures
            match found {
                Some(found) => found.index as int == binding_index(
                    self.values@,
                    ident@,
                    self.values@.len() as int,
                ) && found.index < self.values@.len() && found.value
                    == self.values@[found.index as int].1 && self.values@[found.index as int].0@
                    == ident@,
                None => binding_index(self.values@, ident@, self.values@.len() as int) == -1,
            },
    {
        let mut below: usize = self.values.len();
        while below > 0
            invariant
                below <= self.values@.len(),
                binding_index(self.values@, ident@, self.values@.len() as int) == binding_index(
                    self.values@,
                    ident@,
                    below as int,
                ),
            decreases below,
        {
            if same_text(self.values[below - 1].0.as_str(), ident) {
                return Some(FoundIdent { value: self.values[below - 1].1, index: below - 1 });
            }
            below -= 1;
        }
        None
    }

    /// What the names are bound to, from the first binding to the last.
    pub fn iter_values(&self) -> (values: Vec<T>)
        ensures
            values@.len() == self.values@.len(),
            forall|i: int| 0 <= i < values@.len() ==> values@[i] == self.values@[i].1,
    {
        let mut values: Vec<T> = Vec::new();
        let mut index: usize = 0;
        while index < self.values.len()
            invariant
                index <= self.values@.len(),
                values@.len() == index,
                forall|i: int| 0 <= i < index ==> values@[i] == self.values@[i].1,
            decreases self.values@.len() - index,
        {
            values.push(self.values[index].1);
            index += 1;
        }
        values
    }
}

/// A search finds the most recent binding of a name: what it gives has the name, and no
/// binding behind it has. Where it gives -1, no binding has the name.
pub proof fn lemma_binding_index<T>(values: Seq<(String, T)>, name: Seq<char>, below: int)
    requires
        0 <= below <= values.len(),
    ensures
        -1 <= binding_index(values, name, below) < below,
        binding_index(values, name, below) >= 0 ==> values[binding_index(values, name, below)].0@
            == name,
        forall|i: int|
            binding_index(values, name, below) < i < below ==> (#[trigger] values[i]).0@ != name,
    decreases below,
{
    if below > 0 && values[below - 1].0@ != name {
        lemma_binding_index(values, name, below - 1);
    }
}

} // verus!
