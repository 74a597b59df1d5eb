use vstd::prelude::*;
use crate::value::{Kind, Value};

verus! {

/// An arena of variable cells. A cell is named by its index, handed out by
/// `fresh` or `fresh_with`; each holds one value that can be read and
/// replaced in place, and every holder of the index sees the replacement.
pub struct Cells {
    slots: Vec<Value>,
}

impl View for Cells {
    type V = Seq<Value>;

    closed spec fn view(&self) -> Seq<Value> {
        self.slots@
    }
}

impl Cells {
    /// An arena with no cells.
    pub fn new() -> (r: Cells)
        ensures
            r@ == Seq::<Value>::empty(),
    {
        Cells { slots: Vec::new() }
    }

    /// The number of cells allocated so far.
    pub fn len(&self) -> (r: usize)
        ensures
            r == self@.len(),
    {
        self.slots.len()
    }

    /// Allocates a cell holding `v` and returns its index.
    pub fn fresh_with(&mut self, v: Value) -> (r: usize)
        ensures
            r == old(self)@.len(),
            final(self)@ == old(self)@.push(v),
    {
        let r = self.slots.len();
        self.slots.push(v);
        r
    }

    /// Allocates a cell holding the default value of kind `k`, zero or
    /// false, and returns its index.
    pub fn fresh(&mut self, k: Kind) -> (r: usize)
        ensures
            r == old(self)@.len(),
            final(self)@ == old(self)@.push(Value::default_spec(k)),
    {
        self.fresh_with(Value::default_of(k))
    }

    /// The current content of cell `c`.
    pub fn read(&self, c: usize) -> (r: Value)
        requires
            c < self@.len(),
        ensures
            r == self@[c as int],
    {
        self.slots[c]
    }

    /// Overwrites cell `c` with `v` and returns what it held.
    pub fn replace(&mut self, c: usize, v: Value) -> (r: Value)
        requires
            c < old(self)@.len(),
        ensures
            r == old(self)@[c as int],
            final(self)@ == old(self)@.update(c as int, v),
    {
        let r = self.slots[c];
        self.slots.set(c, v);
        r
    }
}

} // verus!
