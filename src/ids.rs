use vstd::prelude::*;

use ic_stable_structures::{Cell, DefaultMemoryImpl};

verus! {

/// A `u64` persisted in a stable-memory cell of ic-stable-structures.
#[verifier::external_body]
pub struct CounterCell {
    cell: Cell<u64, DefaultMemoryImpl>,
}

/// The value held by a counter cell.
pub uninterp spec fn cell_value(c: CounterCell) -> u64;

/// Relies on `Cell::init` of ic-stable-structures over the default memory: a
/// cell holding the value persisted there, or `initial` when the memory holds
/// no cell yet; `None` when it holds a cell of another layout version or cannot
/// grow.
#[verifier::external_body]
fn open_cell(initial: u64) -> (r: Option<CounterCell>) {
    match Cell::init(DefaultMemoryImpl::default(), initial) {
        Ok(cell) => Some(CounterCell { cell }),
        Err(_) => None,
    }
}

/// Relies on `Cell::get` of ic-stable-structures: the value the cell holds.
#[verifier::external_body]
fn cell_get(c: &CounterCell) -> (r: u64)
    ensures
        r == cell_value(*c),
{
    *c.cell.get()
}

/// Relies on `Cell::set` of ic-stable-structures: the cell holds `v`, written to
/// its memory first. It fails only when the encoded value does not fit in the
/// memory and the memory cannot grow; a cell made by `Cell::init` already owns
/// at least one page, which the eight bytes of a `u64` always fit.
#[verifier::external_body]
fn cell_set(c: &mut CounterCell, v: u64) -> (r: bool)
    ensures
        r,
        cell_value(*final(c)) == v,
{
    c.cell.set(v).is_ok()
}

/// Issues strictly increasing identifiers, one counter shared by every kind of
/// record, persisted in a stable-memory cell.
pub struct IdGenerator {
    cell: CounterCell,
}

impl View for IdGenerator {
    type V = u64;

    /// The last identifier issued; 0 on memory that has issued none.
    closed spec fn view(&self) -> u64 {
        cell_value(self.cell)
    }
}

impl IdGenerator {
    /// A generator whose counter lives in stable memory from its first byte,
    /// resumed from the value persisted there, or starting at 0 on memory that
    /// holds no counter yet; `None` when the memory cannot hold it. Open it
    /// once per process: two generators over the same memory would each keep
    /// their own copy of the counter and issue the same identifiers.
    pub fn open() -> (r: Option<IdGenerator>) {
        match open_cell(0) {
            Some(cell) => Some(IdGenerator { cell }),
            None => None,
        }
    }

    pub fn last(&self) -> (r: u64)
        ensures
            r == self@,
    {
        cell_get(&self.cell)
    }

    /// Persists and issues the identifier that follows the last one; `None`,
    /// with nothing issued, exactly when the counter is exhausted.
    pub fn next(&mut self) -> (r: Option<u64>)
        ensures
            match r {
                Some(id) => old(self)@ < u64::MAX && id == old(self)@ + 1 && final(self)@ == id,
                None => final(self)@ == old(self)@,
            },
            r is Some <==> old(self)@ < u64::MAX,
    {
        let last = cell_get(&self.cell);
        if last == u64::MAX {
            return None;
        }
        if cell_set(&mut self.cell, last + 1) {
            Some(last + 1)
        } else {
            None
        }
    }
}

} // verus!
