use vstd::prelude::*;
use crate::stable::{CounterCell, Region, counter_value};

verus! {

/// Hands out strictly increasing identifiers from a durable counter.
pub struct IdGenerator {
    cell: CounterCell,
}

impl IdGenerator {
    /// The last identifier handed out; 0 before the first.
    pub closed spec fn last(&self) -> u64 {
        counter_value(self.cell)
    }

    /// Attaches to the counter kept in `region`, creating it at 0 where the
    /// region is blank; also says whether it was. `None` where the counter
    /// cannot be set up.
    pub fn attach(region: Region) -> (r: Option<(IdGenerator, bool)>)
        ensures
            r matches Some((g, blank)) ==> (blank ==> g.last() == 0),
    {
        match CounterCell::init(region) {
            Some((cell, size)) => Some((IdGenerator { cell }, size == 0)),
            None => None,
        }
    }

    /// The last identifier handed out.
    pub fn current(&self) -> (r: u64)
        ensures
            r == self.last(),
    {
        self.cell.get()
    }

    /// Advances the counter and hands out its new value. `None`, with the
    /// counter unchanged, exactly where every identifier is used up.
    pub fn next(&mut self) -> (r: Option<u64>)
        ensures
            match r {
                Some(id) => id == old(self).last() + 1 && final(self).last() == id,
                None => final(self).last() == old(self).last(),
            },
            r is None <==> old(self).last() == u64::MAX,
    {
        let current = self.cell.get();
        if current == u64::MAX {
            return None;
        }
        let id = current + 1;
        self.cell.set(id);
        Some(id)
    }
}

} // verus!
