//! The identifiers of event buses.
use vstd::prelude::*;
use crate::utils::id::{next_counter, IdCounter};

verus! {

/// The identifier of an event bus.
#[derive(Copy, Clone, Debug, PartialOrd, PartialEq, Eq, Structural)]
pub struct BusId(u64);

impl BusId {
    /// The number of the bus.
    pub closed spec fn value(&self) -> u64 {
        self.0
    }

    /// A fresh identifier, taken from the counter of bus identifiers.
    pub fn new(counter: &mut IdCounter) -> (r: Self)
        ensures
            r.value() == old(counter)@,
            final(counter)@ == next_counter(old(counter)@),
    {
        BusId(counter.next_id())
    }

    /// The identifier with the given number.
    pub fn new_unchecked(id: u64) -> (r: Self)
        ensures
            r.value() == id,
    {
        BusId(id)
    }

    /// The number of the bus.
    pub fn id(&self) -> (r: u64)
        ensures
            r == self.value(),
    {
        self.0
    }
}

} // verus!
