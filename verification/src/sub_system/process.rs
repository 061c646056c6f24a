//! Processes: their identifiers and executable images.
pub mod elf;

use vstd::prelude::*;
use crate::utils::id::{next_counter, IdCounter};

verus! {

/// A process identifier.
#[derive(Debug, Clone, Copy, PartialOrd, PartialEq, Eq, Ord, Structural)]
pub struct PID(u64);

impl PID {
    /// The number of the process.
    pub closed spec fn value(&self) -> u64 {
        self.0
    }

    /// A fresh, self-increasing process identifier taken from the counter of
    /// process identifiers.
    pub fn new(counter: &mut IdCounter) -> (r: Self)
        ensures
            r.value() == old(counter)@,
            final(counter)@ == next_counter(old(counter)@),
    {
        PID(counter.next_id())
    }

    /// The number of the process.
    pub fn id(&self) -> (r: u64)
        ensures
            r == self.value(),
    {
        self.0
    }
}

} // verus!
