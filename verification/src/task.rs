//! Cooperative tasks: identifiers and the shell that runs on the keyboard.
pub mod init;
pub mod keyboard;

use vstd::prelude::*;
use crate::utils::id::{next_counter, IdCounter};

verus! {

/// The identifier of a task.
#[derive(Debug, Clone, Copy, PartialOrd, PartialEq, Eq, Ord, Structural)]
pub struct TaskId(u64);

impl TaskId {
    /// The number of the task.
    pub closed spec fn value(&self) -> u64 {
        self.0
    }

    /// A fresh identifier taken from the counter of task identifiers.
    pub fn new(counter: &mut IdCounter) -> (r: Self)
        ensures
            r.value() == old(counter)@,
            final(counter)@ == next_counter(old(counter)@),
    {
        TaskId(counter.next_id())
    }

    /// The number of the task.
    pub fn id(&self) -> (r: u64)
        ensures
            r == self.value(),
    {
        self.0
    }
}

} // verus!
