//! Counters that hand out identifiers in increasing order.
use vstd::prelude::*;

verus! {

/// A source of identifiers: each one handed out is the previous one plus one,
/// starting from zero (after `u64::MAX` the count wraps to zero).
pub struct IdCounter {
    next: u64,
}

impl View for IdCounter {
    /// The identifier that will be handed out next.
    type V = u64;

    closed spec fn view(&self) -> u64 {
        self.next
    }
}

/// The counter's next value after it handed out `id`: one more, wrapping to
/// zero after `u64::MAX`.
pub open spec fn next_counter(id: u64) -> u64 {
    if id == u64::MAX {
        0
    } else {
        (id + 1) as u64
    }
}

/// The counter's value after handing out `n` identifiers, starting at `start`.
pub open spec fn counter_after(start: u64, n: nat) -> u64
    decreases n,
{
    if n == 0 {
        start
    } else {
        next_counter(counter_after(start, (n - 1) as nat))
    }
}

impl IdCounter {
    /// A counter whose first identifier is zero.
    pub fn new() -> (r: Self)
        ensures
            r@ == 0,
    {
        IdCounter { next: 0 }
    }

    /// Hands out the next identifier.
    pub fn next_id(&mut self) -> (r: u64)
        ensures
            r == old(self)@,
            final(self)@ == next_counter(old(self)@),
    {
        let r = self.next;
        self.next = self.next.wrapping_add(1);
        r
    }
}

/// Identifiers are handed out in increasing order: until the counter wraps,
/// the identifier handed out after `n` more calls is `n` larger, so every
/// identifier handed out later is larger than one handed out before.
pub proof fn lemma_ids_increase(start: u64, m: nat, n: nat)
    requires
        m < n,
        start + n <= u64::MAX,
    ensures
        counter_after(start, n) == start + n,
        counter_after(start, m) < counter_after(start, n),
    decreases n,
{
    lemma_counter_after(start, n);
    lemma_counter_after(start, m);
}

proof fn lemma_counter_after(start: u64, n: nat)
    requires
        start + n <= u64::MAX,
    ensures
        counter_after(start, n) == start + n,
    decreases n,
{
    if n > 0 {
        lemma_counter_after(start, (n - 1) as nat);
    }
}

} // verus!
