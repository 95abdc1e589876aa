//! Monotonic ticket counters.

use vstd::prelude::*;

verus! {

/// The value of a ticket.
pub type TicketID = u64;

/// A counter that starts at zero and only ever moves forward by one.
pub struct Ticket {
    value: TicketID,
}

impl View for Ticket {
    type V = nat;

    closed spec fn view(&self) -> nat {
        self.value as nat
    }
}

impl Ticket {
    /// A fresh ticket, at zero.
    pub fn new() -> (t: Self)
        ensures
            t@ == 0,
    {
        Ticket { value: 0 }
    }

    /// Moves the ticket forward by one.
    pub fn next(&mut self)
        requires
            old(self)@ < u64::MAX,
        ensures
            final(self)@ == old(self)@ + 1,
    {
        self.value = self.value + 1;
    }

    /// Whether this ticket has reached `other`.
    pub fn is_after(&self, other: &Self) -> (b: bool)
        ensures
            b == (self@ >= other@),
    {
        self.value >= other.value
    }

    /// The current value.
    pub fn value(&self) -> (v: TicketID)
        ensures
            v == self@,
    {
        self.value
    }
}

} // verus!
