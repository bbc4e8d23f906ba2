//! The inbox through which interrupts reach the watch loop.
//!
//! Whoever notices an interrupt delivers it; the loop takes one per check
//! and, once it has dealt with it, drains whatever else has piled up.  A
//! burst of interrupts is thereby handled as a single event.

use vstd::prelude::*;

verus! {

/// Interrupts delivered and not yet taken or drained.
#[derive(Debug)]
pub struct InterruptInbox {
    pending: u64,
}

/// The backlog after one more delivery.  A full inbox stays full.
pub open spec fn delivered(backlog: nat) -> nat {
    if backlog < u64::MAX {
        backlog + 1
    } else {
        backlog
    }
}

/// The backlog after `count` deliveries.
pub open spec fn delivered_times(backlog: nat, count: nat) -> nat
    decreases count,
{
    if count == 0 {
        backlog
    } else {
        delivered(delivered_times(backlog, (count - 1) as nat))
    }
}

/// The backlog after one interrupt was taken, if there was one.
pub open spec fn taken(backlog: nat) -> nat {
    if backlog > 0 {
        (backlog - 1) as nat
    } else {
        0
    }
}

impl View for InterruptInbox {
    type V = nat;

    /// The number of interrupts waiting.
    closed spec fn view(&self) -> nat {
        self.pending as nat
    }
}

impl InterruptInbox {
    /// An inbox with nothing in it.
    pub fn new() -> (inbox: InterruptInbox)
        ensures
            inbox@ == 0,
    {
        InterruptInbox { pending: 0 }
    }

    /// Records one interrupt.
    pub fn deliver(&mut self)
        ensures
            final(self)@ == delivered(old(self)@),
    {
        self.pending = self.pending.saturating_add(1);
    }

    /// Takes one interrupt out, and says whether there was one.
    pub fn take(&mut self) -> (pending: bool)
        ensures
            pending == (old(self)@ > 0),
            final(self)@ == taken(old(self)@),
    {
        if self.pending > 0 {
            self.pending = self.pending - 1;
            true
        } else {
            false
        }
    }

    /// Throws away every interrupt that is waiting.
    pub fn drain(&mut self)
        ensures
            final(self)@ == 0,
    {
        self.pending = 0;
    }

    /// Whether no interrupt is waiting.
    pub fn is_empty(&self) -> (empty: bool)
        ensures
            empty == (self@ == 0),
    {
        self.pending == 0
    }
}

/// However many interrupts arrive between two checks, one or a thousand,
/// the next check finds that there is one; the backlog never exceeds what
/// was delivered.  Taking from an inbox that was drained finds nothing and
/// leaves it empty, so a burst that is followed by one take and a drain is
/// seen once.
pub proof fn lemma_burst_is_one_event(backlog: nat, count: nat)
    requires
        count >= 1,
    ensures
        delivered_times(backlog, count) > 0,
        delivered_times(backlog, count) >= backlog,
        delivered_times(backlog, count) <= backlog + count,
        taken(0) == 0,
    decreases count,
{
    if count > 1 {
        lemma_burst_is_one_event(backlog, (count - 1) as nat);
    } else {
        assert(delivered_times(backlog, 0) == backlog);
    }
}

} // verus!
