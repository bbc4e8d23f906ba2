//! Points in time and the comparison that decides whether an entry changed.

use vstd::prelude::*;

verus! {

/// A point in time: nanoseconds counted from the Unix epoch, negative for
/// instants before it.
#[derive(Clone, Copy, Debug, PartialEq, Eq, Structural)]
pub struct Timestamp {
    pub nanos: i128,
}

impl Timestamp {
    /// The instant as a mathematical integer.
    pub open spec fn at(self) -> int {
        self.nanos as int
    }

    pub fn new(nanos: i128) -> (t: Timestamp)
        ensures
            t.nanos == nanos,
    {
        Timestamp { nanos }
    }

    /// Whether `self` lies strictly after `other`.
    pub fn is_after(&self, other: &Timestamp) -> (r: bool)
        ensures
            r == (self.at() > other.at()),
    {
        self.nanos > other.nanos
    }

    /// The later of the two instants.
    pub fn latest(self, other: Timestamp) -> (t: Timestamp)
        ensures
            t == later_of(self, other),
    {
        if other.nanos > self.nanos {
            other
        } else {
            self
        }
    }
}

/// The later of two instants; the first where they coincide.
pub open spec fn later_of(a: Timestamp, b: Timestamp) -> Timestamp {
    if b.at() > a.at() {
        b
    } else {
        a
    }
}

/// An entry counts as changed when its modification time is known and lies
/// strictly after the baseline.  An unknown modification time never counts.
pub open spec fn newer(modified: Option<Timestamp>, since: Timestamp) -> bool {
    match modified {
        Some(t) => t.at() > since.at(),
        None => false,
    }
}

/// Decides whether an entry with the given modification time changed after
/// `since`.
pub fn has_changed(since: Timestamp, modified: Option<Timestamp>) -> (r: bool)
    ensures
        r == newer(modified, since),
{
    match modified {
        Some(t) => t.is_after(&since),
        None => false,
    }
}

/// The later of two instants is no earlier than either of them.
pub proof fn lemma_later_of_bounds(a: Timestamp, b: Timestamp)
    ensures
        later_of(a, b).at() >= a.at(),
        later_of(a, b).at() >= b.at(),
        later_of(a, b) == a || later_of(a, b) == b,
{
}

/// Equal timestamps are not newer than each other, and a later baseline
/// never reports more than an earlier one.
pub proof fn lemma_newer_is_strict(modified: Option<Timestamp>, since: Timestamp, later: Timestamp)
    ensures
        !newer(Some(since), since),
        newer(modified, later) && later.at() >= since.at() ==> newer(modified, since),
{
}

} // verus!
