//! The cooperative shutdown signal polled by every long-running loop.

use vstd::prelude::*;

verus! {

/// A one-way flag: any holder may trip it, nobody can clear it again.
#[derive(Debug)]
pub struct Fuse {
    tripped: bool,
}

impl Fuse {
    /// Whether the fuse has been tripped.
    pub closed spec fn tripped(&self) -> bool {
        self.tripped
    }

    /// The fuse as it is after a call of [`Fuse::trip`].
    pub closed spec fn after_trip(&self) -> Fuse {
        Fuse { tripped: true }
    }

    /// A fresh fuse, not tripped.
    pub fn new() -> (fuse: Fuse)
        ensures
            !fuse.tripped(),
    {
        Fuse { tripped: false }
    }

    /// Trips the fuse. Tripping a tripped fuse changes nothing.
    pub fn trip(&mut self)
        ensures
            *final(self) == old(self).after_trip(),
            final(self).tripped(),
            old(self).tripped() ==> *final(self) == *old(self),
    {
        self.tripped = true;
    }

    /// Reads the flag.
    pub fn is_tripped(&self) -> (b: bool)
        ensures
            b == self.tripped(),
    {
        self.tripped
    }

    /// A tripped fuse stays tripped, and a second trip is a no-op.
    pub proof fn lemma_trip_is_final(fuse: Fuse)
        ensures
            fuse.after_trip().tripped(),
            fuse.after_trip().after_trip() == fuse.after_trip(),
            fuse.tripped() ==> fuse.after_trip() == fuse,
    {
    }
}

} // verus!
