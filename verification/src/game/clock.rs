//! The game's clock: nanoseconds since the game began, with a ghost record of
//! every reading taken.

use vstd::prelude::*;

use crate::game::engine::{nanos_since, now};

verus! {

/// A clock that counts from the moment it was started and keeps, as a ghost
/// record, every reading taken of it, in order; only its own readings extend
/// the record.
pub struct Clock {
    epoch: tokio::time::Instant,
    taken: Ghost<Seq<u64>>,
}

impl Clock {
    /// The readings taken so far, oldest first.
    pub closed spec fn readings(&self) -> Seq<u64> {
        self.taken@
    }

    /// A clock that starts now, with no reading taken.
    pub fn start() -> (c: Clock)
        ensures
            c.readings() == Seq::<u64>::empty(),
    {
        Clock { epoch: now(), taken: Ghost(Seq::empty()) }
    }

    /// The nanoseconds since the clock started, read with `nanos_since` and
    /// recorded.
    pub fn read(&mut self) -> (t: u64)
        ensures
            final(self).readings() == old(self).readings().push(t),
    {
        let t = nanos_since(&self.epoch);
        self.taken = Ghost(self.taken@.push(t));
        t
    }
}

} // verus!
