//! The clock that stamps quotes, with the record of every reading it gave.
use vstd::prelude::*;

use crate::generator::{time_now, GeneratorError};

verus! {

/// The system clock as the generator reads it. It keeps, as ghost state, every
/// reading it has given, in order; only `read` adds to that record.
pub struct Clock {
    readings: Ghost<Seq<u128>>,
}

impl Clock {
    /// The readings this clock has given so far, in the order they were taken.
    pub closed spec fn readings(&self) -> Seq<u128> {
        self.readings@
    }

    /// A clock that has given no reading yet.
    pub fn new() -> (c: Clock)
        ensures
            c.readings() == Seq::<u128>::empty(),
    {
        Clock { readings: Ghost(Seq::empty()) }
    }

    /// Reads the system clock in milliseconds since the Unix epoch. A reading
    /// joins the record; `TimeError` when the clock reads before the epoch,
    /// and then the record is unchanged.
    pub fn read(&mut self) -> (r: Result<u128, GeneratorError>)
        ensures
            match r {
                Ok(t) => final(self).readings() == old(self).readings().push(t),
                Err(e) => e == GeneratorError::TimeError && final(self).readings() == old(self).readings(),
            },
    {
        let r = time_now();
        match r {
            Ok(t) => {
                self.readings = Ghost(self.readings@.push(t));
                Ok(t)
            },
            Err(e) => Err(e),
        }
    }
}

} // verus!
