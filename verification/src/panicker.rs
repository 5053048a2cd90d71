//! A stage that stops its pipeline after a given number of frames.

use vstd::prelude::*;

verus! {

/// Counts frames down. The frame on which the count reaches zero is the one on
/// which the pipeline is to be stopped.
pub struct Panicker {
    countdown: u64,
}

impl Panicker {
    /// The number of frames that are still to pass.
    pub closed spec fn countdown(&self) -> u64 {
        self.countdown
    }

    /// A stage that stops its pipeline on frame number `countdown`, counting
    /// from one.
    pub fn new(countdown: u64) -> (panicker: Self)
        ensures
            panicker.countdown() == countdown,
    {
        Self { countdown }
    }

    /// The number of frames that are still to pass.
    pub fn remaining(&self) -> (countdown: u64)
        ensures
            countdown == self.countdown(),
    {
        self.countdown
    }

    /// Counts one frame, and says whether the pipeline is to be stopped on it.
    pub fn process(&mut self) -> (expired: bool)
        requires
            old(self).countdown() > 0,
        ensures
            final(self).countdown() == old(self).countdown() - 1,
            expired == (final(self).countdown() == 0),
    {
        self.countdown = self.countdown - 1;
        self.countdown == 0
    }
}

} // verus!
