//! A countdown timer, decremented at 60 Hz by its owner.

use vstd::prelude::*;

verus! {

/// An 8-bit countdown timer.
pub struct Timer {
    time: u8,
}

impl View for Timer {
    type V = u8;

    closed spec fn view(&self) -> u8 {
        self.time
    }
}

impl Timer {
    /// A timer at zero.
    pub fn new() -> (t: Self)
        ensures
            t@ == 0,
    {
        Timer { time: 0 }
    }

    /// Sets the timer to `time`.
    pub fn set(&mut self, time: u8)
        ensures
            final(self)@ == time,
    {
        self.time = time;
    }

    /// The value of the timer.
    pub fn get(&self) -> (t: u8)
        ensures
            t == self@,
    {
        self.time
    }

    /// Counts down by one, stopping at zero.
    pub fn tick(&mut self)
        ensures
            final(self)@ == (if old(self)@ > 0 { (old(self)@ - 1) as u8 } else { 0u8 }),
    {
        if self.time > 0 {
            self.time -= 1;
        }
    }
}

} // verus!
