//! A small counter record, kept alongside the academic-credit engine as
//! in the original deployment.

use vstd::prelude::*;

verus! {

/// A counter record owned by whoever created it.
#[derive(Clone, Copy, Debug, PartialEq, Eq, Structural)]
pub struct Eduapp {
    pub count: u8,
}

impl Eduapp {
    /// A fresh counter record; the store zeroes new records.
    pub fn initialize() -> (r: Eduapp)
        ensures
            r.count == 0,
    {
        Eduapp { count: 0 }
    }

    /// Increase the counter by one; the caller rules out wrap-around.
    pub fn increment(&mut self)
        requires
            old(self).count < u8::MAX,
        ensures
            final(self).count == old(self).count + 1,
    {
        self.count = self.count + 1;
    }

    /// Decrease the counter by one; the caller rules out wrap-around.
    pub fn decrement(&mut self)
        requires
            old(self).count > 0,
        ensures
            final(self).count == old(self).count - 1,
    {
        self.count = self.count - 1;
    }

    /// Set the counter to `value`.
    pub fn set(&mut self, value: u8)
        ensures
            final(self).count == value,
    {
        self.count = value;
    }

    /// Close the record, dropping its state.
    pub fn close(self) {
    }
}

} // verus!
