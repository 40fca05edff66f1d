//! A cell whose reads and writes go straight to the value it holds.

use vstd::prelude::*;

verus! {

/// A cell over device-visible memory. Every read yields the value last written.
#[derive(Debug)]
pub struct VolatileCell<T> {
    value: T,
}

impl<T> View for VolatileCell<T> {
    type V = T;

    closed spec fn view(&self) -> T {
        self.value
    }
}

impl<T: Copy> VolatileCell<T> {
    /// A cell that holds `value`.
    pub fn new(value: T) -> (c: Self)
        ensures
            c@ == value,
    {
        VolatileCell { value }
    }

    /// Reads the value held.
    pub fn read(&self) -> (v: T)
        ensures
            v == self@,
    {
        self.value
    }

    /// Replaces the value held.
    pub fn write(&mut self, value: T)
        ensures
            final(self)@ == value,
    {
        self.value = value;
    }
}

} // verus!
