//! A value in a box.

use vstd::prelude::*;

verus! {

/// A value in a box.
#[derive(Debug, Default)]
pub struct Data {
    pub value: u32,
}

impl Data {
    /// Puts a value in a box.
    pub fn new(value: u32) -> (r: Self)
        ensures
            r.value == value,
    {
        Data { value }
    }
}

} // verus!
