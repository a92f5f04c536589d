//! Yank registers.
use vstd::prelude::*;

verus! {

/// The registers that yanks and deletes fill and pastes read.
pub struct Registers {
    pub unnamed: String,
}

impl Registers {
    /// Empty registers.
    pub fn new() -> (r: Self)
        ensures
            r.unnamed@ == Seq::<char>::empty(),
    {
        Registers { unnamed: String::new() }
    }
}

} // verus!
