//! The network layer that leaves a stream as it is.
use vstd::prelude::*;

verus! {

/// A network layer that hands a stream on unchanged.
pub struct NoneNetwork;

impl NoneNetwork {
    /// The layer's name.
    pub fn name(&self) -> (s: &'static str)
        ensures
            s@ == "NoneNetwork"@,
    {
        "NoneNetwork"
    }
}

} // verus!
