//! The security layer that leaves a stream as it is.
use vstd::prelude::*;

verus! {

/// A security layer that hands a stream on unchanged.
pub struct NoneSecurity;

impl NoneSecurity {
    /// The layer's name.
    pub fn name(&self) -> (s: &'static str)
        ensures
            s@ == "NoneSecurity"@,
    {
        "NoneSecurity"
    }
}

} // verus!
