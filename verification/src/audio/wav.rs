//! Audio errors.
use vstd::prelude::*;

verus! {

#[derive(Debug, Clone, PartialEq, Eq)]
pub struct AudioError(pub String);

impl AudioError {
    /// The error's text, as it is shown.
    pub fn message(&self) -> (res: String)
        ensures
            res@ == self.0@,
    {
        self.0.clone()
    }
}

} // verus!
