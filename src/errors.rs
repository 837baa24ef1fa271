//! The error that construction of a field element reports.
use vstd::prelude::*;

verus! {

/// A value outside the range that an operation accepts.
#[derive(Clone, Debug)]
pub struct ValueError {
    /// What went wrong, in words.
    pub message: String,
}

impl ValueError {
    /// The error as it is shown to a person: its message.
    pub fn to_string(&self) -> (r: String)
        ensures
            r@ == self.message@,
    {
        self.message.clone()
    }
}

} // verus!
