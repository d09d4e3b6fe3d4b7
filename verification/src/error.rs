//! The failure that every operation of this library reports.

use vstd::prelude::*;
use vstd::string::*;

verus! {

/// A failed operation, with a description of what went wrong.
#[derive(Debug, Clone)]
pub struct TalonError(pub String);

impl TalonError {
    /// The description that this error carries.
    pub open spec fn message(&self) -> Seq<char> {
        self.0@
    }

    /// An error that carries `msg`.
    pub fn new(msg: &str) -> (e: TalonError)
        ensures
            e.message() == msg@,
    {
        TalonError(String::from_str(msg))
    }

    /// What is shown of this error: the crate's prefix, then the description.
    pub open spec fn shown(&self) -> Seq<char> {
        "TalonError: "@ + self.0@
    }

    /// Renders this error for display.
    pub fn to_string(&self) -> (s: String)
        ensures
            s@ == self.shown(),
    {
        let mut s = String::from_str("TalonError: ");
        s.append(self.0.as_str());
        s
    }
}

} // verus!
