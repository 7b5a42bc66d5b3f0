//! Configuration errors.

use vstd::prelude::*;

verus! {

/// What can be wrong with a configuration.
#[derive(Debug, PartialEq, Eq)]
pub enum Error {
    /// A setting has a value that it cannot have.
    ParseError(String),
}

impl Error {
    /// What went wrong.
    pub open spec fn shown(&self) -> Seq<char> {
        match self {
            Error::ParseError(text) => text@,
        }
    }

    /// What went wrong.
    pub fn to_string(&self) -> (r: String)
        ensures
            r@ == self.shown(),
    {
        match self {
            Error::ParseError(text) => text.clone(),
        }
    }
}

} // verus!
