//! Why ripping a module went wrong.
use vstd::prelude::*;

verus! {

/// A module whose ripping went wrong, and why.
pub struct Extraction {
    path: String,
    reason: Reason,
}

/// Why ripping a module went wrong.
pub enum Reason {
    /// A module could not be ripped due to a single reason
    Single(),
    /// Some or none of the samples could not be ripped
    Multiple,
}

impl Extraction {
    /// A record of the module at `path` and why its ripping went wrong.
    pub fn new(path: String, reason: Reason) -> (r: Self)
        ensures
            r.path() == path@,
            r.reason() == reason,
    {
        Extraction { path, reason }
    }

    /// The path of the module.
    pub closed spec fn path(&self) -> Seq<char> {
        self.path@
    }

    /// Why its ripping went wrong.
    pub closed spec fn reason(&self) -> Reason {
        self.reason
    }
}

} // verus!
