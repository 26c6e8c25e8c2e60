//! The pages of the first version of the application window.
use vstd::prelude::*;

verus! {

/// The page the window shows.
#[derive(Debug, Clone, Copy, PartialEq, Eq, Structural)]
pub enum View {
    Configure,
    Settings,
    About,
    Help,
}

impl Default for View {
    fn default() -> (r: Self)
        ensures
            r == View::Configure,
    {
        View::Configure
    }
}

} // verus!
