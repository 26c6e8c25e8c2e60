//! The panels of the application window.
use vstd::prelude::*;

verus! {

/// The panel the configuration side of the window shows.
#[derive(Debug, Clone, Copy, PartialEq, Eq, Structural)]
pub enum View {
    Configure,
    Settings,
    About,
}

impl Default for View {
    fn default() -> (r: Self)
        ensures
            r == View::Configure,
    {
        View::Configure
    }
}

} // verus!
