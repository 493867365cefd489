//! How the out parameters of a function come back to the caller.

use vstd::prelude::*;

verus! {

/// What the wrapper makes of the out parameters and the return value.
#[derive(Clone, Copy, Debug, PartialEq, Eq, Structural)]
pub enum Mode {
    /// The call stands as it is. Out parameters, if any, are handed back after it.
    NoOuts,
    /// The same, for functions that are known to have out parameters.
    Normal,
    /// The out parameters are handed back if the return value says so.
    Optional,
    /// The return value comes back together with the out parameters.
    Combined,
    /// The out parameters come back unless an error was set. The flag says
    /// whether the return value comes with them.
    Throws(bool),
}

impl Default for Mode {
    fn default() -> (r: Mode)
        ensures
            r == Mode::NoOuts,
    {
        Mode::NoOuts
    }
}

} // verus!
