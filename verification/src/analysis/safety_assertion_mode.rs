//! Which safety assertion a wrapper starts with.

use vstd::prelude::*;

verus! {

/// The assertion at the head of a wrapper's body.
#[derive(Clone, Copy, Debug, PartialEq, Eq, Structural)]
pub enum SafetyAssertionMode {
    /// No assertion.
    Absent,
    /// The check that the library is initialized is skipped.
    Skip,
    /// The library must be initialized, and the caller be on its main thread.
    InMainThread,
}

impl Default for SafetyAssertionMode {
    fn default() -> (r: SafetyAssertionMode)
        ensures
            r == SafetyAssertionMode::Absent,
    {
        SafetyAssertionMode::Absent
    }
}

} // verus!
