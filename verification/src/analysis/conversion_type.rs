//! How a value passes between C and Rust.

use vstd::prelude::*;

verus! {

/// The ways of conversion, told apart as far as the generator does.
#[derive(Clone, Copy, Debug, PartialEq, Eq, Structural)]
pub enum ConversionType {
    /// The C side holds a pointer.
    Pointer,
    /// Every other way.
    Other,
}

} // verus!
