//! The conversion of a value that comes from C.

use crate::chunk::parameter_ffi_call_out;
use crate::library::{Transfer, TypeId};
use vstd::prelude::*;

verus! {

/// What decides how a value from C is converted.
#[derive(Clone, Copy, Debug, PartialEq, Eq, Structural)]
pub struct Mode {
    pub typ: TypeId,
    pub transfer: Transfer,
}

impl Mode {
    /// The conversion of an out parameter, by its type and transfer.
    pub fn of_out_parameter(parameter: &parameter_ffi_call_out::Parameter) -> (r: Mode)
        ensures
            r == parameter@.mode(),
    {
        Mode { typ: parameter.typ, transfer: parameter.transfer }
    }
}

} // verus!
