//! Out parameters of a C call.

use crate::analysis::function_parameters::{CParameter, CParameterView};
use crate::chunk::conversion_from_glib::Mode;
use crate::library::{Transfer, TypeId};
use vstd::prelude::*;

verus! {

/// An out parameter, as it stands in the C call.
#[derive(Debug, PartialEq, Eq)]
pub struct Parameter {
    pub name: String,
    pub typ: TypeId,
    pub transfer: Transfer,
    pub caller_allocates: bool,
    pub is_error: bool,
}

/// The model of a [`Parameter`].
pub struct ParameterView {
    pub name: Seq<char>,
    pub typ: TypeId,
    pub transfer: Transfer,
    pub caller_allocates: bool,
    pub is_error: bool,
}

impl ParameterView {
    /// The out parameter that a parameter of the C function becomes.
    pub open spec fn of(parameter: CParameterView) -> ParameterView {
        ParameterView {
            name: parameter.name,
            typ: parameter.typ,
            transfer: parameter.transfer,
            caller_allocates: parameter.caller_allocates,
            is_error: parameter.is_error,
        }
    }

    /// How the value of the parameter is converted.
    pub open spec fn mode(self) -> Mode {
        Mode { typ: self.typ, transfer: self.transfer }
    }
}

impl View for Parameter {
    type V = ParameterView;

    open spec fn view(&self) -> ParameterView {
        ParameterView {
            name: self.name@,
            typ: self.typ,
            transfer: self.transfer,
            caller_allocates: self.caller_allocates,
            is_error: self.is_error,
        }
    }
}

impl Parameter {
    /// The out parameter that `orig` becomes.
    pub fn new(orig: &CParameter) -> (r: Parameter)
        ensures
            r@ == ParameterView::of(orig@),
    {
        Parameter {
            name: orig.name.clone(),
            typ: orig.typ,
            transfer: orig.transfer,
            caller_allocates: orig.caller_allocates,
            is_error: orig.is_error,
        }
    }
}

impl Clone for Parameter {
    fn clone(&self) -> (r: Parameter)
        ensures
            r@ == self@,
    {
        Parameter {
            name: self.name.clone(),
            typ: self.typ,
            transfer: self.transfer,
            caller_allocates: self.caller_allocates,
            is_error: self.is_error,
        }
    }
}

} // verus!
