//! The parameters of a C function, and what becomes of each in the wrapper.

use crate::library::{Transfer, TypeId};
use vstd::prelude::*;

verus! {

/// A parameter of the C function.
#[derive(Debug, PartialEq, Eq)]
pub struct CParameter {
    pub name: String,
    pub typ: TypeId,
    pub transfer: Transfer,
    pub caller_allocates: bool,
    /// Whether the parameter is where the function stores its error.
    pub is_error: bool,
}

/// The model of a [`CParameter`].
pub struct CParameterView {
    pub name: Seq<char>,
    pub typ: TypeId,
    pub transfer: Transfer,
    pub caller_allocates: bool,
    pub is_error: bool,
}

impl View for CParameter {
    type V = CParameterView;

    open spec fn view(&self) -> CParameterView {
        CParameterView {
            name: self.name@,
            typ: self.typ,
            transfer: self.transfer,
            caller_allocates: self.caller_allocates,
            is_error: self.is_error,
        }
    }
}

/// What is done to a parameter before or in the call.
#[derive(Debug, PartialEq, Eq)]
pub enum TransformationType {
    /// The argument is converted with `into`, and where it must outlive the
    /// call also stashed for C.
    Into { name: String, with_stash: bool },
    /// The parameter is the length of an array, and is computed from it.
    Length { array_name: String, array_length_name: String, array_length_type: String },
    /// Any other transformation, by its text.
    Other(String),
}

/// The model of a [`TransformationType`].
pub enum TransformationTypeView {
    Into { name: Seq<char>, with_stash: bool },
    Length { array_name: Seq<char>, array_length_name: Seq<char>, array_length_type: Seq<char> },
    Other(Seq<char>),
}

impl View for TransformationType {
    type V = TransformationTypeView;

    open spec fn view(&self) -> TransformationTypeView {
        match *self {
            TransformationType::Into { name, with_stash } => TransformationTypeView::Into {
                name: name@,
                with_stash,
            },
            TransformationType::Length { array_name, array_length_name, array_length_type } =>
                TransformationTypeView::Length {
                array_name: array_name@,
                array_length_name: array_length_name@,
                array_length_type: array_length_type@,
            },
            TransformationType::Other(text) => TransformationTypeView::Other(text@),
        }
    }
}

impl Clone for TransformationType {
    fn clone(&self) -> (r: TransformationType)
        ensures
            r@ == self@,
    {
        match self {
            TransformationType::Into { name, with_stash } => TransformationType::Into {
                name: name.clone(),
                with_stash: *with_stash,
            },
            TransformationType::Length { array_name, array_length_name, array_length_type } =>
                TransformationType::Length {
                array_name: array_name.clone(),
                array_length_name: array_length_name.clone(),
                array_length_type: array_length_type.clone(),
            },
            TransformationType::Other(text) => TransformationType::Other(text.clone()),
        }
    }
}

/// A transformation of one parameter of the C function.
#[derive(Debug, PartialEq, Eq)]
pub struct Transformation {
    /// The index of the parameter among those of the C function.
    pub ind_c: usize,
    pub transformation_type: TransformationType,
    /// Whether the transformation yields an argument of the C call.
    pub is_to_glib: bool,
}

/// The model of a [`Transformation`].
pub struct TransformationView {
    pub ind_c: usize,
    pub transformation_type: TransformationTypeView,
    pub is_to_glib: bool,
}

impl View for Transformation {
    type V = TransformationView;

    open spec fn view(&self) -> TransformationView {
        TransformationView {
            ind_c: self.ind_c,
            transformation_type: self.transformation_type@,
            is_to_glib: self.is_to_glib,
        }
    }
}

impl Clone for Transformation {
    fn clone(&self) -> (r: Transformation)
        ensures
            r@ == self@,
    {
        Transformation {
            ind_c: self.ind_c,
            transformation_type: self.transformation_type.clone(),
            is_to_glib: self.is_to_glib,
        }
    }
}

} // verus!
