//! What a GObject introspection library records of its types and parameters.

use vstd::prelude::*;

verus! {

/// The number of a namespace.
pub type NsId = u16;

/// The number of a type, within its namespace.
#[derive(Clone, Copy, Debug, PartialEq, Eq, Structural)]
pub struct TypeId {
    pub ns_id: NsId,
    pub id: u32,
}

/// What passes to the receiver of a value.
#[derive(Clone, Copy, Debug, PartialEq, Eq, Structural)]
pub enum Transfer {
    Nothing,
    Container,
    Full,
}

/// Which way a parameter carries its value.
#[derive(Clone, Copy, Debug, PartialEq, Eq, Structural)]
pub enum ParameterDirection {
    In,
    Out,
    InOut,
    Return,
}

/// The fundamental types, told apart as far as the generator does.
#[derive(Clone, Copy, Debug, PartialEq, Eq, Structural)]
pub enum Fundamental {
    Utf8,
    Filename,
    Other,
}

/// The types, told apart as far as the generator does.
#[derive(Clone, Copy, Debug, PartialEq, Eq, Structural)]
pub enum Type {
    Fundamental(Fundamental),
    Other,
}

/// A parameter, as the library records it.
#[derive(Debug, PartialEq, Eq)]
pub struct Parameter {
    pub name: String,
    pub typ: TypeId,
    pub direction: ParameterDirection,
    pub transfer: Transfer,
    pub caller_allocates: bool,
    /// For an array, the index of the parameter that holds its length.
    pub array_length: Option<u32>,
}

/// The model of a [`Parameter`].
pub struct ParameterView {
    pub name: Seq<char>,
    pub typ: TypeId,
    pub direction: ParameterDirection,
    pub transfer: Transfer,
    pub caller_allocates: bool,
    pub array_length: Option<u32>,
}

impl View for Parameter {
    type V = ParameterView;

    open spec fn view(&self) -> ParameterView {
        ParameterView {
            name: self.name@,
            typ: self.typ,
            direction: self.direction,
            transfer: self.transfer,
            caller_allocates: self.caller_allocates,
            array_length: self.array_length,
        }
    }
}

impl Clone for Parameter {
    fn clone(&self) -> (r: Parameter)
        ensures
            r@ == self@,
    {
        Parameter {
            name: self.name.clone(),
            typ: self.typ,
            direction: self.direction,
            transfer: self.transfer,
            caller_allocates: self.caller_allocates,
            array_length: self.array_length,
        }
    }
}

} // verus!
