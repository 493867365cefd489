//! What is known of a function's return value.

use crate::library;
use crate::text;
use vstd::prelude::*;

verus! {

/// The return value of a function. The builder of a function body carries it
/// unread into the conversion of the call.
#[derive(Debug, PartialEq, Eq)]
pub struct Info {
    /// The value, where the function returns one.
    pub parameter: Option<library::Parameter>,
    /// The type to which the value is cast down, where it has to be.
    pub base_tid: Option<library::TypeId>,
    /// Whether the value makes the wrapper come out commented.
    pub commented: bool,
}

/// The model of an [`Info`].
pub struct InfoView {
    pub parameter: Option<library::ParameterView>,
    pub base_tid: Option<library::TypeId>,
    pub commented: bool,
}

impl InfoView {
    /// A function that returns nothing.
    pub open spec fn nothing() -> InfoView {
        InfoView { parameter: None, base_tid: None, commented: false }
    }
}

impl View for Info {
    type V = InfoView;

    open spec fn view(&self) -> InfoView {
        InfoView {
            parameter: text::option_view(self.parameter),
            base_tid: self.base_tid,
            commented: self.commented,
        }
    }
}

impl Clone for Info {
    fn clone(&self) -> (r: Info)
        ensures
            r@ == self@,
    {
        let parameter = match &self.parameter {
            Some(parameter) => Some(parameter.clone()),
            None => None,
        };
        Info { parameter, base_tid: self.base_tid, commented: self.commented }
    }
}

impl Default for Info {
    fn default() -> (r: Info)
        ensures
            r@ == InfoView::nothing(),
    {
        Info { parameter: None, base_tid: None, commented: false }
    }
}

} // verus!
