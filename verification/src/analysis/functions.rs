//! What an asynchronous function needs besides its parameters.

use crate::library;
use crate::text;
use vstd::prelude::*;

verus! {

/// The C callback through which an asynchronous function hands back its result.
#[derive(Debug, PartialEq, Eq)]
pub struct AsyncTrampoline {
    /// Whether the finishing function is a method, and so takes the source object.
    pub is_method: bool,
    /// The name of the callback.
    pub name: String,
    /// The C function that finishes the operation.
    pub finish_func_name: String,
    /// The Rust type of the closure that gets the result.
    pub callback_type: String,
    /// The parameters of the finishing function.
    pub output_params: Vec<library::Parameter>,
    /// The index of an output parameter that is no part of the result, such as
    /// one that only holds the length of an array.
    pub index_to_ignore: Option<usize>,
}

/// The model of an [`AsyncTrampoline`].
pub struct AsyncTrampolineView {
    pub is_method: bool,
    pub name: Seq<char>,
    pub finish_func_name: Seq<char>,
    pub callback_type: Seq<char>,
    pub output_params: Seq<library::ParameterView>,
    pub index_to_ignore: Option<usize>,
}

impl View for AsyncTrampoline {
    type V = AsyncTrampolineView;

    open spec fn view(&self) -> AsyncTrampolineView {
        AsyncTrampolineView {
            is_method: self.is_method,
            name: self.name@,
            finish_func_name: self.finish_func_name@,
            callback_type: self.callback_type@,
            output_params: text::views(self.output_params@),
            index_to_ignore: self.index_to_ignore,
        }
    }
}

impl Clone for AsyncTrampoline {
    fn clone(&self) -> (r: AsyncTrampoline)
        ensures
            r@ == self@,
    {
        let output_params = self.output_params.clone();
        assert(text::views(output_params@) =~= text::views(self.output_params@));
        AsyncTrampoline {
            is_method: self.is_method,
            name: self.name.clone(),
            finish_func_name: self.finish_func_name.clone(),
            callback_type: self.callback_type.clone(),
            output_params,
            index_to_ignore: self.index_to_ignore,
        }
    }
}

} // verus!
