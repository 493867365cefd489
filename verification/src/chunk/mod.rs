//! The tree from which the text of a wrapper is written.

use crate::analysis::function_parameters::{TransformationType, TransformationTypeView};
use crate::analysis::return_value;
use crate::text;
use vstd::prelude::*;

pub mod conversion_from_glib;
pub mod parameter_ffi_call_out;

verus! {

/// How a tuple is written.
#[derive(Clone, Copy, Debug, PartialEq, Eq, Structural)]
pub enum TupleMode {
    /// Nothing for no element, the bare element for one.
    Auto,
    /// The unit for no element, the bare element for one.
    WithUnit,
}

/// A piece of the text of a wrapper.
#[derive(Debug, PartialEq, Eq)]
pub enum Chunk {
    /// A block whose opening bracket is written elsewhere.
    BlockHalf(Vec<Chunk>),
    /// An unsafe block.
    Unsafe(Vec<Chunk>),
    /// A call of a C function.
    FfiCall { name: String, params: Vec<Chunk> },
    /// An argument of a C call.
    FfiCallParameter { transformation_type: TransformationType },
    /// An out argument of a C call.
    FfiCallOutParameter { par: parameter_ffi_call_out::Parameter },
    /// A C call whose return value is converted.
    FfiCallConversion {
        ret: return_value::Info,
        array_length_name: Option<String>,
        call: Box<Chunk>,
    },
    /// A binding.
    Let { name: String, is_mut: bool, value: Box<Chunk>, type_: Option<Box<Chunk>> },
    /// A value yet to be written.
    Uninitialized,
    /// A value of a named type yet to be written.
    UninitializedNamed { name: String },
    /// A null pointer.
    NullPtr,
    /// A mutable null pointer.
    NullMutPtr,
    /// Text as it stands.
    Custom(String),
    /// A tuple.
    Tuple(Vec<Chunk>, TupleMode),
    /// A value from C, converted.
    FromGlibConversion {
        mode: conversion_from_glib::Mode,
        array_length_name: Option<String>,
        value: Box<Chunk>,
    },
    /// The value where the condition holds, nothing otherwise.
    OptionalReturn { condition: String, value: Box<Chunk> },
    /// The value where no error was set, the error otherwise.
    ErrorResultReturn { value: Box<Chunk> },
    /// The check that the library is initialized, on its main thread.
    AssertInitializedAndInMainThread,
    /// The note that no initialization is asked for.
    AssertSkipInitialized,
    /// A new object of a type.
    New { name: String },
    /// A closure of a type, boxed.
    BoxFn { typ: String },
    /// A name.
    Name(String),
}

/// The model of a [`Chunk`].
pub enum ChunkView {
    BlockHalf(Seq<ChunkView>),
    Unsafe(Seq<ChunkView>),
    FfiCall { name: Seq<char>, params: Seq<ChunkView> },
    FfiCallParameter { transformation_type: TransformationTypeView },
    FfiCallOutParameter { par: parameter_ffi_call_out::ParameterView },
    FfiCallConversion {
        ret: return_value::InfoView,
        array_length_name: Option<Seq<char>>,
        call: Box<ChunkView>,
    },
    Let { name: Seq<char>, is_mut: bool, value: Box<ChunkView>, type_: Option<Box<ChunkView>> },
    Uninitialized,
    UninitializedNamed { name: Seq<char> },
    NullPtr,
    NullMutPtr,
    Custom(Seq<char>),
    Tuple(Seq<ChunkView>, TupleMode),
    FromGlibConversion {
        mode: conversion_from_glib::Mode,
        array_length_name: Option<Seq<char>>,
        value: Box<ChunkView>,
    },
    OptionalReturn { condition: Seq<char>, value: Box<ChunkView> },
    ErrorResultReturn { value: Box<ChunkView> },
    AssertInitializedAndInMainThread,
    AssertSkipInitialized,
    New { name: Seq<char> },
    BoxFn { typ: Seq<char> },
    Name(Seq<char>),
}

impl ChunkView {
    /// The binding of `name` to `value`, its type left to be inferred.
    pub open spec fn binding(name: Seq<char>, is_mut: bool, value: ChunkView) -> ChunkView {
        ChunkView::Let { name, is_mut, value: Box::new(value), type_: None }
    }
}

impl Chunk {
    /// What the chunk stands for.
    pub open spec fn model(self) -> ChunkView
        decreases self,
    {
        match self {
            Chunk::BlockHalf(chunks) => ChunkView::BlockHalf(Chunk::models(chunks@)),
            Chunk::Unsafe(chunks) => ChunkView::Unsafe(Chunk::models(chunks@)),
            Chunk::FfiCall { name, params } => ChunkView::FfiCall {
                name: name@,
                params: Chunk::models(params@),
            },
            Chunk::FfiCallParameter { transformation_type } => ChunkView::FfiCallParameter {
                transformation_type: transformation_type@,
            },
            Chunk::FfiCallOutParameter { par } => ChunkView::FfiCallOutParameter { par: par@ },
            Chunk::FfiCallConversion { ret, array_length_name, call } =>
                ChunkView::FfiCallConversion {
                ret: ret@,
                array_length_name: text::option_view(array_length_name),
                call: Box::new(call.model()),
            },
            Chunk::Let { name, is_mut, value, type_ } => ChunkView::Let {
                name: name@,
                is_mut,
                value: Box::new(value.model()),
                type_: match type_ {
                    Some(chunk) => Some(Box::new(chunk.model())),
                    None => None,
                },
            },
            Chunk::Uninitialized => ChunkView::Uninitialized,
            Chunk::UninitializedNamed { name } => ChunkView::UninitializedNamed { name: name@ },
            Chunk::NullPtr => ChunkView::NullPtr,
            Chunk::NullMutPtr => ChunkView::NullMutPtr,
            Chunk::Custom(text) => ChunkView::Custom(text@),
            Chunk::Tuple(chunks, mode) => ChunkView::Tuple(Chunk::models(chunks@), mode),
            Chunk::FromGlibConversion { mode, array_length_name, value } =>
                ChunkView::FromGlibConversion {
                mode,
                array_length_name: text::option_view(array_length_name),
                value: Box::new(value.model()),
            },
            Chunk::OptionalReturn { condition, value } => ChunkView::OptionalReturn {
                condition: condition@,
                value: Box::new(value.model()),
            },
            Chunk::ErrorResultReturn { value } => ChunkView::ErrorResultReturn {
                value: Box::new(value.model()),
            },
            Chunk::AssertInitializedAndInMainThread => ChunkView::AssertInitializedAndInMainThread,
            Chunk::AssertSkipInitialized => ChunkView::AssertSkipInitialized,
            Chunk::New { name } => ChunkView::New { name: name@ },
            Chunk::BoxFn { typ } => ChunkView::BoxFn { typ: typ@ },
            Chunk::Name(name) => ChunkView::Name(name@),
        }
    }

    /// What each chunk of a sequence stands for, in order.
    pub open spec fn models(chunks: Seq<Chunk>) -> Seq<ChunkView>
        decreases chunks,
    {
        Seq::new(
            chunks.len(),
            |i: int|
                if 0 <= i < chunks.len() {
                    chunks[i].model()
                } else {
                    ChunkView::Uninitialized
                },
        )
    }
}

impl Chunk {
    /// The binding of `name` to `value`, its type left to be inferred.
    pub fn binding(name: String, is_mut: bool, value: Chunk) -> (r: Chunk)
        ensures
            r@ == ChunkView::binding(name@, is_mut, value@),
    {
        Chunk::Let { name, is_mut, value: Box::new(value), type_: None }
    }
}

/// The model of a sequence of chunks, element by element.
pub proof fn lemma_models(chunks: Seq<Chunk>)
    ensures
        Chunk::models(chunks).len() == chunks.len(),
        forall|i: int|
            0 <= i < chunks.len() ==> #[trigger] Chunk::models(chunks)[i] == chunks[i]@,
{
}

/// The model of a sequence with one chunk more.
pub proof fn lemma_models_push(chunks: Seq<Chunk>, chunk: Chunk)
    ensures
        Chunk::models(chunks.push(chunk)) == Chunk::models(chunks).push(chunk@),
{
    lemma_models(chunks);
    lemma_models(chunks.push(chunk));
    assert(Chunk::models(chunks.push(chunk)) =~= Chunk::models(chunks).push(chunk@));
}

/// The model of a sequence with one chunk put in front.
pub proof fn lemma_models_insert_first(chunks: Seq<Chunk>, chunk: Chunk)
    ensures
        Chunk::models(chunks.insert(0, chunk)) == seq![chunk@] + Chunk::models(chunks),
{
    lemma_models(chunks);
    lemma_models(chunks.insert(0, chunk));
    assert(Chunk::models(chunks.insert(0, chunk)) =~= seq![chunk@] + Chunk::models(chunks));
}

impl View for Chunk {
    type V = ChunkView;

    open spec fn view(&self) -> ChunkView {
        self.model()
    }
}

} // verus!
