//! What the body of a wrapper consists of, as a function of what its builder
//! has collected and of the resolved environment.

use crate::analysis::conversion_type::ConversionType;
use crate::analysis::function_parameters::{
    CParameterView, TransformationTypeView, TransformationView,
};
use crate::analysis::functions::AsyncTrampolineView;
use crate::analysis::out_parameters::Mode;
use crate::analysis::return_value::InfoView;
use crate::analysis::safety_assertion_mode::SafetyAssertionMode;
use crate::chunk::conversion_from_glib;
use crate::chunk::parameter_ffi_call_out;
use crate::chunk::{ChunkView, TupleMode};
use crate::env::{EnvView, TranslationKeyView};
use crate::library;
use crate::library::{Fundamental, ParameterDirection, Transfer, Type, TypeId};
use crate::text;
use vstd::prelude::*;

verus! {

/// What an out variable holds before the call.
pub enum OutMemModeView {
    Uninitialized,
    UninitializedNamed(Seq<char>),
    NullPtr,
    NullMutPtr,
}

/// A parameter of the C function, as the builder keeps it.
pub enum ParameterView {
    In,
    Out { parameter: parameter_ffi_call_out::ParameterView, mem_mode: OutMemModeView },
}

/// What a builder has collected.
pub struct BuilderView {
    pub async_trampoline: Option<AsyncTrampolineView>,
    pub cancellable: bool,
    pub glib_name: Seq<char>,
    pub parameters: Seq<ParameterView>,
    pub transformations: Seq<TransformationView>,
    pub ret: InfoView,
    pub outs_as_return: bool,
    pub outs_mode: Mode,
    pub assertion: SafetyAssertionMode,
}

// ---- Out variables ----

/// Whether enough is known of a type to tell what an out variable of it holds
/// before the call: one that the caller allocates needs a Rust name.
pub open spec fn mem_mode_known(env: EnvView, typ: TypeId, caller_allocates: bool) -> bool {
    &&& env.types.contains_key(typ)
    &&& env.types[typ].conversion_type == ConversionType::Pointer && caller_allocates
        ==> env.types[typ].rust_type is Some
}

/// What an out variable holds before the call. Text that stays with the library
/// is behind a constant pointer.
pub open spec fn mem_mode(
    env: EnvView,
    typ: TypeId,
    caller_allocates: bool,
    transfer: Transfer,
) -> OutMemModeView {
    let info = env.types[typ];
    let is_text = info.type_ == Type::Fundamental(Fundamental::Utf8) || info.type_
        == Type::Fundamental(Fundamental::Filename);
    if info.conversion_type != ConversionType::Pointer {
        OutMemModeView::Uninitialized
    } else if caller_allocates {
        OutMemModeView::UninitializedNamed(info.rust_type->0)
    } else if is_text && transfer != Transfer::Full {
        OutMemModeView::NullPtr
    } else {
        OutMemModeView::NullMutPtr
    }
}

/// The expression that an out variable starts with, as a chunk.
pub open spec fn uninitialized(mem_mode: OutMemModeView) -> ChunkView {
    match mem_mode {
        OutMemModeView::Uninitialized => ChunkView::Uninitialized,
        OutMemModeView::UninitializedNamed(name) => ChunkView::UninitializedNamed { name },
        OutMemModeView::NullPtr => ChunkView::NullPtr,
        OutMemModeView::NullMutPtr => ChunkView::NullMutPtr,
    }
}

/// The expression that an out variable starts with, as text.
pub open spec fn mem_mode_text(mem_mode: OutMemModeView) -> Seq<char> {
    match mem_mode {
        OutMemModeView::Uninitialized => "mem::uninitialized()"@,
        OutMemModeView::UninitializedNamed(name) => name + "::uninitialized()"@,
        OutMemModeView::NullPtr => "ptr::null()"@,
        OutMemModeView::NullMutPtr => "ptr::null_mut()"@,
    }
}

/// An out parameter.
pub open spec fn out() -> spec_fn(ParameterView) -> Option<ParameterView> {
    |p: ParameterView|
        if p is Out {
            Some(p)
        } else {
            None
        }
}

/// An out parameter that is not the error.
pub open spec fn out_without_error() -> spec_fn(ParameterView) -> Option<ParameterView> {
    |p: ParameterView|
        match p {
            ParameterView::Out { parameter, .. } => if parameter.is_error {
                None
            } else {
                Some(p)
            },
            ParameterView::In => None,
        }
}

/// Whether an out parameter is not the error.
pub open spec fn not_error() -> spec_fn(ParameterView) -> bool {
    |p: ParameterView| !p->parameter.is_error
}

/// The declaration of the variable of an out parameter.
pub open spec fn out_variable() -> spec_fn(ParameterView) -> Option<ChunkView> {
    |p: ParameterView|
        match p {
            ParameterView::Out { parameter, mem_mode } => Some(
                ChunkView::binding(parameter.name, true, uninitialized(mem_mode)),
            ),
            ParameterView::In => None,
        }
}

/// What is left without the error is no error.
pub proof fn lemma_without_error(parameters: Seq<ParameterView>, i: int)
    requires
        0 <= i < parameters.filter_map(out_without_error()).len(),
    ensures
        parameters.filter_map(out_without_error())[i] is Out,
        !parameters.filter_map(out_without_error())[i]->parameter.is_error,
{
    let j = text::lemma_filter_map_source(parameters, out_without_error(), i);
    assert(out_without_error()(parameters[j]) is Some);
}

// ---- Transformations ----

/// The name of the length of the array `array_name`, as one transformation gives it.
pub open spec fn length_name_for(array_name: Seq<char>) -> spec_fn(TransformationView) -> Option<
    Seq<char>,
> {
    |t: TransformationView|
        match t.transformation_type {
            TransformationTypeView::Length { array_name: name, array_length_name, .. } => if name
                == array_name {
                Some(array_length_name)
            } else {
                None
            },
            _ => None,
        }
}

/// The name of the length of the array `array_name`: the first that is given.
pub open spec fn array_length_name(
    transformations: Seq<TransformationView>,
    array_name: Seq<char>,
) -> Option<Seq<char>> {
    let names = transformations.filter_map(length_name_for(array_name));
    if names.len() > 0 {
        Some(names[0])
    } else {
        None
    }
}

/// Whether `name` is the length of some array.
pub open spec fn is_array_length(
    transformations: Seq<TransformationView>,
    name: Seq<char>,
) -> bool {
    exists|i: int|
        0 <= i < transformations.len() && (#[trigger] transformations[i].transformation_type matches
            TransformationTypeView::Length { array_length_name, .. } && array_length_name == name)
}

/// Whether a transformation yields an argument of the C call.
pub open spec fn is_to_glib() -> spec_fn(TransformationView) -> bool {
    |t: TransformationView| t.is_to_glib
}

/// Whether a transformation converts an argument with `into`.
pub open spec fn is_into() -> spec_fn(TransformationView) -> bool {
    |t: TransformationView| t.transformation_type is Into
}

/// Whether a transformation converts an argument with `into` and stashes it.
pub open spec fn is_stash() -> spec_fn(TransformationView) -> bool {
    |t: TransformationView|
        t.transformation_type is Into && t.transformation_type->with_stash
}

/// The bindings that convert an argument with `into`.
pub open spec fn into_conversion() -> spec_fn(TransformationView) -> Seq<ChunkView> {
    |t: TransformationView|
        match t.transformation_type {
            TransformationTypeView::Into { name, with_stash } => {
                let into = ChunkView::binding(name, false, ChunkView::Custom(name + ".into()"@));
                let stash = ChunkView::binding(
                    name,
                    false,
                    ChunkView::Custom(name + ".to_glib_none()"@),
                );
                if with_stash {
                    seq![into, stash]
                } else {
                    seq![into]
                }
            },
            _ => Seq::empty(),
        }
}

/// The binding that computes the length of an array that is passed in.
pub open spec fn in_array_length(parameters: Seq<ParameterView>) -> spec_fn(
    TransformationView,
) -> Option<ChunkView> {
    |t: TransformationView|
        match t.transformation_type {
            TransformationTypeView::Length { array_name, array_length_name, array_length_type } =>
                if parameters[t.ind_c as int] is In {
                    Some(
                        ChunkView::binding(
                            array_length_name,
                            false,
                            ChunkView::Custom(array_name + ".len() as "@ + array_length_type),
                        ),
                    )
                } else {
                    None
                },
            _ => None,
        }
}

/// The argument of the C call that a transformation yields.
pub open spec fn call_parameter(parameters: Seq<ParameterView>) -> spec_fn(
    TransformationView,
) -> Option<ChunkView> {
    |t: TransformationView|
        if t.is_to_glib {
            Some(
                match parameters[t.ind_c as int] {
                    ParameterView::In => ChunkView::FfiCallParameter {
                        transformation_type: t.transformation_type,
                    },
                    ParameterView::Out { parameter, .. } => ChunkView::FfiCallOutParameter {
                        par: parameter,
                    },
                },
            )
        } else {
            None
        }
}

// ---- The call and what is handed back ----

/// The call of the C function, unconverted.
pub open spec fn call(b: BuilderView) -> ChunkView {
    ChunkView::FfiCall {
        name: b.glib_name,
        params: b.transformations.filter_map(call_parameter(b.parameters)),
    }
}

/// The call of the C function, its return value converted.
pub open spec fn converted_call(b: BuilderView, call: ChunkView) -> ChunkView {
    ChunkView::FfiCallConversion {
        ret: b.ret,
        array_length_name: array_length_name(b.transformations, ""@),
        call: Box::new(call),
    }
}

/// The value of an out parameter, as it is handed back. One that the caller
/// allocated already has its Rust type.
pub open spec fn returned_value(
    transformations: Seq<TransformationView>,
    parameter: parameter_ffi_call_out::ParameterView,
    mem_mode: OutMemModeView,
) -> ChunkView {
    let value = ChunkView::Custom(parameter.name);
    if mem_mode is UninitializedNamed {
        value
    } else {
        ChunkView::FromGlibConversion {
            mode: parameter.mode(),
            array_length_name: array_length_name(transformations, parameter.name),
            value: Box::new(value),
        }
    }
}

/// What a parameter adds to what is handed back: out parameters do, except the
/// error and the lengths of arrays.
pub open spec fn returned_out(transformations: Seq<TransformationView>) -> spec_fn(
    ParameterView,
) -> Option<ChunkView> {
    |p: ParameterView|
        match p {
            ParameterView::Out { parameter, mem_mode } => if parameter.is_error || is_array_length(
                transformations,
                parameter.name,
            ) {
                None
            } else {
                Some(returned_value(transformations, parameter, mem_mode))
            },
            ParameterView::In => None,
        }
}

/// The out parameters that are handed back, where any are.
pub open spec fn out_return(b: BuilderView) -> Option<ChunkView> {
    if b.outs_as_return {
        Some(
            ChunkView::Tuple(
                b.parameters.filter_map(returned_out(b.transformations)),
                TupleMode::Auto,
            ),
        )
    } else {
        None
    }
}

/// Whether a call and what is handed back can be put together in a mode: all
/// but the plain modes need out parameters, and an error result is made of a
/// converted call and a tuple.
pub open spec fn outs_mode_applies(mode: Mode, call: ChunkView, ret: Option<ChunkView>) -> bool {
    match mode {
        Mode::NoOuts | Mode::Normal => true,
        Mode::Optional | Mode::Combined => ret is Some,
        Mode::Throws(_) => call is FfiCallConversion && ret is Some && ret->0 is Tuple,
    }
}

/// The statement that calls, and the expression that hands back.
pub open spec fn with_outs_mode(mode: Mode, call: ChunkView, ret: Option<ChunkView>) -> (
    ChunkView,
    Option<ChunkView>,
) {
    match mode {
        Mode::NoOuts | Mode::Normal => (call, ret),
        Mode::Optional => (
            ChunkView::binding("ret"@, false, call),
            Some(ChunkView::OptionalReturn { condition: "ret"@, value: Box::new(ret->0) }),
        ),
        Mode::Combined => (
            ChunkView::binding("ret"@, false, call),
            Some(
                match ret->0 {
                    ChunkView::Tuple(chunks, tuple_mode) => ChunkView::Tuple(
                        seq![ChunkView::Custom("ret"@)] + chunks,
                        tuple_mode,
                    ),
                    other => other,
                },
            ),
        ),
        Mode::Throws(use_ret) => {
            let inner = *call->FfiCallConversion_call;
            let converted = ChunkView::FfiCallConversion {
                ret: call->ret,
                array_length_name: call->FfiCallConversion_array_length_name,
                call: Box::new(ChunkView::Custom("ret"@)),
            };
            let outs = ret->0->Tuple_0;
            let values = if use_ret {
                seq![converted] + outs
            } else {
                outs
            };
            (
                ChunkView::binding(
                    if use_ret {
                        "ret"@
                    } else {
                        "_"@
                    },
                    false,
                    inner,
                ),
                Some(
                    ChunkView::ErrorResultReturn {
                        value: Box::new(ChunkView::Tuple(values, TupleMode::WithUnit)),
                    },
                ),
            )
        },
    }
}

/// The statements of the unsafe block: the out variables, the call, and what is
/// handed back.
pub open spec fn unsafe_body(b: BuilderView) -> Seq<ChunkView> {
    let (call, ret) = with_outs_mode(b.outs_mode, converted_call(b, call(b)), out_return(b));
    let variables = if b.outs_as_return {
        b.parameters.filter_map(out_variable())
    } else {
        Seq::empty()
    };
    let handed_back = match ret {
        Some(ret) => seq![ret],
        None => Seq::empty(),
    };
    variables + seq![call] + handed_back
}

// ---- The trampoline of an asynchronous function ----

/// The name under which the C functions of a namespace are in scope.
pub open spec fn ffi_crate(env: EnvView, namespace: Seq<char>) -> Seq<char> {
    let found = env.namespaces[namespace];
    if found.id == env.main_namespace {
        "ffi"@
    } else {
        found.crate_name + "_ffi"@
    }
}

/// Whether the trampoline declares a variable for an output parameter: it does
/// for every out parameter but the error, which it declares itself.
pub open spec fn is_output(p: library::ParameterView) -> bool {
    p.direction == ParameterDirection::Out && p.name != "error"@
}

/// Whether the output parameter at an index is part of the result.
pub open spec fn is_result(t: AsyncTrampolineView, index: int) -> bool {
    is_output(t.output_params[index]) && !(t.index_to_ignore is Some && t.index_to_ignore->0
        == index)
}

/// The variable that holds the length of an output parameter, for an array.
pub open spec fn array_length(trampoline: Option<AsyncTrampolineView>, p: library::ParameterView)
    -> Option<Seq<char>> {
    match (trampoline, p.array_length) {
        (Some(t), Some(index)) => Some(t.output_params[index as int].name),
        _ => None,
    }
}

/// The conversion of the output parameter at an index.
pub open spec fn translation_key(t: AsyncTrampolineView, index: int) -> TranslationKeyView {
    let p = t.output_params[index];
    TranslationKeyView {
        mode: conversion_from_glib::Mode { typ: p.typ, transfer: p.transfer },
        array_length: array_length(Some(t), p),
    }
}

/// The declaration of the variable of an output parameter.
pub open spec fn output_variable(env: EnvView) -> spec_fn(library::ParameterView) -> Option<
    Seq<char>,
> {
    |p: library::ParameterView|
        if is_output(p) {
            Some(
                "let mut "@ + p.name + " = "@ + mem_mode_text(
                    mem_mode(env, p.typ, p.caller_allocates, p.transfer),
                ) + ";\n"@,
            )
        } else {
            None
        }
}

/// The argument that an output parameter is in the call of the finishing function.
pub open spec fn output_argument() -> spec_fn(library::ParameterView) -> Option<Seq<char>> {
    |p: library::ParameterView|
        if is_output(p) {
            Some("&mut "@ + p.name + ","@)
        } else {
            None
        }
}

/// The converted value of the output parameter at an index.
pub open spec fn result_value(t: AsyncTrampolineView, env: EnvView) -> spec_fn(int) -> Option<
    Seq<char>,
> {
    |index: int|
        if is_result(t, index) {
            let translation = env.translations[translation_key(t, index)];
            Some(translation.prefix + t.output_params[index].name + translation.suffix)
        } else {
            None
        }
}

/// The conversion that the output parameter at an index asks for.
pub open spec fn result_key(t: AsyncTrampolineView) -> spec_fn(int) -> Option<TranslationKeyView> {
    |index: int|
        if is_result(t, index) {
            Some(translation_key(t, index))
        } else {
            None
        }
}

/// The conversions that the result of an asynchronous function asks for.
pub open spec fn needed_translations(trampoline: Option<AsyncTrampolineView>) -> Seq<
    TranslationKeyView,
> {
    match trampoline {
        Some(t) => indices(t.output_params.len()).filter_map(result_key(t)),
        None => Seq::empty(),
    }
}

/// The numbers below `n`, in order.
pub open spec fn indices(n: nat) -> Seq<int> {
    Seq::new(n, |i: int| i)
}

/// The declarations of the output variables.
pub open spec fn output_variables(t: AsyncTrampolineView, env: EnvView) -> Seq<char> {
    text::joined(t.output_params.filter_map(output_variable(env)), "                "@)
}

/// The output arguments of the finishing function.
pub open spec fn output_arguments(t: AsyncTrampolineView) -> Seq<char> {
    text::joined(t.output_params.filter_map(output_argument()), " "@)
}

/// The values of the result.
pub open spec fn result_values(t: AsyncTrampolineView, env: EnvView) -> Seq<char> {
    text::joined(indices(t.output_params.len()).filter_map(result_value(t, env)), ", "@)
}

/// The source object, as an argument of the finishing function.
pub open spec fn object_argument(t: AsyncTrampolineView) -> Seq<char> {
    if t.is_method {
        "_source_object as *mut _, "@
    } else {
        ""@
    }
}

/// The C callback of an asynchronous function.
pub open spec fn trampoline_text(t: AsyncTrampolineView, env: EnvView) -> Seq<char> {
    "extern \"C\" fn "@ + t.name + "(_source_object: *mut "@ + ffi_crate(env, "GObject"@)
        + "::GObject, res: *mut "@ + ffi_crate(env, "Gio"@) + "::GAsyncResult, user_data: "@
        + ffi_crate(env, "GLib"@)
        + "::gpointer) {\n            unsafe {\n                let mut error = ptr::null_mut();\n                "@
        + output_variables(t, env) + "\n                let _ = ffi::"@ + t.finish_func_name + "("@
        + object_argument(t) + " res, "@ + output_arguments(t)
        + " &mut error);\n                let result = if error.is_null() { Ok(("@ + result_values(
        t,
        env,
    ) + ")) } else { Err(from_glib_full(error)) };\n                let callback: &Box<"@
        + t.callback_type
        + "> = transmute(user_data);\n                callback(result)\n            };\n        }"@
}

/// What an asynchronous function has before its call: the boxed closure, the
/// callback, and the callback's name bound for the call.
pub open spec fn trampoline_chunks(trampoline: Option<AsyncTrampolineView>, env: EnvView) -> Seq<
    ChunkView,
> {
    match trampoline {
        Some(t) => seq![
            ChunkView::BoxFn { typ: t.callback_type },
            ChunkView::Custom(trampoline_text(t, env)),
            ChunkView::binding("callback"@, false, ChunkView::Name(t.name)),
        ],
        None => Seq::empty(),
    }
}

/// Whether the lengths that the result needs are output parameters themselves.
pub open spec fn lengths_in_range(t: AsyncTrampolineView) -> bool {
    forall|i: int|
        0 <= i < t.output_params.len() && #[trigger] is_result(t, i)
            && t.output_params[i].array_length is Some ==> t.output_params[i].array_length->0
            < t.output_params.len()
}

/// Whether the types of the output variables are known.
pub open spec fn outputs_known(t: AsyncTrampolineView, env: EnvView) -> bool {
    forall|i: int|
        0 <= i < t.output_params.len() && is_output(#[trigger] t.output_params[i])
            ==> mem_mode_known(env, t.output_params[i].typ, t.output_params[i].caller_allocates)
}

/// Whether the conversions of the result are known.
pub open spec fn results_known(t: AsyncTrampolineView, env: EnvView) -> bool {
    forall|i: int|
        0 <= i < t.output_params.len() && #[trigger] is_result(t, i)
            ==> env.translations.contains_key(translation_key(t, i))
}

/// Whether the environment holds all that a trampoline needs.
pub open spec fn trampoline_complete(t: AsyncTrampolineView, env: EnvView) -> bool {
    &&& lengths_in_range(t)
    &&& env.namespaces.contains_key("Gio"@)
    &&& env.namespaces.contains_key("GObject"@)
    &&& env.namespaces.contains_key("GLib"@)
    &&& outputs_known(t, env)
    &&& results_known(t, env)
}

// ---- The whole ----

/// An in parameter more does not change whether there are out parameters.
pub proof fn lemma_wf_push(b: BuilderView, p: ParameterView)
    requires
        p is In,
    ensures
        b.wf() ==> (BuilderView { parameters: b.parameters.push(p), ..b }).wf(),
{
    let after = b.parameters.push(p);
    if b.outs_as_return && b.wf() {
        let i = choose|i: int| 0 <= i < b.parameters.len() && #[trigger] b.parameters[i] is Out;
        assert(after[i] is Out);
    } else if b.wf() {
        assert forall|i: int| 0 <= i < after.len() implies !(#[trigger] after[i] is Out) by {
            if i < b.parameters.len() {
                assert(after[i] == b.parameters[i]);
            }
        }
    }
}

/// The assertion at the head of the body.
pub open spec fn assertion_chunks(assertion: SafetyAssertionMode) -> Seq<ChunkView> {
    match assertion {
        SafetyAssertionMode::Absent => Seq::empty(),
        SafetyAssertionMode::Skip => seq![ChunkView::AssertSkipInitialized],
        SafetyAssertionMode::InMainThread => seq![ChunkView::AssertInitializedAndInMainThread],
    }
}

/// The object by which a call can be cancelled, made before the call.
pub open spec fn cancellable_binding(cancellable: bool) -> Seq<ChunkView> {
    if cancellable {
        seq![
            ChunkView::binding(
                "cancellable"@,
                false,
                ChunkView::New { name: "Cancellable"@ },
            ),
        ]
    } else {
        Seq::empty()
    }
}

/// The object by which a call can be cancelled, handed back after the call.
pub open spec fn cancellable_name(cancellable: bool) -> Seq<ChunkView> {
    if cancellable {
        seq![ChunkView::Name("cancellable"@)]
    } else {
        Seq::empty()
    }
}

impl BuilderView {
    /// A builder that has collected nothing.
    pub open spec fn empty() -> BuilderView {
        BuilderView {
            async_trampoline: None,
            cancellable: false,
            glib_name: Seq::empty(),
            parameters: Seq::empty(),
            transformations: Seq::empty(),
            ret: InfoView::nothing(),
            outs_as_return: false,
            outs_mode: Mode::NoOuts,
            assertion: SafetyAssertionMode::Absent,
        }
    }

    /// The builder with one out parameter more.
    pub open spec fn with_out_parameter(self, env: EnvView, parameter: CParameterView)
        -> BuilderView {
        BuilderView {
            parameters: self.parameters.push(
                ParameterView::Out {
                    parameter: parameter_ffi_call_out::ParameterView::of(parameter),
                    mem_mode: mem_mode(
                        env,
                        parameter.typ,
                        parameter.caller_allocates,
                        parameter.transfer,
                    ),
                },
            ),
            outs_as_return: true,
            ..self
        }
    }

    /// What every builder keeps: out parameters are handed back exactly if
    /// there are any.
    pub open spec fn wf(self) -> bool {
        self.outs_as_return <==> exists|i: int|
            0 <= i < self.parameters.len() && #[trigger] self.parameters[i] is Out
    }

    /// Whether the transformations that yield an argument find their parameter.
    pub open spec fn arguments_in_range(self) -> bool {
        forall|i: int|
            0 <= i < self.transformations.len() && (#[trigger] self.transformations[i]).is_to_glib
                ==> self.transformations[i].ind_c < self.parameters.len()
    }

    /// Whether the lengths of arrays find their parameter.
    pub open spec fn array_lengths_in_range(self) -> bool {
        forall|i: int|
            0 <= i < self.transformations.len() && (
            #[trigger] self.transformations[i]).transformation_type is Length
                ==> self.transformations[i].ind_c < self.parameters.len()
    }

    /// Whether the transformations that look at a parameter find one.
    pub open spec fn parameters_in_range(self) -> bool {
        self.arguments_in_range() && self.array_lengths_in_range()
    }

    /// Whether a body can be generated: every parameter that a transformation
    /// looks at is there, out parameters are there where the mode needs them,
    /// and the environment holds what a trampoline needs.
    pub open spec fn complete(self, env: EnvView) -> bool {
        &&& self.parameters_in_range()
        &&& (self.outs_mode == Mode::NoOuts || self.outs_mode == Mode::Normal
            || self.outs_as_return)
        &&& self.async_trampoline is Some ==> trampoline_complete(self.async_trampoline->0, env)
    }

    /// The body of the wrapper.
    pub open spec fn body(self, env: EnvView) -> Seq<ChunkView> {
        assertion_chunks(self.assertion) + cancellable_binding(self.cancellable)
            + self.transformations.flat_map(into_conversion()) + self.transformations.filter_map(
            in_array_length(self.parameters),
        ) + trampoline_chunks(self.async_trampoline, env) + seq![
            ChunkView::Unsafe(unsafe_body(self)),
        ] + cancellable_name(self.cancellable)
    }
}

} // verus!
