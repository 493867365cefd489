//! The builder of wrapper bodies.

use crate::analysis::conversion_type::ConversionType;
use crate::analysis::function_parameters::CParameter as AnalysisCParameter;
use crate::analysis::function_parameters::{
    Transformation, TransformationType, TransformationTypeView,
};
use crate::analysis::functions::AsyncTrampoline;
use crate::analysis::out_parameters::Mode;
use crate::analysis::return_value;
use crate::analysis::safety_assertion_mode::SafetyAssertionMode;
use crate::chunk;
use crate::chunk::conversion_from_glib;
use crate::chunk::parameter_ffi_call_out;
use crate::chunk::{Chunk, ChunkView, TupleMode};
use crate::codegen::model;
use crate::codegen::model::{BuilderView, OutMemModeView, ParameterView};
use crate::env::{Env, TranslationKey};
use crate::library;
use crate::library::{Fundamental, ParameterDirection, Transfer, Type, TypeId};
use crate::text;
use vstd::prelude::*;
use vstd::string::*;

verus! {

/// What an out variable holds before the call.
#[derive(Debug, PartialEq, Eq)]
pub enum OutMemMode {
    /// Nothing yet.
    Uninitialized,
    /// A value of a named type, not yet written.
    UninitializedNamed(String),
    /// A null pointer.
    NullPtr,
    /// A mutable null pointer.
    NullMutPtr,
}

impl View for OutMemMode {
    type V = OutMemModeView;

    open spec fn view(&self) -> OutMemModeView {
        match *self {
            OutMemMode::Uninitialized => OutMemModeView::Uninitialized,
            OutMemMode::UninitializedNamed(name) => OutMemModeView::UninitializedNamed(name@),
            OutMemMode::NullPtr => OutMemModeView::NullPtr,
            OutMemMode::NullMutPtr => OutMemModeView::NullMutPtr,
        }
    }
}

/// A parameter of the C function.
#[derive(Debug)]
enum Parameter {
    // Only tells the place of an in parameter among the out parameters.
    In,
    Out { parameter: parameter_ffi_call_out::Parameter, mem_mode: OutMemMode },
}

impl View for Parameter {
    type V = ParameterView;

    closed spec fn view(&self) -> ParameterView {
        match *self {
            Parameter::In => ParameterView::In,
            Parameter::Out { parameter, mem_mode } => ParameterView::Out {
                parameter: parameter@,
                mem_mode: mem_mode@,
            },
        }
    }
}

/// The return value of the C function.
struct ReturnValue {
    ret: return_value::Info,
}

/// Collects what is known of a C function, and generates the body of its wrapper.
pub struct Builder {
    async_trampoline: Option<AsyncTrampoline>,
    cancellable: bool,
    glib_name: String,
    parameters: Vec<Parameter>,
    transformations: Vec<Transformation>,
    ret: ReturnValue,
    outs_as_return: bool,
    outs_mode: Mode,
    assertion: SafetyAssertionMode,
}

impl View for Builder {
    type V = BuilderView;

    closed spec fn view(&self) -> BuilderView {
        BuilderView {
            async_trampoline: text::option_view(self.async_trampoline),
            cancellable: self.cancellable,
            glib_name: self.glib_name@,
            parameters: text::views(self.parameters@),
            transformations: text::views(self.transformations@),
            ret: self.ret.ret@,
            outs_as_return: self.outs_as_return,
            outs_mode: self.outs_mode,
            assertion: self.assertion,
        }
    }
}

impl Default for Builder {
    fn default() -> (r: Builder)
        ensures
            r@ == BuilderView::empty(),
            r@.wf(),
    {
        let r = Builder {
            async_trampoline: None,
            cancellable: false,
            glib_name: String::new(),
            parameters: Vec::new(),
            transformations: Vec::new(),
            ret: ReturnValue { ret: return_value::Info::default() },
            outs_as_return: false,
            outs_mode: Mode::default(),
            assertion: SafetyAssertionMode::default(),
        };
        assert(r@.parameters =~= Seq::empty());
        assert(r@.transformations =~= Seq::empty());
        r
    }
}

impl Builder {
    /// A builder that has collected nothing.
    pub fn new() -> (r: Builder)
        ensures
            r@ == BuilderView::empty(),
            r@.wf(),
    {
        Builder::default()
    }

    /// The call can be cancelled.
    pub fn cancellable(&mut self) -> (r: &mut Builder)
        ensures
            r@ == (BuilderView { cancellable: true, ..old(self)@ }),
            old(self)@.wf() ==> r@.wf(),
            *final(self) == *final(r),
    {
        self.cancellable = true;
        self
    }

    /// The call is asynchronous, and finishes through `trampoline`.
    pub fn async_trampoline(&mut self, trampoline: &AsyncTrampoline) -> (r: &mut Builder)
        ensures
            r@ == (BuilderView { async_trampoline: Some(trampoline@), ..old(self)@ }),
            old(self)@.wf() ==> r@.wf(),
            *final(self) == *final(r),
    {
        self.async_trampoline = Some(trampoline.clone());
        self
    }

    /// The name of the C function.
    pub fn glib_name(&mut self, name: &str) -> (r: &mut Builder)
        ensures
            r@ == (BuilderView { glib_name: name@, ..old(self)@ }),
            old(self)@.wf() ==> r@.wf(),
            *final(self) == *final(r),
    {
        self.glib_name = name.to_owned();
        self
    }

    /// The assertion at the head of the body.
    pub fn assertion(&mut self, assertion: SafetyAssertionMode) -> (r: &mut Builder)
        ensures
            r@ == (BuilderView { assertion, ..old(self)@ }),
            old(self)@.wf() ==> r@.wf(),
            *final(self) == *final(r),
    {
        self.assertion = assertion;
        self
    }

    /// The return value of the C function.
    pub fn ret(&mut self, ret: &return_value::Info) -> (r: &mut Builder)
        ensures
            r@ == (BuilderView { ret: ret@, ..old(self)@ }),
            old(self)@.wf() ==> r@.wf(),
            *final(self) == *final(r),
    {
        self.ret = ReturnValue { ret: ret.clone() };
        self
    }

    /// The next parameter of the C function is an in parameter.
    pub fn parameter(&mut self) -> (r: &mut Builder)
        ensures
            r@ == (BuilderView {
                parameters: old(self)@.parameters.push(ParameterView::In),
                ..old(self)@
            }),
            old(self)@.wf() ==> r@.wf(),
            *final(self) == *final(r),
    {
        proof {
            text::lemma_views_push(self.parameters@, Parameter::In);
            model::lemma_wf_push(self@, ParameterView::In);
        }
        self.parameters.push(Parameter::In);
        self
    }

    /// The next parameter of the C function is an out parameter.
    pub fn out_parameter(&mut self, env: &Env, parameter: &AnalysisCParameter) -> (r: &mut Builder)
        requires
            model::mem_mode_known(env@, parameter.typ, parameter.caller_allocates),
        ensures
            r@ == old(self)@.with_out_parameter(env@, parameter@),
            r@.wf(),
            *final(self) == *final(r),
    {
        let mem_mode = c_type_mem_mode(env, parameter);
        let out = Parameter::Out {
            parameter: parameter_ffi_call_out::Parameter::new(parameter),
            mem_mode,
        };
        proof {
            text::lemma_views_push(self.parameters@, out);
            let after = self@.with_out_parameter(env@, parameter@);
            assert(after.parameters[after.parameters.len() - 1] is Out);
        }
        self.parameters.push(out);
        self.outs_as_return = true;
        self
    }

    /// What becomes of the parameters.
    pub fn transformations(&mut self, transformations: &[Transformation]) -> (r: &mut Builder)
        ensures
            r@ == (BuilderView {
                transformations: text::views(transformations@),
                ..old(self)@
            }),
            old(self)@.wf() ==> r@.wf(),
            *final(self) == *final(r),
    {
        let mut copy: Vec<Transformation> = Vec::new();
        let mut i: usize = 0;
        while i < transformations.len()
            invariant
                i <= transformations.len(),
                text::views(copy@) == text::views(transformations@).take(i as int),
            decreases transformations.len() - i,
        {
            let transformation = transformations[i].clone();
            proof {
                text::lemma_views_push(copy@, transformation);
                assert(text::views(transformations@).take(i + 1) =~= text::views(
                    transformations@,
                ).take(i as int).push(transformation@));
            }
            copy.push(transformation);
            i = i + 1;
        }
        assert(text::views(transformations@).take(i as int) =~= text::views(transformations@));
        self.transformations = copy;
        self
    }

    /// How the out parameters come back.
    pub fn outs_mode(&mut self, mode: Mode) -> (r: &mut Builder)
        ensures
            r@ == (BuilderView { outs_mode: mode, ..old(self)@ }),
            old(self)@.wf() ==> r@.wf(),
            *final(self) == *final(r),
    {
        self.outs_mode = mode;
        self
    }

    /// Generates the body of the wrapper.
    pub fn generate(&self, env: &Env) -> (r: Chunk)
        requires
            self@.complete(env@),
        ensures
            r@ == ChunkView::BlockHalf(self@.body(env@)),
    {
        let mut body: Vec<Chunk> = Vec::new();
        assert(Chunk::models(body@) =~= Seq::empty());

        if self.outs_as_return {
            self.write_out_variables(&mut body);
        }

        let call = self.generate_call();
        let call = self.generate_call_conversion(call);
        let ret = self.generate_out_return();
        let (call, ret) = self.apply_outs_mode(call, ret);

        proof {
            chunk::lemma_models_push(body@, call);
        }
        body.push(call);
        if let Some(chunk) = ret {
            proof {
                chunk::lemma_models_push(body@, chunk);
            }
            body.push(chunk);
        }
        assert(Chunk::models(body@) =~= model::unsafe_body(self@));

        let unsafe_ = Chunk::Unsafe(body);
        assert(unsafe_@ == ChunkView::Unsafe(model::unsafe_body(self@)));

        let mut chunks: Vec<Chunk> = Vec::new();
        assert(Chunk::models(chunks@) =~= Seq::empty());

        let name = "cancellable".to_owned();
        if self.cancellable {
            let new = Chunk::New { name: "Cancellable".to_owned() };
            let chunk = Chunk::binding(name.clone(), false, new);
            proof {
                chunk::lemma_models_push(chunks@, chunk);
            }
            chunks.push(chunk);
        }
        assert(Chunk::models(chunks@) =~= model::cancellable_binding(self@.cancellable));
        self.add_into_conversion(&mut chunks);
        self.add_in_array_lengths(&mut chunks);
        self.add_assertion(&mut chunks);
        let ghost start = Chunk::models(chunks@);
        assert(start =~= model::assertion_chunks(self@.assertion) + model::cancellable_binding(
            self@.cancellable,
        ) + self@.transformations.flat_map(model::into_conversion())
            + self@.transformations.filter_map(model::in_array_length(self@.parameters)));

        if let Some(trampoline) = &self.async_trampoline {
            self.add_async_trampoline(trampoline, env, &mut chunks);
        }
        assert(Chunk::models(chunks@) =~= start + model::trampoline_chunks(
            self@.async_trampoline,
            env@,
        ));
        proof {
            chunk::lemma_models_push(chunks@, unsafe_);
        }
        chunks.push(unsafe_);
        if self.cancellable {
            let chunk = Chunk::Name(name);
            proof {
                chunk::lemma_models_push(chunks@, chunk);
            }
            chunks.push(chunk);
        }
        assert(Chunk::models(chunks@) =~= self@.body(env@));
        Chunk::BlockHalf(chunks)
    }

    /// Whether [`Builder::generate`] has all it needs.
    pub fn can_generate(&self, env: &Env) -> (r: bool)
        ensures
            r == self@.complete(env@),
    {
        let mut i: usize = 0;
        while i < self.transformations.len()
            invariant
                i <= self.transformations.len(),
                forall|j: int|
                    0 <= j < i && ((#[trigger] self@.transformations[j]).is_to_glib
                        || self@.transformations[j].transformation_type is Length)
                        ==> self@.transformations[j].ind_c < self@.parameters.len(),
            decreases self.transformations.len() - i,
        {
            let trans = &self.transformations[i];
            assert(self@.transformations[i as int] == trans@);
            let is_length = match &trans.transformation_type {
                TransformationType::Length { .. } => true,
                _ => false,
            };
            if (trans.is_to_glib || is_length) && trans.ind_c >= self.parameters.len() {
                return false;
            }
            i = i + 1;
        }
        let needs_outs = match self.outs_mode {
            Mode::NoOuts | Mode::Normal => false,
            Mode::Optional | Mode::Combined | Mode::Throws(_) => true,
        };
        if needs_outs && !self.outs_as_return {
            return false;
        }
        match &self.async_trampoline {
            Some(trampoline) => self.can_write_trampoline(trampoline, env),
            None => true,
        }
    }

    /// Whether the environment holds all that the trampoline needs.
    fn can_write_trampoline(&self, trampoline: &AsyncTrampoline, env: &Env) -> (r: bool)
        requires
            self@.async_trampoline == Some(trampoline@),
        ensures
            r == model::trampoline_complete(trampoline@, env@),
    {
        let ghost t = trampoline@;
        if env.find_namespace("Gio").is_none() || env.find_namespace("GObject").is_none()
            || env.find_namespace("GLib").is_none() {
            return false;
        }
        let mut i: usize = 0;
        while i < trampoline.output_params.len()
            invariant
                i <= trampoline.output_params.len(),
                t == trampoline@,
                self@.async_trampoline == Some(t),
                forall|j: int|
                    0 <= j < i && #[trigger] model::is_result(t, j)
                        && t.output_params[j].array_length is Some
                        ==> t.output_params[j].array_length->0 < t.output_params.len(),
                forall|j: int|
                    0 <= j < i && model::is_output(#[trigger] t.output_params[j])
                        ==> model::mem_mode_known(
                        env@,
                        t.output_params[j].typ,
                        t.output_params[j].caller_allocates,
                    ),
                forall|j: int|
                    0 <= j < i && #[trigger] model::is_result(t, j)
                        ==> env@.translations.contains_key(model::translation_key(t, j)),
            decreases trampoline.output_params.len() - i,
        {
            let param = &trampoline.output_params[i];
            assert(t.output_params[i as int] == param@);
            if is_output(param) && !is_mem_mode_known(env, param) {
                return false;
            }
            if is_result(trampoline, i) {
                if let Some(index) = param.array_length {
                    if index as usize >= trampoline.output_params.len() {
                        return false;
                    }
                }
                let key = self.translation_key(param);
                if env.translate_from_glib(&key).is_none() {
                    return false;
                }
            }
            i = i + 1;
        }
        true
    }

    /// Adds the boxed closure, the callback and the binding of its name.
    fn add_async_trampoline(
        &self,
        trampoline: &AsyncTrampoline,
        env: &Env,
        chunks: &mut Vec<Chunk>,
    )
        requires
            self@.async_trampoline == Some(trampoline@),
            model::trampoline_complete(trampoline@, env@),
        ensures
            Chunk::models(final(chunks)@) == Chunk::models(old(chunks)@)
                + model::trampoline_chunks(Some(trampoline@), env@),
    {
        let closure = Chunk::BoxFn { typ: trampoline.callback_type.clone() };
        let callback = Chunk::Custom(self.trampoline_text(trampoline, env));
        let bound = Chunk::binding(
            "callback".to_owned(),
            false,
            Chunk::Name(trampoline.name.clone()),
        );
        proof {
            chunk::lemma_models_push(chunks@, closure);
            chunk::lemma_models_push(chunks@.push(closure), callback);
            chunk::lemma_models_push(chunks@.push(closure).push(callback), bound);
        }
        chunks.push(closure);
        chunks.push(callback);
        chunks.push(bound);
        assert(Chunk::models(chunks@) =~= Chunk::models(old(chunks)@) + model::trampoline_chunks(
            Some(trampoline@),
            env@,
        ));
    }

    /// The text of the C callback.
    fn trampoline_text(&self, trampoline: &AsyncTrampoline, env: &Env) -> (r: String)
        requires
            self@.async_trampoline == Some(trampoline@),
            model::trampoline_complete(trampoline@, env@),
        ensures
            r@ == model::trampoline_text(trampoline@, env@),
    {
        let object_arg = if trampoline.is_method {
            "_source_object as *mut _, "
        } else {
            ""
        };
        let output_vars = output_variables(trampoline, env);
        let output_args = output_arguments(trampoline);
        let result = self.result_values(trampoline, env);
        let gio_crate_name = crate_name("Gio", env);
        let gobject_crate_name = crate_name("GObject", env);
        let glib_crate_name = crate_name("GLib", env);

        let mut r = "extern \"C\" fn ".to_owned();
        r.append(trampoline.name.as_str());
        r.append("(_source_object: *mut ");
        r.append(gobject_crate_name.as_str());
        r.append("::GObject, res: *mut ");
        r.append(gio_crate_name.as_str());
        r.append("::GAsyncResult, user_data: ");
        r.append(glib_crate_name.as_str());
        r.append(
            "::gpointer) {\n            unsafe {\n                let mut error = ptr::null_mut();\n                ",
        );
        r.append(output_vars.as_str());
        r.append("\n                let _ = ffi::");
        r.append(trampoline.finish_func_name.as_str());
        r.append("(");
        r.append(object_arg);
        r.append(" res, ");
        r.append(output_args.as_str());
        r.append(
            " &mut error);\n                let result = if error.is_null() { Ok((",
        );
        r.append(result.as_str());
        r.append(
            ")) } else { Err(from_glib_full(error)) };\n                let callback: &Box<",
        );
        r.append(trampoline.callback_type.as_str());
        r.append(
            "> = transmute(user_data);\n                callback(result)\n            };\n        }",
        );
        r
    }

    /// The values of the result of an asynchronous function.
    fn result_values(&self, trampoline: &AsyncTrampoline, env: &Env) -> (r: String)
        requires
            self@.async_trampoline == Some(trampoline@),
            model::lengths_in_range(trampoline@),
            model::results_known(trampoline@, env@),
        ensures
            r@ == model::result_values(trampoline@, env@),
    {
        let ghost all = model::indices(trampoline@.output_params.len());
        let ghost f = model::result_value(trampoline@, env@);
        let mut values: Vec<String> = Vec::new();
        let mut index: usize = 0;
        assert(text::views(values@) =~= all.take(0).filter_map(f));
        while index < trampoline.output_params.len()
            invariant
                index <= trampoline.output_params.len(),
                self@.async_trampoline == Some(trampoline@),
                model::lengths_in_range(trampoline@),
                model::results_known(trampoline@, env@),
                all == model::indices(trampoline@.output_params.len()),
                f == model::result_value(trampoline@, env@),
                text::views(values@) == all.take(index as int).filter_map(f),
            decreases trampoline.output_params.len() - index,
        {
            let param = &trampoline.output_params[index];
            assert(trampoline@.output_params[index as int] == param@);
            proof {
                text::lemma_filter_map_step(all, f, index as int);
            }
            if is_result(trampoline, index) {
                let key = self.translation_key(param);
                let translation = env.translate_from_glib(&key).unwrap();
                let mut value = translation.prefix.clone();
                value.append(param.name.as_str());
                value.append(translation.suffix.as_str());
                proof {
                    text::lemma_views_push(values@, value);
                }
                values.push(value);
            }
            index = index + 1;
        }
        assert(all.take(index as int) =~= all);
        text::join(&values, ", ")
    }

    /// The conversion of an output parameter.
    fn translation_key(&self, param: &library::Parameter) -> (r: TranslationKey)
        requires
            self@.async_trampoline is Some && param.array_length is Some ==> param.array_length->0
                < self@.async_trampoline->0.output_params.len(),
        ensures
            r.mode == (conversion_from_glib::Mode { typ: param.typ, transfer: param.transfer }),
            text::option_view(r.array_length) == model::array_length(
                self@.async_trampoline,
                param@,
            ),
    {
        let array_length = match self.array_length(param) {
            Some(name) => Some(name.clone()),
            None => None,
        };
        TranslationKey {
            mode: conversion_from_glib::Mode { typ: param.typ, transfer: param.transfer },
            array_length,
        }
    }

    /// The conversions that [`Builder::generate`] looks up in the environment:
    /// one for each value of the result of an asynchronous function, in order.
    /// There is no answer where the length of such a value is no output parameter.
    pub fn needed_translations(&self) -> (r: Option<Vec<TranslationKey>>)
        ensures
            r is Some <==> (self@.async_trampoline is Some ==> model::lengths_in_range(
                self@.async_trampoline->0,
            )),
            r matches Some(keys) ==> text::views(keys@) == model::needed_translations(
                self@.async_trampoline,
            ),
    {
        let mut keys: Vec<TranslationKey> = Vec::new();
        assert(text::views(keys@) =~= Seq::empty());
        if let Some(trampoline) = &self.async_trampoline {
            let ghost t = trampoline@;
            let ghost all = model::indices(t.output_params.len());
            let ghost f = model::result_key(t);
            let mut index: usize = 0;
            assert(text::views(keys@) =~= all.take(0).filter_map(f));
            while index < trampoline.output_params.len()
                invariant
                    index <= trampoline.output_params.len(),
                    t == trampoline@,
                    self@.async_trampoline == Some(t),
                    forall|j: int|
                        0 <= j < index && #[trigger] model::is_result(t, j)
                            && t.output_params[j].array_length is Some
                            ==> t.output_params[j].array_length->0 < t.output_params.len(),
                    all == model::indices(t.output_params.len()),
                    f == model::result_key(t),
                    text::views(keys@) == all.take(index as int).filter_map(f),
                decreases trampoline.output_params.len() - index,
            {
                let param = &trampoline.output_params[index];
                assert(t.output_params[index as int] == param@);
                proof {
                    text::lemma_filter_map_step(all, f, index as int);
                }
                if is_result(trampoline, index) {
                    if let Some(length) = param.array_length {
                        if length as usize >= trampoline.output_params.len() {
                            return None;
                        }
                    }
                    let key = self.translation_key(param);
                    proof {
                        text::lemma_views_push(keys@, key);
                    }
                    keys.push(key);
                }
                index = index + 1;
            }
            assert(all.take(index as int) =~= all);
        }
        Some(keys)
    }

    /// The variable that holds the length of an output parameter, for an array.
    fn array_length(&self, param: &library::Parameter) -> (r: Option<&String>)
        requires
            self@.async_trampoline is Some && param.array_length is Some ==> param.array_length->0
                < self@.async_trampoline->0.output_params.len(),
        ensures
            text::option_view(r) == model::array_length(self@.async_trampoline, param@),
    {
        match (&self.async_trampoline, param.array_length) {
            (Some(trampoline), Some(index)) => Some(
                &trampoline.output_params[index as usize].name,
            ),
            _ => None,
        }
    }

    /// Puts the assertion in front.
    fn add_assertion(&self, chunks: &mut Vec<Chunk>)
        ensures
            Chunk::models(final(chunks)@) == model::assertion_chunks(self@.assertion)
                + Chunk::models(old(chunks)@),
    {
        match self.assertion {
            SafetyAssertionMode::Absent => {
                assert(Seq::<ChunkView>::empty() + Chunk::models(chunks@) =~= Chunk::models(
                    chunks@,
                ));
            },
            SafetyAssertionMode::Skip => {
                proof {
                    chunk::lemma_models_insert_first(chunks@, Chunk::AssertSkipInitialized);
                }
                chunks.insert(0, Chunk::AssertSkipInitialized);
            },
            SafetyAssertionMode::InMainThread => {
                proof {
                    chunk::lemma_models_insert_first(
                        chunks@,
                        Chunk::AssertInitializedAndInMainThread,
                    );
                }
                chunks.insert(0, Chunk::AssertInitializedAndInMainThread);
            },
        }
    }

    /// Adds the bindings that convert arguments with `into`.
    fn add_into_conversion(&self, chunks: &mut Vec<Chunk>)
        ensures
            Chunk::models(final(chunks)@) == Chunk::models(old(chunks)@)
                + self@.transformations.flat_map(model::into_conversion()),
    {
        let ghost all = self@.transformations;
        let ghost f = model::into_conversion();
        let ghost before = Chunk::models(chunks@);
        let mut i: usize = 0;
        proof {
            assert(all.take(0).map_values(f) =~= Seq::empty());
            assert(before + all.take(0).flat_map(f) =~= before);
        }
        while i < self.transformations.len()
            invariant
                i <= self.transformations.len(),
                all == self@.transformations,
                f == model::into_conversion(),
                Chunk::models(chunks@) == before + all.take(i as int).flat_map(f),
            decreases self.transformations.len() - i,
        {
            let trans = &self.transformations[i];
            assert(all[i as int] == trans@);
            proof {
                all.lemma_flat_map_take_append(f, i as int);
            }
            let ghost start = Chunk::models(chunks@);
            if let TransformationType::Into { name, with_stash } = &trans.transformation_type {
                let value = Chunk::Custom(name.clone().concat(".into()"));
                let into = Chunk::binding(name.clone(), false, value);
                proof {
                    chunk::lemma_models_push(chunks@, into);
                }
                chunks.push(into);
                if *with_stash {
                    let value = Chunk::Custom(name.clone().concat(".to_glib_none()"));
                    let stash = Chunk::binding(name.clone(), false, value);
                    proof {
                        chunk::lemma_models_push(chunks@, stash);
                    }
                    chunks.push(stash);
                }
            }
            assert(Chunk::models(chunks@) =~= start + f(all[i as int]));
            assert(before + (all.take(i as int).flat_map(f) + f(all[i as int])) =~= start + f(
                all[i as int],
            ));
            i = i + 1;
        }
        assert(all.take(i as int) =~= all);
    }

    /// Adds the bindings that compute the lengths of the arrays passed in.
    fn add_in_array_lengths(&self, chunks: &mut Vec<Chunk>)
        requires
            self@.array_lengths_in_range(),
        ensures
            Chunk::models(final(chunks)@) == Chunk::models(old(chunks)@)
                + self@.transformations.filter_map(model::in_array_length(self@.parameters)),
    {
        let ghost all = self@.transformations;
        let ghost f = model::in_array_length(self@.parameters);
        let ghost before = Chunk::models(chunks@);
        let mut i: usize = 0;
        assert(before + all.take(0).filter_map(f) =~= before);
        while i < self.transformations.len()
            invariant
                i <= self.transformations.len(),
                self@.array_lengths_in_range(),
                all == self@.transformations,
                f == model::in_array_length(self@.parameters),
                Chunk::models(chunks@) == before + all.take(i as int).filter_map(f),
            decreases self.transformations.len() - i,
        {
            let trans = &self.transformations[i];
            assert(all[i as int] == trans@);
            proof {
                text::lemma_filter_map_step(all, f, i as int);
            }
            let ghost start = Chunk::models(chunks@);
            if let TransformationType::Length {
                array_name,
                array_length_name,
                array_length_type,
            } = &trans.transformation_type {
                assert(self@.parameters[trans.ind_c as int] == self.parameters@[trans.ind_c as int]@);
                if let Parameter::In = &self.parameters[trans.ind_c] {
                    let mut value = array_name.clone();
                    value.append(".len() as ");
                    value.append(array_length_type.as_str());
                    let chunk = Chunk::binding(
                        array_length_name.clone(),
                        false,
                        Chunk::Custom(value),
                    );
                    proof {
                        chunk::lemma_models_push(chunks@, chunk);
                    }
                    chunks.push(chunk);
                }
            }
            assert(Chunk::models(chunks@) =~= before + all.take(i + 1).filter_map(f));
            i = i + 1;
        }
        assert(all.take(i as int) =~= all);
    }

    /// The call of the C function.
    fn generate_call(&self) -> (r: Chunk)
        requires
            self@.arguments_in_range(),
        ensures
            r@ == model::call(self@),
    {
        let params = self.generate_func_parameters();
        Chunk::FfiCall { name: self.glib_name.clone(), params }
    }

    /// The call with its return value converted.
    fn generate_call_conversion(&self, call: Chunk) -> (r: Chunk)
        ensures
            r@ == model::converted_call(self@, call@),
    {
        Chunk::FfiCallConversion {
            ret: self.ret.ret.clone(),
            array_length_name: self.find_array_length_name(""),
            call: Box::new(call),
        }
    }

    /// The arguments of the call.
    fn generate_func_parameters(&self) -> (r: Vec<Chunk>)
        requires
            self@.arguments_in_range(),
        ensures
            Chunk::models(r@) == self@.transformations.filter_map(
                model::call_parameter(self@.parameters),
            ),
    {
        let ghost all = self@.transformations;
        let ghost f = model::call_parameter(self@.parameters);
        let mut params: Vec<Chunk> = Vec::new();
        let mut i: usize = 0;
        assert(Chunk::models(params@) =~= all.take(0).filter_map(f));
        while i < self.transformations.len()
            invariant
                i <= self.transformations.len(),
                self@.arguments_in_range(),
                all == self@.transformations,
                f == model::call_parameter(self@.parameters),
                Chunk::models(params@) == all.take(i as int).filter_map(f),
            decreases self.transformations.len() - i,
        {
            let trans = &self.transformations[i];
            assert(all[i as int] == trans@);
            proof {
                text::lemma_filter_map_step(all, f, i as int);
            }
            if trans.is_to_glib {
                assert(self@.parameters[trans.ind_c as int] == self.parameters@[trans.ind_c as int]@);
                let chunk = match &self.parameters[trans.ind_c] {
                    Parameter::In => Chunk::FfiCallParameter {
                        transformation_type: trans.transformation_type.clone(),
                    },
                    Parameter::Out { parameter, .. } => Chunk::FfiCallOutParameter {
                        par: parameter.clone(),
                    },
                };
                proof {
                    chunk::lemma_models_push(params@, chunk);
                }
                params.push(chunk);
            }
            i = i + 1;
        }
        assert(all.take(i as int) =~= all);
        params
    }

    /// The out parameters.
    fn get_outs(&self) -> (r: Vec<&Parameter>)
        ensures
            text::views(r@) == self@.parameters.filter_map(model::out()),
    {
        let ghost all = self@.parameters;
        let ghost f = model::out();
        let mut outs: Vec<&Parameter> = Vec::new();
        let mut i: usize = 0;
        assert(text::views(outs@) =~= all.take(0).filter_map(f));
        while i < self.parameters.len()
            invariant
                i <= self.parameters.len(),
                all == self@.parameters,
                f == model::out(),
                text::views(outs@) == all.take(i as int).filter_map(f),
            decreases self.parameters.len() - i,
        {
            let par = &self.parameters[i];
            assert(all[i as int] == par@);
            proof {
                text::lemma_filter_map_step(all, f, i as int);
            }
            if let Parameter::Out { .. } = par {
                proof {
                    text::lemma_views_push(outs@, par);
                }
                outs.push(par);
            }
            i = i + 1;
        }
        assert(all.take(i as int) =~= all);
        outs
    }

    /// The out parameters but for the error.
    fn get_outs_without_error(&self) -> (r: Vec<&Parameter>)
        ensures
            text::views(r@) == self@.parameters.filter_map(model::out_without_error()),
    {
        let ghost all = self@.parameters;
        let ghost f = model::out_without_error();
        let mut outs: Vec<&Parameter> = Vec::new();
        let mut i: usize = 0;
        assert(text::views(outs@) =~= all.take(0).filter_map(f));
        while i < self.parameters.len()
            invariant
                i <= self.parameters.len(),
                all == self@.parameters,
                f == model::out_without_error(),
                text::views(outs@) == all.take(i as int).filter_map(f),
            decreases self.parameters.len() - i,
        {
            let par = &self.parameters[i];
            assert(all[i as int] == par@);
            proof {
                text::lemma_filter_map_step(all, f, i as int);
            }
            if let Parameter::Out { parameter, .. } = par {
                if !parameter.is_error {
                    proof {
                        text::lemma_views_push(outs@, par);
                    }
                    outs.push(par);
                }
            }
            i = i + 1;
        }
        assert(all.take(i as int) =~= all);
        outs
    }

    /// Adds the declarations of the out variables.
    fn write_out_variables(&self, v: &mut Vec<Chunk>)
        ensures
            Chunk::models(final(v)@) == Chunk::models(old(v)@) + self@.parameters.filter_map(
                model::out_variable(),
            ),
    {
        let outs = self.get_outs();
        let ghost all = text::views(outs@);
        let ghost f = model::out_variable();
        let ghost before = Chunk::models(v@);
        let mut i: usize = 0;
        assert(before + all.take(0).filter_map(f) =~= before);
        while i < outs.len()
            invariant
                i <= outs.len(),
                all == text::views(outs@),
                f == model::out_variable(),
                Chunk::models(v@) == before + all.take(i as int).filter_map(f),
            decreases outs.len() - i,
        {
            assert(all[i as int] == outs@[i as int]@);
            proof {
                text::lemma_filter_map_step(all, f, i as int);
            }
            if let Parameter::Out { parameter, mem_mode } = outs[i] {
                let val = self.get_uninitialized(mem_mode);
                let chunk = Chunk::binding(parameter.name.clone(), true, val);
                proof {
                    chunk::lemma_models_push(v@, chunk);
                }
                v.push(chunk);
            }
            assert(Chunk::models(v@) =~= before + all.take(i + 1).filter_map(f));
            i = i + 1;
        }
        proof {
            assert(all.take(i as int) =~= all);
            text::lemma_filter_map_twice(self@.parameters, model::out(), f, f);
        }
    }

    /// The expression that an out variable starts with.
    fn get_uninitialized(&self, mem_mode: &OutMemMode) -> (r: Chunk)
        ensures
            r@ == model::uninitialized(mem_mode@),
    {
        match mem_mode {
            OutMemMode::Uninitialized => Chunk::Uninitialized,
            OutMemMode::UninitializedNamed(name) => Chunk::UninitializedNamed {
                name: name.clone(),
            },
            OutMemMode::NullPtr => Chunk::NullPtr,
            OutMemMode::NullMutPtr => Chunk::NullMutPtr,
        }
    }

    /// The out parameters that are handed back.
    fn generate_out_return(&self) -> (r: Option<Chunk>)
        ensures
            text::option_view(r) == model::out_return(self@),
    {
        if !self.outs_as_return {
            return None;
        }
        let outs = self.get_outs_without_error();
        let ghost all = text::views(outs@);
        let ghost f = model::returned_out(self@.transformations);
        let mut chs: Vec<Chunk> = Vec::with_capacity(outs.len());
        let mut i: usize = 0;
        assert(Chunk::models(chs@) =~= all.take(0).filter_map(f));
        while i < outs.len()
            invariant
                i <= outs.len(),
                all == text::views(outs@),
                all == self@.parameters.filter_map(model::out_without_error()),
                f == model::returned_out(self@.transformations),
                Chunk::models(chs@) == all.take(i as int).filter_map(f),
            decreases outs.len() - i,
        {
            assert(all[i as int] == outs@[i as int]@);
            proof {
                text::lemma_filter_map_step(all, f, i as int);
                model::lemma_without_error(self@.parameters, i as int);
            }
            if let Parameter::Out { parameter, mem_mode } = outs[i] {
                if !self.is_array_length(&parameter.name) {
                    let chunk = self.out_parameter_to_return(parameter, mem_mode);
                    proof {
                        chunk::lemma_models_push(chs@, chunk);
                    }
                    chs.push(chunk);
                }
            }
            i = i + 1;
        }
        proof {
            assert(all.take(i as int) =~= all);
            text::lemma_filter_map_twice(self@.parameters, model::out_without_error(), f, f);
        }
        Some(Chunk::Tuple(chs, TupleMode::Auto))
    }

    /// Whether `name` is the length of some array.
    fn is_array_length(&self, name: &String) -> (r: bool)
        ensures
            r == model::is_array_length(self@.transformations, name@),
    {
        let mut i: usize = 0;
        while i < self.transformations.len()
            invariant
                i <= self.transformations.len(),
                forall|j: int|
                    0 <= j < i ==> !(#[trigger] self@.transformations[j].transformation_type matches
                        TransformationTypeView::Length { array_length_name, .. }
                        && array_length_name == name@),
            decreases self.transformations.len() - i,
        {
            let trans = &self.transformations[i];
            assert(self@.transformations[i as int] == trans@);
            if let TransformationType::Length { array_length_name, .. } =
                &trans.transformation_type {
                if *array_length_name == *name {
                    assert(self@.transformations[i as int].transformation_type is Length);
                    return true;
                }
            }
            i = i + 1;
        }
        false
    }

    /// The value of an out parameter, as it is handed back.
    fn out_parameter_to_return(
        &self,
        parameter: &parameter_ffi_call_out::Parameter,
        mem_mode: &OutMemMode,
    ) -> (r: Chunk)
        ensures
            r@ == model::returned_value(self@.transformations, parameter@, mem_mode@),
    {
        let value = Chunk::Custom(parameter.name.clone());
        assert(value@ == ChunkView::Custom(parameter@.name));
        if let OutMemMode::UninitializedNamed(_) = mem_mode {
            value
        } else {
            Chunk::FromGlibConversion {
                mode: conversion_from_glib::Mode::of_out_parameter(parameter),
                array_length_name: self.find_array_length_name(parameter.name.as_str()),
                value: Box::new(value),
            }
        }
    }

    /// The name of the length of the array `array_name_`.
    fn find_array_length_name(&self, array_name_: &str) -> (r: Option<String>)
        ensures
            text::option_view(r) == model::array_length_name(self@.transformations, array_name_@),
    {
        let ghost all = self@.transformations;
        let ghost f = model::length_name_for(array_name_@);
        let mut i: usize = 0;
        assert(all.take(0).filter_map(f) =~= Seq::empty());
        while i < self.transformations.len()
            invariant
                i <= self.transformations.len(),
                all == self@.transformations,
                f == model::length_name_for(array_name_@),
                all.take(i as int).filter_map(f) == Seq::<Seq<char>>::empty(),
            decreases self.transformations.len() - i,
        {
            let trans = &self.transformations[i];
            assert(all[i as int] == trans@);
            proof {
                text::lemma_filter_map_step(all, f, i as int);
            }
            if let TransformationType::Length { array_name, array_length_name, .. } =
                &trans.transformation_type {
                if text::same(array_name, array_name_) {
                    proof {
                        text::lemma_filter_map_prefix(all, f, i + 1);
                        assert(all.take(i + 1).filter_map(f)[0] == array_length_name@);
                    }
                    return Some(array_length_name.clone());
                }
            }
            i = i + 1;
        }
        assert(all.take(i as int) =~= all);
        None
    }

    /// Hands back what `call` and `ret` become in the mode of the builder.
    fn apply_outs_mode(&self, call: Chunk, ret: Option<Chunk>) -> (r: (Chunk, Option<Chunk>))
        requires
            model::outs_mode_applies(self@.outs_mode, call@, text::option_view(ret)),
        ensures
            (r.0@, text::option_view(r.1)) == model::with_outs_mode(
                self@.outs_mode,
                call@,
                text::option_view(ret),
            ),
    {
        proof {
            reveal_with_fuel(Chunk::model, 4);
            reveal_with_fuel(Chunk::models, 4);
        }
        match self.outs_mode {
            Mode::NoOuts => (call, ret),
            Mode::Normal => (call, ret),
            Mode::Optional => {
                let call = Chunk::binding("ret".to_owned(), false, call);
                let ret = ret.unwrap();
                let ret = Chunk::OptionalReturn {
                    condition: "ret".to_owned(),
                    value: Box::new(ret),
                };
                (call, Some(ret))
            },
            Mode::Combined => {
                let call = Chunk::binding("ret".to_owned(), false, call);
                let ret = match ret.unwrap() {
                    Chunk::Tuple(mut chunks, mode) => {
                        let first = Chunk::Custom("ret".to_owned());
                        proof {
                            chunk::lemma_models_insert_first(chunks@, first);
                        }
                        chunks.insert(0, first);
                        Chunk::Tuple(chunks, mode)
                    },
                    other => other,
                };
                (call, Some(ret))
            },
            Mode::Throws(use_ret) => {
                match (call, ret) {
                    (
                        Chunk::FfiCallConversion { call: inner, array_length_name, ret: info },
                        Some(Chunk::Tuple(mut chunks, _)),
                    ) => {
                        let name = if use_ret {
                            "ret".to_owned()
                        } else {
                            "_".to_owned()
                        };
                        let call = Chunk::binding(name, false, *inner);
                        if use_ret {
                            let conversion = Chunk::FfiCallConversion {
                                call: Box::new(Chunk::Custom("ret".to_owned())),
                                array_length_name,
                                ret: info,
                            };
                            proof {
                                chunk::lemma_models_insert_first(chunks@, conversion);
                            }
                            chunks.insert(0, conversion);
                        }
                        let ret = Chunk::ErrorResultReturn {
                            value: Box::new(Chunk::Tuple(chunks, TupleMode::WithUnit)),
                        };
                        (call, Some(ret))
                    },
                    other => other,
                }
            },
        }
    }
}

/// Whether the trampoline declares a variable for an output parameter.
fn is_output(param: &library::Parameter) -> (r: bool)
    ensures
        r == model::is_output(param@),
{
    param.direction == ParameterDirection::Out && !text::same(&param.name, "error")
}

/// Whether the output parameter at an index is part of the result.
fn is_result(trampoline: &AsyncTrampoline, index: usize) -> (r: bool)
    requires
        index < trampoline@.output_params.len(),
    ensures
        r == model::is_result(trampoline@, index as int),
{
    let ignored = match trampoline.index_to_ignore {
        Some(ignored) => ignored == index,
        None => false,
    };
    is_output(&trampoline.output_params[index]) && !ignored
}

/// Whether enough is known of the type of an output parameter.
fn is_mem_mode_known(env: &Env, param: &library::Parameter) -> (r: bool)
    ensures
        r == model::mem_mode_known(env@, param.typ, param.caller_allocates),
{
    match env.type_(param.typ) {
        Some(info) => {
            let needs_name = info.conversion_type == ConversionType::Pointer
                && param.caller_allocates;
            !needs_name || info.rust_type.is_some()
        },
        None => false,
    }
}

/// The declarations of the output variables.
fn output_variables(trampoline: &AsyncTrampoline, env: &Env) -> (r: String)
    requires
        model::outputs_known(trampoline@, env@),
    ensures
        r@ == model::output_variables(trampoline@, env@),
{
    let ghost all = trampoline@.output_params;
    let ghost f = model::output_variable(env@);
    let mut lines: Vec<String> = Vec::new();
    let mut i: usize = 0;
    assert(text::views(lines@) =~= all.take(0).filter_map(f));
    while i < trampoline.output_params.len()
        invariant
            i <= trampoline.output_params.len(),
            model::outputs_known(trampoline@, env@),
            all == trampoline@.output_params,
            f == model::output_variable(env@),
            text::views(lines@) == all.take(i as int).filter_map(f),
        decreases trampoline.output_params.len() - i,
    {
        let param = &trampoline.output_params[i];
        assert(all[i as int] == param@);
        proof {
            text::lemma_filter_map_step(all, f, i as int);
        }
        if is_output(param) {
            let mode = type_mem_mode(env, param);
            let start = mode_to_string(mode);
            let mut line = "let mut ".to_owned();
            line.append(param.name.as_str());
            line.append(" = ");
            line.append(start.as_str());
            line.append(";\n");
            proof {
                text::lemma_views_push(lines@, line);
            }
            lines.push(line);
        }
        i = i + 1;
    }
    assert(all.take(i as int) =~= all);
    text::join(&lines, "                ")
}

/// The output arguments of the finishing function.
fn output_arguments(trampoline: &AsyncTrampoline) -> (r: String)
    ensures
        r@ == model::output_arguments(trampoline@),
{
    let ghost all = trampoline@.output_params;
    let ghost f = model::output_argument();
    let mut args: Vec<String> = Vec::new();
    let mut i: usize = 0;
    assert(text::views(args@) =~= all.take(0).filter_map(f));
    while i < trampoline.output_params.len()
        invariant
            i <= trampoline.output_params.len(),
            all == trampoline@.output_params,
            f == model::output_argument(),
            text::views(args@) == all.take(i as int).filter_map(f),
        decreases trampoline.output_params.len() - i,
    {
        let param = &trampoline.output_params[i];
        assert(all[i as int] == param@);
        proof {
            text::lemma_filter_map_step(all, f, i as int);
        }
        if is_output(param) {
            let mut arg = "&mut ".to_owned();
            arg.append(param.name.as_str());
            arg.append(",");
            proof {
                text::lemma_views_push(args@, arg);
            }
            args.push(arg);
        }
        i = i + 1;
    }
    assert(all.take(i as int) =~= all);
    text::join(&args, " ")
}

/// What the variable of an out parameter holds before the call.
fn out_mem_mode(env: &Env, typ: TypeId, caller_allocates: bool, transfer: Transfer) -> (r:
    OutMemMode)
    requires
        model::mem_mode_known(env@, typ, caller_allocates),
    ensures
        r@ == model::mem_mode(env@, typ, caller_allocates, transfer),
{
    let info = env.type_(typ).unwrap();
    match info.conversion_type {
        ConversionType::Pointer => if caller_allocates {
            OutMemMode::UninitializedNamed(text::copy_option(&info.rust_type).unwrap())
        } else {
            match info.type_ {
                Type::Fundamental(Fundamental::Utf8) | Type::Fundamental(Fundamental::Filename) =>
                    if transfer == Transfer::Full {
                    OutMemMode::NullMutPtr
                } else {
                    OutMemMode::NullPtr
                },
                _ => OutMemMode::NullMutPtr,
            }
        },
        ConversionType::Other => OutMemMode::Uninitialized,
    }
}

/// What the variable of an out parameter of the C function holds before the call.
pub fn c_type_mem_mode(env: &Env, parameter: &AnalysisCParameter) -> (r: OutMemMode)
    requires
        model::mem_mode_known(env@, parameter.typ, parameter.caller_allocates),
    ensures
        r@ == model::mem_mode(
            env@,
            parameter.typ,
            parameter.caller_allocates,
            parameter.transfer,
        ),
{
    out_mem_mode(env, parameter.typ, parameter.caller_allocates, parameter.transfer)
}

/// What the variable of an output parameter holds before the finishing call.
pub fn type_mem_mode(env: &Env, parameter: &library::Parameter) -> (r: OutMemMode)
    requires
        model::mem_mode_known(env@, parameter.typ, parameter.caller_allocates),
    ensures
        r@ == model::mem_mode(
            env@,
            parameter.typ,
            parameter.caller_allocates,
            parameter.transfer,
        ),
{
    out_mem_mode(env, parameter.typ, parameter.caller_allocates, parameter.transfer)
}

/// The expression that an out variable starts with.
pub fn mode_to_string(mode: OutMemMode) -> (r: String)
    ensures
        r@ == model::mem_mode_text(mode@),
{
    match mode {
        OutMemMode::Uninitialized => "mem::uninitialized()".to_owned(),
        OutMemMode::NullMutPtr => "ptr::null_mut()".to_owned(),
        OutMemMode::UninitializedNamed(name) => name.concat("::uninitialized()"),
        OutMemMode::NullPtr => "ptr::null()".to_owned(),
    }
}

/// The name under which the C functions of a namespace are in scope.
pub fn crate_name(name: &str, env: &Env) -> (r: String)
    requires
        env@.namespaces.contains_key(name@),
    ensures
        r@ == model::ffi_crate(env@, name@),
{
    let namespace = env.find_namespace(name).unwrap();
    if namespace.id == env.main_namespace {
        return "ffi".to_owned();
    }
    namespace.crate_name.clone().concat("_ffi")
}

} // verus!
