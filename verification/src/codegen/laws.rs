//! What holds of every generated body.

use crate::analysis::function_parameters::{
    CParameterView, TransformationTypeView, TransformationView,
};
use crate::analysis::functions::AsyncTrampolineView;
use crate::analysis::out_parameters::Mode;
use crate::analysis::safety_assertion_mode::SafetyAssertionMode;
use crate::chunk::{ChunkView, TupleMode};
use crate::codegen::model;
use crate::codegen::model::{BuilderView, ParameterView};
use crate::env::{EnvView, TranslationKeyView};
use crate::library::TypeId;
use crate::text;
use vstd::prelude::*;

verus! {

/// A safety assertion stands before everything else in the body.
pub proof fn law_assertion_comes_first(b: BuilderView, env: EnvView)
    ensures
        b.assertion == SafetyAssertionMode::Skip ==> b.body(env).first()
            == ChunkView::AssertSkipInitialized,
        b.assertion == SafetyAssertionMode::InMainThread ==> b.body(env).first()
            == ChunkView::AssertInitializedAndInMainThread,
{
}

/// The unsafe block comes last, but for the name of the cancellable, which a
/// cancellable call hands back after it.
pub proof fn law_unsafe_block_comes_last(b: BuilderView, env: EnvView)
    ensures
        !b.cancellable ==> b.body(env).last() == ChunkView::Unsafe(model::unsafe_body(b)),
        b.cancellable ==> {
            let body = b.body(env);
            &&& body.len() >= 2
            &&& body[body.len() - 2] == ChunkView::Unsafe(model::unsafe_body(b))
            &&& body.last() == ChunkView::Name("cancellable"@)
        },
{
}

/// The name that a cancellable call hands back was bound to a new cancellable,
/// before anything but the assertion.
pub proof fn law_cancellable_is_bound(b: BuilderView, env: EnvView)
    requires
        b.cancellable,
    ensures
        b.body(env)[model::assertion_chunks(b.assertion).len() as int] == ChunkView::binding(
            "cancellable"@,
            false,
            ChunkView::New { name: "Cancellable"@ },
        ),
{
}

/// The environment matters to asynchronous functions only.
pub proof fn law_environment_is_for_trampolines(b: BuilderView, env1: EnvView, env2: EnvView)
    requires
        b.async_trampoline is None,
    ensures
        b.body(env1) == b.body(env2),
        b.complete(env1) == b.complete(env2),
{
}

/// Every out parameter gets its variable, declared in the unsafe block before
/// the call, and nothing else is declared there.
pub proof fn law_out_variables_are_declared(b: BuilderView)
    requires
        b.wf(),
    ensures
        ({
            let body = model::unsafe_body(b);
            let variables = b.parameters.filter_map(model::out_variable());
            &&& variables.len() < body.len()
            &&& body.take(variables.len() as int) == variables
            &&& body[variables.len() as int] == model::with_outs_mode(
                b.outs_mode,
                model::converted_call(b, model::call(b)),
                model::out_return(b),
            ).0
            &&& variables.len() == b.parameters.filter_map(model::out()).len()
            &&& forall|j: int|
                0 <= j < b.parameters.len() && #[trigger] b.parameters[j] is Out
                    ==> variables.contains(
                    ChunkView::binding(
                        b.parameters[j]->parameter.name,
                        true,
                        model::uninitialized(b.parameters[j]->mem_mode),
                    ),
                )
        }),
{
    let f = model::out_variable();
    let body = model::unsafe_body(b);
    let variables = b.parameters.filter_map(f);
    if !b.outs_as_return {
        if variables.len() > 0 {
            let j = text::lemma_filter_map_source(b.parameters, f, 0);
            assert(b.parameters[j] is Out);
        }
        assert(variables =~= Seq::empty());
    }
    assert(body.take(variables.len() as int) =~= variables);
    text::lemma_filter_map_same_len(b.parameters, f, model::out());
    assert forall|j: int| 0 <= j < b.parameters.len() && #[trigger] b.parameters[j] is Out implies
        variables.contains(
        ChunkView::binding(
            b.parameters[j]->parameter.name,
            true,
            model::uninitialized(b.parameters[j]->mem_mode),
        ),
    ) by {
        let i = text::lemma_filter_map_yields(b.parameters, f, j);
        assert(variables[i] == f(b.parameters[j])->0);
    }
}

/// Whether an out parameter is one whose value is handed back.
pub open spec fn is_handed_back(b: BuilderView, p: ParameterView) -> bool {
    p is Out && !p->parameter.is_error && !model::is_array_length(
        b.transformations,
        p->parameter.name,
    )
}

/// The values handed back are those of the out parameters, but never of the
/// error and never of the length of an array.
pub proof fn law_outs_are_handed_back(b: BuilderView)
    requires
        b.outs_as_return,
    ensures
        model::out_return(b) matches Some(ChunkView::Tuple(values, TupleMode::Auto)) && {
            &&& forall|i: int|
                0 <= i < values.len() ==> exists|j: int|
                    0 <= j < b.parameters.len() && is_handed_back(b, b.parameters[j])
                        && #[trigger] values[i] == model::returned_value(
                        b.transformations,
                        (#[trigger] b.parameters[j])->parameter,
                        b.parameters[j]->mem_mode,
                    )
            &&& forall|j: int|
                0 <= j < b.parameters.len() && is_handed_back(b, #[trigger] b.parameters[j])
                    ==> values.contains(
                    model::returned_value(
                        b.transformations,
                        b.parameters[j]->parameter,
                        b.parameters[j]->mem_mode,
                    ),
                )
        },
{
    let f = model::returned_out(b.transformations);
    let values = b.parameters.filter_map(f);
    assert forall|i: int| 0 <= i < values.len() implies exists|j: int|
        0 <= j < b.parameters.len() && is_handed_back(b, b.parameters[j]) && #[trigger] values[i]
            == model::returned_value(
            b.transformations,
            (#[trigger] b.parameters[j])->parameter,
            b.parameters[j]->mem_mode,
        ) by {
        let j = text::lemma_filter_map_source(b.parameters, f, i);
        assert(is_handed_back(b, b.parameters[j]));
    }
    assert forall|j: int|
        0 <= j < b.parameters.len() && is_handed_back(
            b,
            #[trigger] b.parameters[j],
        ) implies values.contains(
        model::returned_value(
            b.transformations,
            b.parameters[j]->parameter,
            b.parameters[j]->mem_mode,
        ),
    ) by {
        let i = text::lemma_filter_map_yields(b.parameters, f, j);
        assert(values[i] == f(b.parameters[j])->0);
    }
}

/// A builder without out parameters hands nothing back after the call, which
/// is then the value of the body.
pub proof fn law_no_outs_no_return(b: BuilderView)
    requires
        b.wf(),
        b.outs_mode == Mode::NoOuts || b.outs_mode == Mode::Normal,
        forall|j: int| 0 <= j < b.parameters.len() ==> !(#[trigger] b.parameters[j] is Out),
    ensures
        model::unsafe_body(b) == seq![model::converted_call(b, model::call(b))],
{
    assert(model::unsafe_body(b) =~= seq![model::converted_call(b, model::call(b))]);
}

/// Where the return value decides whether the out parameters come back, it is
/// bound first, and nothing else is handed back.
pub proof fn law_optional_binds_its_condition(b: BuilderView)
    requires
        b.outs_mode == Mode::Optional,
        b.outs_as_return,
    ensures
        ({
            let body = model::unsafe_body(b);
            &&& body.len() >= 2
            &&& body[body.len() - 2] == ChunkView::binding(
                "ret"@,
                false,
                model::converted_call(b, model::call(b)),
            )
            &&& body.last() == ChunkView::OptionalReturn {
                condition: "ret"@,
                value: Box::new(model::out_return(b)->0),
            }
        }),
{
}

/// Where the return value comes together with the out parameters, it comes
/// first, and was bound before.
pub proof fn law_combined_starts_with_the_return_value(b: BuilderView)
    requires
        b.outs_mode == Mode::Combined,
        b.outs_as_return,
    ensures
        ({
            let body = model::unsafe_body(b);
            &&& body.len() >= 2
            &&& body[body.len() - 2] == ChunkView::binding(
                "ret"@,
                false,
                model::converted_call(b, model::call(b)),
            )
            &&& body.last() == ChunkView::Tuple(
                seq![ChunkView::Custom("ret"@)] + model::out_return(b)->0->Tuple_0,
                TupleMode::Auto,
            )
        }),
{
}

/// A function that can fail hands back an error result. Its call is bound
/// unconverted. The return value, where it is used, is converted only in the
/// result, and comes before the out parameters; where it is not used, only the
/// out parameters are in the result.
pub proof fn law_throws_hands_back_a_result(b: BuilderView, use_ret: bool)
    requires
        b.outs_mode == Mode::Throws(use_ret),
        b.outs_as_return,
    ensures
        ({
            let body = model::unsafe_body(b);
            let outs = model::out_return(b)->0->Tuple_0;
            &&& body.len() >= 2
            &&& use_ret ==> body[body.len() - 2] == ChunkView::binding(
                "ret"@,
                false,
                model::call(b),
            )
            &&& !use_ret ==> body[body.len() - 2] == ChunkView::binding("_"@, false, model::call(b))
            &&& use_ret ==> body.last() == ChunkView::ErrorResultReturn {
                value: Box::new(
                    ChunkView::Tuple(
                        seq![model::converted_call(b, ChunkView::Custom("ret"@))] + outs,
                        TupleMode::WithUnit,
                    ),
                ),
            }
            &&& !use_ret ==> body.last() == ChunkView::ErrorResultReturn {
                value: Box::new(ChunkView::Tuple(outs, TupleMode::WithUnit)),
            }
        }),
{
}

/// The arguments of the call follow the transformations: those of two lists of
/// transformations in a row are those of the first, then those of the second.
pub proof fn law_arguments_follow_transformations(
    b: BuilderView,
    first: Seq<TransformationView>,
    second: Seq<TransformationView>,
)
    ensures
        ({
            let arguments = |ts: Seq<TransformationView>|
                model::call(BuilderView { transformations: ts, ..b })->FfiCall_params;
            arguments(first + second) == arguments(first) + arguments(second)
        }),
{
    text::lemma_filter_map_concat(first, second, model::call_parameter(b.parameters));
}

/// Every argument that is converted with `into` is rebound before the unsafe
/// block, and where it is stashed, the stash comes right after.
pub proof fn law_into_arguments_are_bound(b: BuilderView, env: EnvView, j: int) -> (i: int)
    requires
        0 <= j < b.transformations.len(),
        b.transformations[j].transformation_type is Into,
    ensures
        ({
            let body = b.body(env);
            let block = body.len() - 1 - model::cancellable_name(b.cancellable).len();
            let name = b.transformations[j].transformation_type->Into_name;
            let with_stash = b.transformations[j].transformation_type->with_stash;
            &&& body[block] is Unsafe
            &&& 0 <= i < block
            &&& body[i] == ChunkView::binding(name, false, ChunkView::Custom(name + ".into()"@))
            &&& with_stash ==> i + 1 < block && body[i + 1] == ChunkView::binding(
                name,
                false,
                ChunkView::Custom(name + ".to_glib_none()"@),
            )
        }),
{
    let f = model::into_conversion();
    let k = text::lemma_flat_map_yields(b.transformations, f, j);
    let bound = f(b.transformations[j]);
    let all = b.transformations.flat_map(f);
    assert(all.subrange(k, k + bound.len())[0] == bound[0]);
    if b.transformations[j].transformation_type->with_stash {
        assert(all.subrange(k, k + bound.len())[1] == bound[1]);
    }
    let offset = model::assertion_chunks(b.assertion).len() + model::cancellable_binding(
        b.cancellable,
    ).len();
    offset + k
}

/// The length of every array that is passed in is bound before the unsafe block.
pub proof fn law_in_array_lengths_are_bound(b: BuilderView, env: EnvView, j: int) -> (i: int)
    requires
        0 <= j < b.transformations.len(),
        b.transformations[j].transformation_type is Length,
        b.parameters[b.transformations[j].ind_c as int] is In,
    ensures
        ({
            let body = b.body(env);
            let block = body.len() - 1 - model::cancellable_name(b.cancellable).len();
            let t = b.transformations[j].transformation_type;
            &&& body[block] is Unsafe
            &&& 0 <= i < block
            &&& body[i] == ChunkView::binding(
                t->array_length_name,
                false,
                ChunkView::Custom(t->array_name + ".len() as "@ + t->array_length_type),
            )
        }),
{
    let f = model::in_array_length(b.parameters);
    let k = text::lemma_filter_map_yields(b.transformations, f, j);
    let offset = model::assertion_chunks(b.assertion).len() + model::cancellable_binding(
        b.cancellable,
    ).len() + b.transformations.flat_map(model::into_conversion()).len();
    offset + k
}

/// The array length that is found for a name is one that a transformation gives
/// for it, and one is found wherever there is one.
pub proof fn law_array_length_name_is_found(transformations: Seq<TransformationView>, name: Seq<char>)
    ensures
        model::array_length_name(transformations, name) is Some <==> exists|j: int|
            0 <= j < transformations.len() && model::length_name_for(name)(
                #[trigger] transformations[j],
            ) is Some,
        model::array_length_name(transformations, name) matches Some(found)
            ==> model::is_array_length(transformations, found),
{
    let f = model::length_name_for(name);
    let names = transformations.filter_map(f);
    if names.len() > 0 {
        let j = text::lemma_filter_map_source(transformations, f, 0);
        assert(f(transformations[j]) is Some);
        assert(transformations[j].transformation_type is Length);
    }
    if exists|j: int| 0 <= j < transformations.len() && f(#[trigger] transformations[j]) is Some {
        let j = choose|j: int|
            0 <= j < transformations.len() && f(#[trigger] transformations[j]) is Some;
        let i = text::lemma_filter_map_yields(transformations, f, j);
    }
}

/// The trampoline passes as many variables as it declares.
pub proof fn law_as_many_outputs_declared_as_passed(t: AsyncTrampolineView, env: EnvView)
    ensures
        t.output_params.filter_map(model::output_variable(env)).len()
            == t.output_params.filter_map(model::output_argument()).len(),
{
    text::lemma_filter_map_same_len(
        t.output_params,
        model::output_variable(env),
        model::output_argument(),
    );
}

/// The variable that the trampoline passes at a place is the one that it
/// declares at the same place.
pub proof fn law_outputs_are_passed_as_declared(t: AsyncTrampolineView, env: EnvView, i: int) -> (j:
    int)
    requires
        0 <= i < t.output_params.filter_map(model::output_variable(env)).len(),
    ensures
        0 <= j < t.output_params.len(),
        model::is_output(t.output_params[j]),
        model::output_variable(env)(t.output_params[j]) == Some(
            t.output_params.filter_map(model::output_variable(env))[i],
        ),
        model::output_argument()(t.output_params[j]) == Some(
            t.output_params.filter_map(model::output_argument())[i],
        ),
{
    text::lemma_filter_map_same_source(
        t.output_params,
        model::output_variable(env),
        model::output_argument(),
        i,
    )
}

/// Every value of the result is that of a variable that the trampoline
/// declares: never the error, and never the parameter to be ignored.
pub proof fn law_result_values_are_declared(t: AsyncTrampolineView, env: EnvView, i: int) -> (j: int)
    requires
        0 <= i < model::indices(t.output_params.len()).filter_map(
            model::result_value(t, env),
        ).len(),
    ensures
        0 <= j < t.output_params.len(),
        model::output_variable(env)(t.output_params[j]) is Some,
        t.output_params[j].name != "error"@,
        t.index_to_ignore matches Some(ignored) ==> ignored != j,
        model::indices(t.output_params.len()).filter_map(model::result_value(t, env))[i]
            == env.translations[model::translation_key(t, j)].prefix + t.output_params[j].name
            + env.translations[model::translation_key(t, j)].suffix,
{
    let f = model::result_value(t, env);
    let all = model::indices(t.output_params.len());
    let k = text::lemma_filter_map_source(all, f, i);
    assert(all[k] == k);
    assert(f(k) is Some);
    k
}

/// An environment that holds the needed translations lacks none: a trampoline
/// is complete exactly if, besides, its types and namespaces are known and its
/// lengths are in range.
pub proof fn law_needed_translations_suffice(t: AsyncTrampolineView, env: EnvView)
    ensures
        model::trampoline_complete(t, env) <==> {
            &&& model::lengths_in_range(t)
            &&& env.namespaces.contains_key("Gio"@)
            &&& env.namespaces.contains_key("GObject"@)
            &&& env.namespaces.contains_key("GLib"@)
            &&& model::outputs_known(t, env)
            &&& forall|k: int|
                0 <= k < model::needed_translations(Some(t)).len()
                    ==> env.translations.contains_key(
                    #[trigger] model::needed_translations(Some(t))[k],
                )
        },
{
    let f = model::result_key(t);
    let all = model::indices(t.output_params.len());
    let needed = model::needed_translations(Some(t));
    if model::trampoline_complete(t, env) {
        assert forall|k: int| 0 <= k < needed.len() implies env.translations.contains_key(
            #[trigger] needed[k],
        ) by {
            let j = text::lemma_filter_map_source(all, f, k);
            assert(all[j] == j);
            assert(model::is_result(t, j));
        }
    }
    if forall|k: int|
        0 <= k < needed.len() ==> env.translations.contains_key(#[trigger] needed[k]) {
        assert forall|j: int|
            0 <= j < t.output_params.len() && #[trigger] model::is_result(
                t,
                j,
            ) implies env.translations.contains_key(model::translation_key(t, j)) by {
            assert(all[j] == j);
            let k = text::lemma_filter_map_yields(all, f, j);
            assert(needed[k] == model::translation_key(t, j));
        }
    }
}

/// A builder that keeps the rule on out parameters and has some is ready for
/// every mode: the mode never asks for more than an out parameter.
pub proof fn law_any_mode_with_outs(b: BuilderView, env: EnvView, mode: Mode)
    requires
        b.wf(),
        b.complete(env),
        exists|j: int| 0 <= j < b.parameters.len() && #[trigger] b.parameters[j] is Out,
    ensures
        (BuilderView { outs_mode: mode, ..b }).complete(env),
{
}

/// Parameters that are added leave those that were there in their places: a
/// builder that is complete stays so.
pub proof fn law_more_parameters_stay_complete(
    b: BuilderView,
    env: EnvView,
    parameter: CParameterView,
    parameter_env: EnvView,
)
    requires
        b.complete(env),
    ensures
        (BuilderView { parameters: b.parameters.push(ParameterView::In), ..b }).complete(env),
        b.with_out_parameter(parameter_env, parameter).complete(env),
{
}

/// It does not matter whether a setting is made before or after a parameter
/// was added.
pub proof fn law_settings_and_parameters_commute(
    b: BuilderView,
    settings: BuilderView,
    env: EnvView,
    parameter: CParameterView,
)
    ensures
        ({
            let set = |x: BuilderView|
                BuilderView {
                    parameters: x.parameters,
                    outs_as_return: x.outs_as_return,
                    ..settings
                };
            set(b.with_out_parameter(env, parameter)) == set(b).with_out_parameter(env, parameter)
        }),
{
}

/// Whether `larger` answers every lookup that `env` answers, and in the same way.
pub open spec fn extends(larger: EnvView, env: EnvView) -> bool {
    &&& forall|typ: TypeId| #[trigger]
        env.types.contains_key(typ) ==> larger.types.contains_key(typ) && larger.types[typ]
            == env.types[typ]
    &&& forall|name: Seq<char>| #[trigger]
        env.namespaces.contains_key(name) ==> larger.namespaces.contains_key(name)
            && larger.namespaces[name] == env.namespaces[name]
    &&& forall|key: TranslationKeyView| #[trigger]
        env.translations.contains_key(key) ==> larger.translations.contains_key(key)
            && larger.translations[key] == env.translations[key]
    &&& env.main_namespace == larger.main_namespace
}

/// What an environment holds beyond what a body needs changes nothing.
pub proof fn law_larger_environment_changes_nothing(b: BuilderView, env: EnvView, larger: EnvView)
    requires
        b.complete(env),
        extends(larger, env),
    ensures
        b.complete(larger),
        b.body(larger) == b.body(env),
{
    if b.async_trampoline is Some {
        let t = b.async_trampoline->0;
        assert forall|i: int| 0 <= i < t.output_params.len() implies model::output_variable(env)(
            #[trigger] t.output_params[i],
        ) == model::output_variable(larger)(t.output_params[i]) by {
            if model::is_output(t.output_params[i]) {
                assert(env.types.contains_key(t.output_params[i].typ));
            }
        }
        text::lemma_filter_map_agree(
            t.output_params,
            model::output_variable(env),
            model::output_variable(larger),
        );
        let all = model::indices(t.output_params.len());
        assert forall|i: int| 0 <= i < all.len() implies model::result_value(t, env)(
            #[trigger] all[i],
        ) == model::result_value(t, larger)(all[i]) by {
            assert(all[i] == i);
            if model::is_result(t, i) {
                assert(env.translations.contains_key(model::translation_key(t, i)));
            }
        }
        text::lemma_filter_map_agree(
            all,
            model::result_value(t, env),
            model::result_value(t, larger),
        );
        assert(model::trampoline_text(t, larger) == model::trampoline_text(t, env));
    }
}

/// A mode cannot be applied exactly where it needs what is handed back and
/// there is nothing, or where an error result would be made of anything but a
/// converted call and a tuple.
pub proof fn law_when_an_outs_mode_applies(mode: Mode, call: ChunkView, ret: Option<ChunkView>)
    ensures
        !model::outs_mode_applies(mode, call, ret) <==> {
            ||| (mode is Optional || mode is Combined || mode is Throws) && ret is None
            ||| mode is Throws && (!(call is FfiCallConversion) || !(ret matches Some(
                ChunkView::Tuple(..),
            )))
        },
{
}

/// The two modes of a function that can fail make, of any one call and any one
/// tuple, results that differ only in the name that is bound and in one value
/// before all others.
pub proof fn law_throws_modes_differ_in_the_return_value(call: ChunkView, ret: Option<ChunkView>)
    requires
        model::outs_mode_applies(Mode::Throws(true), call, ret),
    ensures
        model::outs_mode_applies(Mode::Throws(false), call, ret),
        ({
            let (used_call, used_ret) = model::with_outs_mode(Mode::Throws(true), call, ret);
            let (unused_call, unused_ret) = model::with_outs_mode(Mode::Throws(false), call, ret);
            let bound = *call->FfiCallConversion_call;
            let values = ret->0->Tuple_0;
            let first = ChunkView::FfiCallConversion {
                ret: call->ret,
                array_length_name: call->FfiCallConversion_array_length_name,
                call: Box::new(ChunkView::Custom("ret"@)),
            };
            let result = |values: Seq<ChunkView>|
                Some(
                    ChunkView::ErrorResultReturn {
                        value: Box::new(ChunkView::Tuple(values, TupleMode::WithUnit)),
                    },
                );
            &&& used_call == ChunkView::binding("ret"@, false, bound)
            &&& unused_call == ChunkView::binding("_"@, false, bound)
            &&& used_ret == result(seq![first] + values)
            &&& unused_ret == result(values)
        }),
{
}

/// One more array length, of an array without a name, leaves the names that
/// are found for other arrays as they are.
proof fn lemma_one_more_length(
    transformations: Seq<TransformationView>,
    length: TransformationView,
    name: Seq<char>,
)
    requires
        length.transformation_type is Length,
        length.transformation_type->array_name == ""@,
    ensures
        name != ""@ || model::array_length_name(transformations, ""@) is Some
            ==> model::array_length_name(transformations.push(length), name)
            == model::array_length_name(transformations, name),
        model::is_array_length(transformations.push(length), name) <==> model::is_array_length(
            transformations,
            name,
        ) || name == length.transformation_type->array_length_name,
{
    let more = transformations.push(length);
    let f = model::length_name_for(name);
    let n = transformations.len() as int;
    assert(more.take(n) =~= transformations);
    assert(more.take(n + 1) =~= more);
    text::lemma_filter_map_step(more, f, n);
    if model::is_array_length(transformations, name) {
        let i = choose|i: int|
            0 <= i < transformations.len() && (
            #[trigger] transformations[i].transformation_type matches
                TransformationTypeView::Length { array_length_name, .. } && array_length_name
                == name);
        assert(more[i].transformation_type is Length);
    }
    if name == length.transformation_type->array_length_name {
        assert(more[n].transformation_type is Length);
    }
    if model::is_array_length(more, name) {
        let i = choose|i: int|
            0 <= i < more.len() && (#[trigger] more[i].transformation_type matches
                TransformationTypeView::Length { array_length_name, .. } && array_length_name
                == name);
        if i < n {
            assert(transformations[i].transformation_type is Length);
        }
    }
}

/// Once the out parameter at `j` is known as the length of an array without a
/// name, its value, and no other, is gone from what is handed back: the others
/// stay, in their order. This holds where no other value that is handed back
/// has the same name, or takes its own length from that of the nameless array.
pub proof fn law_one_more_length_removes_one_value(
    b: BuilderView,
    j: int,
    length: TransformationView,
) -> (i: int)
    requires
        b.outs_as_return,
        0 <= j < b.parameters.len(),
        is_handed_back(b, b.parameters[j]),
        length.transformation_type is Length,
        length.transformation_type->array_name == ""@,
        length.transformation_type->array_length_name == b.parameters[j]->parameter.name,
        forall|k: int|
            0 <= k < b.parameters.len() && k != j && is_handed_back(b, #[trigger] b.parameters[k])
                ==> {
                &&& b.parameters[k]->parameter.name != b.parameters[j]->parameter.name
                &&& b.parameters[k]->parameter.name == ""@ ==> b.parameters[k]->mem_mode is
                    UninitializedNamed || model::array_length_name(
                    b.transformations,
                    ""@,
                ) is Some
            },
    ensures
        ({
            let more = BuilderView { transformations: b.transformations.push(length), ..b };
            let values = model::out_return(b)->0->Tuple_0;
            &&& 0 <= i < values.len()
            &&& i == b.parameters.take(j).filter_map(
                model::returned_out(b.transformations),
            ).len()
            &&& values[i] == model::returned_value(
                b.transformations,
                b.parameters[j]->parameter,
                b.parameters[j]->mem_mode,
            )
            &&& model::out_return(more) == Some(ChunkView::Tuple(values.remove(i), TupleMode::Auto))
        }),
{
    let f = model::returned_out(b.transformations);
    let g = model::returned_out(b.transformations.push(length));
    let before = b.parameters.take(j);
    let p = seq![b.parameters[j]];
    let after = b.parameters.skip(j + 1);
    assert(b.parameters =~= before + p + after);
    text::lemma_filter_map_concat(before + p, after, f);
    text::lemma_filter_map_concat(before, p, f);
    text::lemma_filter_map_concat(before + p, after, g);
    text::lemma_filter_map_concat(before, p, g);
    assert forall|k: int| 0 <= k < b.parameters.len() && k != j implies f(
        #[trigger] b.parameters[k],
    ) == g(b.parameters[k]) by {
        if b.parameters[k] is Out {
            lemma_one_more_length(
                b.transformations,
                length,
                b.parameters[k]->parameter.name,
            );
            assert(is_handed_back(b, b.parameters[k]) || f(b.parameters[k]) is None);
        }
    }
    assert forall|k: int| 0 <= k < before.len() implies f(#[trigger] before[k]) == g(before[k]) by {
        assert(before[k] == b.parameters[k]);
    }
    assert forall|k: int| 0 <= k < after.len() implies f(#[trigger] after[k]) == g(after[k]) by {
        assert(after[k] == b.parameters[k + j + 1]);
    }
    text::lemma_filter_map_agree(before, f, g);
    text::lemma_filter_map_agree(after, f, g);
    lemma_one_more_length(b.transformations, length, b.parameters[j]->parameter.name);
    assert(g(b.parameters[j]) is None);
    text::lemma_filter_map_step(p, f, 0);
    text::lemma_filter_map_step(p, g, 0);
    assert(p.take(1) =~= p);
    assert(p.take(0) =~= Seq::empty());
    assert(p.filter_map(f) =~= seq![f(b.parameters[j])->0]);
    assert(p.filter_map(g) =~= Seq::empty());
    let i = before.filter_map(f).len() as int;
    let values = b.parameters.filter_map(f);
    assert(b.parameters.filter_map(g) =~= values.remove(i));
    i
}

/// The bindings that convert arguments with `into` come after what was there,
/// one for each such argument and one more for each that is stashed. Where
/// there is no such argument nothing is added.
pub proof fn law_into_bindings_are_counted(
    transformations: Seq<TransformationView>,
    chunks: Seq<ChunkView>,
)
    ensures
        ({
            let all = chunks + transformations.flat_map(model::into_conversion());
            let intos = transformations.filter(model::is_into()).len();
            let stashes = transformations.filter(model::is_stash()).len();
            &&& all.len() == chunks.len() + intos + stashes
            &&& all.take(chunks.len() as int) == chunks
            &&& intos == 0 ==> all == chunks
        }),
    decreases transformations.len(),
{
    reveal(Seq::filter);
    let f = model::into_conversion();
    let all = chunks + transformations.flat_map(f);
    assert(all.take(chunks.len() as int) =~= chunks);
    if transformations.len() == 0 {
        assert(transformations.map_values(f) =~= Seq::empty());
        assert(all =~= chunks);
    } else {
        let n = (transformations.len() - 1) as int;
        let before = transformations.drop_last();
        assert(transformations.take(n) =~= before);
        assert(transformations.take(n + 1) =~= transformations);
        transformations.lemma_flat_map_take_append(f, n);
        law_into_bindings_are_counted(before, chunks);
        assert(f(transformations[n]).len() == (if model::is_into()(transformations[n]) {
            1int
        } else {
            0
        }) + (if model::is_stash()(transformations[n]) {
            1int
        } else {
            0
        }));
        if transformations.filter(model::is_into()).len() == 0 {
            assert(f(transformations[n]) =~= Seq::empty());
            assert(all =~= chunks + before.flat_map(f));
        }
    }
}

/// The arguments of the call are those of the transformations that yield one,
/// one for each and in their order. The other transformations make no
/// difference, and without any that yields one the call has no arguments.
pub proof fn law_other_transformations_yield_no_argument(b: BuilderView)
    ensures
        ({
            let yielding = b.transformations.filter(model::is_to_glib());
            let arguments = model::call(b)->FfiCall_params;
            &&& model::call(BuilderView { transformations: yielding, ..b }) == model::call(b)
            &&& arguments.len() == yielding.len()
            &&& forall|k: int|
                0 <= k < yielding.len() ==> #[trigger] arguments[k] == (
                match b.parameters[yielding[k].ind_c as int] {
                    ParameterView::In => ChunkView::FfiCallParameter {
                        transformation_type: yielding[k].transformation_type,
                    },
                    ParameterView::Out { parameter, .. } => ChunkView::FfiCallOutParameter {
                        par: parameter,
                    },
                })
            &&& (forall|j: int|
                0 <= j < b.transformations.len() ==> !(
                #[trigger] b.transformations[j]).is_to_glib) ==> arguments == Seq::<
                ChunkView,
            >::empty()
        }),
{
    let f = model::call_parameter(b.parameters);
    let keep = model::is_to_glib();
    let yielding = b.transformations.filter(keep);
    let arguments = b.transformations.filter_map(f);
    text::lemma_filter_map_of_filter(b.transformations, keep, f);
    assert forall|k: int| 0 <= k < yielding.len() implies #[trigger] arguments[k] == (
    match b.parameters[yielding[k].ind_c as int] {
        ParameterView::In => ChunkView::FfiCallParameter {
            transformation_type: yielding[k].transformation_type,
        },
        ParameterView::Out { parameter, .. } => ChunkView::FfiCallOutParameter { par: parameter },
    }) by {
        assert(f(yielding[k]) == Some(arguments[k]));
    }
    if arguments.len() > 0 {
        let j = text::lemma_filter_map_source(b.transformations, f, 0);
        assert(b.transformations[j].is_to_glib);
    } else {
        assert(arguments =~= Seq::empty());
    }
}

/// The out parameters but for the error are the out parameters, in their order,
/// of which the errors were left out: none are left out exactly if there is no
/// error among them.
pub proof fn law_outs_without_error_are_outs(parameters: Seq<ParameterView>)
    ensures
        parameters.filter_map(model::out_without_error()) == parameters.filter_map(
            model::out(),
        ).filter(model::not_error()),
        parameters.filter_map(model::out_without_error()) == parameters.filter_map(model::out())
            <==> forall|j: int|
            0 <= j < parameters.len() && #[trigger] parameters[j] is Out
                ==> !parameters[j]->parameter.is_error,
{
    let f = model::out();
    let g = model::out_without_error();
    text::lemma_filter_after_filter_map(parameters, f, model::not_error(), g);
    if forall|j: int|
        0 <= j < parameters.len() && #[trigger] parameters[j] is Out
            ==> !parameters[j]->parameter.is_error {
        text::lemma_filter_map_agree(parameters, f, g);
    }
    if parameters.filter_map(g) == parameters.filter_map(f) {
        assert forall|j: int|
            0 <= j < parameters.len()
                && #[trigger] parameters[j] is Out implies !parameters[j]->parameter.is_error by {
            let i = text::lemma_filter_map_yields(parameters, f, j);
            model::lemma_without_error(parameters, i);
        }
    }
}

} // verus!
