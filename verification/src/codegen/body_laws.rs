//! What stands where in a generated body, said of the body itself and of what
//! the builder was given.

use crate::analysis::conversion_type::ConversionType;
use crate::analysis::function_parameters::{
    CParameterView, TransformationTypeView, TransformationView,
};
use crate::analysis::out_parameters::Mode;
use crate::analysis::safety_assertion_mode::SafetyAssertionMode;
use crate::chunk::conversion_from_glib;
use crate::chunk::{ChunkView, TupleMode};
use crate::codegen::model;
use crate::codegen::model::{BuilderView, OutMemModeView, ParameterView};
use crate::env::EnvView;
use crate::library::{Fundamental, Transfer, Type};
use crate::text;
use vstd::prelude::*;

verus! {

// ---- The parts of a body ----

/// A binding without a type.
pub open spec fn bound(name: Seq<char>, is_mut: bool, value: ChunkView) -> ChunkView {
    ChunkView::Let { name, is_mut, value: Box::new(value), type_: None }
}

/// Where the unsafe block stands: last, but for the name of a cancellable.
pub open spec fn block_index(b: BuilderView, env: EnvView) -> int {
    b.body(env).len() - (if b.cancellable {
        2int
    } else {
        1int
    })
}

/// What stands before the unsafe block.
pub open spec fn before_block(b: BuilderView, env: EnvView) -> Seq<ChunkView> {
    b.body(env).take(block_index(b, env))
}

/// What stands in the unsafe block.
pub open spec fn block(b: BuilderView, env: EnvView) -> Seq<ChunkView> {
    b.body(env)[block_index(b, env)]->Unsafe_0
}

/// The builder with other transformations.
pub open spec fn with_transformations(b: BuilderView, ts: Seq<TransformationView>) -> BuilderView {
    BuilderView { transformations: ts, ..b }
}

proof fn lemma_parts(b: BuilderView, env: EnvView)
    ensures
        0 <= block_index(b, env) < b.body(env).len(),
        b.body(env)[block_index(b, env)] is Unsafe,
        before_block(b, env) == model::assertion_chunks(b.assertion) + model::cancellable_binding(
            b.cancellable,
        ) + b.transformations.flat_map(model::into_conversion()) + b.transformations.filter_map(
            model::in_array_length(b.parameters),
        ) + model::trampoline_chunks(b.async_trampoline, env),
        block(b, env) == model::unsafe_body(b),
{
    assert(before_block(b, env) =~= model::assertion_chunks(b.assertion)
        + model::cancellable_binding(b.cancellable) + b.transformations.flat_map(
        model::into_conversion(),
    ) + b.transformations.filter_map(model::in_array_length(b.parameters))
        + model::trampoline_chunks(b.async_trampoline, env));
}

/// A body holds exactly one unsafe block at its own level, at the end; only the
/// name of a cancellable follows it.
pub proof fn law_block_is_at_the_end(b: BuilderView, env: EnvView)
    ensures
        0 <= block_index(b, env) < b.body(env).len(),
        b.body(env)[block_index(b, env)] is Unsafe,
        b.cancellable ==> b.body(env).last() == ChunkView::Name("cancellable"@),
        forall|i: int|
            0 <= i < b.body(env).len() && #[trigger] b.body(env)[i] is Unsafe ==> i == block_index(
                b,
                env,
            ),
{
    lemma_parts(b, env);
    let body = b.body(env);
    let lets = b.transformations.flat_map(model::into_conversion());
    let lengths = b.transformations.filter_map(model::in_array_length(b.parameters));
    assert forall|i: int| 0 <= i < body.len() && #[trigger] body[i] is Unsafe implies i
        == block_index(b, env) by {
        if i < block_index(b, env) {
            let start = model::assertion_chunks(b.assertion).len() + model::cancellable_binding(
                b.cancellable,
            ).len();
            assert(before_block(b, env)[i] == body[i]);
            if start <= i < start + lets.len() {
                lemma_into_chunks_are_bindings(b.transformations, i - start);
            } else if start + lets.len() <= i < start + lets.len() + lengths.len() {
                let j = text::lemma_filter_map_source(
                    b.transformations,
                    model::in_array_length(b.parameters),
                    i - start - lets.len(),
                );
            }
        }
    }
}

proof fn lemma_into_chunks_are_bindings(ts: Seq<TransformationView>, i: int)
    requires
        0 <= i < ts.flat_map(model::into_conversion()).len(),
    ensures
        ts.flat_map(model::into_conversion())[i] is Let,
    decreases ts.len(),
{
    let f = model::into_conversion();
    if ts.len() == 0 {
        assert(ts.map_values(f) =~= Seq::empty());
    } else {
        let n = (ts.len() - 1) as int;
        ts.lemma_flat_map_take_append(f, n);
        assert(ts.take(n + 1) =~= ts);
        if i < ts.take(n).flat_map(f).len() {
            lemma_into_chunks_are_bindings(ts.take(n), i);
        }
    }
}

// ---- Before the unsafe block ----

/// Without transformations and without a callback, only the assertion and then
/// the new cancellable stand before the unsafe block.
pub proof fn law_nothing_else_before_the_block(b: BuilderView, env: EnvView)
    requires
        b.transformations.len() == 0,
        b.async_trampoline is None,
    ensures
        b.assertion == SafetyAssertionMode::Absent && !b.cancellable ==> before_block(b, env)
            == Seq::<ChunkView>::empty(),
        b.assertion == SafetyAssertionMode::Skip && !b.cancellable ==> before_block(b, env)
            == seq![ChunkView::AssertSkipInitialized],
        b.assertion == SafetyAssertionMode::InMainThread && !b.cancellable ==> before_block(b, env)
            == seq![ChunkView::AssertInitializedAndInMainThread],
        b.cancellable ==> before_block(b, env) == before_block(
            BuilderView { cancellable: false, ..b },
            env,
        ).push(bound("cancellable"@, false, ChunkView::New { name: "Cancellable"@ })),
{
    lemma_parts(b, env);
    let plain = BuilderView { cancellable: false, ..b };
    lemma_parts(plain, env);
    assert(b.transformations.map_values(model::into_conversion()) =~= Seq::empty());
    assert(b.cancellable ==> before_block(b, env) =~= before_block(plain, env).push(
        bound("cancellable"@, false, ChunkView::New { name: "Cancellable"@ }),
    ));
}

/// An argument that is converted with `into`, after others of its kind, adds
/// its binding, and the stash if there is one, at the end.
pub proof fn law_next_into_is_bound_next(b: BuilderView, env: EnvView, t: TransformationView)
    requires
        b.async_trampoline is None,
        forall|j: int|
            0 <= j < b.transformations.len() ==> !((
            #[trigger] b.transformations[j]).transformation_type is Length),
        t.transformation_type is Into,
    ensures
        ({
            let name = t.transformation_type->Into_name;
            let into = bound(name, false, ChunkView::Custom(name + ".into()"@));
            let stash = bound(name, false, ChunkView::Custom(name + ".to_glib_none()"@));
            let before = before_block(b, env);
            let after = before_block(with_transformations(b, b.transformations.push(t)), env);
            &&& !t.transformation_type->with_stash ==> after == before.push(into)
            &&& t.transformation_type->with_stash ==> after == before.push(into).push(stash)
        }),
{
    let ts = b.transformations.push(t);
    let more = with_transformations(b, ts);
    lemma_parts(b, env);
    lemma_parts(more, env);
    b.transformations.lemma_flat_map_push(model::into_conversion(), t);
    lemma_no_lengths(b.transformations, b.parameters);
    assert forall|j: int| 0 <= j < ts.len() implies !((#[trigger] ts[j]).transformation_type is
        Length) by {
        if j < b.transformations.len() {
            assert(ts[j] == b.transformations[j]);
        }
    }
    lemma_no_lengths(ts, b.parameters);
    let name = t.transformation_type->Into_name;
    let into = bound(name, false, ChunkView::Custom(name + ".into()"@));
    let stash = bound(name, false, ChunkView::Custom(name + ".to_glib_none()"@));
    if t.transformation_type->with_stash {
        assert(before_block(more, env) =~= before_block(b, env).push(into).push(stash));
    } else {
        assert(before_block(more, env) =~= before_block(b, env).push(into));
    }
}

proof fn lemma_no_lengths(ts: Seq<TransformationView>, parameters: Seq<ParameterView>)
    requires
        forall|j: int|
            0 <= j < ts.len() ==> !((#[trigger] ts[j]).transformation_type is Length),
    ensures
        ts.filter_map(model::in_array_length(parameters)) == Seq::<ChunkView>::empty(),
{
    let f = model::in_array_length(parameters);
    if ts.filter_map(f).len() > 0 {
        let j = text::lemma_filter_map_source(ts, f, 0);
        assert(ts[j].transformation_type is Length);
    }
    assert(ts.filter_map(f) =~= Seq::empty());
}

/// The length of an array that is passed in adds its binding at the end.
pub proof fn law_next_in_length_is_bound_last(b: BuilderView, env: EnvView, t: TransformationView)
    requires
        b.async_trampoline is None,
        t.transformation_type is Length,
        t.ind_c < b.parameters.len(),
        b.parameters[t.ind_c as int] is In,
    ensures
        before_block(with_transformations(b, b.transformations.push(t)), env) == before_block(
            b,
            env,
        ).push(
            bound(
                t.transformation_type->array_length_name,
                false,
                ChunkView::Custom(
                    t.transformation_type->array_name + ".len() as "@
                        + t.transformation_type->array_length_type,
                ),
            ),
        ),
{
    let ts = b.transformations.push(t);
    let more = with_transformations(b, ts);
    let f = model::in_array_length(b.parameters);
    let n = b.transformations.len() as int;
    lemma_parts(b, env);
    lemma_parts(more, env);
    b.transformations.lemma_flat_map_push(model::into_conversion(), t);
    text::lemma_filter_map_step(ts, f, n);
    assert(ts.take(n) =~= b.transformations);
    assert(ts.take(n + 1) =~= ts);
    assert(model::into_conversion()(t) =~= Seq::empty());
    assert(b.transformations.flat_map(model::into_conversion()) + Seq::<ChunkView>::empty()
        =~= b.transformations.flat_map(model::into_conversion()));
    assert(before_block(more, env) =~= before_block(b, env).push(f(t)->0));
}

/// The length of an array that comes out of the call, and every transformation
/// that is neither a length nor made with `into`, adds nothing before the
/// unsafe block, wherever it stands among the transformations.
pub proof fn law_out_lengths_bind_nothing(
    b: BuilderView,
    env: EnvView,
    before: Seq<TransformationView>,
    t: TransformationView,
    after: Seq<TransformationView>,
)
    requires
        t.transformation_type is Other || (t.transformation_type is Length && t.ind_c
            < b.parameters.len() && b.parameters[t.ind_c as int] is Out),
    ensures
        before_block(with_transformations(b, before.push(t) + after), env) == before_block(
            with_transformations(b, before + after),
            env,
        ),
{
    let f = model::into_conversion();
    let g = model::in_array_length(b.parameters);
    lemma_parts(with_transformations(b, before.push(t) + after), env);
    lemma_parts(with_transformations(b, before + after), env);
    lemma_flat_map_concat(before.push(t), after);
    lemma_flat_map_concat(before, after);
    before.lemma_flat_map_push(f, t);
    assert(f(t) =~= Seq::empty());
    assert(before.flat_map(f) + f(t) =~= before.flat_map(f));
    text::lemma_filter_map_concat(before.push(t), after, g);
    text::lemma_filter_map_concat(before, after, g);
    lemma_filter_map_push(before, g, t);
}

proof fn lemma_flat_map_concat(first: Seq<TransformationView>, second: Seq<TransformationView>)
    ensures
        (first + second).flat_map(model::into_conversion()) == first.flat_map(
            model::into_conversion(),
        ) + second.flat_map(model::into_conversion()),
    decreases second.len(),
{
    let f = model::into_conversion();
    if second.len() == 0 {
        assert(second.map_values(f) =~= Seq::empty());
        assert(first + second =~= first);
        assert(first.flat_map(f) + second.flat_map(f) =~= first.flat_map(f));
    } else {
        let n = (second.len() - 1) as int;
        let init = second.take(n);
        lemma_flat_map_concat(first, init);
        init.lemma_flat_map_push(f, second[n]);
        (first + init).lemma_flat_map_push(f, second[n]);
        assert(init.push(second[n]) =~= second);
        assert((first + init).push(second[n]) =~= first + second);
        assert((first + second).flat_map(f) =~= first.flat_map(f) + second.flat_map(f));
    }
}

/// It does not matter before the unsafe block whether a length stands before or
/// after an argument that is converted with `into`: the arguments come first.
pub proof fn law_into_and_lengths_commute(
    b: BuilderView,
    env: EnvView,
    before: Seq<TransformationView>,
    length: TransformationView,
    into: TransformationView,
    after: Seq<TransformationView>,
)
    requires
        length.transformation_type is Length,
        into.transformation_type is Into,
    ensures
        before_block(with_transformations(b, before.push(length).push(into) + after), env)
            == before_block(with_transformations(b, before.push(into).push(length) + after), env),
{
    let f = model::into_conversion();
    let g = model::in_array_length(b.parameters);
    let one = before.push(length).push(into);
    let other = before.push(into).push(length);
    lemma_parts(with_transformations(b, one + after), env);
    lemma_parts(with_transformations(b, other + after), env);
    lemma_flat_map_concat(one, after);
    lemma_flat_map_concat(other, after);
    before.lemma_flat_map_push(f, length);
    before.push(length).lemma_flat_map_push(f, into);
    before.lemma_flat_map_push(f, into);
    before.push(into).lemma_flat_map_push(f, length);
    assert(f(length) =~= Seq::empty());
    assert(one.flat_map(f) =~= other.flat_map(f));
    text::lemma_filter_map_concat(one, after, g);
    text::lemma_filter_map_concat(other, after, g);
    lemma_filter_map_push(before, g, length);
    lemma_filter_map_push(before.push(length), g, into);
    lemma_filter_map_push(before, g, into);
    lemma_filter_map_push(before.push(into), g, length);
}

proof fn lemma_filter_map_push<A, B>(s: Seq<A>, f: spec_fn(A) -> Option<B>, a: A)
    ensures
        s.push(a).filter_map(f) == (match f(a) {
            Some(b) => s.filter_map(f).push(b),
            None => s.filter_map(f),
        }),
{
    let n = s.len() as int;
    text::lemma_filter_map_step(s.push(a), f, n);
    assert(s.push(a).take(n) =~= s);
    assert(s.push(a).take(n + 1) =~= s.push(a));
}

/// A length of an array that is passed in.
pub open spec fn is_in_length(parameters: Seq<ParameterView>) -> spec_fn(TransformationView) -> bool {
    |t: TransformationView|
        t.transformation_type is Length && parameters[t.ind_c as int] is In
}

/// A transformation made with `into`.
pub open spec fn is_into() -> spec_fn(TransformationView) -> bool {
    |t: TransformationView| t.transformation_type is Into
}

/// A transformation made with `into` and a stash.
pub open spec fn is_stashed() -> spec_fn(TransformationView) -> bool {
    |t: TransformationView| t.transformation_type is Into && t.transformation_type->with_stash
}

/// Before the unsafe block stand: the assertion if there is one, the new
/// cancellable if there is one, a binding for each argument that is converted
/// with `into` and for each stash, a binding for each length of an array that
/// is passed in, and three chunks for a callback. Nothing else does.
pub proof fn law_chunks_before_the_block_are_counted(b: BuilderView, env: EnvView)
    ensures
        before_block(b, env).len() == (if b.assertion == SafetyAssertionMode::Absent {
            0int
        } else {
            1
        }) + (if b.cancellable {
            1int
        } else {
            0
        }) + b.transformations.filter(is_into()).len() + b.transformations.filter(
            is_stashed(),
        ).len() + b.transformations.filter(is_in_length(b.parameters)).len() + (
        if b.async_trampoline is Some {
            3int
        } else {
            0
        }),
{
    lemma_parts(b, env);
    lemma_into_count(b.transformations);
    text::lemma_filter_map_of_filter(
        b.transformations,
        is_in_length(b.parameters),
        model::in_array_length(b.parameters),
    );
}

proof fn lemma_into_count(ts: Seq<TransformationView>)
    ensures
        ts.flat_map(model::into_conversion()).len() == ts.filter(is_into()).len() + ts.filter(
            is_stashed(),
        ).len(),
    decreases ts.len(),
{
    reveal(Seq::filter);
    let f = model::into_conversion();
    if ts.len() == 0 {
        assert(ts.map_values(f) =~= Seq::empty());
    } else {
        let n = (ts.len() - 1) as int;
        let before = ts.drop_last();
        lemma_into_count(before);
        before.lemma_flat_map_push(f, ts[n]);
        assert(before.push(ts[n]) =~= ts);
        assert(f(ts[n]).len() == (if is_into()(ts[n]) {
            1int
        } else {
            0
        }) + (if is_stashed()(ts[n]) {
            1int
        } else {
            0
        }));
    }
}

// ---- The call ----

/// Whether a transformation gives the length of the array `array`.
pub open spec fn is_length_of(t: TransformationView, array: Seq<char>) -> bool {
    t.transformation_type is Length && t.transformation_type->array_name == array
}

/// Whether `found` is the first length that is given for the array `array`.
pub open spec fn is_first_length(
    ts: Seq<TransformationView>,
    array: Seq<char>,
    found: Option<Seq<char>>,
) -> bool {
    match found {
        None => forall|j: int| 0 <= j < ts.len() ==> !is_length_of(#[trigger] ts[j], array),
        Some(name) => exists|j: int|
            {
                &&& 0 <= j < ts.len()
                &&& is_length_of(#[trigger] ts[j], array)
                &&& ts[j].transformation_type->array_length_name == name
                &&& forall|k: int| 0 <= k < j ==> !is_length_of(#[trigger] ts[k], array)
            },
    }
}

proof fn lemma_first_length(ts: Seq<TransformationView>, array: Seq<char>)
    ensures
        is_first_length(ts, array, model::array_length_name(ts, array)),
    decreases ts.len(),
{
    reveal(Seq::filter_map);
    let f = model::length_name_for(array);
    if ts.len() > 0 {
        let n = (ts.len() - 1) as int;
        let before = ts.drop_last();
        lemma_first_length(before, array);
        lemma_filter_map_push(before, f, ts[n]);
        assert(before.push(ts[n]) =~= ts);
        assert(forall|k: int| 0 <= k < n ==> before[k] == ts[k]);
        match model::array_length_name(before, array) {
            Some(name) => {
                let j = choose|j: int|
                    {
                        &&& 0 <= j < before.len()
                        &&& is_length_of(#[trigger] before[j], array)
                        &&& before[j].transformation_type->array_length_name == name
                        &&& forall|k: int|
                            0 <= k < j ==> !is_length_of(#[trigger] before[k], array)
                    };
                assert(is_length_of(ts[j], array));
                assert forall|k: int| 0 <= k < j implies !is_length_of(#[trigger] ts[k], array) by {
                    assert(before[k] == ts[k]);
                }
            },
            None => {
                assert forall|k: int| 0 <= k < n implies !is_length_of(#[trigger] ts[k], array) by {
                    assert(before[k] == ts[k]);
                }
                assert(is_length_of(ts[n], array) <==> f(ts[n]) is Some);
            },
        }
    }
}

/// A transformation that yields an argument.
pub open spec fn yields_argument() -> spec_fn(TransformationView) -> bool {
    |t: TransformationView| t.is_to_glib
}

/// Whether `call` calls the C function of the builder, with one argument for
/// each transformation that yields one: the transformation of an in parameter,
/// or the out parameter itself.
pub open spec fn is_call(b: BuilderView, call: ChunkView) -> bool {
    let yielding = b.transformations.filter(yields_argument());
    &&& call is FfiCall
    &&& call->FfiCall_name == b.glib_name
    &&& call->params.len() == yielding.len()
    &&& forall|k: int|
        0 <= k < yielding.len() ==> match b.parameters[yielding[k].ind_c as int] {
            ParameterView::In => #[trigger] call->params[k] == (ChunkView::FfiCallParameter {
                transformation_type: yielding[k].transformation_type,
            }),
            ParameterView::Out { parameter, .. } => call->params[k] == (
            ChunkView::FfiCallOutParameter { par: parameter }),
        }
}

proof fn lemma_call(b: BuilderView)
    ensures
        is_call(b, model::call(b)),
{
    let f = model::call_parameter(b.parameters);
    let keep = yields_argument();
    let yielding = b.transformations.filter(keep);
    let params = model::call(b)->params;
    text::lemma_filter_map_of_filter(b.transformations, keep, f);
    assert forall|k: int| 0 <= k < yielding.len() implies match b.parameters[yielding[k].ind_c as int] {
        ParameterView::In => #[trigger] params[k] == (ChunkView::FfiCallParameter {
            transformation_type: yielding[k].transformation_type,
        }),
        ParameterView::Out { parameter, .. } => params[k] == (ChunkView::FfiCallOutParameter {
            par: parameter,
        }),
    } by {
        assert(f(yielding[k]) == Some(params[k]));
    }
}

/// Whether `chunk` converts the return value of the builder's function, taken
/// from `value`, with the length that is given for the array without a name.
pub open spec fn converts_return(b: BuilderView, chunk: ChunkView, value: ChunkView) -> bool {
    &&& chunk is FfiCallConversion
    &&& chunk->ret == b.ret
    &&& is_first_length(b.transformations, ""@, chunk->FfiCallConversion_array_length_name)
    &&& *chunk->FfiCallConversion_call == value
}

// ---- The out parameters ----

/// An out parameter.
pub open spec fn is_out() -> spec_fn(ParameterView) -> bool {
    |p: ParameterView| p is Out
}

/// An out parameter that is neither the error nor the length of an array.
pub open spec fn comes_back(ts: Seq<TransformationView>) -> spec_fn(ParameterView) -> bool {
    |p: ParameterView|
        {
            &&& p is Out
            &&& !p->parameter.is_error
            &&& !exists|i: int|
                0 <= i < ts.len() && (#[trigger] ts[i]).transformation_type is Length
                    && ts[i].transformation_type->array_length_name == p->parameter.name
        }
}

/// Whether `chunk` is what the variable of an out parameter starts with.
pub open spec fn starts(mem_mode: OutMemModeView, chunk: ChunkView) -> bool {
    &&& mem_mode == OutMemModeView::Uninitialized ==> chunk == ChunkView::Uninitialized
    &&& mem_mode is UninitializedNamed ==> chunk == (ChunkView::UninitializedNamed {
        name: mem_mode->UninitializedNamed_0,
    })
    &&& mem_mode == OutMemModeView::NullPtr ==> chunk == ChunkView::NullPtr
    &&& mem_mode == OutMemModeView::NullMutPtr ==> chunk == ChunkView::NullMutPtr
}

/// Whether the first chunks of `block` declare a variable for each of `outs`.
pub open spec fn declares(outs: Seq<ParameterView>, block: Seq<ChunkView>) -> bool {
    &&& block.len() >= outs.len()
    &&& forall|k: int|
        0 <= k < outs.len() ==> {
            &&& #[trigger] block[k] == bound(outs[k]->parameter.name, true, *block[k]->Let_value)
            &&& starts(outs[k]->mem_mode, *block[k]->Let_value)
        }
}

/// Whether `value` is how an out parameter is handed back: by its name where
/// its memory is of a named type, else converted by its own type and transfer,
/// with the length that is given for an array of its name.
pub open spec fn hands_back(
    ts: Seq<TransformationView>,
    p: ParameterView,
    value: ChunkView,
) -> bool {
    if p->mem_mode is UninitializedNamed {
        value == ChunkView::Custom(p->parameter.name)
    } else {
        &&& value is FromGlibConversion
        &&& value->mode.typ == p->parameter.typ
        &&& value->mode.transfer == p->parameter.transfer
        &&& is_first_length(ts, p->parameter.name, value->FromGlibConversion_array_length_name)
        &&& *value->FromGlibConversion_value == ChunkView::Custom(p->parameter.name)
    }
}

/// Whether `values` hands back, in order, every out parameter that comes back.
pub open spec fn hands_back_all(b: BuilderView, values: Seq<ChunkView>) -> bool {
    let back = b.parameters.filter(comes_back(b.transformations));
    &&& values.len() == back.len()
    &&& forall|k: int|
        0 <= k < back.len() ==> hands_back(b.transformations, back[k], #[trigger] values[k])
}

proof fn lemma_hands_back_all(b: BuilderView)
    ensures
        hands_back_all(b, b.parameters.filter_map(model::returned_out(b.transformations))),
{
    let ts = b.transformations;
    let f = model::returned_out(ts);
    let keep = comes_back(ts);
    assert forall|p: ParameterView| #![trigger f(p)] f(p) is Some <==> keep(p) by {
        if p is Out {
            let name = p->parameter.name;
            if model::is_array_length(ts, name) {
                let i = choose|i: int|
                    0 <= i < ts.len() && (#[trigger] ts[i].transformation_type matches
                        TransformationTypeView::Length { array_length_name, .. }
                        && array_length_name == name);
                assert(ts[i].transformation_type is Length);
            }
            if exists|i: int|
                0 <= i < ts.len() && (#[trigger] ts[i]).transformation_type is Length
                    && ts[i].transformation_type->array_length_name == name {
                let i = choose|i: int|
                    0 <= i < ts.len() && (#[trigger] ts[i]).transformation_type is Length
                        && ts[i].transformation_type->array_length_name == name;
                assert(ts[i].transformation_type is Length);
                assert(model::is_array_length(ts, name));
            }
        }
    }
    text::lemma_filter_map_of_filter(b.parameters, keep, f);
    let back = b.parameters.filter(keep);
    let values = b.parameters.filter_map(f);
    assert forall|k: int| 0 <= k < back.len() implies hands_back(ts, back[k], #[trigger] values[k]) by {
        assert(f(back[k]) == Some(values[k]));
        lemma_first_length(ts, back[k]->parameter.name);
    }
}

/// How many variables the unsafe block declares.
pub open spec fn declared(b: BuilderView) -> int {
    if b.outs_as_return {
        b.parameters.filter(is_out()).len() as int
    } else {
        0
    }
}

proof fn lemma_block(b: BuilderView, env: EnvView)
    ensures
        ({
            let (call, ret) = model::with_outs_mode(
                b.outs_mode,
                model::converted_call(b, model::call(b)),
                model::out_return(b),
            );
            &&& b.outs_as_return ==> declares(b.parameters.filter(is_out()), block(b, env))
            &&& block(b, env).len() == declared(b) + 1 + (if ret is Some {
                1int
            } else {
                0
            })
            &&& block(b, env)[declared(b)] == call
            &&& ret is Some ==> block(b, env)[declared(b) + 1] == ret->0
            &&& is_call(b, model::call(b))
            &&& forall|value: ChunkView| #[trigger]
                converts_return(b, model::converted_call(b, value), value)
            &&& hands_back_all(b, b.parameters.filter_map(model::returned_out(b.transformations)))
        }),
{
    lemma_parts(b, env);
    lemma_call(b);
    lemma_first_length(b.transformations, ""@);
    lemma_hands_back_all(b);
    let f = model::out_variable();
    let outs = b.parameters.filter(is_out());
    text::lemma_filter_map_of_filter(b.parameters, is_out(), f);
    if b.outs_as_return {
        let variables = b.parameters.filter_map(f);
        assert forall|k: int| 0 <= k < outs.len() implies {
            &&& #[trigger] block(b, env)[k] == bound(
                outs[k]->parameter.name,
                true,
                *block(b, env)[k]->Let_value,
            )
            &&& starts(outs[k]->mem_mode, *block(b, env)[k]->Let_value)
        } by {
            assert(f(outs[k]) == Some(variables[k]));
            assert(block(b, env)[k] == variables[k]);
        }
    }
}

/// The unsafe block depends on the C function, its parameters, transformations
/// and return value and on the mode, and on nothing else.
pub proof fn law_block_depends_on_the_call_alone(
    b: BuilderView,
    other: BuilderView,
    env: EnvView,
    other_env: EnvView,
)
    requires
        b.glib_name == other.glib_name,
        b.parameters == other.parameters,
        b.transformations == other.transformations,
        b.ret == other.ret,
        b.outs_as_return == other.outs_as_return,
        b.outs_mode == other.outs_mode,
    ensures
        block(b, env) == block(other, other_env),
{
    lemma_parts(b, env);
    lemma_parts(other, other_env);
}

/// Where out parameters come back, the unsafe block starts with one mutable
/// variable for each, in order.
pub proof fn law_block_starts_with_the_out_variables(b: BuilderView, env: EnvView)
    requires
        b.outs_as_return,
    ensures
        declares(b.parameters.filter(is_out()), block(b, env)),
{
    lemma_block(b, env);
}

/// Without out parameters that come back, a plain unsafe block is the converted
/// call and nothing else.
pub proof fn law_plain_block_without_outs(b: BuilderView, env: EnvView)
    requires
        !b.outs_as_return,
        b.outs_mode == Mode::NoOuts || b.outs_mode == Mode::Normal,
    ensures
        block(b, env).len() == 1,
        converts_return(b, block(b, env)[0], *block(b, env)[0]->FfiCallConversion_call),
        is_call(b, *block(b, env)[0]->FfiCallConversion_call),
{
    lemma_block(b, env);
    assert(converts_return(b, model::converted_call(b, model::call(b)), model::call(b)));
}

/// A plain unsafe block with out parameters is, after the variables, the
/// converted call and the tuple of what comes back.
pub proof fn law_plain_block_with_outs(b: BuilderView, env: EnvView)
    requires
        b.outs_as_return,
        b.outs_mode == Mode::NoOuts || b.outs_mode == Mode::Normal,
    ensures
        ({
            let n = declared(b);
            let all = block(b, env);
            &&& all.len() == n + 2
            &&& converts_return(b, all[n], *all[n]->FfiCallConversion_call)
            &&& is_call(b, *all[n]->FfiCallConversion_call)
            &&& all[n + 1] == ChunkView::Tuple(all[n + 1]->Tuple_0, TupleMode::Auto)
            &&& hands_back_all(b, all[n + 1]->Tuple_0)
        }),
{
    lemma_block(b, env);
    assert(converts_return(b, model::converted_call(b, model::call(b)), model::call(b)));
}

/// Where the return value decides, `ret` is bound to the converted call, and
/// the tuple comes back if `ret` holds.
pub proof fn law_optional_block(b: BuilderView, env: EnvView)
    requires
        b.outs_as_return,
        b.outs_mode == Mode::Optional,
    ensures
        ({
            let n = declared(b);
            let all = block(b, env);
            let converted = *all[n]->Let_value;
            let tuple = *all[n + 1]->OptionalReturn_value;
            &&& all.len() == n + 2
            &&& all[n] == bound("ret"@, false, converted)
            &&& converts_return(b, converted, *converted->FfiCallConversion_call)
            &&& is_call(b, *converted->FfiCallConversion_call)
            &&& all[n + 1] is OptionalReturn
            &&& all[n + 1]->condition == "ret"@
            &&& tuple == ChunkView::Tuple(tuple->Tuple_0, TupleMode::Auto)
            &&& hands_back_all(b, tuple->Tuple_0)
        }),
{
    lemma_block(b, env);
    assert(converts_return(b, model::converted_call(b, model::call(b)), model::call(b)));
}

/// Where the return value comes with the out parameters, `ret` is bound to the
/// converted call, and the tuple is `ret` and then what comes back.
pub proof fn law_combined_block(b: BuilderView, env: EnvView)
    requires
        b.outs_as_return,
        b.outs_mode == Mode::Combined,
    ensures
        ({
            let n = declared(b);
            let all = block(b, env);
            let converted = *all[n]->Let_value;
            let values = all[n + 1]->Tuple_0;
            &&& all.len() == n + 2
            &&& all[n] == bound("ret"@, false, converted)
            &&& converts_return(b, converted, *converted->FfiCallConversion_call)
            &&& is_call(b, *converted->FfiCallConversion_call)
            &&& all[n + 1] == ChunkView::Tuple(values, TupleMode::Auto)
            &&& values.len() > 0
            &&& values[0] == ChunkView::Custom("ret"@)
            &&& hands_back_all(b, values.skip(1))
        }),
{
    lemma_block(b, env);
    assert(converts_return(b, model::converted_call(b, model::call(b)), model::call(b)));
    let outs = b.parameters.filter_map(model::returned_out(b.transformations));
    assert((seq![ChunkView::Custom("ret"@)] + outs).skip(1) =~= outs);
}

/// Where the function can fail, the bare call is bound, and an error result
/// comes back: of `ret`, converted as the return value, and then what comes
/// back; or, where the return value is not used, of what comes back alone.
pub proof fn law_throws_block(b: BuilderView, env: EnvView, use_ret: bool)
    requires
        b.outs_as_return,
        b.outs_mode == Mode::Throws(use_ret),
    ensures
        ({
            let n = declared(b);
            let all = block(b, env);
            let tuple = *all[n + 1]->ErrorResultReturn_value;
            let values = tuple->Tuple_0;
            &&& all.len() == n + 2
            &&& use_ret ==> all[n] == bound("ret"@, false, *all[n]->Let_value)
            &&& !use_ret ==> all[n] == bound("_"@, false, *all[n]->Let_value)
            &&& is_call(b, *all[n]->Let_value)
            &&& all[n + 1] is ErrorResultReturn
            &&& tuple == ChunkView::Tuple(values, TupleMode::WithUnit)
            &&& use_ret ==> values.len() > 0 && converts_return(
                b,
                values[0],
                ChunkView::Custom("ret"@),
            ) && hands_back_all(b, values.skip(1))
            &&& !use_ret ==> hands_back_all(b, values)
        }),
{
    lemma_block(b, env);
    let ret = ChunkView::Custom("ret"@);
    assert(converts_return(b, model::converted_call(b, ret), ret));
    let outs = b.parameters.filter_map(model::returned_out(b.transformations));
    assert((seq![model::converted_call(b, ret)] + outs).skip(1) =~= outs);
}

// ---- What the builder collects ----

/// A new builder has collected nothing at all.
pub proof fn law_new_builder_is_empty()
    ensures
        ({
            let b = BuilderView::empty();
            &&& b.async_trampoline is None
            &&& !b.cancellable
            &&& b.glib_name.len() == 0
            &&& b.parameters.len() == 0
            &&& b.transformations.len() == 0
            &&& b.ret.parameter is None
            &&& b.ret.base_tid is None
            &&& !b.ret.commented
            &&& !b.outs_as_return
            &&& b.outs_mode == Mode::NoOuts
            &&& b.assertion == SafetyAssertionMode::Absent
        }),
{
}

/// A builder keeps the rule on out parameters exactly if it hands them back
/// where there is one, and does not where there is none.
pub proof fn law_outs_come_back_iff_there_are_any(b: BuilderView)
    ensures
        b.wf() && b.outs_as_return ==> b.parameters.filter(is_out()).len() > 0,
        b.wf() && !b.outs_as_return ==> b.parameters.filter(is_out()).len() == 0,
        b.outs_as_return && b.parameters.filter(is_out()).len() > 0 ==> b.wf(),
        !b.outs_as_return && b.parameters.filter(is_out()).len() == 0 ==> b.wf(),
{
    let f = model::out();
    text::lemma_filter_map_of_filter(b.parameters, is_out(), f);
    if b.parameters.filter_map(f).len() > 0 {
        let j = text::lemma_filter_map_source(b.parameters, f, 0);
        assert(b.parameters[j] is Out);
    }
    if exists|i: int| 0 <= i < b.parameters.len() && #[trigger] b.parameters[i] is Out {
        let j = choose|i: int| 0 <= i < b.parameters.len() && #[trigger] b.parameters[i] is Out;
        let i = text::lemma_filter_map_yields(b.parameters, f, j);
    }
}

/// The variable of a value that does not pass by pointer is left uninitialized;
/// one that the caller allocates is of its Rust type; text that stays with the
/// library starts as a constant null pointer; all else starts as a mutable one.
pub proof fn law_start_of_an_out_variable(
    env: EnvView,
    typ: crate::library::TypeId,
    caller_allocates: bool,
    transfer: Transfer,
)
    ensures
        ({
            let info = env.types[typ];
            let pointer = info.conversion_type == ConversionType::Pointer;
            let is_text = info.type_ == Type::Fundamental(Fundamental::Utf8) || info.type_
                == Type::Fundamental(Fundamental::Filename);
            let mode = model::mem_mode(env, typ, caller_allocates, transfer);
            &&& mode is Uninitialized <==> !pointer
            &&& mode is UninitializedNamed <==> pointer && caller_allocates
            &&& mode is UninitializedNamed ==> mode->UninitializedNamed_0 == info.rust_type->0
            &&& mode is NullPtr <==> pointer && !caller_allocates && is_text && transfer
                != Transfer::Full
            &&& mode is NullMutPtr <==> pointer && !caller_allocates && (!is_text || transfer
                == Transfer::Full)
        }),
{
}

/// Enough is known of a type exactly if it is there, and has a Rust name where
/// the caller allocates a value of it behind a pointer.
pub proof fn law_what_an_out_variable_needs(
    env: EnvView,
    typ: crate::library::TypeId,
    caller_allocates: bool,
)
    ensures
        !model::mem_mode_known(env, typ, caller_allocates) <==> {
            ||| !env.types.contains_key(typ)
            ||| env.types[typ].conversion_type == ConversionType::Pointer && caller_allocates
                && env.types[typ].rust_type is None
        },
{
}

/// An out parameter is kept as it was given, after those that were there, and
/// nothing else of the builder changes, but that out parameters now come back.
pub proof fn law_out_parameter_is_kept_as_given(b: BuilderView, env: EnvView, p: CParameterView)
    ensures
        ({
            let more = b.with_out_parameter(env, p);
            let last = more.parameters.last();
            &&& more.parameters.len() == b.parameters.len() + 1
            &&& more.parameters.drop_last() == b.parameters
            &&& last is Out
            &&& last->parameter.name == p.name
            &&& last->parameter.typ == p.typ
            &&& last->parameter.transfer == p.transfer
            &&& last->parameter.caller_allocates == p.caller_allocates
            &&& last->parameter.is_error == p.is_error
            &&& last->mem_mode == model::mem_mode(env, p.typ, p.caller_allocates, p.transfer)
            &&& more.outs_as_return
            &&& more.async_trampoline == b.async_trampoline
            &&& more.cancellable == b.cancellable
            &&& more.glib_name == b.glib_name
            &&& more.transformations == b.transformations
            &&& more.ret == b.ret
            &&& more.outs_mode == b.outs_mode
            &&& more.assertion == b.assertion
        }),
{
    let more = b.with_out_parameter(env, p);
    assert(more.parameters.drop_last() =~= b.parameters);
}

/// An out parameter that comes back is, in a plain block, the last value of
/// the tuple right after it was added. It is converted by the very type and
/// transfer that it was given with, unless the caller allocates it behind a
/// pointer: then it comes back as it is.
pub proof fn law_out_parameter_comes_back_as_given(b: BuilderView, env: EnvView, p: CParameterView)
    requires
        b.outs_mode == Mode::NoOuts || b.outs_mode == Mode::Normal,
        !p.is_error,
        forall|i: int|
            0 <= i < b.transformations.len() && (
            #[trigger] b.transformations[i]).transformation_type is Length
                ==> b.transformations[i].transformation_type->array_length_name != p.name,
    ensures
        ({
            let more = b.with_out_parameter(env, p);
            let tuple = block(more, env).last();
            let value = tuple->Tuple_0.last();
            let allocated = env.types[p.typ].conversion_type == ConversionType::Pointer
                && p.caller_allocates;
            &&& tuple is Tuple
            &&& tuple->Tuple_0.len() > 0
            &&& allocated ==> value == ChunkView::Custom(p.name)
            &&& !allocated ==> {
                &&& value is FromGlibConversion
                &&& value->mode == (conversion_from_glib::Mode { typ: p.typ, transfer: p.transfer })
                &&& is_first_length(
                    b.transformations,
                    p.name,
                    value->FromGlibConversion_array_length_name,
                )
                &&& *value->FromGlibConversion_value == ChunkView::Custom(p.name)
            }
        }),
{
    let more = b.with_out_parameter(env, p);
    let ts = b.transformations;
    let last = more.parameters.last();
    law_plain_block_with_outs(more, env);
    lemma_block(more, env);
    reveal(Seq::filter);
    assert(comes_back(ts)(last));
    assert(more.parameters.drop_last() =~= b.parameters);
    let back = more.parameters.filter(comes_back(ts));
    assert(back.last() == last);
    let values = block(more, env).last()->Tuple_0;
    assert(hands_back(ts, back[back.len() - 1], values[back.len() - 1]));
}

/// The variable of an out parameter that was just added is declared last among
/// the variables, as a mutable one that starts as its type and transfer ask.
pub proof fn law_out_parameter_is_declared_as_given(b: BuilderView, env: EnvView, p: CParameterView)
    ensures
        ({
            let more = b.with_out_parameter(env, p);
            let declaration = block(more, env)[declared(more) - 1];
            let start = *declaration->Let_value;
            let info = env.types[p.typ];
            let pointer = info.conversion_type == ConversionType::Pointer;
            let is_text = info.type_ == Type::Fundamental(Fundamental::Utf8) || info.type_
                == Type::Fundamental(Fundamental::Filename);
            &&& declared(more) == b.parameters.filter(is_out()).len() + 1
            &&& declaration == bound(p.name, true, start)
            &&& !pointer ==> start == ChunkView::Uninitialized
            &&& pointer && p.caller_allocates ==> start == (ChunkView::UninitializedNamed {
                name: info.rust_type->0,
            })
            &&& pointer && !p.caller_allocates && is_text && p.transfer != Transfer::Full ==> start
                == ChunkView::NullPtr
            &&& pointer && !p.caller_allocates && (!is_text || p.transfer == Transfer::Full)
                ==> start == ChunkView::NullMutPtr
        }),
{
    let more = b.with_out_parameter(env, p);
    lemma_block(more, env);
    reveal(Seq::filter);
    assert(more.parameters.drop_last() =~= b.parameters);
    let outs = more.parameters.filter(is_out());
    assert(outs.last() == more.parameters.last());
    let k = outs.len() - 1;
    assert(outs[k] == more.parameters.last());
    assert(block(more, env)[k] == bound(
        outs[k]->parameter.name,
        true,
        *block(more, env)[k]->Let_value,
    ));
}

} // verus!
