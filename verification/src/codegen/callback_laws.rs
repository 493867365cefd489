//! What the callback of an asynchronous function says, and what it needs.

use crate::analysis::conversion_type::ConversionType;
use crate::analysis::functions::AsyncTrampolineView;
use crate::analysis::out_parameters::Mode;
use crate::chunk::conversion_from_glib;
use crate::chunk::ChunkView;
use crate::codegen::body_laws;
use crate::codegen::model;
use crate::codegen::model::{BuilderView, OutMemModeView};
use crate::env::{EnvView, TranslationKeyView};
use crate::library;
use crate::library::{Fundamental, ParameterDirection, Transfer, Type};
use crate::text;
use vstd::prelude::*;

verus! {

// ---- Its place ----

/// The last three chunks before the unsafe block of an asynchronous function
/// are the boxed closure, the text of the callback, and the binding of
/// `callback` to the callback's name, whatever else the builder holds. Without
/// them the body is that of a function that is not asynchronous.
pub proof fn law_callback_stands_before_the_block(
    b: BuilderView,
    env: EnvView,
    t: AsyncTrampolineView,
) -> (i: int)
    requires
        b.async_trampoline == Some(t),
    ensures
        ({
            let body = b.body(env);
            let plain = BuilderView { async_trampoline: None, ..b }.body(env);
            &&& 0 <= i
            &&& i + 3 == body_laws::block_index(b, env)
            &&& body[i] == (ChunkView::BoxFn { typ: t.callback_type })
            &&& body[i + 1] == ChunkView::Custom(body[i + 1]->Custom_0)
            &&& body[i + 2] == body_laws::bound("callback"@, false, ChunkView::Name(t.name))
            &&& body[i + 3] is Unsafe
            &&& body.take(i) + body.skip(i + 3) == plain
        }),
{
    let body = b.body(env);
    let plain = BuilderView { async_trampoline: None, ..b }.body(env);
    let i = body_laws::block_index(b, env) - 3;
    assert(body.take(i) + body.skip(i + 3) =~= plain);
    i
}

// ---- Its text ----

/// An output parameter for which the callback declares a variable: every out
/// parameter but the one named `error`.
pub open spec fn has_variable() -> spec_fn(library::ParameterView) -> bool {
    |p: library::ParameterView| p.direction == ParameterDirection::Out && p.name != "error"@
}

/// Whether the type of a parameter is text behind a pointer.
pub open spec fn is_text(env: EnvView, p: library::ParameterView) -> bool {
    env.types[p.typ].type_ == Type::Fundamental(Fundamental::Utf8) || env.types[p.typ].type_
        == Type::Fundamental(Fundamental::Filename)
}

/// The line that declares the variable of an output parameter.
pub open spec fn line(env: EnvView) -> spec_fn(library::ParameterView) -> Seq<char> {
    |p: library::ParameterView|
        "let mut "@ + p.name + " = "@ + (if env.types[p.typ].conversion_type
            != ConversionType::Pointer {
            "mem::uninitialized()"@
        } else if p.caller_allocates {
            env.types[p.typ].rust_type->0 + "::uninitialized()"@
        } else if is_text(env, p) && p.transfer != Transfer::Full {
            "ptr::null()"@
        } else {
            "ptr::null_mut()"@
        }) + ";\n"@
}

/// The lines that declare the variables, in order.
pub open spec fn lines(t: AsyncTrampolineView, env: EnvView) -> Seq<Seq<char>> {
    t.output_params.filter(has_variable()).map_values(line(env))
}

/// The variables as arguments of the finishing function, in the same order.
pub open spec fn arguments(t: AsyncTrampolineView) -> Seq<Seq<char>> {
    t.output_params.filter(has_variable()).map_values(
        |p: library::ParameterView| "&mut "@ + p.name + ","@,
    )
}

/// The indices of the output parameters that make up the result: those with a
/// variable, but for the one to be ignored.
pub open spec fn places(t: AsyncTrampolineView) -> Seq<int> {
    Seq::new(t.output_params.len(), |i: int| i).filter(is_place(t))
}

/// Whether the output parameter at an index is part of the result.
pub open spec fn is_place(t: AsyncTrampolineView) -> spec_fn(int) -> bool {
    |i: int|
        {
            &&& t.output_params[i].direction == ParameterDirection::Out
            &&& t.output_params[i].name != "error"@
            &&& t.index_to_ignore is None || t.index_to_ignore->0 != i
        }
}

/// How the output parameter at an index is converted: by its own type and
/// transfer, and for an array by the name of the parameter with its length.
pub open spec fn key(t: AsyncTrampolineView) -> spec_fn(int) -> TranslationKeyView {
    |i: int|
        TranslationKeyView {
            mode: conversion_from_glib::Mode {
                typ: t.output_params[i].typ,
                transfer: t.output_params[i].transfer,
            },
            array_length: if t.output_params[i].array_length is Some {
                Some(t.output_params[t.output_params[i].array_length->0 as int].name)
            } else {
                None
            },
        }
}

/// The values of the result, in order.
pub open spec fn values(t: AsyncTrampolineView, env: EnvView) -> Seq<Seq<char>> {
    places(t).map_values(
        |i: int|
            env.translations[key(t)(i)].prefix + t.output_params[i].name
                + env.translations[key(t)(i)].suffix,
    )
}

/// The crate in which a namespace's C functions are found.
pub open spec fn scope(env: EnvView, namespace: Seq<char>) -> Seq<char> {
    if env.namespaces[namespace].id == env.main_namespace {
        "ffi"@
    } else {
        env.namespaces[namespace].crate_name + "_ffi"@
    }
}

proof fn lemma_lines(t: AsyncTrampolineView, env: EnvView)
    ensures
        t.output_params.filter_map(model::output_variable(env)) == lines(t, env),
        t.output_params.filter_map(model::output_argument()) == arguments(t),
{
    let s = t.output_params;
    let f = model::output_variable(env);
    let g = model::output_argument();
    text::lemma_filter_map_of_filter(s, has_variable(), f);
    text::lemma_filter_map_of_filter(s, has_variable(), g);
    let kept = s.filter(has_variable());
    assert forall|i: int| 0 <= i < kept.len() implies s.filter_map(f)[i] == #[trigger] lines(
        t,
        env,
    )[i] by {
        assert(f(kept[i]) == Some(s.filter_map(f)[i]));
    }
    assert(s.filter_map(f) =~= lines(t, env));
    assert forall|i: int| 0 <= i < kept.len() implies s.filter_map(g)[i] == #[trigger] arguments(
        t,
    )[i] by {
        assert(g(kept[i]) == Some(s.filter_map(g)[i]));
    }
    assert(s.filter_map(g) =~= arguments(t));
}

proof fn lemma_places(t: AsyncTrampolineView, env: EnvView)
    ensures
        model::indices(t.output_params.len()).filter_map(model::result_value(t, env)) == values(
            t,
            env,
        ),
        model::needed_translations(Some(t)) == places(t).map_values(key(t)),
{
    let s = model::indices(t.output_params.len());
    let f = model::result_value(t, env);
    let g = model::result_key(t);
    assert(s =~= Seq::new(t.output_params.len(), |i: int| i));
    text::lemma_filter_map_of_filter(s, is_place(t), f);
    text::lemma_filter_map_of_filter(s, is_place(t), g);
    let kept = places(t);
    assert forall|i: int| 0 <= i < kept.len() implies s.filter_map(f)[i] == #[trigger] values(
        t,
        env,
    )[i] by {
        assert(f(kept[i]) == Some(s.filter_map(f)[i]));
        assert(model::translation_key(t, kept[i]) == key(t)(kept[i]));
    }
    assert(s.filter_map(f) =~= values(t, env));
    let keys = kept.map_values(key(t));
    assert forall|i: int| 0 <= i < kept.len() implies s.filter_map(g)[i] == #[trigger] keys[i] by {
        assert(g(kept[i]) == Some(s.filter_map(g)[i]));
        assert(model::translation_key(t, kept[i]) == key(t)(kept[i]));
    }
    assert(s.filter_map(g) =~= keys);
}

/// The callback declares its error and its variables, calls the finishing
/// function with the source object of a method, the pending result, the
/// variables and the error, in this order, makes a result of the converted
/// values or of the error, and hands it to the closure that it was passed.
pub proof fn law_callback_text(b: BuilderView, env: EnvView, t: AsyncTrampolineView)
    requires
        b.async_trampoline == Some(t),
    ensures
        b.body(env)[body_laws::block_index(b, env) - 2] == ChunkView::Custom(
            "extern \"C\" fn "@ + t.name + "(_source_object: *mut "@ + scope(env, "GObject"@)
                + "::GObject, res: *mut "@ + scope(env, "Gio"@) + "::GAsyncResult, user_data: "@
                + scope(env, "GLib"@)
                + "::gpointer) {\n            unsafe {\n                let mut error = ptr::null_mut();\n                "@
                + text::joined(lines(t, env), "                "@)
                + "\n                let _ = ffi::"@ + t.finish_func_name + "("@ + (
            if t.is_method {
                "_source_object as *mut _, "@
            } else {
                ""@
            }) + " res, "@ + text::joined(arguments(t), " "@)
                + " &mut error);\n                let result = if error.is_null() { Ok(("@
                + text::joined(values(t, env), ", "@)
                + ")) } else { Err(from_glib_full(error)) };\n                let callback: &Box<"@
                + t.callback_type
                + "> = transmute(user_data);\n                callback(result)\n            };\n        }"@,
        ),
{
    lemma_lines(t, env);
    lemma_places(t, env);
    assert(b.body(env)[body_laws::block_index(b, env) - 2] == ChunkView::Custom(
        model::trampoline_text(t, env),
    ));
}

proof fn lemma_joined_holds(parts: Seq<Seq<char>>, separator: Seq<char>, k: int) -> (r: (
    Seq<char>,
    Seq<char>,
))
    requires
        0 <= k < parts.len(),
    ensures
        text::joined(parts, separator) == r.0 + parts[k] + r.1,
    decreases parts.len(),
{
    let before = parts.drop_last();
    if k == parts.len() - 1 {
        if before.len() == 0 {
            let none = Seq::<char>::empty();
            assert(text::joined(parts, separator) =~= none + parts[k] + none);
            (none, none)
        } else {
            let head = text::joined(before, separator) + separator;
            let none = Seq::<char>::empty();
            assert(text::joined(parts, separator) =~= head + parts[k] + none);
            (head, none)
        }
    } else {
        let (head, tail) = lemma_joined_holds(before, separator, k);
        let longer = tail + separator + parts.last();
        assert(text::joined(parts, separator) =~= head + parts[k] + longer);
        (head, longer)
    }
}

proof fn lemma_lines_of_null_pointers(start: Seq<char>)
    ensures
        start + " = "@ + "ptr::null_mut()"@ + ";\n"@ == start + " = ptr::null_mut();\n"@,
        start + " = "@ + "ptr::null()"@ + ";\n"@ == start + " = ptr::null();\n"@,
{
    reveal_strlit(" = ");
    reveal_strlit("ptr::null_mut()");
    reveal_strlit("ptr::null()");
    reveal_strlit(";\n");
    reveal_strlit(" = ptr::null_mut();\n");
    reveal_strlit(" = ptr::null();\n");
    assert(start + " = "@ + "ptr::null_mut()"@ + ";\n"@ =~= start + " = ptr::null_mut();\n"@);
    assert(start + " = "@ + "ptr::null()"@ + ";\n"@ =~= start + " = ptr::null();\n"@);
}

/// Text that starts with `x` still does when more follows.
proof fn lemma_still_starts(x: Seq<char>, y: Seq<char>, more: Seq<char>)
    requires
        x.is_prefix_of(y),
    ensures
        x.is_prefix_of(y + more),
{
    assert((y + more).subrange(0, x.len() as int) =~= y.subrange(0, x.len() as int));
}

/// What the callback says before it declares its variables.
spec fn opening(t: AsyncTrampolineView, env: EnvView) -> Seq<char> {
    "extern \"C\" fn "@ + t.name + "(_source_object: *mut "@ + scope(env, "GObject"@)
        + "::GObject, res: *mut "@ + scope(env, "Gio"@) + "::GAsyncResult, user_data: "@ + scope(
        env,
        "GLib"@,
    )
        + "::gpointer) {\n            unsafe {\n                let mut error = ptr::null_mut();\n                "@
}

proof fn lemma_callback_declares(b: BuilderView, env: EnvView, t: AsyncTrampolineView)
    requires
        b.async_trampoline == Some(t),
    ensures
        b.body(env)[body_laws::block_index(b, env) - 2] is Custom,
        (opening(t, env) + text::joined(lines(t, env), "                "@)).is_prefix_of(
            b.body(env)[body_laws::block_index(b, env) - 2]->Custom_0,
        ),
{
    law_callback_text(b, env, t);
    let x = opening(t, env) + text::joined(lines(t, env), "                "@);
    assert(x.subrange(0, x.len() as int) =~= x);
    let c0 = "\n                let _ = ffi::"@;
    let object = if t.is_method {
        "_source_object as *mut _, "@
    } else {
        ""@
    };
    let c1 = " &mut error);\n                let result = if error.is_null() { Ok(("@;
    let c2 = ")) } else { Err(from_glib_full(error)) };\n                let callback: &Box<"@;
    let c3 = "> = transmute(user_data);\n                callback(result)\n            };\n        }"@;
    let args = text::joined(arguments(t), " "@);
    let vals = text::joined(values(t, env), ", "@);
    lemma_still_starts(x, x, c0);
    lemma_still_starts(x, x + c0, t.finish_func_name);
    let y = x + c0 + t.finish_func_name;
    lemma_still_starts(x, y, "("@);
    lemma_still_starts(x, y + "("@, object);
    lemma_still_starts(x, y + "("@ + object, " res, "@);
    let y = y + "("@ + object + " res, "@;
    lemma_still_starts(x, y, args);
    lemma_still_starts(x, y + args, c1);
    let y = y + args + c1;
    lemma_still_starts(x, y, vals);
    lemma_still_starts(x, y + vals, c2);
    let y = y + vals + c2;
    lemma_still_starts(x, y, t.callback_type);
    lemma_still_starts(x, y + t.callback_type, c3);
}

/// The callback holds a line of its own for each output parameter with a
/// variable. Text that the caller does not allocate starts there as a mutable
/// null pointer if it passes to the caller, and as a constant one if not.
pub proof fn law_text_outputs_start_by_transfer(
    b: BuilderView,
    env: EnvView,
    t: AsyncTrampolineView,
    j: int,
) -> (r: (Seq<char>, Seq<char>))
    requires
        b.async_trampoline == Some(t),
        0 <= j < t.output_params.len(),
        t.output_params[j].direction == ParameterDirection::Out,
        t.output_params[j].name != "error"@,
        env.types[t.output_params[j].typ].conversion_type == ConversionType::Pointer,
        !t.output_params[j].caller_allocates,
        env.types[t.output_params[j].typ].type_ == Type::Fundamental(Fundamental::Utf8)
            || env.types[t.output_params[j].typ].type_ == Type::Fundamental(Fundamental::Filename),
    ensures
        ({
            let callback = b.body(env)[body_laws::block_index(b, env) - 2];
            let name = t.output_params[j].name;
            let declaration = if t.output_params[j].transfer == Transfer::Full {
                "let mut "@ + name + " = ptr::null_mut();\n"@
            } else {
                "let mut "@ + name + " = ptr::null();\n"@
            };
            callback == ChunkView::Custom(r.0 + declaration + r.1)
        }),
{
    let p = t.output_params[j];
    let f = model::output_variable(env);
    lemma_lines(t, env);
    let i = text::lemma_filter_map_yields(t.output_params, f, j);
    let declared = lines(t, env);
    let all = text::joined(declared, "                "@);
    let (head, tail) = lemma_joined_holds(declared, "                "@, i);
    lemma_lines_of_null_pointers("let mut "@ + p.name);
    assert(declared[i] == f(p)->0);
    lemma_callback_declares(b, env, t);
    let whole = b.body(env)[body_laws::block_index(b, env) - 2]->Custom_0;
    let n = (opening(t, env) + all).len() as int;
    let rest = whole.skip(n);
    assert(whole =~= opening(t, env) + all + rest);
    assert(opening(t, env) + (head + declared[i] + tail) + rest =~= (opening(t, env) + head)
        + declared[i] + (tail + rest));
    (opening(t, env) + head, tail + rest)
}

/// The expression that an out variable starts with.
pub proof fn law_text_of_a_start(mode: OutMemModeView)
    ensures
        mode is Uninitialized ==> model::mem_mode_text(mode) == "mem::uninitialized()"@,
        mode is UninitializedNamed ==> model::mem_mode_text(mode)
            == mode->UninitializedNamed_0 + "::uninitialized()"@,
        mode is NullPtr ==> model::mem_mode_text(mode) == "ptr::null()"@,
        mode is NullMutPtr ==> model::mem_mode_text(mode) == "ptr::null_mut()"@,
{
}

/// The namespace that is being wrapped is in scope as `ffi`, every other as its
/// crate's name with `_ffi` behind it.
pub proof fn law_name_of_a_crate(env: EnvView, namespace: Seq<char>)
    ensures
        env.namespaces[namespace].id == env.main_namespace ==> model::ffi_crate(env, namespace)
            == "ffi"@,
        env.namespaces[namespace].id != env.main_namespace ==> model::ffi_crate(env, namespace)
            == env.namespaces[namespace].crate_name + "_ffi"@,
{
}

// ---- What it needs ----

/// The translations that are asked for are those of the values of the result,
/// one for each and in their order, and none without a callback.
pub proof fn law_translations_asked_for(t: AsyncTrampolineView)
    ensures
        model::needed_translations(Some(t)) == places(t).map_values(key(t)),
        model::needed_translations(None) == Seq::<TranslationKeyView>::empty(),
{
    lemma_places(t, arbitrary());
}

/// The lengths are in range exactly if no value of the result has a length that
/// is no output parameter.
pub proof fn law_lengths_in_range(t: AsyncTrampolineView)
    ensures
        model::lengths_in_range(t) <==> forall|i: int|
            0 <= i < t.output_params.len() && #[trigger] is_place(t)(i)
                && t.output_params[i].array_length is Some
                ==> t.output_params[i].array_length->0 < t.output_params.len(),
{
    assert forall|i: int| #[trigger] is_place(t)(i) <==> model::is_result(t, i) by {}
    if model::lengths_in_range(t) {
        assert forall|i: int|
            0 <= i < t.output_params.len() && #[trigger] is_place(t)(i)
                && t.output_params[i].array_length is Some implies t.output_params[i].array_length->0
            < t.output_params.len() by {
            assert(model::is_result(t, i));
        }
    } else {
        let i = choose|i: int|
            0 <= i < t.output_params.len() && #[trigger] model::is_result(t, i)
                && t.output_params[i].array_length is Some && !(t.output_params[i].array_length->0
                < t.output_params.len());
        assert(is_place(t)(i));
    }
}

/// Whether a callback has all it needs: the three namespaces, the types of its
/// variables with a Rust name where the caller allocates behind a pointer, and
/// for each value of the result its translation, and its length if it has one.
pub open spec fn callback_has_all(t: AsyncTrampolineView, env: EnvView) -> bool {
    &&& env.namespaces.contains_key("Gio"@)
    &&& env.namespaces.contains_key("GObject"@)
    &&& env.namespaces.contains_key("GLib"@)
    &&& forall|i: int|
        0 <= i < t.output_params.len() && has_variable()(#[trigger] t.output_params[i]) ==> {
            let p = t.output_params[i];
            &&& env.types.contains_key(p.typ)
            &&& env.types[p.typ].conversion_type == ConversionType::Pointer && p.caller_allocates
                ==> env.types[p.typ].rust_type is Some
        }
    &&& forall|i: int|
        0 <= i < t.output_params.len() && #[trigger] is_place(t)(i) ==> {
            &&& env.translations.contains_key(key(t)(i))
            &&& t.output_params[i].array_length is Some ==> t.output_params[i].array_length->0
                < t.output_params.len()
        }
}

proof fn lemma_trampoline_complete(t: AsyncTrampolineView, env: EnvView)
    ensures
        model::trampoline_complete(t, env) <==> callback_has_all(t, env),
{
    law_lengths_in_range(t);
    assert forall|i: int| #[trigger] is_place(t)(i) <==> model::is_result(t, i) by {}
    assert forall|i: int| #[trigger] key(t)(i) == model::translation_key(t, i) by {}
    if model::trampoline_complete(t, env) {
        assert forall|i: int| 0 <= i < t.output_params.len() && #[trigger] is_place(t)(i) implies {
            &&& env.translations.contains_key(key(t)(i))
            &&& t.output_params[i].array_length is Some ==> t.output_params[i].array_length->0
                < t.output_params.len()
        } by {
            assert(model::is_result(t, i));
            assert(key(t)(i) == model::translation_key(t, i));
        }
        assert forall|i: int|
            0 <= i < t.output_params.len() && has_variable()(#[trigger] t.output_params[i]) implies {
            let p = t.output_params[i];
            &&& env.types.contains_key(p.typ)
            &&& env.types[p.typ].conversion_type == ConversionType::Pointer && p.caller_allocates
                ==> env.types[p.typ].rust_type is Some
        } by {
            assert(model::is_output(t.output_params[i]));
        }
    }
    if callback_has_all(t, env) {
        assert forall|i: int|
            0 <= i < t.output_params.len() && #[trigger] model::is_result(
                t,
                i,
            ) implies env.translations.contains_key(model::translation_key(t, i)) by {
            assert(is_place(t)(i));
            assert(key(t)(i) == model::translation_key(t, i));
        }
        assert(model::lengths_in_range(t));
    }
}

/// A body can be generated exactly if every transformation that yields an
/// argument or is a length has its parameter, if there are out parameters where
/// the mode is not a plain one, and if a callback has all it needs. Nothing
/// else stands in the way.
pub proof fn law_when_a_body_can_be_generated(b: BuilderView, env: EnvView)
    ensures
        b.complete(env) <==> {
            &&& forall|i: int|
                0 <= i < b.transformations.len() && ((#[trigger] b.transformations[i]).is_to_glib
                    || b.transformations[i].transformation_type is Length)
                    ==> b.transformations[i].ind_c < b.parameters.len()
            &&& (b.outs_mode is Optional || b.outs_mode is Combined || b.outs_mode is Throws)
                ==> b.outs_as_return
            &&& b.async_trampoline is Some ==> callback_has_all(b.async_trampoline->0, env)
        },
{
    if b.async_trampoline is Some {
        lemma_trampoline_complete(b.async_trampoline->0, env);
    }
}

} // verus!
