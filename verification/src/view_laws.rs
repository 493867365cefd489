//! What the models stand for: each part of a model is that part of the value,
//! lookups answer to the first entry, and text is joined in order.

use crate::analysis::function_parameters::{
    CParameter, CParameterView, Transformation, TransformationType,
};
use crate::analysis::functions::AsyncTrampoline;
use crate::analysis::return_value::{Info, InfoView};
use crate::chunk;
use crate::chunk::parameter_ffi_call_out;
use crate::chunk::{Chunk, ChunkView};
use crate::codegen::function_body_chunk::OutMemMode;
use crate::codegen::model::OutMemModeView;
use crate::env;
use crate::env::{Env, Namespace, Translation, TranslationKey, TypeInfo};
use crate::library::Parameter;
use crate::text;
use vstd::prelude::*;

verus! {

// ---- Sequences and options ----

/// The model of a sequence has the models of its elements, each in its place.
pub proof fn law_views_keep_places<T: View>(s: Seq<T>)
    ensures
        text::views(s).len() == s.len(),
        forall|i: int| 0 <= i < s.len() ==> #[trigger] text::views(s)[i] == s[i]@,
{
}

/// The model of an option holds something exactly if the option does.
pub proof fn law_option_view_keeps_the_value<T: View>(o: Option<T>)
    ensures
        o is None <==> text::option_view(o) is None,
        o matches Some(x) ==> text::option_view(o) == Some(x@),
{
}

// ---- Text ----

/// Nothing joined is no text, and one part joined is that part.
pub proof fn law_joined_one(part: Seq<char>, separator: Seq<char>)
    ensures
        text::joined(Seq::empty(), separator) == Seq::<char>::empty(),
        text::joined(seq![part], separator) == part,
{
}

/// The parts of two lists are joined as the first list, the separator, and the
/// second list.
pub proof fn law_joined_in_order(
    first: Seq<Seq<char>>,
    second: Seq<Seq<char>>,
    separator: Seq<char>,
)
    requires
        first.len() > 0,
        second.len() > 0,
    ensures
        text::joined(first + second, separator) == text::joined(first, separator) + separator
            + text::joined(second, separator),
    decreases second.len(),
{
    let all = first + second;
    let init = second.drop_last();
    assert(all.drop_last() =~= first + init);
    assert(all.last() == second.last());
    if init.len() == 0 {
        assert(first + init =~= first);
    } else {
        law_joined_in_order(first, init, separator);
        assert(text::joined(all, separator) =~= text::joined(first, separator) + separator
            + text::joined(second, separator));
    }
}

// ---- What a function is described by ----

/// The model of a library parameter has all its fields.
pub proof fn law_model_of_a_parameter(p: Parameter)
    ensures
        p@.name == p.name@,
        p@.typ == p.typ,
        p@.direction == p.direction,
        p@.transfer == p.transfer,
        p@.caller_allocates == p.caller_allocates,
        p@.array_length == p.array_length,
{
}

/// The model of a parameter of the C function has all its fields.
pub proof fn law_model_of_a_c_parameter(p: CParameter)
    ensures
        p@.name == p.name@,
        p@.typ == p.typ,
        p@.transfer == p.transfer,
        p@.caller_allocates == p.caller_allocates,
        p@.is_error == p.is_error,
{
}

/// The model of an out parameter of the call has all its fields.
pub proof fn law_model_of_a_call_out_parameter(p: parameter_ffi_call_out::Parameter)
    ensures
        p@.name == p.name@,
        p@.typ == p.typ,
        p@.transfer == p.transfer,
        p@.caller_allocates == p.caller_allocates,
        p@.is_error == p.is_error,
{
}

/// The out parameter that a parameter of the C function becomes is like it in
/// everything, and is converted by its type and transfer.
pub proof fn law_out_parameter_of_a_c_parameter(p: CParameterView)
    ensures
        ({
            let out = parameter_ffi_call_out::ParameterView::of(p);
            &&& out.name == p.name
            &&& out.typ == p.typ
            &&& out.transfer == p.transfer
            &&& out.caller_allocates == p.caller_allocates
            &&& out.is_error == p.is_error
            &&& out.mode().typ == p.typ
            &&& out.mode().transfer == p.transfer
        }),
{
}

/// The model of a return value has all its fields.
pub proof fn law_model_of_a_return_value(info: Info)
    ensures
        info.parameter is None <==> info@.parameter is None,
        info.parameter matches Some(p) ==> info@.parameter == Some(p@),
        info@.base_tid == info.base_tid,
        info@.commented == info.commented,
{
}

/// A function that returns nothing has no return value of any kind.
pub proof fn law_no_return_value()
    ensures
        InfoView::nothing().parameter is None,
        InfoView::nothing().base_tid is None,
        !InfoView::nothing().commented,
{
}

/// The model of a transformation has all its fields.
pub proof fn law_model_of_a_transformation(t: Transformation)
    ensures
        t@.ind_c == t.ind_c,
        t@.is_to_glib == t.is_to_glib,
        t@.transformation_type == t.transformation_type@,
{
}

/// The model of a kind of transformation is of the same kind, with the same texts.
pub proof fn law_model_of_a_transformation_type(t: TransformationType)
    ensures
        t matches TransformationType::Into { name, with_stash } ==> t@ is Into && t@->Into_name
            == name@ && t@->with_stash == with_stash,
        t matches TransformationType::Length { array_name, array_length_name, array_length_type }
            ==> t@ is Length && t@->array_name == array_name@ && t@->array_length_name
            == array_length_name@ && t@->array_length_type == array_length_type@,
        t matches TransformationType::Other(text) ==> t@ is Other && t@->Other_0 == text@,
{
}

/// The model of an asynchronous function's callback has all its fields.
pub proof fn law_model_of_a_trampoline(t: AsyncTrampoline)
    ensures
        t@.is_method == t.is_method,
        t@.name == t.name@,
        t@.finish_func_name == t.finish_func_name@,
        t@.callback_type == t.callback_type@,
        t@.output_params.len() == t.output_params@.len(),
        forall|i: int|
            0 <= i < t.output_params@.len() ==> #[trigger] t@.output_params[i]
                == t.output_params@[i]@,
        t@.index_to_ignore == t.index_to_ignore,
{
}

/// The model of what an out variable starts with is of the same kind.
pub proof fn law_model_of_a_start(mode: OutMemMode)
    ensures
        mode is Uninitialized ==> mode@ == OutMemModeView::Uninitialized,
        mode matches OutMemMode::UninitializedNamed(name) ==> mode@
            == OutMemModeView::UninitializedNamed(name@),
        mode is NullPtr ==> mode@ == OutMemModeView::NullPtr,
        mode is NullMutPtr ==> mode@ == OutMemModeView::NullMutPtr,
{
}

// ---- Chunks ----

/// Whether `models` are the models of `chunks`, each in its place.
pub open spec fn stand_for(chunks: Seq<Chunk>, models: Seq<ChunkView>) -> bool {
    &&& models.len() == chunks.len()
    &&& forall|i: int| 0 <= i < chunks.len() ==> #[trigger] models[i] == chunks[i]@
}

/// The model of a chunk that holds others holds their models.
pub proof fn law_model_of_a_nested_chunk(c: Chunk)
    ensures
        c matches Chunk::BlockHalf(v) ==> c@ is BlockHalf && stand_for(v@, c@->BlockHalf_0),
        c matches Chunk::Unsafe(v) ==> c@ is Unsafe && stand_for(v@, c@->Unsafe_0),
        c matches Chunk::FfiCall { name, params } ==> c@ is FfiCall && c@->FfiCall_name == name@
            && stand_for(params@, c@->params),
        c matches Chunk::Tuple(v, mode) ==> c@ is Tuple && stand_for(v@, c@->Tuple_0) && c@->Tuple_1
            == mode,
        c matches Chunk::FfiCallConversion { ret, array_length_name, call } ==> c@ is
            FfiCallConversion && c@->ret == ret@ && c@->FfiCallConversion_array_length_name
            == text::option_view(array_length_name) && *c@->FfiCallConversion_call == call@,
        c matches Chunk::FromGlibConversion { mode, array_length_name, value } ==> c@ is
            FromGlibConversion && c@->mode == mode && c@->FromGlibConversion_array_length_name
            == text::option_view(array_length_name) && *c@->FromGlibConversion_value == value@,
        c matches Chunk::Let { name, is_mut, value, type_ } ==> c@ is Let && c@->Let_name == name@
            && c@->is_mut == is_mut && *c@->Let_value == value@ && (c@->type_ is None <==> type_ is
            None) && (type_ matches Some(typ) ==> *c@->type_->0 == typ@),
        c matches Chunk::OptionalReturn { condition, value } ==> c@ is OptionalReturn
            && c@->condition == condition@ && *c@->OptionalReturn_value == value@,
        c matches Chunk::ErrorResultReturn { value } ==> c@ is ErrorResultReturn
            && *c@->ErrorResultReturn_value == value@,
{
    reveal_with_fuel(Chunk::model, 2);
    match c {
        Chunk::BlockHalf(v) => {
            chunk::lemma_models(v@);
        },
        Chunk::Unsafe(v) => {
            chunk::lemma_models(v@);
        },
        Chunk::FfiCall { name, params } => {
            chunk::lemma_models(params@);
        },
        Chunk::Tuple(v, mode) => {
            chunk::lemma_models(v@);
        },
        _ => {},
    }
}

/// The model of a chunk that holds no other is of the same kind, with the same
/// contents.
pub proof fn law_model_of_a_plain_chunk(c: Chunk)
    ensures
        c matches Chunk::FfiCallParameter { transformation_type } ==> c@ == (
        ChunkView::FfiCallParameter { transformation_type: transformation_type@ }),
        c matches Chunk::FfiCallOutParameter { par } ==> c@ == (ChunkView::FfiCallOutParameter {
            par: par@,
        }),
        c is Uninitialized ==> c@ == ChunkView::Uninitialized,
        c matches Chunk::UninitializedNamed { name } ==> c@ == (ChunkView::UninitializedNamed {
            name: name@,
        }),
        c is NullPtr ==> c@ == ChunkView::NullPtr,
        c is NullMutPtr ==> c@ == ChunkView::NullMutPtr,
        c matches Chunk::Custom(text) ==> c@ == ChunkView::Custom(text@),
        c is AssertInitializedAndInMainThread ==> c@ == ChunkView::AssertInitializedAndInMainThread,
        c is AssertSkipInitialized ==> c@ == ChunkView::AssertSkipInitialized,
        c matches Chunk::New { name } ==> c@ == (ChunkView::New { name: name@ }),
        c matches Chunk::BoxFn { typ } ==> c@ == (ChunkView::BoxFn { typ: typ@ }),
        c matches Chunk::Name(name) ==> c@ == ChunkView::Name(name@),
{
}

/// A binding is made of its name, whether it is mutable, and its value, and
/// leaves its type out.
pub proof fn law_binding(name: Seq<char>, is_mut: bool, value: ChunkView)
    ensures
        ({
            let c = ChunkView::binding(name, is_mut, value);
            &&& c is Let
            &&& c->Let_name == name
            &&& c->is_mut == is_mut
            &&& *c->Let_value == value
            &&& c->type_ is None
        }),
{
}

// ---- The environment ----

/// The models of the entries of an environment have all their fields but the
/// one by which they are found.
pub proof fn law_models_of_entries(
    info: TypeInfo,
    namespace: Namespace,
    key: TranslationKey,
    translation: Translation,
)
    ensures
        info@.type_ == info.type_,
        info@.conversion_type == info.conversion_type,
        info@.rust_type is None <==> info.rust_type is None,
        info.rust_type matches Some(name) ==> info@.rust_type == Some(name@),
        namespace@.id == namespace.id,
        namespace@.crate_name == namespace.crate_name@,
        key@.mode == key.mode,
        key@.array_length is None <==> key.array_length is None,
        key.array_length matches Some(name) ==> key@.array_length == Some(name@),
        translation@.prefix == translation.prefix@,
        translation@.suffix == translation.suffix@,
{
}

/// A type is found exactly if it is in the list.
pub proof fn law_types_are_found(e: Env, id: crate::library::TypeId)
    ensures
        e@.main_namespace == e.main_namespace,
        e@.types.contains_key(id) <==> exists|i: int|
            0 <= i < e.types@.len() && (#[trigger] e.types@[i]).id == id,
{
    lemma_types(e.types@, id);
}

/// Of types with the same number, the first one is found.
pub proof fn law_first_type_is_found(e: Env, i: int)
    requires
        0 <= i < e.types@.len(),
        forall|j: int| 0 <= j < i ==> (#[trigger] e.types@[j]).id != e.types@[i].id,
    ensures
        e@.types[e.types@[i].id] == e.types@[i]@,
{
    lemma_first_type(e.types@, i);
}

proof fn lemma_types(types: Seq<TypeInfo>, id: crate::library::TypeId)
    ensures
        env::types_by_id(types).contains_key(id) <==> exists|i: int|
            0 <= i < types.len() && (#[trigger] types[i]).id == id,
    decreases types.len(),
{
    if types.len() > 0 {
        let rest = types.drop_first();
        lemma_types(rest, id);
        if exists|i: int| 0 <= i < types.len() && (#[trigger] types[i]).id == id {
            let i = choose|i: int| 0 <= i < types.len() && (#[trigger] types[i]).id == id;
            if i > 0 {
                assert(rest[i - 1].id == id);
            }
        }
        if exists|i: int| 0 <= i < rest.len() && (#[trigger] rest[i]).id == id {
            let i = choose|i: int| 0 <= i < rest.len() && (#[trigger] rest[i]).id == id;
            assert(types[i + 1].id == id);
        }
        if types[0].id == id {
            assert(types[0].id == id);
        }
    }
}

proof fn lemma_first_type(types: Seq<TypeInfo>, i: int)
    requires
        0 <= i < types.len(),
        forall|j: int| 0 <= j < i ==> (#[trigger] types[j]).id != types[i].id,
    ensures
        env::types_by_id(types)[types[i].id] == types[i]@,
    decreases types.len(),
{
    if i > 0 {
        let rest = types.drop_first();
        assert(types[0].id != types[i].id);
        assert forall|j: int| 0 <= j < i - 1 implies (#[trigger] rest[j]).id != rest[i - 1].id by {
            assert(types[j + 1].id != types[i].id);
        }
        lemma_first_type(rest, i - 1);
        lemma_types(rest, types[i].id);
        assert(rest[i - 1].id == types[i].id);
    }
}

/// A namespace is found exactly if it is in the list.
pub proof fn law_namespaces_are_found(e: Env, name: Seq<char>)
    ensures
        e@.namespaces.contains_key(name) <==> exists|i: int|
            0 <= i < e.namespaces@.len() && (#[trigger] e.namespaces@[i]).name@ == name,
{
    lemma_namespaces(e.namespaces@, name);
}

/// Of namespaces with the same name, the first one is found.
pub proof fn law_first_namespace_is_found(e: Env, i: int)
    requires
        0 <= i < e.namespaces@.len(),
        forall|j: int|
            0 <= j < i ==> (#[trigger] e.namespaces@[j]).name@ != e.namespaces@[i].name@,
    ensures
        e@.namespaces[e.namespaces@[i].name@] == e.namespaces@[i]@,
{
    lemma_first_namespace(e.namespaces@, i);
}

proof fn lemma_namespaces(namespaces: Seq<Namespace>, name: Seq<char>)
    ensures
        env::namespaces_by_name(namespaces).contains_key(name) <==> exists|i: int|
            0 <= i < namespaces.len() && (#[trigger] namespaces[i]).name@ == name,
    decreases namespaces.len(),
{
    if namespaces.len() > 0 {
        let rest = namespaces.drop_first();
        lemma_namespaces(rest, name);
        if exists|i: int| 0 <= i < namespaces.len() && (#[trigger] namespaces[i]).name@ == name {
            let i = choose|i: int|
                0 <= i < namespaces.len() && (#[trigger] namespaces[i]).name@ == name;
            if i > 0 {
                assert(rest[i - 1].name@ == name);
            }
        }
        if exists|i: int| 0 <= i < rest.len() && (#[trigger] rest[i]).name@ == name {
            let i = choose|i: int| 0 <= i < rest.len() && (#[trigger] rest[i]).name@ == name;
            assert(namespaces[i + 1].name@ == name);
        }
        if namespaces[0].name@ == name {
            assert(namespaces[0].name@ == name);
        }
    }
}

proof fn lemma_first_namespace(namespaces: Seq<Namespace>, i: int)
    requires
        0 <= i < namespaces.len(),
        forall|j: int| 0 <= j < i ==> (#[trigger] namespaces[j]).name@ != namespaces[i].name@,
    ensures
        env::namespaces_by_name(namespaces)[namespaces[i].name@] == namespaces[i]@,
    decreases namespaces.len(),
{
    if i > 0 {
        let rest = namespaces.drop_first();
        assert(namespaces[0].name@ != namespaces[i].name@);
        assert forall|j: int| 0 <= j < i - 1 implies (#[trigger] rest[j]).name@ != rest[i
            - 1].name@ by {
            assert(namespaces[j + 1].name@ != namespaces[i].name@);
        }
        lemma_first_namespace(rest, i - 1);
        lemma_namespaces(rest, namespaces[i].name@);
        assert(rest[i - 1].name@ == namespaces[i].name@);
    }
}

/// A translation is found exactly if one of that key is in the list.
pub proof fn law_translations_are_found(e: Env, key: env::TranslationKeyView)
    ensures
        e@.translations.contains_key(key) <==> exists|i: int|
            0 <= i < e.translations@.len() && (#[trigger] e.translations@[i]).key@ == key,
{
    lemma_translations(e.translations@, key);
}

/// Of translations of the same key, the first one is found.
pub proof fn law_first_translation_is_found(e: Env, i: int)
    requires
        0 <= i < e.translations@.len(),
        forall|j: int|
            0 <= j < i ==> (#[trigger] e.translations@[j]).key@ != e.translations@[i].key@,
    ensures
        e@.translations[e.translations@[i].key@] == e.translations@[i]@,
{
    lemma_first_translation(e.translations@, i);
}

proof fn lemma_translations(translations: Seq<Translation>, key: env::TranslationKeyView)
    ensures
        env::translations_by_key(translations).contains_key(key) <==> exists|i: int|
            0 <= i < translations.len() && (#[trigger] translations[i]).key@ == key,
    decreases translations.len(),
{
    if translations.len() > 0 {
        let rest = translations.drop_first();
        lemma_translations(rest, key);
        if exists|i: int| 0 <= i < translations.len() && (#[trigger] translations[i]).key@ == key {
            let i = choose|i: int|
                0 <= i < translations.len() && (#[trigger] translations[i]).key@ == key;
            if i > 0 {
                assert(rest[i - 1].key@ == key);
            }
        }
        if exists|i: int| 0 <= i < rest.len() && (#[trigger] rest[i]).key@ == key {
            let i = choose|i: int| 0 <= i < rest.len() && (#[trigger] rest[i]).key@ == key;
            assert(translations[i + 1].key@ == key);
        }
        if translations[0].key@ == key {
            assert(translations[0].key@ == key);
        }
    }
}

proof fn lemma_first_translation(translations: Seq<Translation>, i: int)
    requires
        0 <= i < translations.len(),
        forall|j: int| 0 <= j < i ==> (#[trigger] translations[j]).key@ != translations[i].key@,
    ensures
        env::translations_by_key(translations)[translations[i].key@] == translations[i]@,
    decreases translations.len(),
{
    if i > 0 {
        let rest = translations.drop_first();
        assert(translations[0].key@ != translations[i].key@);
        assert forall|j: int| 0 <= j < i - 1 implies (#[trigger] rest[j]).key@ != rest[i - 1].key@ by {
            assert(translations[j + 1].key@ != translations[i].key@);
        }
        lemma_first_translation(rest, i - 1);
        lemma_translations(rest, translations[i].key@);
        assert(rest[i - 1].key@ == translations[i].key@);
    }
}

} // verus!
