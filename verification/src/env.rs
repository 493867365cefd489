//! What the generator looks up about types and namespaces, already resolved.

use crate::analysis::conversion_type::ConversionType;
use crate::chunk::conversion_from_glib::Mode;
use crate::library::{NsId, Type, TypeId};
use crate::text;
use vstd::prelude::*;

verus! {

/// What is known of a type.
#[derive(Debug, PartialEq, Eq)]
pub struct TypeInfo {
    pub id: TypeId,
    pub type_: Type,
    pub conversion_type: ConversionType,
    /// The Rust name of the type, where it has one.
    pub rust_type: Option<String>,
}

/// The model of a [`TypeInfo`], its number apart.
pub struct TypeInfoView {
    pub type_: Type,
    pub conversion_type: ConversionType,
    pub rust_type: Option<Seq<char>>,
}

impl View for TypeInfo {
    type V = TypeInfoView;

    open spec fn view(&self) -> TypeInfoView {
        TypeInfoView {
            type_: self.type_,
            conversion_type: self.conversion_type,
            rust_type: text::option_view(self.rust_type),
        }
    }
}

/// A namespace.
#[derive(Debug, PartialEq, Eq)]
pub struct Namespace {
    pub id: NsId,
    pub name: String,
    /// The name of the crate that wraps the namespace.
    pub crate_name: String,
}

/// The model of a [`Namespace`], its name apart.
pub struct NamespaceView {
    pub id: NsId,
    pub crate_name: Seq<char>,
}

impl View for Namespace {
    type V = NamespaceView;

    open spec fn view(&self) -> NamespaceView {
        NamespaceView { id: self.id, crate_name: self.crate_name@ }
    }
}

/// What a translation is looked up by.
#[derive(Debug, PartialEq, Eq)]
pub struct TranslationKey {
    /// What decides the conversion.
    pub mode: Mode,
    /// For an array, the name of the variable that holds its length.
    pub array_length: Option<String>,
}

/// The model of a [`TranslationKey`].
pub struct TranslationKeyView {
    pub mode: Mode,
    pub array_length: Option<Seq<char>>,
}

impl View for TranslationKey {
    type V = TranslationKeyView;

    open spec fn view(&self) -> TranslationKeyView {
        TranslationKeyView {
            mode: self.mode,
            array_length: text::option_view(self.array_length),
        }
    }
}

/// The text that, written around a value from C, converts it.
#[derive(Debug, PartialEq, Eq)]
pub struct Translation {
    pub key: TranslationKey,
    pub prefix: String,
    pub suffix: String,
}

/// The model of a [`Translation`], its key apart.
pub struct TranslationView {
    pub prefix: Seq<char>,
    pub suffix: Seq<char>,
}

impl View for Translation {
    type V = TranslationView;

    open spec fn view(&self) -> TranslationView {
        TranslationView { prefix: self.prefix@, suffix: self.suffix@ }
    }
}

/// The resolved types, namespaces and conversions. Where two entries of a list
/// answer to the same key, the first one counts.
#[derive(Debug, PartialEq, Eq)]
pub struct Env {
    pub types: Vec<TypeInfo>,
    pub namespaces: Vec<Namespace>,
    /// The namespace that is being wrapped.
    pub main_namespace: NsId,
    pub translations: Vec<Translation>,
}

/// The model of an [`Env`].
pub struct EnvView {
    pub types: Map<TypeId, TypeInfoView>,
    pub namespaces: Map<Seq<char>, NamespaceView>,
    pub main_namespace: NsId,
    pub translations: Map<TranslationKeyView, TranslationView>,
}

/// The types by their numbers.
pub open spec fn types_by_id(types: Seq<TypeInfo>) -> Map<TypeId, TypeInfoView>
    decreases types.len(),
{
    if types.len() == 0 {
        Map::empty()
    } else {
        types_by_id(types.drop_first()).insert(types.first().id, types.first()@)
    }
}

/// The namespaces by their names.
pub open spec fn namespaces_by_name(namespaces: Seq<Namespace>) -> Map<Seq<char>, NamespaceView>
    decreases namespaces.len(),
{
    if namespaces.len() == 0 {
        Map::empty()
    } else {
        namespaces_by_name(namespaces.drop_first()).insert(
            namespaces.first().name@,
            namespaces.first()@,
        )
    }
}

/// The translations by their keys.
pub open spec fn translations_by_key(translations: Seq<Translation>) -> Map<
    TranslationKeyView,
    TranslationView,
>
    decreases translations.len(),
{
    if translations.len() == 0 {
        Map::empty()
    } else {
        translations_by_key(translations.drop_first()).insert(
            translations.first().key@,
            translations.first()@,
        )
    }
}

impl View for Env {
    type V = EnvView;

    open spec fn view(&self) -> EnvView {
        EnvView {
            types: types_by_id(self.types@),
            namespaces: namespaces_by_name(self.namespaces@),
            main_namespace: self.main_namespace,
            translations: translations_by_key(self.translations@),
        }
    }
}

impl Env {
    /// The type of that number.
    pub fn type_(&self, typ: TypeId) -> (r: Option<&TypeInfo>)
        ensures
            r is Some <==> self@.types.contains_key(typ),
            r matches Some(info) ==> info.id == typ && info@ == self@.types[typ],
    {
        assert(self.types@.skip(0) =~= self.types@);
        let mut i: usize = 0;
        while i < self.types.len()
            invariant
                i <= self.types.len(),
                types_by_id(self.types@).contains_key(typ) <==> types_by_id(
                    self.types@.skip(i as int),
                ).contains_key(typ),
                types_by_id(self.types@)[typ] == types_by_id(self.types@.skip(i as int))[typ],
            decreases self.types.len() - i,
        {
            assert(self.types@.skip(i as int).drop_first() =~= self.types@.skip(i + 1));
            assert(self.types@.skip(i as int).first() == self.types@[i as int]);
            if self.types[i].id == typ {
                return Some(&self.types[i]);
            }
            i = i + 1;
        }
        None
    }

    /// The namespace of that name.
    pub fn find_namespace(&self, name: &str) -> (r: Option<&Namespace>)
        ensures
            r is Some <==> self@.namespaces.contains_key(name@),
            r matches Some(namespace) ==> namespace.name@ == name@ && namespace@
                == self@.namespaces[name@],
    {
        assert(self.namespaces@.skip(0) =~= self.namespaces@);
        let mut i: usize = 0;
        while i < self.namespaces.len()
            invariant
                i <= self.namespaces.len(),
                namespaces_by_name(self.namespaces@).contains_key(name@) <==> namespaces_by_name(
                    self.namespaces@.skip(i as int),
                ).contains_key(name@),
                namespaces_by_name(self.namespaces@)[name@] == namespaces_by_name(
                    self.namespaces@.skip(i as int),
                )[name@],
            decreases self.namespaces.len() - i,
        {
            assert(self.namespaces@.skip(i as int).drop_first() =~= self.namespaces@.skip(i + 1));
            assert(self.namespaces@.skip(i as int).first() == self.namespaces@[i as int]);
            if text::same(&self.namespaces[i].name, name) {
                return Some(&self.namespaces[i]);
            }
            i = i + 1;
        }
        None
    }

    /// The translation of that key.
    pub fn translate_from_glib(&self, key: &TranslationKey) -> (r: Option<&Translation>)
        ensures
            r is Some <==> self@.translations.contains_key(key@),
            r matches Some(translation) ==> translation.key@ == key@ && translation@
                == self@.translations[key@],
    {
        assert(self.translations@.skip(0) =~= self.translations@);
        let mut i: usize = 0;
        while i < self.translations.len()
            invariant
                i <= self.translations.len(),
                translations_by_key(self.translations@).contains_key(key@) <==>
                    translations_by_key(self.translations@.skip(i as int)).contains_key(key@),
                translations_by_key(self.translations@)[key@] == translations_by_key(
                    self.translations@.skip(i as int),
                )[key@],
            decreases self.translations.len() - i,
        {
            let translation = &self.translations[i];
            assert(self.translations@.skip(i as int).drop_first() =~= self.translations@.skip(
                i + 1,
            ));
            assert(self.translations@.skip(i as int).first() == self.translations@[i as int]);
            let same_length = match (&translation.key.array_length, &key.array_length) {
                (Some(a), Some(b)) => *a == *b,
                (None, None) => true,
                _ => false,
            };
            if translation.key.mode == key.mode && same_length {
                return Some(translation);
            }
            i = i + 1;
        }
        None
    }
}

} // verus!
