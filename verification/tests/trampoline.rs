use gir_codegen::analysis::conversion_type::ConversionType;
use gir_codegen::analysis::functions::AsyncTrampoline;
use gir_codegen::chunk::conversion_from_glib::Mode;
use gir_codegen::chunk::Chunk;
use gir_codegen::codegen::function_body_chunk::Builder;
use gir_codegen::env::{Env, Namespace, Translation, TranslationKey, TypeInfo};
use gir_codegen::library::{
    Fundamental, Parameter, ParameterDirection, Transfer, Type, TypeId,
};

const SIZE: TypeId = TypeId { ns_id: 0, id: 1 };
const TEXT: TypeId = TypeId { ns_id: 0, id: 2 };
const BYTES: TypeId = TypeId { ns_id: 0, id: 3 };

fn text(s: &str) -> String {
    s.to_string()
}

fn key(typ: TypeId, transfer: Transfer, length: Option<&str>) -> TranslationKey {
    TranslationKey {
        mode: Mode { typ, transfer },
        array_length: length.map(|s| s.to_string()),
    }
}

fn translation(key: TranslationKey, prefix: &str, suffix: &str) -> Translation {
    Translation { key, prefix: text(prefix), suffix: text(suffix) }
}

fn env() -> Env {
    let info = |id, type_, conversion_type| TypeInfo {
        id,
        type_,
        conversion_type,
        rust_type: None,
    };
    let namespace = |id, name: &str, crate_name: &str| Namespace {
        id,
        name: text(name),
        crate_name: text(crate_name),
    };
    Env {
        types: vec![
            info(SIZE, Type::Fundamental(Fundamental::Other), ConversionType::Other),
            info(TEXT, Type::Fundamental(Fundamental::Utf8), ConversionType::Pointer),
            info(BYTES, Type::Other, ConversionType::Pointer),
        ],
        namespaces: vec![
            namespace(1, "Gio", "gio"),
            namespace(2, "GLib", "glib"),
            namespace(3, "GObject", "gobject"),
        ],
        main_namespace: 1,
        translations: vec![
            translation(
                key(BYTES, Transfer::Full, Some("length")),
                "FromGlibContainer::from_glib_full_num(",
                ", length as usize)",
            ),
            translation(key(TEXT, Transfer::Nothing, None), "from_glib_none(", ")"),
        ],
    }
}

fn parameter(name: &str, typ: TypeId, direction: ParameterDirection) -> Parameter {
    Parameter {
        name: text(name),
        typ,
        direction,
        transfer: if typ == BYTES { Transfer::Full } else { Transfer::Nothing },
        caller_allocates: false,
        array_length: if typ == BYTES { Some(2) } else { None },
    }
}

fn trampoline(is_method: bool) -> AsyncTrampoline {
    AsyncTrampoline {
        is_method,
        name: text("load_contents_trampoline"),
        finish_func_name: text("g_file_load_contents_finish"),
        callback_type: text("FnOnce(Result<(Vec<u8>, String), Error>)"),
        output_params: vec![
            parameter("res", BYTES, ParameterDirection::In),
            parameter("contents", BYTES, ParameterDirection::Out),
            parameter("length", SIZE, ParameterDirection::Out),
            parameter("etag_out", TEXT, ParameterDirection::Out),
            parameter("error", TEXT, ParameterDirection::Out),
        ],
        index_to_ignore: Some(2),
    }
}

fn chunks(trampoline: &AsyncTrampoline, env: &Env) -> Vec<Chunk> {
    let mut builder = Builder::new();
    builder.async_trampoline(trampoline);
    assert!(builder.can_generate(env));
    match builder.generate(env) {
        Chunk::BlockHalf(chunks) => chunks,
        other => panic!("{:?}", other),
    }
}

const METHOD: &str = r#"extern "C" fn load_contents_trampoline(_source_object: *mut gobject_ffi::GObject, res: *mut ffi::GAsyncResult, user_data: glib_ffi::gpointer) {
            unsafe {
                let mut error = ptr::null_mut();
                let mut contents = ptr::null_mut();
                let mut length = mem::uninitialized();
                let mut etag_out = ptr::null();

                let _ = ffi::g_file_load_contents_finish(_source_object as *mut _,  res, &mut contents, &mut length, &mut etag_out, &mut error);
                let result = if error.is_null() { Ok((FromGlibContainer::from_glib_full_num(contents, length as usize), from_glib_none(etag_out))) } else { Err(from_glib_full(error)) };
                let callback: &Box<FnOnce(Result<(Vec<u8>, String), Error>)> = transmute(user_data);
                callback(result)
            };
        }"#;

const FUNCTION_WITHOUT_OUTPUT: &str = r#"extern "C" fn t(_source_object: *mut ffi::GObject, res: *mut gio_ffi::GAsyncResult, user_data: glib_ffi::gpointer) {
            unsafe {
                let mut error = ptr::null_mut();
                
                let _ = ffi::f_finish( res,  &mut error);
                let result = if error.is_null() { Ok(()) } else { Err(from_glib_full(error)) };
                let callback: &Box<FnOnce()> = transmute(user_data);
                callback(result)
            };
        }"#;

#[test]
fn trampoline_of_a_method() {
    let trampoline = trampoline(true);
    let chunks = chunks(&trampoline, &env());
    assert_eq!(chunks.len(), 4);
    assert_eq!(chunks[0], Chunk::BoxFn { typ: trampoline.callback_type.clone() });
    assert_eq!(chunks[1], Chunk::Custom(text(METHOD)));
    assert_eq!(
        chunks[2],
        Chunk::Let {
            name: text("callback"),
            is_mut: false,
            value: Box::new(Chunk::Name(text("load_contents_trampoline"))),
            type_: None,
        }
    );
    assert!(matches!(chunks[3], Chunk::Unsafe(_)));
}

#[test]
fn trampoline_of_a_function_takes_no_object() {
    let text_of = |is_method| match &chunks(&trampoline(is_method), &env())[1] {
        Chunk::Custom(s) => s.clone(),
        other => panic!("{:?}", other),
    };
    assert_eq!(text_of(true).replace("_source_object as *mut _, ", ""), text_of(false));
}

#[test]
fn trampoline_without_output() {
    let mut env = env();
    env.main_namespace = 3;
    env.translations = Vec::new();
    let trampoline = AsyncTrampoline {
        is_method: false,
        name: text("t"),
        finish_func_name: text("f_finish"),
        callback_type: text("FnOnce()"),
        output_params: vec![parameter("error", TEXT, ParameterDirection::Out)],
        index_to_ignore: None,
    };
    assert_eq!(chunks(&trampoline, &env)[1], Chunk::Custom(text(FUNCTION_WITHOUT_OUTPUT)));
}

#[test]
fn needed_translations_are_those_of_the_result() {
    let mut builder = Builder::new();
    assert_eq!(builder.needed_translations(), Some(Vec::new()));
    builder.async_trampoline(&trampoline(true));
    assert_eq!(
        builder.needed_translations(),
        Some(vec![
            key(BYTES, Transfer::Full, Some("length")),
            key(TEXT, Transfer::Nothing, None),
        ])
    );
}

#[test]
fn ignored_parameter_is_still_declared_and_passed() {
    let mut all = trampoline(true);
    all.index_to_ignore = None;
    let mut env = env();
    env.translations.push(translation(key(SIZE, Transfer::Nothing, None), "", ""));
    let with_length = METHOD.replace("length as usize), from", "length as usize), length, from");
    assert_eq!(chunks(&all, &env)[1], Chunk::Custom(with_length));
}

#[test]
fn length_out_of_range_has_no_translation() {
    let mut far = trampoline(true);
    far.output_params[1].array_length = Some(5);
    let mut builder = Builder::new();
    builder.async_trampoline(&far);
    assert_eq!(builder.needed_translations(), None);
    assert!(!builder.can_generate(&env()));
}

#[test]
fn trampoline_needs_namespaces_types_and_translations() {
    let mut builder = Builder::new();
    builder.async_trampoline(&trampoline(true));
    assert!(builder.can_generate(&env()));
    for i in 0..3 {
        let mut env = env();
        env.namespaces.remove(i);
        assert!(!builder.can_generate(&env));
    }
    for i in 0..3 {
        let mut env = env();
        env.types.remove(i);
        assert!(!builder.can_generate(&env));
    }
    for i in 0..2 {
        let mut env = env();
        env.translations.remove(i);
        assert!(!builder.can_generate(&env));
    }
}

#[test]
fn caller_allocated_output_needs_a_rust_name() {
    let mut allocated = trampoline(true);
    allocated.output_params[3].caller_allocates = true;
    let mut builder = Builder::new();
    builder.async_trampoline(&allocated);
    assert!(!builder.can_generate(&env()));
    let mut env = env();
    env.types[1].rust_type = Some(text("Etag"));
    assert!(builder.can_generate(&env));
    let expected = METHOD.replace("etag_out = ptr::null()", "etag_out = Etag::uninitialized()");
    assert_eq!(chunks(&allocated, &env)[1], Chunk::Custom(expected));
}

#[test]
fn larger_environment_changes_nothing() {
    let mut larger = env();
    larger.translations.push(translation(key(SIZE, Transfer::Full, None), "x", "y"));
    larger.namespaces.push(Namespace { id: 9, name: text("Gdk"), crate_name: text("gdk") });
    larger.types.push(TypeInfo {
        id: TypeId { ns_id: 9, id: 9 },
        type_: Type::Other,
        conversion_type: ConversionType::Pointer,
        rust_type: None,
    });
    assert_eq!(chunks(&trampoline(true), &larger), chunks(&trampoline(true), &env()));
}
