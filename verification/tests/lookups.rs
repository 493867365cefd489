use gir_codegen::analysis::conversion_type::ConversionType;
use gir_codegen::analysis::function_parameters::CParameter;
use gir_codegen::chunk::conversion_from_glib::Mode;
use gir_codegen::codegen::function_body_chunk::{
    c_type_mem_mode, crate_name, mode_to_string, type_mem_mode, OutMemMode,
};
use gir_codegen::env::{Env, Namespace, Translation, TranslationKey, TypeInfo};
use gir_codegen::library::{
    Fundamental, Parameter, ParameterDirection, Transfer, Type, TypeId,
};
use gir_codegen::text::join;

fn id(id: u32) -> TypeId {
    TypeId { ns_id: 2, id }
}

fn info(n: u32, type_: Type, conversion_type: ConversionType, rust: Option<&str>) -> TypeInfo {
    TypeInfo { id: id(n), type_, conversion_type, rust_type: rust.map(|s| s.to_string()) }
}

fn namespace(id: u16, name: &str, crate_name: &str) -> Namespace {
    Namespace { id, name: name.to_string(), crate_name: crate_name.to_string() }
}

fn env() -> Env {
    Env {
        types: vec![
            info(0, Type::Other, ConversionType::Other, Some("i32")),
            info(1, Type::Fundamental(Fundamental::Utf8), ConversionType::Pointer, None),
            info(2, Type::Fundamental(Fundamental::Filename), ConversionType::Pointer, None),
            info(3, Type::Fundamental(Fundamental::Other), ConversionType::Pointer, None),
            info(4, Type::Other, ConversionType::Pointer, Some("gdk::Rectangle")),
            info(4, Type::Other, ConversionType::Other, Some("shadowed")),
        ],
        namespaces: vec![
            namespace(1, "Gtk", "gtk"),
            namespace(5, "Gio", "gio"),
            namespace(6, "Gio", "second"),
        ],
        main_namespace: 1,
        translations: Vec::new(),
    }
}

fn c_mode(typ: u32, caller_allocates: bool, transfer: Transfer) -> OutMemMode {
    let parameter = CParameter {
        name: "par".to_string(),
        typ: id(typ),
        transfer,
        caller_allocates,
        is_error: false,
    };
    c_type_mem_mode(&env(), &parameter)
}

fn lib_mode(typ: u32, caller_allocates: bool, transfer: Transfer) -> OutMemMode {
    let parameter = Parameter {
        name: "par".to_string(),
        typ: id(typ),
        direction: ParameterDirection::Out,
        transfer,
        caller_allocates,
        array_length: None,
    };
    type_mem_mode(&env(), &parameter)
}

#[test]
fn mode_to_string_of_each_mode() {
    assert_eq!(mode_to_string(OutMemMode::Uninitialized), "mem::uninitialized()");
    assert_eq!(mode_to_string(OutMemMode::NullMutPtr), "ptr::null_mut()");
    assert_eq!(mode_to_string(OutMemMode::NullPtr), "ptr::null()");
    assert_eq!(
        mode_to_string(OutMemMode::UninitializedNamed("gdk::RGBA".to_string())),
        "gdk::RGBA::uninitialized()"
    );
}

#[test]
fn mem_mode_without_pointer_is_uninitialized() {
    assert_eq!(c_mode(0, false, Transfer::Full), OutMemMode::Uninitialized);
    assert_eq!(c_mode(0, true, Transfer::Nothing), OutMemMode::Uninitialized);
}

#[test]
fn mem_mode_of_caller_allocated_pointer_is_named() {
    assert_eq!(
        c_mode(4, true, Transfer::Nothing),
        OutMemMode::UninitializedNamed("gdk::Rectangle".to_string())
    );
}

#[test]
fn mem_mode_of_text_depends_on_transfer() {
    for typ in [1, 2] {
        assert_eq!(c_mode(typ, false, Transfer::Full), OutMemMode::NullMutPtr);
        assert_eq!(c_mode(typ, false, Transfer::Nothing), OutMemMode::NullPtr);
        assert_eq!(c_mode(typ, false, Transfer::Container), OutMemMode::NullPtr);
    }
}

#[test]
fn mem_mode_of_other_pointers_is_mutable() {
    assert_eq!(c_mode(3, false, Transfer::Nothing), OutMemMode::NullMutPtr);
    assert_eq!(c_mode(4, false, Transfer::Full), OutMemMode::NullMutPtr);
}

#[test]
fn mem_modes_of_both_kinds_of_parameters_agree() {
    for typ in 0..5 {
        for transfer in [Transfer::Nothing, Transfer::Container, Transfer::Full] {
            assert_eq!(c_mode(typ, false, transfer), lib_mode(typ, false, transfer));
        }
    }
    assert_eq!(c_mode(4, true, Transfer::Full), lib_mode(4, true, Transfer::Full));
}

#[test]
fn crate_name_of_main_namespace_is_ffi() {
    assert_eq!(crate_name("Gtk", &env()), "ffi");
}

#[test]
fn crate_name_of_other_namespace_has_suffix() {
    assert_eq!(crate_name("Gio", &env()), "gio_ffi");
}

#[test]
fn lookups_find_the_first_or_nothing() {
    let mut env = env();
    assert_eq!(env.type_(id(4)).unwrap().rust_type, Some("gdk::Rectangle".to_string()));
    assert_eq!(env.type_(id(9)), None);
    assert_eq!(env.type_(TypeId { ns_id: 3, id: 4 }), None);
    assert_eq!(env.find_namespace("Gio").unwrap().id, 5);
    assert_eq!(env.find_namespace("Gdk"), None);

    let mode = Mode { typ: id(1), transfer: Transfer::Full };
    let key = |length: Option<&str>| TranslationKey {
        mode,
        array_length: length.map(|s| s.to_string()),
    };
    env.translations = vec![
        Translation { key: key(None), prefix: "a(".to_string(), suffix: ")".to_string() },
        Translation { key: key(Some("n")), prefix: "b(".to_string(), suffix: ", n)".to_string() },
    ];
    assert_eq!(env.translate_from_glib(&key(None)).unwrap().prefix, "a(");
    assert_eq!(env.translate_from_glib(&key(Some("n"))).unwrap().suffix, ", n)");
    assert_eq!(env.translate_from_glib(&key(Some("m"))), None);
    let other = TranslationKey {
        mode: Mode { typ: id(1), transfer: Transfer::Nothing },
        array_length: None,
    };
    assert_eq!(env.translate_from_glib(&other), None);
}

#[test]
fn join_puts_the_separator_between() {
    let parts = |p: &[&str]| p.iter().map(|s| s.to_string()).collect::<Vec<String>>();
    assert_eq!(join(&parts(&[]), ", "), "");
    assert_eq!(join(&parts(&["a"]), ", "), "a");
    assert_eq!(join(&parts(&["a", "", "c"]), ", "), "a, , c");
}
