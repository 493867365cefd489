use gir_codegen::analysis::conversion_type::ConversionType;
use gir_codegen::analysis::function_parameters::{
    CParameter, Transformation, TransformationType,
};
use gir_codegen::analysis::out_parameters::Mode;
use gir_codegen::analysis::return_value::Info;
use gir_codegen::analysis::safety_assertion_mode::SafetyAssertionMode;
use gir_codegen::chunk::{conversion_from_glib, parameter_ffi_call_out, Chunk, TupleMode};
use gir_codegen::codegen::function_body_chunk::Builder;
use gir_codegen::env::{Env, TypeInfo};
use gir_codegen::library::{Fundamental, Transfer, Type, TypeId};

const INT: TypeId = TypeId { ns_id: 0, id: 1 };
const TEXT: TypeId = TypeId { ns_id: 0, id: 2 };
const RECT: TypeId = TypeId { ns_id: 3, id: 7 };
const ERROR: TypeId = TypeId { ns_id: 4, id: 1 };

fn text(s: &str) -> String {
    s.to_string()
}

fn env() -> Env {
    let info = |id, type_, conversion_type, rust_type: Option<&str>| TypeInfo {
        id,
        type_,
        conversion_type,
        rust_type: rust_type.map(|s| s.to_string()),
    };
    Env {
        types: vec![
            info(INT, Type::Other, ConversionType::Other, Some("i32")),
            info(TEXT, Type::Fundamental(Fundamental::Utf8), ConversionType::Pointer, None),
            info(RECT, Type::Other, ConversionType::Pointer, Some("gdk::Rectangle")),
            info(ERROR, Type::Other, ConversionType::Pointer, None),
        ],
        namespaces: Vec::new(),
        main_namespace: 1,
        translations: Vec::new(),
    }
}

fn c_parameter(name: &str, typ: TypeId) -> CParameter {
    CParameter {
        name: text(name),
        typ,
        transfer: Transfer::Nothing,
        caller_allocates: typ == RECT,
        is_error: typ == ERROR,
    }
}

fn to_glib(ind_c: usize, name: &str) -> Transformation {
    Transformation {
        ind_c,
        transformation_type: TransformationType::Other(text(name)),
        is_to_glib: true,
    }
}

fn length(ind_c: usize, array: &str, length: &str) -> Transformation {
    Transformation {
        ind_c,
        transformation_type: TransformationType::Length {
            array_name: text(array),
            array_length_name: text(length),
            array_length_type: text("u32"),
        },
        is_to_glib: false,
    }
}

fn into(ind_c: usize, name: &str, with_stash: bool) -> Transformation {
    Transformation {
        ind_c,
        transformation_type: TransformationType::Into { name: text(name), with_stash },
        is_to_glib: false,
    }
}

fn let_(name: &str, is_mut: bool, value: Chunk) -> Chunk {
    Chunk::Let { name: text(name), is_mut, value: Box::new(value), type_: None }
}

fn custom(s: &str) -> Chunk {
    Chunk::Custom(text(s))
}

fn argument(name: &str) -> Chunk {
    Chunk::FfiCallParameter { transformation_type: TransformationType::Other(text(name)) }
}

fn out_argument(name: &str, typ: TypeId) -> Chunk {
    Chunk::FfiCallOutParameter {
        par: parameter_ffi_call_out::Parameter::new(&c_parameter(name, typ)),
    }
}

fn call(params: Vec<Chunk>) -> Chunk {
    Chunk::FfiCall { name: text("c_func"), params }
}

fn converted(call: Chunk, length: Option<&str>) -> Chunk {
    Chunk::FfiCallConversion {
        ret: info(),
        array_length_name: length.map(|s| s.to_string()),
        call: Box::new(call),
    }
}

fn from_glib(name: &str, typ: TypeId, length: Option<&str>) -> Chunk {
    Chunk::FromGlibConversion {
        mode: conversion_from_glib::Mode { typ, transfer: Transfer::Nothing },
        array_length_name: length.map(|s| s.to_string()),
        value: Box::new(custom(name)),
    }
}

fn info() -> Info {
    Info { parameter: None, base_tid: Some(RECT), commented: true }
}

fn builder() -> Builder {
    let mut builder = Builder::new();
    builder.glib_name("c_func").ret(&info());
    builder
}

fn body(builder: &Builder) -> Vec<Chunk> {
    assert!(builder.can_generate(&env()));
    match builder.generate(&env()) {
        Chunk::BlockHalf(chunks) => chunks,
        other => panic!("{:?}", other),
    }
}

fn unsafe_body(builder: &Builder) -> Vec<Chunk> {
    match body(builder).pop() {
        Some(Chunk::Unsafe(chunks)) => chunks,
        other => panic!("{:?}", other),
    }
}

/// One in parameter, two out parameters and an error.
fn with_outs(mode: Mode) -> Builder {
    let mut builder = builder();
    builder.parameter();
    builder.out_parameter(&env(), &c_parameter("count", INT));
    builder.out_parameter(&env(), &c_parameter("label", TEXT));
    builder.out_parameter(&env(), &c_parameter("error", ERROR));
    builder.transformations(&[
        to_glib(0, "self"),
        to_glib(1, "count"),
        to_glib(2, "label"),
        to_glib(3, "error"),
    ]);
    builder.outs_mode(mode);
    builder
}

fn out_call() -> Chunk {
    call(vec![
        argument("self"),
        out_argument("count", INT),
        out_argument("label", TEXT),
        out_argument("error", ERROR),
    ])
}

fn out_variables() -> Vec<Chunk> {
    vec![
        let_("count", true, Chunk::Uninitialized),
        let_("label", true, Chunk::NullPtr),
        let_("error", true, Chunk::NullMutPtr),
    ]
}

fn out_values() -> Vec<Chunk> {
    vec![from_glib("count", INT, None), from_glib("label", TEXT, None)]
}

fn after_variables(builder: &Builder) -> Vec<Chunk> {
    let mut chunks = unsafe_body(builder);
    let rest = chunks.split_off(3);
    assert_eq!(chunks, out_variables());
    rest
}

#[test]
fn new_builder_calls_a_nameless_function() {
    let expected = Chunk::BlockHalf(vec![Chunk::Unsafe(vec![Chunk::FfiCallConversion {
        ret: Info { parameter: None, base_tid: None, commented: false },
        array_length_name: None,
        call: Box::new(Chunk::FfiCall { name: String::new(), params: Vec::new() }),
    }])]);
    assert_eq!(Builder::new().generate(&env()), expected);
    assert_eq!(Builder::default().generate(&env()), expected);
}

#[test]
fn plain_call_passes_its_arguments_in_order() {
    let mut builder = builder();
    builder.parameter().parameter();
    builder.transformations(&[to_glib(1, "b"), into(0, "a", false), to_glib(0, "a")]);
    assert_eq!(
        unsafe_body(&builder),
        vec![converted(call(vec![argument("b"), argument("a")]), None)]
    );
}

#[test]
fn last_setting_counts() {
    let mut builder = builder();
    builder.glib_name("first").glib_name("c_func");
    builder.transformations(&[to_glib(7, "gone")]).transformations(&[]);
    builder.assertion(SafetyAssertionMode::Skip).assertion(SafetyAssertionMode::Absent);
    assert_eq!(body(&builder), vec![Chunk::Unsafe(vec![converted(call(vec![]), None)])]);
}

#[test]
fn assertion_comes_first() {
    let mut builder = builder();
    builder.cancellable().parameter();
    builder.transformations(&[into(0, "a", false)]);
    builder.assertion(SafetyAssertionMode::Skip);
    assert_eq!(body(&builder)[0], Chunk::AssertSkipInitialized);
    builder.assertion(SafetyAssertionMode::InMainThread);
    assert_eq!(body(&builder)[0], Chunk::AssertInitializedAndInMainThread);
    assert_eq!(body(&builder).len(), 5);
}

#[test]
fn cancellable_is_bound_and_handed_back() {
    let mut builder = builder();
    builder.cancellable();
    assert_eq!(
        body(&builder),
        vec![
            let_("cancellable", false, Chunk::New { name: text("Cancellable") }),
            Chunk::Unsafe(vec![converted(call(vec![]), None)]),
            Chunk::Name(text("cancellable")),
        ]
    );
}

#[test]
fn into_arguments_are_bound_before_lengths() {
    let mut builder = builder();
    builder.parameter().parameter().parameter();
    builder.transformations(&[
        length(1, "items", "n_items"),
        into(0, "parent", true),
        into(2, "title", false),
        to_glib(0, "parent"),
    ]);
    assert_eq!(
        body(&builder),
        vec![
            let_("parent", false, custom("parent.into()")),
            let_("parent", false, custom("parent.to_glib_none()")),
            let_("title", false, custom("title.into()")),
            let_("n_items", false, custom("items.len() as u32")),
            Chunk::Unsafe(vec![converted(call(vec![argument("parent")]), None)]),
        ]
    );
}

#[test]
fn length_of_returned_array_goes_to_the_conversion() {
    let mut builder = builder();
    builder.out_parameter(&env(), &c_parameter("n", INT));
    builder.transformations(&[
        to_glib(0, "n"),
        length(0, "other", "m"),
        length(0, "", "n"),
        length(0, "", "late"),
    ]);
    builder.outs_mode(Mode::Normal);
    assert_eq!(
        body(&builder),
        vec![Chunk::Unsafe(vec![
            let_("n", true, Chunk::Uninitialized),
            converted(call(vec![out_argument("n", INT)]), Some("n")),
            Chunk::Tuple(vec![], TupleMode::Auto),
        ])]
    );
}

#[test]
fn length_of_out_array_is_not_handed_back() {
    let mut builder = builder();
    builder.out_parameter(&env(), &c_parameter("items", TEXT));
    builder.out_parameter(&env(), &c_parameter("n_items", INT));
    builder.transformations(&[length(1, "items", "n_items")]);
    builder.outs_mode(Mode::Normal);
    assert_eq!(
        unsafe_body(&builder),
        vec![
            let_("items", true, Chunk::NullPtr),
            let_("n_items", true, Chunk::Uninitialized),
            converted(call(vec![]), None),
            Chunk::Tuple(vec![from_glib("items", TEXT, Some("n_items"))], TupleMode::Auto),
        ]
    );
}

#[test]
fn caller_allocated_value_is_handed_back_as_it_is() {
    let mut builder = builder();
    builder.out_parameter(&env(), &c_parameter("area", RECT));
    builder.transformations(&[to_glib(0, "area")]);
    assert_eq!(
        unsafe_body(&builder),
        vec![
            let_("area", true, Chunk::UninitializedNamed { name: text("gdk::Rectangle") }),
            converted(call(vec![out_argument("area", RECT)]), None),
            Chunk::Tuple(vec![custom("area")], TupleMode::Auto),
        ]
    );
}

#[test]
fn normal_mode_keeps_call_and_outs() {
    for mode in [Mode::NoOuts, Mode::Normal] {
        assert_eq!(
            after_variables(&with_outs(mode)),
            vec![converted(out_call(), None), Chunk::Tuple(out_values(), TupleMode::Auto)]
        );
    }
}

#[test]
fn optional_mode_asks_the_return_value() {
    assert_eq!(
        after_variables(&with_outs(Mode::Optional)),
        vec![
            let_("ret", false, converted(out_call(), None)),
            Chunk::OptionalReturn {
                condition: text("ret"),
                value: Box::new(Chunk::Tuple(out_values(), TupleMode::Auto)),
            },
        ]
    );
}

#[test]
fn combined_mode_starts_with_the_return_value() {
    let mut values = out_values();
    values.insert(0, custom("ret"));
    assert_eq!(
        after_variables(&with_outs(Mode::Combined)),
        vec![
            let_("ret", false, converted(out_call(), None)),
            Chunk::Tuple(values, TupleMode::Auto),
        ]
    );
}

#[test]
fn throws_mode_with_return_value_converts_it_in_the_result() {
    let mut values = out_values();
    values.insert(0, converted(custom("ret"), None));
    assert_eq!(
        after_variables(&with_outs(Mode::Throws(true))),
        vec![
            let_("ret", false, out_call()),
            Chunk::ErrorResultReturn {
                value: Box::new(Chunk::Tuple(values, TupleMode::WithUnit)),
            },
        ]
    );
}

#[test]
fn throws_mode_without_return_value_drops_it() {
    assert_eq!(
        after_variables(&with_outs(Mode::Throws(false))),
        vec![
            let_("_", false, out_call()),
            Chunk::ErrorResultReturn {
                value: Box::new(Chunk::Tuple(out_values(), TupleMode::WithUnit)),
            },
        ]
    );
}

#[test]
fn modes_but_the_plain_ones_need_out_parameters() {
    for mode in [Mode::Optional, Mode::Combined, Mode::Throws(true), Mode::Throws(false)] {
        let mut builder = builder();
        builder.parameter().outs_mode(mode);
        assert!(!builder.can_generate(&env()));
        builder.out_parameter(&env(), &c_parameter("n", INT));
        assert!(builder.can_generate(&env()));
    }
}

#[test]
fn transformations_need_their_parameters() {
    let mut builder = builder();
    builder.parameter();
    builder.transformations(&[into(9, "a", true)]);
    assert!(builder.can_generate(&env()));
    builder.transformations(&[to_glib(1, "a")]);
    assert!(!builder.can_generate(&env()));
    builder.transformations(&[length(1, "a", "n")]);
    assert!(!builder.can_generate(&env()));
    builder.parameter();
    assert!(builder.can_generate(&env()));
}

#[test]
fn environment_does_not_matter_to_plain_functions() {
    let empty = Env {
        types: Vec::new(),
        namespaces: Vec::new(),
        main_namespace: 0,
        translations: Vec::new(),
    };
    let builder = with_outs(Mode::Throws(true));
    assert!(builder.can_generate(&empty));
    assert_eq!(builder.generate(&empty), builder.generate(&env()));
    assert_eq!(builder.needed_translations(), Some(Vec::new()));
}

#[test]
fn settings_and_parameters_commute() {
    let mut before = builder();
    before.outs_mode(Mode::Combined).cancellable().assertion(SafetyAssertionMode::Skip);
    before.parameter().out_parameter(&env(), &c_parameter("n", INT));
    let mut after = Builder::new();
    after.parameter().out_parameter(&env(), &c_parameter("n", INT));
    after.assertion(SafetyAssertionMode::Skip).cancellable().outs_mode(Mode::Combined);
    after.ret(&info()).glib_name("c_func");
    assert_eq!(before.generate(&env()), after.generate(&env()));
}

#[test]
fn more_parameters_stay_complete() {
    let mut builder = with_outs(Mode::Optional);
    let before = unsafe_body(&builder);
    builder.parameter();
    assert_eq!(unsafe_body(&builder), before);
    builder.out_parameter(&env(), &c_parameter("late", INT));
    assert_eq!(unsafe_body(&builder).len(), before.len() + 1);
}

#[test]
fn throws_modes_differ_in_the_return_value() {
    let used = after_variables(&with_outs(Mode::Throws(true)));
    let unused = after_variables(&with_outs(Mode::Throws(false)));
    let split = |mut chunks: Vec<Chunk>| match (chunks.remove(0), chunks.remove(0)) {
        (Chunk::Let { name, value, .. }, Chunk::ErrorResultReturn { value: result }) => {
            match *result {
                Chunk::Tuple(values, TupleMode::WithUnit) => (name, value, values),
                other => panic!("{:?}", other),
            }
        }
        other => panic!("{:?}", other),
    };
    let (used_name, used_call, mut used_values) = split(used);
    let (unused_name, unused_call, unused_values) = split(unused);
    assert_eq!((used_name.as_str(), unused_name.as_str()), ("ret", "_"));
    assert_eq!(used_call, unused_call);
    assert_eq!(used_values.remove(0), converted(custom("ret"), None));
    assert_eq!(used_values, unused_values);
}

#[test]
fn one_more_length_removes_one_value() {
    let mut builder = builder();
    for name in ["a", "b", "c"] {
        builder.out_parameter(&env(), &c_parameter(name, INT));
    }
    builder.transformations(&[length(0, "a", "n")]);
    let value = |name| from_glib(name, INT, if name == "a" { Some("n") } else { None });
    let returned = |builder: &Builder| unsafe_body(builder).pop().unwrap();
    assert_eq!(
        returned(&builder),
        Chunk::Tuple(vec![value("a"), value("b"), value("c")], TupleMode::Auto)
    );
    builder.transformations(&[length(0, "a", "n"), length(1, "", "b")]);
    assert_eq!(
        returned(&builder),
        Chunk::Tuple(vec![value("a"), value("c")], TupleMode::Auto)
    );
}

#[test]
fn into_bindings_are_counted() {
    let mut builder = builder();
    builder.parameter();
    let count = |builder: &Builder| body(builder).len() - 1;
    builder.transformations(&[to_glib(0, "a")]);
    assert_eq!(count(&builder), 0);
    builder.transformations(&[into(0, "a", true), into(0, "b", false), into(0, "c", true)]);
    assert_eq!(count(&builder), 5);
}

#[test]
fn other_transformations_yield_no_argument() {
    let mut builder = builder();
    builder.parameter().parameter();
    let arguments = |builder: &Builder| match unsafe_body(builder).remove(0) {
        Chunk::FfiCallConversion { call, .. } => match *call {
            Chunk::FfiCall { params, .. } => params,
            other => panic!("{:?}", other),
        },
        other => panic!("{:?}", other),
    };
    builder.transformations(&[
        length(0, "a", "n"),
        to_glib(1, "b"),
        into(0, "a", true),
        to_glib(0, "a"),
    ]);
    let all = arguments(&builder);
    builder.transformations(&[to_glib(1, "b"), to_glib(0, "a")]);
    assert_eq!(arguments(&builder), all);
    assert_eq!(all, vec![argument("b"), argument("a")]);
    builder.transformations(&[length(0, "a", "n"), into(0, "a", true)]);
    assert_eq!(arguments(&builder), vec![]);
}

#[test]
fn error_is_declared_but_not_handed_back() {
    let mut builder = builder();
    builder.out_parameter(&env(), &c_parameter("error", ERROR));
    builder.outs_mode(Mode::Throws(false));
    assert_eq!(
        unsafe_body(&builder),
        vec![
            let_("error", true, Chunk::NullMutPtr),
            let_("_", false, call(vec![])),
            Chunk::ErrorResultReturn {
                value: Box::new(Chunk::Tuple(vec![], TupleMode::WithUnit)),
            },
        ]
    );
}
