use gir::bounds::{find_error_type, find_out_parameters, format_out_parameters, BoundType, Bounds};
use gir::library::{
    async_param_to_remove, find_function, find_index_to_ignore, finish_function_name, CParameter,
    Class, Concurrency, Env, Function, Fundamental, Library, Nullable, Param, ParameterDirection,
    Record, Type, TypeEntry,
};

fn entry(typ: Type, text: &str) -> TypeEntry {
    TypeEntry { typ, rust_text: Some(text.to_string()) }
}

fn param(name: &str, typ: usize, direction: ParameterDirection) -> Param {
    Param {
        name: name.to_string(),
        typ,
        direction,
        nullable: Nullable(false),
        array_length: None,
    }
}

// type table: 0 unit, 1 X, 2 Y, 3 the Error record, 4 a callback signature
fn env_with_finish(finish_params: Vec<Param>, finish_ret_typ: usize) -> Env {
    let cb_fn = Function {
        name: "Ready".to_string(),
        c_identifier: None,
        parameters: vec![],
        ret: param("", 0, ParameterDirection::In),
    };
    Env {
        library: Library {
            types: vec![
                entry(Type::Fundamental(Fundamental::VoidType), "()"),
                entry(Type::Class(Class { final_type: true }), "X"),
                entry(Type::Class(Class { final_type: true }), "Y"),
                entry(Type::Record(Record { name: "Error".to_string() }), "Error"),
                entry(Type::Function(cb_fn), "FnOnce()"),
            ],
            functions: vec![Function {
                name: "foo_finish".to_string(),
                c_identifier: Some("foo_finish".to_string()),
                parameters: finish_params,
                ret: param("", finish_ret_typ, ParameterDirection::In),
            }],
        },
    }
}

fn callback_par() -> CParameter {
    CParameter {
        name: "callback".to_string(),
        typ: 4,
        c_type: "GAsyncReadyCallback".to_string(),
        instance_parameter: false,
        direction: ParameterDirection::In,
        nullable: Nullable(false),
    }
}

fn foo() -> Function {
    Function {
        name: "foo".to_string(),
        c_identifier: Some("foo".to_string()),
        parameters: vec![],
        ret: param("", 0, ParameterDirection::In),
    }
}

#[test]
fn completion_single_out_parameter() {
    let env = env_with_finish(
        vec![
            param("x", 1, ParameterDirection::Out),
            param("error", 3, ParameterDirection::Out),
        ],
        0,
    );
    let mut bounds: Bounds = Default::default();
    let (deref, cb) =
        bounds.add_for_parameter(&env, &foo(), &callback_par(), true, Concurrency::NotConcurrent);
    assert!(deref.is_some());
    let cb = cb.unwrap();
    assert_eq!(cb.success_parameters, "X");
    assert_eq!(cb.error_parameters, "Error");
    assert_eq!(cb.callback_type, "FnOnce(Result<X, Error>) + Send + 'static");
    assert_eq!(cb.bound_name, 'P');
    // the handler is registered as a plain generic under the parameter name
    let (alias, bt) = bounds.get_parameter_alias_info("callback").unwrap();
    assert_eq!(alias, 'P');
    assert_eq!(bt, BoundType::NoWrapper);
}

#[test]
fn completion_two_entries_render_as_tuple() {
    let env = env_with_finish(
        vec![
            param("x", 1, ParameterDirection::Out),
            param("y", 2, ParameterDirection::Out),
            param("error", 3, ParameterDirection::Out),
        ],
        0,
    );
    let mut bounds: Bounds = Default::default();
    let (_, cb) =
        bounds.add_for_parameter(&env, &foo(), &callback_par(), true, Concurrency::NotConcurrent);
    let cb = cb.unwrap();
    assert_eq!(cb.success_parameters, "(X, Y)");
    assert_eq!(cb.callback_type, "FnOnce(Result<(X, Y), Error>) + Send + 'static");
}

#[test]
fn completion_meaningful_return_is_prepended() {
    let env = env_with_finish(
        vec![
            param("y", 2, ParameterDirection::Out),
            param("error", 3, ParameterDirection::Out),
        ],
        1,
    );
    let mut bounds: Bounds = Default::default();
    let (_, cb) =
        bounds.add_for_parameter(&env, &foo(), &callback_par(), true, Concurrency::NotConcurrent);
    let cb = cb.unwrap();
    assert_eq!(cb.success_parameters, "(X, Y)");
}

#[test]
fn completion_missing_finish_registers_plainly() {
    let mut env = env_with_finish(vec![], 0);
    env.library.functions.clear();
    let mut bounds: Bounds = Default::default();
    let (_, cb) =
        bounds.add_for_parameter(&env, &foo(), &callback_par(), true, Concurrency::NotConcurrent);
    assert!(cb.is_none());
    // the parameter is still registered under its own rendered type
    let (alias, bt) = bounds.get_parameter_alias_info("callback").unwrap();
    assert_eq!(alias, 'P');
    assert_eq!(bt, BoundType::NoWrapper);
}

#[test]
fn ignorable_user_data_slot_is_skipped() {
    let env = env_with_finish(vec![], 0);
    let mut bounds: Bounds = Default::default();
    let par = CParameter {
        name: "user_data".to_string(),
        typ: 4,
        c_type: "gpointer".to_string(),
        instance_parameter: false,
        direction: ParameterDirection::In,
        nullable: Nullable(true),
    };
    let r = bounds.add_for_parameter(&env, &foo(), &par, true, Concurrency::NotConcurrent);
    assert_eq!(r, (None, None));
    assert!(bounds.is_empty());
    assert!(async_param_to_remove("user_data"));
    assert!(!async_param_to_remove("callback"));
}

#[test]
fn error_type_needs_exactly_one_record_error() {
    // zero error slots: fatal
    let env = env_with_finish(vec![param("x", 1, ParameterDirection::Out)], 0);
    assert_eq!(find_error_type(&env, &env.library.functions[0]), None);
    // two error slots: fatal
    let env = env_with_finish(
        vec![
            param("error", 3, ParameterDirection::Out),
            param("error", 3, ParameterDirection::Out),
        ],
        0,
    );
    assert_eq!(find_error_type(&env, &env.library.functions[0]), None);
    // an error slot that is no record: fatal
    let env = env_with_finish(vec![param("error", 1, ParameterDirection::Out)], 0);
    assert_eq!(find_error_type(&env, &env.library.functions[0]), None);
    // the well-formed convention
    let env = env_with_finish(vec![param("error", 3, ParameterDirection::Out)], 0);
    assert_eq!(
        find_error_type(&env, &env.library.functions[0]),
        Some("Error".to_string())
    );
}

#[test]
fn out_parameter_collection_skips_redundant_and_error() {
    let mut length_param = param("len", 1, ParameterDirection::Out);
    length_param.array_length = Some(2);
    let env = env_with_finish(
        vec![
            param("x", 1, ParameterDirection::Out),
            length_param,
            param("len_holder", 2, ParameterDirection::Out),
            param("error", 3, ParameterDirection::Out),
            param("input", 1, ParameterDirection::In),
        ],
        0,
    );
    let f = &env.library.functions[0];
    assert_eq!(find_index_to_ignore(&f.parameters), Some(2));
    let outs = find_out_parameters(&env, f);
    assert_eq!(outs, vec!["X".to_string(), "X".to_string()]);
}

#[test]
fn out_parameters_format_single_and_tuple() {
    assert_eq!(format_out_parameters(&vec!["X".to_string()]), "X");
    assert_eq!(
        format_out_parameters(&vec!["X".to_string(), "Y".to_string()]),
        "(X, Y)"
    );
    assert_eq!(format_out_parameters(&vec![]), "()");
}

#[test]
fn finish_name_transformation() {
    assert_eq!(finish_function_name("foo_async"), "foo_finish");
    assert_eq!(finish_function_name("bar"), "bar_finish");
    assert_eq!(finish_function_name(""), "_finish");
}

#[test]
fn function_lookup_finds_first_match() {
    let env = env_with_finish(vec![], 0);
    assert!(find_function(&env, "foo_finish").is_some());
    assert!(find_function(&env, "missing").is_none());
}
