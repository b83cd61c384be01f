use gir::bounds::{Bound, BoundType, Bounds};
use gir::library::{
    CParameter, Class, Concurrency, Env, Function, Fundamental, Library, Nullable, Param,
    ParameterDirection, Record, Type, TypeEntry,
};

fn entry(typ: Type, text: &str) -> TypeEntry {
    TypeEntry { typ, rust_text: Some(text.to_string()) }
}

fn plain_param(name: &str, typ: usize) -> Param {
    Param {
        name: name.to_string(),
        typ,
        direction: ParameterDirection::In,
        nullable: Nullable(false),
        array_length: None,
    }
}

// type table: 0 unit, 1 non-final class, 2 final class, 3 interface,
// 4 utf8, 5 record, 6 function taking two class parameters, 7 filename,
// 8 list, 9 function with no parameters
fn small_env() -> Env {
    let fn_two_widgets = Function {
        name: "WidgetFunc".to_string(),
        c_identifier: None,
        parameters: vec![plain_param("first", 1), plain_param("second", 1)],
        ret: plain_param("", 0),
    };
    let fn_no_params = Function {
        name: "PlainFunc".to_string(),
        c_identifier: None,
        parameters: vec![],
        ret: plain_param("", 0),
    };
    Env {
        library: Library {
            types: vec![
                entry(Type::Fundamental(Fundamental::VoidType), "()"),
                entry(Type::Class(Class { final_type: false }), "Widget"),
                entry(Type::Class(Class { final_type: true }), "Pixbuf"),
                entry(Type::Interface, "Orientable"),
                entry(Type::Fundamental(Fundamental::Utf8), "str"),
                entry(Type::Record(Record { name: "Error".to_string() }), "Error"),
                entry(Type::Function(fn_two_widgets), "Fn(&Widget, &Widget)"),
                entry(Type::Fundamental(Fundamental::Filename), "Path"),
                entry(Type::List, "List"),
                entry(Type::Function(fn_no_params), "Fn()"),
            ],
            functions: vec![],
        },
    }
}

#[test]
fn get_new_all() {
    let mut bounds: Bounds = Default::default();
    let typ = BoundType::IsA(None);
    assert_eq!(bounds.add_parameter("a", "", typ.clone(), false), true);
    // Don't add second time
    assert_eq!(bounds.add_parameter("a", "", typ.clone(), false), false);
    assert_eq!(bounds.add_parameter("b", "", typ.clone(), false), true);
    assert_eq!(bounds.add_parameter("c", "", typ.clone(), false), true);
    assert_eq!(bounds.add_parameter("d", "", typ.clone(), false), true);
    assert_eq!(bounds.add_parameter("e", "", typ.clone(), false), true);
    assert_eq!(bounds.add_parameter("f", "", typ.clone(), false), true);
    assert_eq!(bounds.add_parameter("g", "", typ.clone(), false), true);
    assert_eq!(bounds.add_parameter("h", "", typ.clone(), false), true);
    assert_eq!(bounds.add_parameter("h", "", typ.clone(), false), false);
    assert_eq!(bounds.add_parameter("i", "", typ.clone(), false), true);
    assert_eq!(bounds.add_parameter("j", "", typ.clone(), false), true);
    assert_eq!(bounds.add_parameter("k", "", typ.clone(), false), true);
    assert_eq!(bounds.add_parameter("l", "", typ, false), false);
}

#[test]
fn get_parameter_alias_info() {
    let mut bounds: Bounds = Default::default();
    let typ = BoundType::IsA(None);
    bounds.add_parameter("a", "", typ.clone(), false);
    bounds.add_parameter("b", "", typ.clone(), false);
    assert_eq!(
        bounds.get_parameter_alias_info("a"),
        Some(('P', typ.clone()))
    );
    assert_eq!(bounds.get_parameter_alias_info("b"), Some(('Q', typ)));
    assert_eq!(bounds.get_parameter_alias_info("c"), None);
}

#[test]
fn aliases_run_in_alphabet_order() {
    let mut bounds: Bounds = Default::default();
    let typ = BoundType::IsA(None);
    let names = ["a", "b", "c", "d", "e", "f", "g", "h", "i", "j", "k"];
    for name in names.iter() {
        assert!(bounds.add_parameter(name, "", typ.clone(), false));
    }
    let expected = ['P', 'Q', 'R', 'S', 'T', 'U', 'V', 'W', 'X', 'Y', 'Z'];
    for (name, alias) in names.iter().zip(expected.iter()) {
        let (got, _) = bounds.get_parameter_alias_info(name).unwrap();
        assert_eq!(got, *alias);
    }
}

#[test]
fn duplicate_name_consumes_no_alias() {
    let mut bounds: Bounds = Default::default();
    let typ = BoundType::IsA(None);
    assert!(bounds.add_parameter("a", "", typ.clone(), false));
    assert!(!bounds.add_parameter("a", "", typ.clone(), false));
    assert!(bounds.add_parameter("b", "", typ, false));
    // had the duplicate consumed an alias, "b" would sit at 'R'
    assert_eq!(bounds.get_parameter_alias_info("b").unwrap().0, 'Q');
}

#[test]
fn conversion_with_nested_appends_two_bindings() {
    let mut bounds: Bounds = Default::default();
    let typ = BoundType::Into(Some('_'), Some(Box::new(BoundType::IsA(None))));
    assert!(bounds.add_parameter("widget", "Widget", typ, false));
    let used: &Vec<Bound> = bounds.iter();
    assert_eq!(used.len(), 2);
    assert!(used[0].info_for_next_type);
    assert!(!used[1].info_for_next_type);
    assert_eq!(used[0].alias, 'P');
    assert_eq!(used[1].alias, 'Q');
    // the visible binding renders as the shadow's alias
    assert_eq!(used[1].type_str, "P");
    // the shadow received the reserved scope tag
    assert_eq!(used[0].bound_type, BoundType::IsA(Some('a')));
    // predecessor lookups
    assert_eq!(bounds.get_base_alias('Q'), Some('P'));
    assert_eq!(bounds.get_base_alias('P'), None);
}

#[test]
fn base_alias_of_first_symbol_is_none() {
    let mut bounds: Bounds = Default::default();
    assert_eq!(bounds.get_base_alias('P'), None);
    assert!(bounds.add_parameter("a", "", BoundType::IsA(None), false));
    assert!(bounds.add_parameter("b", "", BoundType::IsA(None), false));
    // 'Q' exists, but its predecessor is no shadow binding
    assert_eq!(bounds.get_base_alias('Q'), None);
}

#[test]
fn shadow_names_are_not_addressable() {
    let mut bounds: Bounds = Default::default();
    let typ = BoundType::Into(Some('_'), Some(Box::new(BoundType::IsA(None))));
    assert!(bounds.add_parameter("widget", "Widget", typ, false));
    // the lookup skips the shadow and answers with the visible binding
    let (alias, bt) = bounds.get_parameter_alias_info("widget").unwrap();
    assert_eq!(alias, 'Q');
    assert!(matches!(bt, BoundType::Into(Some('a'), Some(_))));
    assert_eq!(bounds.get_parameter_alias_info("nobody"), None);
}

#[test]
fn classification_table() {
    let env = small_env();
    // non-final class
    assert_eq!(
        Bounds::type_for(&env, 1, Nullable(false)),
        Some(BoundType::IsA(None))
    );
    assert_eq!(
        Bounds::type_for(&env, 1, Nullable(true)),
        Some(BoundType::Into(Some('_'), Some(Box::new(BoundType::IsA(None)))))
    );
    // final class
    assert_eq!(Bounds::type_for(&env, 2, Nullable(false)), None);
    assert_eq!(
        Bounds::type_for(&env, 2, Nullable(true)),
        Some(BoundType::Into(Some('_'), None))
    );
    // interface
    assert_eq!(
        Bounds::type_for(&env, 3, Nullable(false)),
        Some(BoundType::IsA(None))
    );
    // text string
    assert_eq!(Bounds::type_for(&env, 4, Nullable(false)), None);
    assert_eq!(
        Bounds::type_for(&env, 4, Nullable(true)),
        Some(BoundType::Into(Some('_'), None))
    );
    // record
    assert_eq!(Bounds::type_for(&env, 5, Nullable(false)), None);
    // function-signature type
    assert_eq!(
        Bounds::type_for(&env, 6, Nullable(false)),
        Some(BoundType::NoWrapper)
    );
    assert_eq!(
        Bounds::type_for(&env, 6, Nullable(true)),
        Some(BoundType::Into(None, None))
    );
    // path-like
    assert_eq!(
        Bounds::type_for(&env, 7, Nullable(false)),
        Some(BoundType::AsRef(None))
    );
    assert_eq!(
        Bounds::type_for(&env, 7, Nullable(true)),
        Some(BoundType::AsRef(None))
    );
    // container
    assert_eq!(Bounds::type_for(&env, 8, Nullable(true)), None);
}

#[test]
fn fnptr_subparameters_share_one_bound() {
    let env = small_env();
    let mut bounds: Bounds = Default::default();
    let par = CParameter {
        name: "func".to_string(),
        typ: 6,
        c_type: "WidgetFunc".to_string(),
        instance_parameter: false,
        direction: ParameterDirection::In,
        nullable: Nullable(false),
    };
    let dummy = Function {
        name: "f".to_string(),
        c_identifier: Some("f".to_string()),
        parameters: vec![],
        ret: plain_param("", 0),
    };
    let (deref, cb) =
        bounds.add_for_parameter(&env, &dummy, &par, false, Concurrency::NotConcurrent);
    assert_eq!(deref, Some(String::new()));
    let cb = cb.unwrap();
    // one extra polymorphic bound for both sub-parameters, plus the callback
    let used: &Vec<Bound> = bounds.iter();
    assert_eq!(used.len(), 2);
    assert_eq!(used[0].alias, 'P');
    assert_eq!(used[0].bound_type, BoundType::IsA(None));
    assert_eq!(used[0].type_str, "Widget");
    assert_eq!(used[1].alias, 'Q');
    assert_eq!(used[1].parameter_name, "func");
    // the descriptor recorded the alias the callback binding received
    assert_eq!(cb.bound_name, 'Q');
    assert_eq!(
        cb.callback_type,
        "Fn(&Widget, &Widget), P: IsA<Widget>, P: IsA<Widget>"
    );
    assert_eq!(cb.success_parameters, "");
    assert_eq!(cb.error_parameters, "");
}

#[test]
fn split_companion_fires_for_conversion() {
    let env = small_env();
    let mut bounds: Bounds = Default::default();
    let par = CParameter {
        name: "func".to_string(),
        typ: 9,
        c_type: "PlainFunc".to_string(),
        instance_parameter: false,
        direction: ParameterDirection::In,
        nullable: Nullable(true),
    };
    let dummy = Function {
        name: "f".to_string(),
        c_identifier: Some("f".to_string()),
        parameters: vec![],
        ret: plain_param("", 0),
    };
    let (_, cb) = bounds.add_for_parameter(&env, &dummy, &par, false, Concurrency::Send);
    assert!(cb.is_some());
    let used: &Vec<Bound> = bounds.iter();
    assert_eq!(used.len(), 2);
    // demoted in place: raw generic, name cleared, alias kept
    assert_eq!(used[0].bound_type, BoundType::NoWrapper);
    assert_eq!(used[0].parameter_name, "");
    assert_eq!(used[0].alias, 'P');
    // the companion: fresh alias, renders as the demoted binding's alias
    assert_eq!(used[1].alias, 'Q');
    assert_eq!(used[1].type_str, "P");
    assert_eq!(used[1].parameter_name, "func");
    assert!(used[1].callback_modified);
    assert!(matches!(used[1].bound_type, BoundType::Into(None, None)));
    // the concurrency marker lands in the rendered type
    assert_eq!(cb.unwrap().callback_type, "Fn() + Send");
    // neither the demoted binding nor its companion is addressable by name
    assert_eq!(bounds.get_parameter_alias_info("func"), None);
}

#[test]
fn split_companion_does_not_fire_without_conversion() {
    let env = small_env();
    let mut bounds: Bounds = Default::default();
    let par = CParameter {
        name: "func".to_string(),
        typ: 9,
        c_type: "PlainFunc".to_string(),
        instance_parameter: false,
        direction: ParameterDirection::In,
        nullable: Nullable(false),
    };
    let dummy = Function {
        name: "f".to_string(),
        c_identifier: Some("f".to_string()),
        parameters: vec![],
        ret: plain_param("", 0),
    };
    let (_, cb) = bounds.add_for_parameter(&env, &dummy, &par, false, Concurrency::NotConcurrent);
    assert!(cb.is_some());
    let used: &Vec<Bound> = bounds.iter();
    assert_eq!(used.len(), 1);
    assert_eq!(used[0].bound_type, BoundType::NoWrapper);
    assert_eq!(used[0].parameter_name, "func");
}

#[test]
fn teardown_notification_registers_plainly() {
    let env = small_env();
    let mut bounds: Bounds = Default::default();
    let par = CParameter {
        name: "destroy".to_string(),
        typ: 9,
        c_type: "GDestroyNotify".to_string(),
        instance_parameter: false,
        direction: ParameterDirection::In,
        nullable: Nullable(true),
    };
    let dummy = Function {
        name: "f".to_string(),
        c_identifier: Some("f".to_string()),
        parameters: vec![],
        ret: plain_param("", 0),
    };
    let (deref, cb) =
        bounds.add_for_parameter(&env, &dummy, &par, false, Concurrency::NotConcurrent);
    // the teardown convention does not trigger the function-pointer slot:
    // no descriptor, one plain binding under the parameter's own type text,
    // and no split companion
    assert_eq!(deref, Some(String::new()));
    assert!(cb.is_none());
    let used: &Vec<Bound> = bounds.iter();
    assert_eq!(used.len(), 1);
    assert_eq!(used[0].alias, 'P');
    assert_eq!(used[0].parameter_name, "destroy");
    assert_eq!(used[0].type_str, "Fn()");
    assert!(matches!(used[0].bound_type, BoundType::Into(None, None)));
    assert!(!used[0].callback_modified);
}

#[test]
fn text_match_alone_adds_no_extra_bound() {
    // index 10: renders to the same text as the polymorphic class but is no
    // class at all; index 11: a callback taking one of each
    let mut env = small_env();
    env.library.types.push(entry(Type::Fundamental(Fundamental::Utf8), "Widget"));
    let mixed_fn = Function {
        name: "MixedFunc".to_string(),
        c_identifier: None,
        parameters: vec![plain_param("first", 1), plain_param("second", 10)],
        ret: plain_param("", 0),
    };
    env.library.types.push(TypeEntry {
        typ: Type::Function(mixed_fn),
        rust_text: Some("Fn(&Widget, &str)".to_string()),
    });
    let mut bounds: Bounds = Default::default();
    let par = CParameter {
        name: "func".to_string(),
        typ: 11,
        c_type: "MixedFunc".to_string(),
        instance_parameter: false,
        direction: ParameterDirection::In,
        nullable: Nullable(false),
    };
    let dummy = Function {
        name: "f".to_string(),
        c_identifier: Some("f".to_string()),
        parameters: vec![],
        ret: plain_param("", 0),
    };
    let (_, cb) = bounds.add_for_parameter(&env, &dummy, &par, false, Concurrency::NotConcurrent);
    // only the polymorphic sub-parameter takes part, even though the other
    // one's rendered text matches the existing binding's
    assert_eq!(bounds.iter().len(), 2);
    assert_eq!(
        cb.unwrap().callback_type,
        "Fn(&Widget, &str), P: IsA<Widget>"
    );
}

#[test]
fn out_and_instance_parameters_yield_no_binding() {
    let env = small_env();
    let mut bounds: Bounds = Default::default();
    let dummy = Function {
        name: "f".to_string(),
        c_identifier: Some("f".to_string()),
        parameters: vec![],
        ret: plain_param("", 0),
    };
    let out_par = CParameter {
        name: "result".to_string(),
        typ: 1,
        c_type: "GtkWidget**".to_string(),
        instance_parameter: false,
        direction: ParameterDirection::Out,
        nullable: Nullable(false),
    };
    assert_eq!(
        bounds.add_for_parameter(&env, &dummy, &out_par, false, Concurrency::NotConcurrent),
        (None, None)
    );
    let instance = CParameter {
        name: "self".to_string(),
        typ: 1,
        c_type: "GtkWidget*".to_string(),
        instance_parameter: true,
        direction: ParameterDirection::In,
        nullable: Nullable(false),
    };
    let (deref, cb) =
        bounds.add_for_parameter(&env, &dummy, &instance, false, Concurrency::NotConcurrent);
    assert_eq!(deref, Some(".as_ref()".to_string()));
    assert!(cb.is_none());
    assert!(bounds.is_empty());
}

#[test]
fn property_setter_bound() {
    let env = small_env();
    // nullable final class classifies as a conversion
    let b = Bound::get_for_property_setter(&env, "icon", 2, Nullable(true)).unwrap();
    assert_eq!(b.alias, 'P');
    assert_eq!(b.parameter_name, "icon");
    assert_eq!(b.type_str, "Pixbuf");
    assert!(matches!(b.bound_type, BoundType::Into(Some('_'), None)));
    // a plain polymorphic scheme is no conversion
    assert!(Bound::get_for_property_setter(&env, "child", 1, Nullable(false)).is_none());
}

#[test]
fn bound_type_queries() {
    assert!(BoundType::Into(None, None).is_into());
    assert!(!BoundType::IsA(None).is_into());
    assert!(BoundType::IsA(None).need_isa());
    assert!(BoundType::Into(Some('_'), Some(Box::new(BoundType::IsA(None)))).need_isa());
    assert!(!BoundType::Into(Some('_'), None).need_isa());
    assert!(!BoundType::AsRef(None).need_isa());
}

#[test]
fn fresh_registry_is_empty() {
    let bounds: Bounds = Default::default();
    assert!(bounds.is_empty());
    assert!(bounds.iter().is_empty());
    assert!(bounds.iter_lifetimes().is_empty());
}

#[test]
fn scope_tags_run_in_their_own_alphabet() {
    let mut bounds: Bounds = Default::default();
    let typ = BoundType::Into(Some('_'), None);
    assert!(bounds.add_parameter("a", "str", typ.clone(), false));
    assert!(bounds.add_parameter("b", "str", typ, false));
    assert_eq!(bounds.iter_lifetimes(), &vec!['a', 'b']);
    // the attached tag shows up in the registered scheme
    let (_, bt) = bounds.get_parameter_alias_info("b").unwrap();
    assert_eq!(bt, BoundType::Into(Some('b'), None));
}

#[test]
fn base_alias_outside_the_alphabet_is_none() {
    let mut bounds: Bounds = Default::default();
    let typ = BoundType::Into(Some('_'), Some(Box::new(BoundType::IsA(None))));
    assert!(bounds.add_parameter("widget", "Widget", typ, false));
    assert_eq!(bounds.get_base_alias('A'), None);
    assert_eq!(bounds.get_base_alias('z'), None);
}
