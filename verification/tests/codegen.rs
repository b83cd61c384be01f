use gir::bounds::{BoundType, Bounds};
use gir::chunk::Chunk;
use gir::child_property_body::Builder;
use gir::general::{impl_static_type, objects_child_type, tabs, u16_to_dec, version_condition_string, Version};
use gir::imports::Imports;

fn collected(imports: &Imports) -> Vec<String> {
    let mut v = imports.names().clone();
    v.sort();
    v
}

#[test]
fn imports_follow_the_binding_schemes() {
    let mut bounds: Bounds = Default::default();
    assert!(bounds.add_parameter("a", "Widget", BoundType::IsA(None), false));
    assert!(bounds.add_parameter("b", "std::path::PathBuf", BoundType::AsRef(None), false));
    assert!(bounds.add_parameter("c", "u32", BoundType::Into(None, None), false));
    assert!(bounds.add_parameter("d", "cb", BoundType::NoWrapper, false));
    let mut imports = Imports::new();
    bounds.update_imports(&mut imports);
    assert_eq!(
        collected(&imports),
        vec!["glib::object::IsA".to_string(), "std::path::PathBuf".to_string()]
    );
}

#[test]
fn nested_conversion_imports_marker() {
    let mut bounds: Bounds = Default::default();
    let typ = BoundType::Into(Some('_'), Some(Box::new(BoundType::IsA(None))));
    assert!(bounds.add_parameter("widget", "Widget", typ, false));
    let mut imports = Imports::new();
    bounds.update_imports(&mut imports);
    // both the shadow and the visible binding resolve to the one marker
    assert_eq!(collected(&imports), vec!["glib::object::IsA".to_string()]);
}

#[test]
fn import_derivation_is_order_independent() {
    let mut first: Bounds = Default::default();
    assert!(first.add_parameter("a", "Widget", BoundType::IsA(None), false));
    assert!(first.add_parameter("b", "Path", BoundType::AsRef(None), false));
    let mut second: Bounds = Default::default();
    assert!(second.add_parameter("b", "Path", BoundType::AsRef(None), false));
    assert!(second.add_parameter("a", "Widget", BoundType::IsA(None), false));
    let mut i1 = Imports::new();
    let mut i2 = Imports::new();
    first.update_imports(&mut i1);
    second.update_imports(&mut i2);
    assert_eq!(collected(&i1), collected(&i2));
}

#[test]
fn imports_hold_each_name_once() {
    let mut imports = Imports::new();
    imports.add("glib::object::IsA");
    imports.add("glib::object::IsA");
    imports.add_used_type("Widget");
    assert_eq!(
        collected(&imports),
        vec!["Widget".to_string(), "glib::object::IsA".to_string()]
    );
    assert!(imports.contains("Widget"));
    assert!(!imports.contains("Other"));
}

fn custom_text(c: &Chunk) -> &str {
    match c {
        Chunk::Custom(s) => s.as_str(),
        _ => panic!("expected a literal piece"),
    }
}

#[test]
fn builder_getter_chunks() {
    let mut builder = Builder::new();
    builder
        .name("size")
        .is_get(true)
        .default_value("0")
        .type_string("i32");
    let body = builder.generate();
    let chunks = match body {
        Chunk::BlockHalf(chunks) => chunks,
        _ => panic!("expected a block"),
    };
    assert_eq!(chunks.len(), 3);
    match &chunks[0] {
        Chunk::Let { name, is_mut, value, type_ } => {
            assert_eq!(name, "value");
            assert!(*is_mut);
            assert!(type_.is_none());
            assert_eq!(custom_text(value), "Value::from(&0)");
        }
        _ => panic!("expected the value binding"),
    }
    match &chunks[1] {
        Chunk::Unsafe(body) => {
            assert_eq!(body.len(), 1);
            match &body[0] {
                Chunk::FfiCallConversion { ret, call } => {
                    assert!(!ret.commented);
                    match &**call {
                        Chunk::FfiCall { name, params } => {
                            assert_eq!(name, "gtk_container_child_get_property");
                            assert_eq!(params.len(), 4);
                            assert_eq!(custom_text(&params[0]), "self.to_glib_none().0");
                            assert_eq!(custom_text(&params[1]), "item.to_glib_none().0");
                            assert_eq!(custom_text(&params[2]), "\"size\".to_glib_none().0");
                            assert_eq!(custom_text(&params[3]), "value.to_glib_none_mut().0");
                        }
                        _ => panic!("expected the foreign call"),
                    }
                }
                _ => panic!("expected the converted call"),
            }
        }
        _ => panic!("expected the unsafe block"),
    }
    assert_eq!(custom_text(&chunks[2]), "value.get::<i32>().unwrap()");
}

#[test]
fn builder_setter_chunks() {
    let mut builder = Builder::new();
    builder.name("size").rust_name("size_value").is_get(false);
    let body = builder.generate();
    let chunks = match body {
        Chunk::BlockHalf(chunks) => chunks,
        _ => panic!("expected a block"),
    };
    assert_eq!(chunks.len(), 1);
    match &chunks[0] {
        Chunk::Unsafe(body) => {
            assert_eq!(body.len(), 1);
            match &body[0] {
                Chunk::FfiCallConversion { call, .. } => match &**call {
                    Chunk::FfiCall { name, params } => {
                        assert_eq!(name, "gtk_container_child_set_property");
                        assert_eq!(
                            custom_text(&params[3]),
                            "Value::from(&size_value).to_glib_none().0"
                        );
                    }
                    _ => panic!("expected the foreign call"),
                },
                _ => panic!("expected the converted call"),
            }
        }
        _ => panic!("expected the unsafe block"),
    }
}

#[test]
fn tabs_indent_four_spaces_per_level() {
    assert_eq!(tabs(0), "");
    assert_eq!(tabs(1), "    ");
    assert_eq!(tabs(3), "            ");
    assert_eq!(tabs(-2), "");
}

#[test]
fn child_type_lines() {
    let lines = objects_child_type("MenuItem", "GtkMenuItem");
    assert_eq!(
        lines,
        vec!["".to_string(), "pub type MenuItem = Object<ffi::GtkMenuItem>;".to_string()]
    );
}

#[test]
fn static_type_lines() {
    let lines = impl_static_type("MenuItem", "gtk_menu_item_get_type");
    assert_eq!(lines.len(), 7);
    assert_eq!(lines[1], "impl types::StaticType for MenuItem {");
    assert_eq!(lines[4], "        from_glib(ffi::gtk_menu_item_get_type())");
    assert_eq!(lines[6], "}");
}

#[test]
fn signal_declaration_text() {
    let ft = Some("Fn(&Self) + 'static".to_string());
    assert_eq!(gir::signal::bounds(&ft), "F: Fn(&Self) + 'static");
    assert_eq!(
        gir::signal::declaration("connect_clicked", &ft),
        "fn connect_clicked<F: Fn(&Self) + 'static>(&self, f: F) -> SignalHandlerId"
    );
    assert_eq!(gir::signal::bounds(&None), "Unsupported or ignored types");
}

#[test]
fn version_condition_lines() {
    let min = Version { major: 3, minor: 4, patch: 0 };
    // at the floor and above it: the attribute line appears
    assert_eq!(
        version_condition_string("gtk", min, Some(Version { major: 3, minor: 12, patch: 0 }), false, 0),
        Some("#[cfg(feature = \"gtk_v3_12\")]".to_string())
    );
    assert_eq!(
        version_condition_string("gtk", min, Some(min), true, 1),
        Some("    //#[cfg(feature = \"gtk_v3_4\")]".to_string())
    );
    // below the floor, or no version at all: nothing
    assert_eq!(
        version_condition_string("gtk", min, Some(Version { major: 3, minor: 2, patch: 0 }), false, 0),
        None
    );
    assert_eq!(version_condition_string("gtk", min, None, false, 0), None);
}

#[test]
fn decimal_rendering() {
    assert_eq!(u16_to_dec(0), "0");
    assert_eq!(u16_to_dec(7), "7");
    assert_eq!(u16_to_dec(10), "10");
    assert_eq!(u16_to_dec(304), "304");
    assert_eq!(u16_to_dec(65535), "65535");
}
