use module_register::classes::{noop, Constructor};
use module_register::exports::{group_by_module, ModuleExport};
use module_register::names::{name_length, same_module, same_name};
use module_register::registry::{
    finish_js_function, get_c_callback, get_class_constructor, get_js_function, is_named,
    register_class, register_js_function, register_module_export, register_module_exports,
    wait_first_thread_registered, FunctionRequest, JsFunction, Registry,
};
use module_register::sys::{
    Error, Property, PropertyDescriptor, NAPI_FUNCTION, NAPI_INVALID_ARG, NAPI_OK,
};

fn property(data: usize, method: Option<usize>, is_ctor: bool) -> Property {
    Property {
        descriptor: PropertyDescriptor {
            utf8name: 0,
            name: 0,
            method,
            getter: None,
            setter: None,
            value: 0,
            attributes: 0,
            data,
        },
        is_ctor,
    }
}

fn missing() -> Error {
    Error {
        status: NAPI_INVALID_ARG,
        reason: "JavaScript function does not exist".to_string(),
    }
}

#[test]
fn c_callback_of_a_registered_function() {
    let mut registry = Registry::new();
    register_js_function(&mut registry, "f\0", 7, Some(9));
    register_js_function(&mut registry, "g\0", 8, Some(10));
    assert_eq!(get_c_callback(&registry, 7), Ok(9));
    assert_eq!(get_c_callback(&registry, 8), Ok(10));
}

#[test]
fn c_callback_that_is_not_there() {
    let mut registry = Registry::new();
    assert_eq!(get_c_callback(&registry, 7), Err(missing()));
    register_js_function(&mut registry, "f\0", 7, None);
    assert_eq!(get_c_callback(&registry, 7), Err(missing()));
}

#[test]
fn later_function_replaces_earlier_one() {
    let mut registry = Registry::new();
    register_js_function(&mut registry, "f\0", 7, Some(9));
    register_js_function(&mut registry, "renamed\0", 7, Some(11));
    assert_eq!(get_c_callback(&registry, 7), Ok(11));
    assert_eq!(
        get_js_function(&registry, 1, 7),
        Ok(FunctionRequest { env: 1, name: "renamed\0", length: 7, callback: Some(11) })
    );
}

#[test]
fn js_function_is_requested_with_its_length_in_bytes() {
    let mut registry = Registry::new();
    register_js_function(&mut registry, "größe\0", 7, Some(9));
    assert!(is_named(&registry, 7));
    assert_eq!(
        get_js_function(&registry, 3, 7),
        Ok(FunctionRequest { env: 3, name: "größe\0", length: 7, callback: Some(9) })
    );
}

#[test]
fn js_function_that_is_not_there() {
    let registry = Registry::new();
    assert!(is_named(&registry, 7));
    assert_eq!(get_js_function(&registry, 3, 7), Err(missing()));
}

#[test]
fn js_function_without_a_name() {
    let mut registry = Registry::new();
    register_js_function(&mut registry, "", 7, Some(9));
    assert!(!is_named(&registry, 7));
}

#[test]
fn js_function_that_the_engine_made_or_refused() {
    assert_eq!(
        finish_js_function(3, NAPI_OK, 42),
        Ok(JsFunction { env: 3, value: 42, value_type: NAPI_FUNCTION })
    );
    assert_eq!(finish_js_function(3, 9, 42), Err(missing()));
}

#[test]
fn nothing_is_waiting_to_be_constructed() {
    let registry = Registry::new();
    assert_eq!(get_class_constructor(&registry, 1, "Thing\0"), None);
    assert!(!wait_first_thread_registered(&registry));
}

#[test]
fn registrations_of_a_class_add_up() {
    let mut registry = Registry::new();
    register_class(&mut registry, "Thing", None, "Thing\0", vec![property(1, None, false)]);
    register_class(&mut registry, "Other", None, "Other\0", vec![property(2, None, false)]);
    register_class(&mut registry, "Thing", Some("m\0"), "Thing\0", vec![property(3, None, false)]);
    register_class(&mut registry, "Thing", None, "Renamed\0", vec![property(4, None, false)]);
    let classes = registry.classes();
    assert_eq!(classes.len(), 3);
    assert_eq!(classes[0].rust_name, "Thing");
    assert_eq!(classes[0].js_mod, None);
    assert_eq!(classes[0].js_name, "Renamed\0");
    assert_eq!(classes[0].properties, vec![property(1, None, false), property(4, None, false)]);
    assert_eq!(classes[1].rust_name, "Thing");
    assert_eq!(classes[1].js_mod, Some("m\0"));
    assert_eq!(classes[1].properties, vec![property(3, None, false)]);
    assert_eq!(classes[2].rust_name, "Other");
}

#[test]
fn class_is_defined_by_its_first_constructor() {
    let mut registry = Registry::new();
    register_class(
        &mut registry,
        "Thing",
        None,
        "Thing\0",
        vec![
            property(1, Some(5), false),
            property(2, Some(6), true),
            property(3, None, false),
            property(4, Some(7), true),
        ],
    );
    let definition = registry.classes()[0].definition();
    assert_eq!(definition.rust_name, "Thing");
    assert_eq!(definition.js_name, "Thing\0");
    assert_eq!(definition.constructor, Constructor::Method(6));
    assert_eq!(
        definition.properties,
        vec![property(1, Some(5), false).raw(), property(3, None, false).raw()]
    );
}

#[test]
fn class_without_a_constructor() {
    let mut registry = Registry::new();
    register_class(&mut registry, "Thing", None, "Thing\0", vec![]);
    assert!(registry.all_definable());
    let definition = registry.classes()[0].definition();
    assert_eq!(definition.constructor, Constructor::Noop);
    assert_eq!(definition.properties, vec![]);
    assert_eq!(noop(true), None);
    assert_eq!(noop(false), Some("Class contains no `constructor`, can not new it!"));
}

#[test]
fn class_that_cannot_be_defined() {
    let mut registry = Registry::new();
    register_class(&mut registry, "Thing", None, "Thing\0", vec![property(1, None, true)]);
    assert!(!registry.all_definable());
    let mut registry = Registry::new();
    register_class(&mut registry, "Thing", None, "", vec![]);
    assert!(!registry.all_definable());
}

#[test]
fn constructor_that_is_not_the_first_needs_no_callback() {
    let mut registry = Registry::new();
    register_class(
        &mut registry,
        "Thing",
        None,
        "Thing\0",
        vec![property(1, Some(5), true), property(2, None, true)],
    );
    assert!(registry.all_definable());
}

#[test]
fn exports_are_kept_in_order() {
    let mut registry = Registry::new();
    register_module_export(&mut registry, None, "a\0", 1);
    register_module_export(&mut registry, Some("m\0"), "b\0", 2);
    register_module_exports(&mut registry, 20);
    register_module_exports(&mut registry, 21);
    assert_eq!(
        registry.exports(),
        &[
            ModuleExport { js_mod: None, name: "a\0", callback: 1 },
            ModuleExport { js_mod: Some("m\0"), name: "b\0", callback: 2 },
        ]
    );
    assert_eq!(registry.fillers(), &[20, 21]);
}

#[test]
fn exports_are_gathered_by_module() {
    let export = |js_mod, name, callback| ModuleExport { js_mod, name, callback };
    let exports = [
        export(Some("m\0"), "a\0", 1),
        export(None, "b\0", 2),
        export(Some("n\0"), "c\0", 3),
        export(Some("m\0"), "d\0", 4),
        export(None, "e\0", 5),
        export(Some("m\0"), "a\0", 6),
    ];
    let groups = group_by_module(&exports);
    assert_eq!(groups.len(), 3);
    assert_eq!(groups[0].js_mod, Some("m\0"));
    assert_eq!(groups[0].items, vec![exports[0], exports[3], exports[5]]);
    assert_eq!(groups[1].js_mod, None);
    assert_eq!(groups[1].items, vec![exports[1], exports[4]]);
    assert_eq!(groups[2].js_mod, Some("n\0"));
    assert_eq!(groups[2].items, vec![exports[2]]);
    assert_eq!(group_by_module(&[]).len(), 0);
}

#[test]
fn names_are_compared_by_their_text() {
    let name = String::from("mod\0");
    assert!(same_name("mod\0", name.as_str()));
    assert!(!same_name("mod\0", "mod"));
    assert!(!same_name("mod\0", "mud\0"));
    assert!(same_module(None, None));
    assert!(same_module(Some("mod\0"), Some(name.as_str())));
    assert!(!same_module(None, Some("mod\0")));
    assert!(!same_module(Some("mod\0"), Some("dom\0")));
    assert_eq!(name_length("mod\0"), 3);
    assert_eq!(name_length("\0"), 0);
}

#[test]
fn class_that_is_there_keeps_its_properties() {
    let mut registry = Registry::new();
    for data in 1..4 {
        register_class(
            &mut registry,
            "Thing",
            Some("m\0"),
            "Thing\0",
            vec![property(data, None, false)],
        );
    }
    assert_eq!(
        registry.classes()[0].properties,
        vec![property(1, None, false), property(2, None, false), property(3, None, false)]
    );
}
