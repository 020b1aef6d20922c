use module_register::calls::{Call, Reply};
use module_register::classes::Constructor;
use module_register::custom_gc::{CustomGcTsfn, Release};
use module_register::registry::{
    get_class_constructor, register_class, register_module_export, register_module_exports,
    route_custom_gc_unref, wait_first_thread_registered, Registry,
};
use module_register::session::{napi_register_module_v1, Features, ModuleRegistration};
use module_register::sys::{Error, Property, PropertyDescriptor, NAPI_OK, NULL};

const ENV: usize = 100;
const EXPORTS: usize = 200;
const THREAD: u64 = 1;

fn property(data: usize, method: Option<usize>, is_ctor: bool) -> Property {
    Property {
        descriptor: PropertyDescriptor {
            utf8name: 0,
            name: 0,
            method,
            getter: None,
            setter: None,
            value: 0,
            attributes: 0,
            data,
        },
        is_ctor,
    }
}

/// Runs a registration to its end. Each call of the engine succeeds with a new value, unless
/// `fail` names a status for it; the function at address `n` creates the value `1000 + n`, unless
/// `fail` names a status for it.
fn run(
    registry: &mut Registry,
    registration: &mut ModuleRegistration,
    fail: impl Fn(&Call) -> i32,
) -> (Vec<Call>, Vec<Error>) {
    let mut calls = Vec::new();
    let mut errors = Vec::new();
    let mut value = 500;
    loop {
        let call = registration.call();
        let status = fail(&call);
        let reply = match &call {
            Call::Return { exports } => {
                assert_eq!(*exports, EXPORTS);
                return (calls, errors);
            }
            Call::AwaitFirstModule | Call::EnsureRuntime | Call::CountRuntimeUser => Reply::Ready,
            Call::CheckClasses => {
                assert!(registry.all_definable());
                Reply::Ready
            }
            Call::CallExport { callback: n } | Call::CallModuleExports { fill: n, .. } => {
                Reply::Returned {
                    result: if status == NAPI_OK {
                        Ok(1000 + *n)
                    } else {
                        Err(Error { status, reason: format!("function {}", n) })
                    },
                }
            }
            _ => {
                value += 1;
                Reply::Status { status, value: if status == NAPI_OK { value } else { NULL } }
            }
        };
        calls.push(call);
        if let Some(error) = registration.resume(registry, reply) {
            errors.push(error);
        }
    }
}

fn begin(registry: &mut Registry, custom_gc: bool) -> ModuleRegistration {
    let features = Features { runtime: false, custom_gc };
    napi_register_module_v1(registry, ENV, EXPORTS, THREAD, features)
}

fn set(object: usize, name: &'static str, value: usize) -> Call {
    Call::SetNamedProperty { object, name, value }
}

#[test]
fn module_without_anything() {
    let mut registry = Registry::new();
    let mut registration = begin(&mut registry, false);
    assert_eq!(registration.env(), ENV);
    let (calls, errors) = run(&mut registry, &mut registration, |_| NAPI_OK);
    assert_eq!(calls, vec![Call::CheckClasses]);
    assert_eq!(errors, vec![]);
    assert!(wait_first_thread_registered(&registry));
}

#[test]
fn exports_are_created_and_set() {
    let mut registry = Registry::new();
    register_module_export(&mut registry, None, "a\0", 1);
    register_module_export(&mut registry, Some("m\0"), "b\0", 2);
    register_module_export(&mut registry, None, "c\0", 3);
    register_module_exports(&mut registry, 4);
    let mut registration = begin(&mut registry, false);
    let (calls, errors) = run(&mut registry, &mut registration, |_| NAPI_OK);
    assert_eq!(
        calls,
        vec![
            Call::CallExport { callback: 1 },
            set(EXPORTS, "a\0", 1001),
            Call::CallExport { callback: 3 },
            set(EXPORTS, "c\0", 1003),
            Call::CreateObject,
            set(EXPORTS, "m\0", 503),
            Call::CallExport { callback: 2 },
            set(503, "b\0", 1002),
            Call::CheckClasses,
            Call::CallModuleExports { fill: 4, exports: EXPORTS },
        ]
    );
    assert_eq!(errors, vec![]);
}

#[test]
fn classes_are_defined_referenced_and_set() {
    let mut registry = Registry::new();
    register_class(
        &mut registry,
        "Thing",
        None,
        "Thing\0",
        vec![property(1, Some(5), true), property(2, None, false)],
    );
    register_class(&mut registry, "Other", Some("m\0"), "Other\0", vec![]);
    let mut registration = begin(&mut registry, false);
    let (calls, errors) = run(&mut registry, &mut registration, |_| NAPI_OK);
    assert_eq!(
        calls,
        vec![
            Call::CheckClasses,
            Call::DefineClass {
                name: "Thing\0",
                length: 5,
                constructor: Constructor::Method(5),
                properties: vec![property(2, None, false).raw()],
            },
            Call::CreateReference { value: 501, initial_refcount: 1 },
            set(EXPORTS, "Thing\0", 501),
            Call::CreateObject,
            set(EXPORTS, "m\0", 504),
            Call::DefineClass {
                name: "Other\0",
                length: 5,
                constructor: Constructor::Noop,
                properties: vec![],
            },
            Call::CreateReference { value: 506, initial_refcount: 1 },
            set(504, "Other\0", 506),
        ]
    );
    assert_eq!(errors, vec![]);
    assert_eq!(get_class_constructor(&registry, THREAD, "Thing\0"), Some(502));
    assert_eq!(get_class_constructor(&registry, THREAD, "Other\0"), Some(507));
    assert_eq!(get_class_constructor(&registry, THREAD, "Else\0"), None);
    assert_eq!(get_class_constructor(&registry, THREAD + 1, "Thing\0"), None);
}

#[test]
fn exports_and_classes_share_the_object_of_a_module() {
    let mut registry = Registry::new();
    register_module_export(&mut registry, Some("m\0"), "a\0", 1);
    register_class(&mut registry, "Thing", Some("m\0"), "Thing\0", vec![]);
    register_class(&mut registry, "Other", Some("m\0"), "Other\0", vec![]);
    let mut registration = begin(&mut registry, false);
    let (calls, _) = run(&mut registry, &mut registration, |_| NAPI_OK);
    let creations = calls.iter().filter(|call| **call == Call::CreateObject).count();
    let lookups = calls
        .iter()
        .filter(|call| **call == Call::GetNamedProperty { object: EXPORTS, name: "m\0" })
        .count();
    assert_eq!(creations, 1);
    assert_eq!(lookups, 2);
}

#[test]
fn custom_gc_is_set_up_last() {
    let mut registry = Registry::new();
    register_module_exports(&mut registry, 4);
    let mut registration = begin(&mut registry, true);
    let (calls, errors) = run(&mut registry, &mut registration, |_| NAPI_OK);
    assert_eq!(
        calls,
        vec![
            Call::CheckClasses,
            Call::CallModuleExports { fill: 4, exports: EXPORTS },
            Call::CreateFunction { name: "custom_gc", length: 9 },
            Call::CreateString { text: "CustomGC", length: 8 },
            Call::CreateThreadsafeFunction {
                function: 501,
                resource_name: 502,
                max_queue_size: 0,
                initial_thread_count: 1,
            },
            Call::UnrefThreadsafeFunction { threadsafe_function: 503 },
        ]
    );
    assert_eq!(errors, vec![]);
    assert_eq!(
        route_custom_gc_unref(&registry, THREAD, 9, ENV),
        Release::Here { env: ENV, reference: 9 }
    );
    assert_eq!(
        route_custom_gc_unref(&registry, THREAD + 1, 9, ENV),
        Release::Through { function: CustomGcTsfn(503), reference: 9 }
    );
}

#[test]
fn runtime_comes_after_the_fillers_and_before_the_collector() {
    let mut registry = Registry::new();
    register_module_exports(&mut registry, 4);
    let features = Features { runtime: true, custom_gc: true };
    let mut registration = napi_register_module_v1(&mut registry, ENV, EXPORTS, THREAD, features);
    let (calls, errors) = run(&mut registry, &mut registration, |_| NAPI_OK);
    assert_eq!(
        calls,
        vec![
            Call::CheckClasses,
            Call::CallModuleExports { fill: 4, exports: EXPORTS },
            Call::EnsureRuntime,
            Call::CountRuntimeUser,
            Call::AddRuntimeCleanupHook,
            Call::CreateFunction { name: "custom_gc", length: 9 },
            Call::CreateString { text: "CustomGC", length: 8 },
            Call::CreateThreadsafeFunction {
                function: 502,
                resource_name: 503,
                max_queue_size: 0,
                initial_thread_count: 1,
            },
            Call::UnrefThreadsafeFunction { threadsafe_function: 504 },
        ]
    );
    assert_eq!(errors, vec![]);
    assert!(wait_first_thread_registered(&registry));
}

#[test]
fn each_environment_shares_in_the_runtime_and_a_failed_hook_is_not_reported() {
    let mut registry = Registry::new();
    let features = Features { runtime: true, custom_gc: false };
    for (env, status) in [(ENV, NAPI_OK), (101, 9)] {
        let mut registration =
            napi_register_module_v1(&mut registry, env, EXPORTS, THREAD, features);
        let (calls, errors) = run(&mut registry, &mut registration, |_| status);
        let asked: Vec<Call> =
            calls.into_iter().filter(|call| *call != Call::AwaitFirstModule).collect();
        assert_eq!(
            asked,
            vec![
                Call::CheckClasses,
                Call::EnsureRuntime,
                Call::CountRuntimeUser,
                Call::AddRuntimeCleanupHook,
            ]
        );
        assert_eq!(errors, vec![]);
    }
}

#[test]
fn everything_fails_and_nothing_stops() {
    let mut registry = Registry::new();
    register_module_export(&mut registry, Some("m\0"), "a\0", 1);
    register_module_export(&mut registry, Some("m\0"), "b\0", 2);
    register_class(&mut registry, "Thing", Some("m\0"), "Thing\0", vec![]);
    register_module_exports(&mut registry, 4);
    let mut registration = begin(&mut registry, true);
    let (calls, errors) = run(&mut registry, &mut registration, |call| match call {
        Call::CallExport { callback: 2 } => NAPI_OK,
        _ => 9,
    });
    assert_eq!(
        calls,
        vec![
            Call::CreateObject,
            set(EXPORTS, "m\0", NULL),
            Call::CallExport { callback: 1 },
            Call::CallExport { callback: 2 },
            set(EXPORTS, "b\0", 1002),
            Call::CheckClasses,
            Call::GetNamedProperty { object: EXPORTS, name: "m\0" },
            Call::DefineClass {
                name: "Thing\0",
                length: 5,
                constructor: Constructor::Noop,
                properties: vec![],
            },
            Call::CreateReference { value: NULL, initial_refcount: 1 },
            set(EXPORTS, "Thing\0", NULL),
            Call::CallModuleExports { fill: 4, exports: EXPORTS },
            Call::CreateFunction { name: "custom_gc", length: 9 },
            Call::CreateString { text: "CustomGC", length: 8 },
            Call::CreateThreadsafeFunction {
                function: NULL,
                resource_name: NULL,
                max_queue_size: 0,
                initial_thread_count: 1,
            },
            Call::UnrefThreadsafeFunction { threadsafe_function: NULL },
        ]
    );
    let reasons: Vec<String> = errors
        .into_iter()
        .map(|error| {
            assert_eq!(error.status, 9);
            error.reason
        })
        .collect();
    assert_eq!(
        reasons,
        vec![
            "Create export JavaScript Object [m\0] failed",
            "Set exports Object [m\0] into exports object failed",
            "function 1",
            "Failed to register export `b\0`",
            "Get mod m\0 from exports failed",
            "Failed to register class `Thing\0` generate by struct `Thing`",
            "Failed to register class `Thing\0` generate by struct `Thing`",
            "function 4",
            "Create Custom GC Function in napi_register_module_v1 failed",
            "Create async resource string in napi_register_module_v1",
            "Create Custom GC ThreadsafeFunction in napi_register_module_v1 failed",
            "Unref Custom GC ThreadsafeFunction in napi_register_module_v1 failed",
        ]
    );
    assert_eq!(get_class_constructor(&registry, THREAD, "Thing\0"), Some(NULL));
    assert!(wait_first_thread_registered(&registry));
}

#[test]
fn second_module_waits_for_the_first() {
    let mut registry = Registry::new();
    register_module_export(&mut registry, None, "a\0", 1);
    let mut first = begin(&mut registry, false);
    let features = Features { runtime: false, custom_gc: false };
    let mut second = napi_register_module_v1(&mut registry, 101, EXPORTS, THREAD + 1, features);
    for _ in 0..3 {
        assert_eq!(second.call(), Call::AwaitFirstModule);
        assert_eq!(second.resume(&mut registry, Reply::Ready), None);
    }
    run(&mut registry, &mut first, |_| NAPI_OK);
    let (calls, _) = run(&mut registry, &mut second, |_| NAPI_OK);
    assert_eq!(
        calls,
        vec![
            Call::AwaitFirstModule,
            Call::CallExport { callback: 1 },
            set(EXPORTS, "a\0", 1001),
            Call::CheckClasses,
        ]
    );
}

#[test]
fn each_thread_has_its_own_constructors() {
    let mut registry = Registry::new();
    register_class(&mut registry, "Thing", None, "Thing\0", vec![]);
    let mut first = begin(&mut registry, false);
    run(&mut registry, &mut first, |_| NAPI_OK);
    let features = Features { runtime: false, custom_gc: false };
    let mut second = napi_register_module_v1(&mut registry, 101, EXPORTS, 2, features);
    run(&mut registry, &mut second, |call| match call {
        Call::CreateReference { .. } => 9,
        _ => NAPI_OK,
    });
    assert_eq!(get_class_constructor(&registry, THREAD, "Thing\0"), Some(502));
    assert_eq!(get_class_constructor(&registry, 2, "Thing\0"), Some(NULL));
}

#[test]
fn last_class_of_a_name_counts() {
    let mut registry = Registry::new();
    register_class(&mut registry, "Thing", None, "Thing\0", vec![]);
    register_class(&mut registry, "Other", None, "Thing\0", vec![]);
    let mut registration = begin(&mut registry, false);
    run(&mut registry, &mut registration, |_| NAPI_OK);
    assert_eq!(get_class_constructor(&registry, THREAD, "Thing\0"), Some(505));
}

#[test]
fn classes_registered_by_an_export_are_defined_too() {
    let mut registry = Registry::new();
    register_module_export(&mut registry, None, "a\0", 1);
    let mut registration = begin(&mut registry, false);
    assert_eq!(registration.call(), Call::CallExport { callback: 1 });
    register_class(&mut registry, "Thing", None, "Thing\0", vec![]);
    run(&mut registry, &mut registration, |_| NAPI_OK);
    assert_eq!(get_class_constructor(&registry, THREAD, "Thing\0"), Some(503));
}

#[test]
fn everything_is_set_where_it_belongs() {
    let mut registry = Registry::new();
    register_module_export(&mut registry, Some("m\0"), "a\0", 1);
    register_module_export(&mut registry, Some("n\0"), "b\0", 2);
    register_module_export(&mut registry, Some("m\0"), "c\0", 3);
    register_module_export(&mut registry, None, "d\0", 4);
    register_class(&mut registry, "Thing", Some("m\0"), "Thing\0", vec![]);
    register_class(&mut registry, "Other", None, "Other\0", vec![]);
    let mut registration = begin(&mut registry, false);
    let mut sets = Vec::new();
    let mut value = 500;
    loop {
        let call = registration.call();
        let reply = match &call {
            Call::Return { .. } => break,
            Call::CheckClasses => Reply::Ready,
            Call::CallExport { callback } => Reply::Returned { result: Ok(1000 + *callback) },
            Call::GetNamedProperty { name, .. } => {
                let found = sets.iter().find_map(|set| match set {
                    Call::SetNamedProperty { object: EXPORTS, name: n, value } if n == name => {
                        Some(*value)
                    }
                    _ => None,
                });
                Reply::Status { status: NAPI_OK, value: found.unwrap() }
            }
            _ => {
                value += 1;
                Reply::Status { status: NAPI_OK, value }
            }
        };
        if matches!(call, Call::SetNamedProperty { .. }) {
            sets.push(call);
        }
        registration.resume(&mut registry, reply);
    }
    assert_eq!(
        sets,
        vec![
            set(EXPORTS, "m\0", 501),
            set(501, "a\0", 1001),
            set(501, "c\0", 1003),
            set(EXPORTS, "n\0", 505),
            set(505, "b\0", 1002),
            set(EXPORTS, "d\0", 1004),
            set(501, "Thing\0", 509),
            set(EXPORTS, "Other\0", 512),
        ]
    );
}
