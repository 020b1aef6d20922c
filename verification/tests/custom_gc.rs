use module_register::calls::Call;
use module_register::custom_gc::{
    create_custom_gc, custom_gc, is_route_complete, is_unref_complete, CustomGcRegistry,
    CustomGcSetup, CustomGcTsfn, Release, ReleaseCall,
};
use module_register::registry::{custom_gc_finalize, route_custom_gc_unref, Registry};
use module_register::sys::{NAPI_CLOSING, NAPI_INVALID_ARG, NAPI_OK, NAPI_TSFN_BLOCKING, NULL};

#[test]
fn reference_is_released_on_its_own_thread() {
    let mut gc = CustomGcRegistry::new();
    gc.register(1, 100, CustomGcTsfn(7));
    assert_eq!(gc.route(1, 50, 100), Release::Here { env: 100, reference: 50 });
}

#[test]
fn reference_is_sent_to_its_own_environment() {
    let mut gc = CustomGcRegistry::new();
    gc.register(1, 100, CustomGcTsfn(7));
    gc.register(2, 200, CustomGcTsfn(8));
    let through = |function| Release::Through { function: CustomGcTsfn(function), reference: 50 };
    assert_eq!(gc.route(3, 50, 100), through(7));
    assert_eq!(gc.route(3, 50, 200), through(8));
    assert_eq!(gc.route(2, 50, 100), through(7));
    assert_eq!(gc.route(1, 50, 200), through(8));
}

#[test]
fn nothing_is_released_where_nothing_is_there() {
    let mut gc = CustomGcRegistry::new();
    gc.register(1, 100, CustomGcTsfn(7));
    assert_eq!(gc.route(1, NULL, 100), Release::Nothing);
    assert_eq!(gc.route(1, 50, NULL), Release::Nothing);
    assert_eq!(gc.route(9, 50, NULL), Release::Nothing);
    assert_eq!(gc.route(1, 50, 300), Release::Nothing);
}

#[test]
fn nothing_is_sent_to_a_dead_environment() {
    let mut gc = CustomGcRegistry::new();
    gc.register(1, 100, CustomGcTsfn(7));
    gc.register(2, 200, CustomGcTsfn(8));
    gc.finalize(100);
    assert_eq!(gc.route(3, 50, 100), Release::Nothing);
    assert_eq!(
        gc.route(3, 50, 200),
        Release::Through { function: CustomGcTsfn(8), reference: 50 }
    );
}

#[test]
fn registry_routes_and_finalizes() {
    let mut registry = Registry::new();
    registry.register_custom_gc(1, 100, CustomGcTsfn(7));
    assert_eq!(
        route_custom_gc_unref(&registry, 2, 50, 100),
        Release::Through { function: CustomGcTsfn(7), reference: 50 }
    );
    custom_gc_finalize(&mut registry, 100);
    assert_eq!(route_custom_gc_unref(&registry, 2, 50, 100), Release::Nothing);
    assert_eq!(
        route_custom_gc_unref(&registry, 1, 50, 100),
        Release::Here { env: 100, reference: 50 }
    );
}

#[test]
fn outcomes_that_are_as_they_should_be() {
    assert!(is_unref_complete(NAPI_OK, 0));
    assert!(is_unref_complete(9, 3));
    assert!(!is_unref_complete(NAPI_OK, 1));
    assert!(is_route_complete(NAPI_OK));
    assert!(is_route_complete(NAPI_CLOSING));
    assert!(is_route_complete(NAPI_INVALID_ARG));
    assert!(!is_route_complete(15));
}

#[test]
fn collector_deletes_what_it_is_given() {
    assert_eq!(custom_gc(NULL), None);
    assert_eq!(custom_gc(50), Some(50));
}

#[test]
fn setup_goes_through_its_requests() {
    let mut setup = create_custom_gc();
    assert_eq!(setup.call(), Call::CreateFunction { name: "custom_gc", length: 9 });
    assert_eq!(setup.resume(NAPI_OK, 11), None);
    assert_eq!(setup.call(), Call::CreateString { text: "CustomGC", length: 8 });
    assert_eq!(setup.resume(NAPI_OK, 12), None);
    assert_eq!(
        setup.call(),
        Call::CreateThreadsafeFunction {
            function: 11,
            resource_name: 12,
            max_queue_size: 0,
            initial_thread_count: 1,
        }
    );
    assert_eq!(setup.resume(NAPI_OK, 13), None);
    assert_eq!(setup.call(), Call::UnrefThreadsafeFunction { threadsafe_function: 13 });
    assert_eq!(setup.resume(NAPI_OK, NULL), None);
    assert_eq!(setup, CustomGcSetup::Done { threadsafe_function: 13 });
}

#[test]
fn setup_reports_every_failure_and_goes_on() {
    let mut setup = create_custom_gc();
    let mut reasons = Vec::new();
    for status in 20..24 {
        let error = setup.resume(status, NULL).unwrap();
        assert_eq!(error.status, status);
        reasons.push(error.reason);
    }
    assert_eq!(
        reasons,
        vec![
            "Create Custom GC Function in napi_register_module_v1 failed",
            "Create async resource string in napi_register_module_v1",
            "Create Custom GC ThreadsafeFunction in napi_register_module_v1 failed",
            "Unref Custom GC ThreadsafeFunction in napi_register_module_v1 failed",
        ]
    );
    assert_eq!(setup, CustomGcSetup::Done { threadsafe_function: NULL });
}

#[test]
fn reference_is_given_up_and_then_deleted() {
    assert_eq!(Release::Nothing.calls(), vec![]);
    assert_eq!(
        Release::Here { env: 100, reference: 50 }.calls(),
        vec![
            ReleaseCall::Unref { env: 100, reference: 50 },
            ReleaseCall::Delete { env: 100, reference: 50 },
        ]
    );
    assert_eq!(
        Release::Through { function: CustomGcTsfn(7), reference: 50 }.calls(),
        vec![ReleaseCall::CallThreadsafeFunction {
            function: CustomGcTsfn(7),
            data: 50,
            mode: NAPI_TSFN_BLOCKING,
        }]
    );
}
