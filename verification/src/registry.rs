//! Everything that the process has registered.
use std::collections::HashMap;
use vstd::hash_map::StringHashMap;
use vstd::prelude::*;
use vstd::utf8::encode_utf8;

use crate::classes::{
    all_definable, class_of, classes_view, classes_wf, law_registering_a_class, with_class,
    ClassEntry, ClassTable, ClassView,
};
use crate::custom_gc::{CustomGcRegistry, CustomGcTsfn, CustomGcView, Release};
use crate::exports::{exports_view, ExportView, ModuleExport};
use crate::names::{c_length, module_view, name_length};
use crate::persisted::{PersistedPerInstanceHashMap, PersistedPerInstanceVec};
use crate::sys::{
    Callback, Error, ErrorView, ExportRegisterCallback, ModuleExportsCallback, NapiCallback,
    NapiEnv, NapiRef, NapiValue, Property, ThreadKey, NAPI_FUNCTION, NAPI_INVALID_ARG, NAPI_OK,
    NULL,
};

verus! {

broadcast use vstd::std_specs::hash::group_hash_axioms;

/// The C callback behind a registered function, and its name.
#[derive(Debug, Clone, Copy, PartialEq, Eq)]
pub struct FunctionRecord {
    pub callback: NapiCallback,
    pub name: &'static str,
}

/// The model of a `FunctionRecord`.
#[verifier::ext_equal]
pub struct FunctionView {
    pub callback: NapiCallback,
    pub name: Seq<char>,
}

impl View for FunctionRecord {
    type V = FunctionView;

    open spec fn view(&self) -> FunctionView {
        FunctionView { callback: self.callback, name: self.name@ }
    }
}

/// The functions that have been registered.
pub type FnRegisterMap = HashMap<ExportRegisterCallback, FunctionRecord>;

/// For each thread the references to its classes.
pub type ThreadConstructors = HashMap<ThreadKey, StringHashMap<NapiRef>>;

/// The model of a `Registry`.
#[verifier::ext_equal]
pub struct RegistryView {
    /// The exports, in the order of their registration.
    pub exports: Seq<ExportView>,
    /// The classes, each struct's together.
    pub classes: Seq<ClassView>,
    /// The functions that fill in `exports` by themselves, in the order of their registration.
    pub fillers: Seq<ModuleExportsCallback>,
    /// For each function that creates a JavaScript function what that function consists of.
    pub functions: Map<ExportRegisterCallback, FunctionView>,
    /// For each thread on which a module has been registered the references to its classes.
    pub constructors: Map<ThreadKey, Map<Seq<char>, NapiRef>>,
    /// How references are released.
    pub custom_gc: CustomGcView,
    /// Whether no module has begun its registration yet.
    pub is_first_module: bool,
    /// Whether some module has ended its registration.
    pub first_module_registered: bool,
}

impl RegistryView {
    /// The classes are in order.
    pub open spec fn wf(self) -> bool {
        classes_wf(self.classes)
    }

    /// The registry with one more function that fills in `exports`.
    pub open spec fn with_filler(self, fill: ModuleExportsCallback) -> RegistryView {
        RegistryView { fillers: self.fillers.push(fill), ..self }
    }

    /// The registry with one more export.
    pub open spec fn with_export(self, export: ExportView) -> RegistryView {
        RegistryView { exports: self.exports.push(export), ..self }
    }

    /// The registry with the function that `cb` creates set anew.
    pub open spec fn with_function(
        self,
        cb: ExportRegisterCallback,
        function: FunctionView,
    ) -> RegistryView {
        RegistryView { functions: self.functions.insert(cb, function), ..self }
    }

    /// The registry with more properties for a class and a name for it.
    pub open spec fn with_class(
        self,
        rust_name: Seq<char>,
        js_mod: Option<Seq<char>>,
        js_name: Seq<char>,
        properties: Seq<Property>,
    ) -> RegistryView {
        RegistryView {
            classes: with_class(self.classes, rust_name, js_mod, js_name, properties),
            ..self
        }
    }

    /// The C callback of a registered function; an error where the function is not registered or
    /// has none.
    pub open spec fn c_callback(self, raw_fn: ExportRegisterCallback) -> Result<
        Callback,
        ErrorView,
    > {
        if self.functions.contains_key(raw_fn) && self.functions[raw_fn].callback is Some {
            Ok(self.functions[raw_fn].callback->0)
        } else {
            Err(no_such_function())
        }
    }

    /// The reference to the class `js_name` on `thread`, if there is one.
    pub open spec fn class_constructor(self, thread: ThreadKey, js_name: Seq<char>) -> Option<
        NapiRef,
    > {
        if self.constructors.contains_key(thread) && self.constructors[thread].contains_key(
            js_name,
        ) {
            Some(self.constructors[thread][js_name])
        } else {
            None
        }
    }
}

/// What a caller is told who asks for a function that is not there.
pub open spec fn no_such_function() -> ErrorView {
    ErrorView { status: NAPI_INVALID_ARG, reason: "JavaScript function does not exist"@ }
}

fn missing_function() -> (error: Error)
    ensures
        error@ == no_such_function(),
{
    Error {
        status: NAPI_INVALID_ARG,
        reason: "JavaScript function does not exist".to_owned(),
    }
}

/// Everything that the process has registered.
pub struct Registry {
    module_register_callback: PersistedPerInstanceVec<ModuleExport>,
    module_class_properties: ClassTable,
    module_exports: PersistedPerInstanceVec<ModuleExportsCallback>,
    fn_register_map: PersistedPerInstanceHashMap<ExportRegisterCallback, FunctionRecord>,
    registered_classes: PersistedPerInstanceHashMap<ThreadKey, StringHashMap<NapiRef>>,
    custom_gc_registry: CustomGcRegistry,
    is_first_module: bool,
    first_module_registered: bool,
}

impl View for Registry {
    type V = RegistryView;

    closed spec fn view(&self) -> RegistryView {
        RegistryView {
            exports: exports_view(self.module_register_callback@),
            classes: self.module_class_properties@,
            fillers: self.module_exports@,
            functions: self.fn_register_map@.map_values(|f: FunctionRecord| f@),
            constructors: self.registered_classes@.map_values(|c: StringHashMap<NapiRef>| c@),
            custom_gc: self.custom_gc_registry@,
            is_first_module: self.is_first_module,
            first_module_registered: self.first_module_registered,
        }
    }
}

impl Registry {
    /// Nothing is registered yet.
    pub fn new() -> (registry: Self)
        ensures
            registry@ == (RegistryView {
                exports: Seq::empty(),
                classes: Seq::empty(),
                fillers: Seq::empty(),
                functions: Map::empty(),
                constructors: Map::empty(),
                custom_gc: CustomGcView { functions: Map::empty(), current: Map::empty() },
                is_first_module: true,
                first_module_registered: false,
            }),
            registry@.wf(),
    {
        let registry = Registry {
            module_register_callback: PersistedPerInstanceVec::default(),
            module_class_properties: ClassTable::new(),
            module_exports: PersistedPerInstanceVec::default(),
            fn_register_map: PersistedPerInstanceHashMap::default(),
            registered_classes: PersistedPerInstanceHashMap::default(),
            custom_gc_registry: CustomGcRegistry::new(),
            is_first_module: true,
            first_module_registered: false,
        };
        assert(registry@.exports =~= Seq::empty());
        assert(registry@.functions =~= Map::empty());
        assert(registry@.constructors =~= Map::empty());
        registry
    }

    /// The exports, for reading.
    pub fn exports(&self) -> (exports: &[ModuleExport])
        ensures
            exports_view(exports@) == self@.exports,
    {
        self.module_register_callback.as_slice()
    }

    /// The classes, for reading.
    pub fn classes(&self) -> (classes: &Vec<ClassEntry>)
        ensures
            classes_view(classes@) == self@.classes,
    {
        self.module_class_properties.entries()
    }

    /// Whether each of the registered classes can be put before the engine.
    pub fn all_definable(&self) -> (yes: bool)
        ensures
            yes == all_definable(self@.classes),
    {
        self.module_class_properties.all_definable()
    }

    /// The functions that fill in `exports`, for reading.
    pub fn fillers(&self) -> (fillers: &[ModuleExportsCallback])
        ensures
            fillers@ == self@.fillers,
    {
        self.module_exports.as_slice()
    }
}

/// Registers a function that fills in `exports` by itself.
pub fn register_module_exports(registry: &mut Registry, callback: ModuleExportsCallback)
    ensures
        final(registry)@ == old(registry)@.with_filler(callback),
        final(registry)@ == (RegistryView {
            fillers: old(registry)@.fillers.push(callback),
            ..old(registry)@
        }),
{
    registry.module_exports.push(callback);
}

/// Registers the export `name` of the module `js_mod`, whose value `cb` creates.
pub fn register_module_export(
    registry: &mut Registry,
    js_mod: Option<&'static str>,
    name: &'static str,
    cb: ExportRegisterCallback,
)
    ensures
        final(registry)@ == old(registry)@.with_export(
            ExportView { js_mod: module_view(js_mod), name: name@, callback: cb },
        ),
        final(registry)@ == (RegistryView {
            exports: old(registry)@.exports.push(
                ExportView {
                    js_mod: match js_mod {
                        Some(name) => Some(name@),
                        None => None,
                    },
                    name: name@,
                    callback: cb,
                },
            ),
            ..old(registry)@
        }),
{
    registry.module_register_callback.push(ModuleExport { js_mod, name, callback: cb });
    assert(registry@.exports =~= old(registry)@.exports.push(
        ExportView { js_mod: module_view(js_mod), name: name@, callback: cb },
    ));
}

/// Registers that the JavaScript function that `cb` creates is called `name` and runs `c_fn`; an
/// earlier registration of `cb` is forgotten.
pub fn register_js_function(
    registry: &mut Registry,
    name: &'static str,
    cb: ExportRegisterCallback,
    c_fn: NapiCallback,
)
    ensures
        final(registry)@ == old(registry)@.with_function(
            cb,
            FunctionView { callback: c_fn, name: name@ },
        ),
        final(registry)@ == (RegistryView {
            functions: old(registry)@.functions.insert(
                cb,
                FunctionView { callback: c_fn, name: name@ },
            ),
            ..old(registry)@
        }),
{
    let record = FunctionRecord { callback: c_fn, name };
    let add = |inner: &mut FnRegisterMap| -> (replaced: Option<FunctionRecord>)
        ensures
            final(inner)@ == old(inner)@.insert(cb, record),
        { inner.insert(cb, record) };
    registry.fn_register_map.borrow_mut(add);
    assert(registry@.functions =~= old(registry)@.functions.insert(cb, record@));
}

/// Registers `props` for the class of the struct `rust_name` in the module `js_mod`, which is
/// called `js_name` from now on.
pub fn register_class(
    registry: &mut Registry,
    rust_name: &'static str,
    js_mod: Option<&'static str>,
    js_name: &'static str,
    props: Vec<Property>,
)
    requires
        old(registry)@.wf(),
    ensures
        final(registry)@ == old(registry)@.with_class(
            rust_name@,
            module_view(js_mod),
            js_name@,
            props@,
        ),
        final(registry)@.wf(),
{
    registry.module_class_properties.register(rust_name, js_mod, js_name, props);
}

/// The C callback behind the function `raw_fn`.
pub fn get_c_callback(registry: &Registry, raw_fn: ExportRegisterCallback) -> (callback: Result<
    Callback,
    Error,
>)
    ensures
        match callback {
            Ok(callback) => registry@.c_callback(raw_fn) == Ok::<Callback, ErrorView>(callback),
            Err(error) => registry@.c_callback(raw_fn) == Err::<Callback, ErrorView>(error@),
        },
        match callback {
            Ok(callback) => {
                &&& registry@.functions.contains_key(raw_fn)
                &&& registry@.functions[raw_fn].callback == Some(callback)
            },
            Err(error) => {
                &&& registry@.functions.contains_key(raw_fn)
                    ==> registry@.functions[raw_fn].callback is None
                &&& error.status == NAPI_INVALID_ARG
                &&& error.reason@ == "JavaScript function does not exist"@
            },
        },
{
    match registry.fn_register_map.borrow().get(&raw_fn) {
        Some(record) => match record.callback {
            Some(callback) => Ok(callback),
            None => Err(missing_function()),
        },
        None => Err(missing_function()),
    }
}

/// The reference to the class `js_name` that was set up on `thread`.
pub fn get_class_constructor(
    registry: &Registry,
    thread: ThreadKey,
    js_name: &'static str,
) -> (constructor: Option<NapiRef>)
    ensures
        constructor == registry@.class_constructor(thread, js_name@),
        match constructor {
            Some(reference) => {
                &&& registry@.constructors.contains_key(thread)
                &&& registry@.constructors[thread].contains_key(js_name@)
                &&& registry@.constructors[thread][js_name@] == reference
            },
            None => registry@.constructors.contains_key(thread)
                ==> !registry@.constructors[thread].contains_key(js_name@),
        },
{
    match registry.registered_classes.borrow().get(&thread) {
        Some(classes) => match classes.get(js_name) {
            Some(constructor) => Some(*constructor),
            None => None,
        },
        None => None,
    }
}

/// The JavaScript function that is to be created for a registered function.
#[derive(Debug, Clone, Copy, PartialEq, Eq)]
pub struct FunctionRequest {
    pub env: NapiEnv,
    pub name: &'static str,
    pub length: usize,
    pub callback: NapiCallback,
}

/// A JavaScript function.
#[derive(Debug, Clone, Copy, PartialEq, Eq)]
pub struct JsFunction {
    pub env: NapiEnv,
    pub value: NapiValue,
    pub value_type: i32,
}

/// Whether a JavaScript function can be created for `raw_fn`, as far as its name goes: it is not
/// registered, or it has a name.
pub fn is_named(registry: &Registry, raw_fn: ExportRegisterCallback) -> (yes: bool)
    ensures
        yes == (registry@.functions.contains_key(raw_fn) ==> registry@.functions[raw_fn].name.len()
            > 0),
{
    match registry.fn_register_map.borrow().get(&raw_fn) {
        Some(record) => !record.name.is_empty(),
        None => true,
    }
}

/// The JavaScript function that is to be created for `raw_fn` in `env`; the engine's answer goes
/// to `finish_js_function`.
pub fn get_js_function(
    registry: &Registry,
    env: NapiEnv,
    raw_fn: ExportRegisterCallback,
) -> (request: Result<FunctionRequest, Error>)
    requires
        registry@.functions.contains_key(raw_fn) ==> registry@.functions[raw_fn].name.len() > 0,
    ensures
        match request {
            Ok(request) => {
                &&& registry@.functions.contains_key(raw_fn)
                &&& request.env == env
                &&& request.name@ == registry@.functions[raw_fn].name
                &&& request.length == c_length(registry@.functions[raw_fn].name)
                &&& request.length + 1 == encode_utf8(registry@.functions[raw_fn].name).len()
                &&& request.callback == registry@.functions[raw_fn].callback
            },
            Err(error) => {
                &&& !registry@.functions.contains_key(raw_fn)
                &&& error@ == no_such_function()
                &&& error.status == NAPI_INVALID_ARG
                &&& error.reason@ == "JavaScript function does not exist"@
            },
        },
{
    match registry.fn_register_map.borrow().get(&raw_fn) {
        Some(record) => {
            assert(registry@.functions[raw_fn] == record@);
            Ok(
                FunctionRequest {
                    env,
                    name: record.name,
                    length: name_length(record.name),
                    callback: record.callback,
                },
            )
        },
        None => Err(missing_function()),
    }
}

/// The JavaScript function that the engine created in `env`, or the error where it did not.
pub fn finish_js_function(env: NapiEnv, status: i32, value: NapiValue) -> (function: Result<
    JsFunction,
    Error,
>)
    ensures
        match function {
            Ok(function) => {
                &&& status == NAPI_OK
                &&& function == (JsFunction { env, value, value_type: NAPI_FUNCTION })
            },
            Err(error) => {
                &&& status != NAPI_OK
                &&& error@ == no_such_function()
                &&& error.status == NAPI_INVALID_ARG
                &&& error.reason@ == "JavaScript function does not exist"@
            },
        },
{
    if status == NAPI_OK {
        Ok(JsFunction { env, value, value_type: NAPI_FUNCTION })
    } else {
        Err(missing_function())
    }
}

/// Whether the wait for the first module is over.
pub fn wait_first_thread_registered(registry: &Registry) -> (over: bool)
    ensures
        over == registry@.first_module_registered,
{
    registry.first_module_registered
}

/// What is to be done, on `thread`, with the reference `ref_` of a value that is dropped; `env` is
/// the environment that the reference was created in.
pub fn route_custom_gc_unref(
    registry: &Registry,
    thread: ThreadKey,
    ref_: NapiRef,
    env: NapiEnv,
) -> (release: Release)
    ensures
        release == registry@.custom_gc.route(thread, ref_, env),
        release == (if ref_ == NULL || env == NULL {
            Release::Nothing
        } else if registry@.custom_gc.current.contains_key(thread)
            && registry@.custom_gc.current[thread] == env {
            Release::Here { env, reference: ref_ }
        } else if registry@.custom_gc.functions.contains_key(env) {
            Release::Through { function: registry@.custom_gc.functions[env], reference: ref_ }
        } else {
            Release::Nothing
        }),
{
    registry.custom_gc_registry.route(thread, ref_, env)
}

/// Forgets the thread-safe function of `env`, which is torn down.
pub fn custom_gc_finalize(registry: &mut Registry, env: NapiEnv)
    ensures
        final(registry)@ == (RegistryView {
            custom_gc: old(registry)@.custom_gc.finalize(env),
            ..old(registry)@
        }),
        final(registry)@ == (RegistryView {
            custom_gc: CustomGcView {
                functions: old(registry)@.custom_gc.functions.remove(env),
                current: old(registry)@.custom_gc.current,
            },
            ..old(registry)@
        }),
{
    registry.custom_gc_registry.finalize(env);
}

impl Registry {
    /// Begins the registration of a module; returns whether it is the first one.
    pub fn begin_module(&mut self) -> (first: bool)
        ensures
            first == old(self)@.is_first_module,
            final(self)@ == (RegistryView { is_first_module: false, ..old(self)@ }),
    {
        let first = self.is_first_module;
        self.is_first_module = false;
        first
    }

    /// Ends the registration of a module.
    pub fn end_module(&mut self)
        ensures
            final(self)@ == (RegistryView { first_module_registered: true, ..old(self)@ }),
    {
        self.first_module_registered = true;
    }

    /// Keeps the references to the classes that were set up on `thread`, in place of those that
    /// were kept before.
    pub fn keep_constructors(&mut self, thread: ThreadKey, constructors: StringHashMap<NapiRef>)
        ensures
            final(self)@ == (RegistryView {
                constructors: old(self)@.constructors.insert(thread, constructors@),
                ..old(self)@
            }),
    {
        let ghost kept = constructors@;
        let keep = |inner: &mut ThreadConstructors| -> (replaced: Option<StringHashMap<NapiRef>>)
            ensures
                final(inner)@ == old(inner)@.insert(thread, constructors),
            { inner.insert(thread, constructors) };
        self.registered_classes.borrow_mut(keep);
        assert(self@.constructors =~= old(self)@.constructors.insert(thread, kept));
    }

    /// Notes the thread-safe function of `env` and that `thread` belongs to `env`.
    pub fn register_custom_gc(&mut self, thread: ThreadKey, env: NapiEnv, function: CustomGcTsfn)
        ensures
            final(self)@ == (RegistryView {
                custom_gc: old(self)@.custom_gc.register(thread, env, function),
                ..old(self)@
            }),
            final(self)@ == (RegistryView {
                custom_gc: CustomGcView {
                    functions: old(self)@.custom_gc.functions.insert(env, function),
                    current: old(self)@.custom_gc.current.insert(thread, env),
                },
                ..old(self)@
            }),
    {
        self.custom_gc_registry.register(thread, env, function);
    }
}

/// What is registered is added behind what was there: exports registered one after the other are
/// kept as they came, each of them, whatever is there already and whatever they have in common
/// with it. Nothing else in the registry changes.
pub proof fn law_exports_are_kept_as_they_came(registry: RegistryView, exports: Seq<ExportView>)
    ensures
        exports.fold_left(registry, |r: RegistryView, e: ExportView| r.with_export(e))
            == (RegistryView { exports: registry.exports + exports, ..registry }),
    decreases exports.len(),
{
    let keep = |r: RegistryView, e: ExportView| r.with_export(e);
    reveal(Seq::fold_left);
    if exports.len() > 0 {
        law_exports_are_kept_as_they_came(registry, exports.drop_last());
        let before = exports.drop_last();
        assert((registry.exports + before).push(exports.last()) =~= registry.exports + exports);
        assert(exports.fold_left(registry, keep) == keep(
            before.fold_left(registry, keep),
            exports.last(),
        ));
    } else {
        assert(registry.exports + exports =~= registry.exports);
    }
}

/// The same holds of the functions that fill in `exports` by themselves.
pub proof fn law_fillers_are_kept_as_they_came(
    registry: RegistryView,
    fillers: Seq<ModuleExportsCallback>,
)
    ensures
        fillers.fold_left(
            registry,
            |r: RegistryView, fill: ModuleExportsCallback| r.with_filler(fill),
        ) == (RegistryView { fillers: registry.fillers + fillers, ..registry }),
    decreases fillers.len(),
{
    let keep = |r: RegistryView, fill: ModuleExportsCallback| r.with_filler(fill);
    reveal(Seq::fold_left);
    if fillers.len() > 0 {
        law_fillers_are_kept_as_they_came(registry, fillers.drop_last());
        let before = fillers.drop_last();
        assert((registry.fillers + before).push(fillers.last()) =~= registry.fillers + fillers);
        assert(fillers.fold_left(registry, keep) == keep(
            before.fold_left(registry, keep),
            fillers.last(),
        ));
    } else {
        assert(registry.fillers + fillers =~= registry.fillers);
    }
}

/// Registering a function or a class changes nothing but the functions or the classes, and a
/// function takes the place of what was registered for the same `cb` only.
pub proof fn law_registrations_keep_to_their_own(
    registry: RegistryView,
    cb: ExportRegisterCallback,
    function: FunctionView,
    rust_name: Seq<char>,
    js_mod: Option<Seq<char>>,
    js_name: Seq<char>,
    properties: Seq<Property>,
)
    ensures
        registry.with_function(cb, function) == (RegistryView {
            functions: registry.functions.insert(cb, function),
            ..registry
        }),
        registry.with_class(rust_name, js_mod, js_name, properties) == (RegistryView {
            classes: registry.with_class(rust_name, js_mod, js_name, properties).classes,
            ..registry
        }),
{
}

/// The C callback of a function is the one that is registered for it, and an error comes exactly
/// where there is none.
pub proof fn law_a_callback_is_the_registered_one(
    registry: RegistryView,
    raw_fn: ExportRegisterCallback,
)
    ensures
        match registry.c_callback(raw_fn) {
            Ok(callback) => {
                &&& registry.functions.contains_key(raw_fn)
                &&& registry.functions[raw_fn].callback == Some(callback)
            },
            Err(error) => {
                &&& registry.functions.contains_key(raw_fn)
                    ==> registry.functions[raw_fn].callback is None
                &&& error.status == NAPI_INVALID_ARG
                &&& error.reason == "JavaScript function does not exist"@
            },
        },
{
}

/// A class is looked up among the references that were kept for the thread that asks, and among no
/// others: references that are kept for one thread are found on that thread under each of their
/// names, and change nothing for any other thread.
pub proof fn law_a_thread_finds_its_own_classes(
    registry: RegistryView,
    thread: ThreadKey,
    kept: Map<Seq<char>, NapiRef>,
    name: Seq<char>,
    other: ThreadKey,
)
    requires
        other != thread,
    ensures
        ({
            let after = RegistryView {
                constructors: registry.constructors.insert(thread, kept),
                ..registry
            };
            &&& after.class_constructor(thread, name) == (if kept.contains_key(name) {
                Some(kept[name])
            } else {
                None
            })
            &&& after.class_constructor(other, name) == registry.class_constructor(other, name)
        }),
        match registry.class_constructor(thread, name) {
            Some(reference) => {
                &&& registry.constructors.contains_key(thread)
                &&& registry.constructors[thread].contains_key(name)
                &&& registry.constructors[thread][name] == reference
            },
            None => registry.constructors.contains_key(thread)
                ==> !registry.constructors[thread].contains_key(name),
        },
{
}

/// A function is found as it was registered last: its C callback comes back where it has one,
/// and every other function is found as before.
pub proof fn law_the_last_registration_of_a_function_counts(
    registry: RegistryView,
    cb: ExportRegisterCallback,
    function: FunctionView,
)
    ensures
        registry.with_function(cb, function).c_callback(cb) == match function.callback {
            Some(callback) => Ok::<Callback, ErrorView>(callback),
            None => Err::<Callback, ErrorView>(no_such_function()),
        },
        forall|other: ExportRegisterCallback|
            other != cb ==> #[trigger] registry.with_function(cb, function).c_callback(other)
                == registry.c_callback(other),
{
}

/// A class is found as its registrations have made it, whether it was there before or not: under
/// the name that came last, with the properties of all registrations in their order; every other
/// class is found as before.
pub proof fn law_registrations_of_a_class_add_up(
    registry: RegistryView,
    rust_name: Seq<char>,
    js_mod: Option<Seq<char>>,
    first_name: Seq<char>,
    first: Seq<Property>,
    second_name: Seq<char>,
    second: Seq<Property>,
)
    requires
        registry.wf(),
    ensures
        ({
            let before = match class_of(registry.classes, rust_name, js_mod) {
                Some(class) => class.properties,
                None => Seq::empty(),
            };
            let once = registry.with_class(rust_name, js_mod, first_name, first);
            let twice = once.with_class(rust_name, js_mod, second_name, second);
            &&& twice.wf()
            &&& class_of(once.classes, rust_name, js_mod) == Some(
                ClassView { rust_name, js_mod, js_name: first_name, properties: before + first },
            )
            &&& class_of(twice.classes, rust_name, js_mod) == Some(
                ClassView {
                    rust_name,
                    js_mod,
                    js_name: second_name,
                    properties: before + first + second,
                },
            )
            &&& forall|r: Seq<char>, m: Option<Seq<char>>|
                (r, m) != (rust_name, js_mod) ==> #[trigger] class_of(twice.classes, r, m)
                    == class_of(registry.classes, r, m)
        }),
{
    let once = registry.with_class(rust_name, js_mod, first_name, first);
    law_registering_a_class(registry.classes, rust_name, js_mod, first_name, first);
    law_registering_a_class(once.classes, rust_name, js_mod, second_name, second);
    let twice = once.with_class(rust_name, js_mod, second_name, second);
    assert(Seq::<Property>::empty() + first =~= first);
    assert forall|r: Seq<char>, m: Option<Seq<char>>| (r, m) != (
        rust_name,
        js_mod,
    ) implies #[trigger] class_of(twice.classes, r, m) == class_of(registry.classes, r, m) by {
        assert(class_of(once.classes, r, m) == class_of(registry.classes, r, m));
    }
}

} // verus!
