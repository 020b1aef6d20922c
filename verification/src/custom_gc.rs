//! Releasing references to JavaScript values on the thread that owns them.
//!
//! A reference can only be released on the thread of the environment that it was created in.
//! Each environment registers a thread-safe function of its own; a value that is dropped on
//! another thread has its reference sent there.
use std::collections::HashMap;
use vstd::prelude::*;

use crate::calls::{Call, CallView};
use crate::sys::{
    error_view, Error, ErrorView, NapiEnv, NapiRef, NapiThreadsafeFunction, NapiValue, ThreadKey,
    NAPI_CLOSING, NAPI_INVALID_ARG, NAPI_OK, NAPI_TSFN_BLOCKING, NULL,
};

verus! {

broadcast use vstd::std_specs::hash::group_hash_axioms;

/// The thread-safe function through which an environment releases references.
#[derive(Debug, Clone, Copy, PartialEq, Eq)]
pub struct CustomGcTsfn(pub NapiThreadsafeFunction);

/// What is to be done with the reference of a value that is dropped.
#[derive(Debug, Clone, Copy, PartialEq, Eq)]
pub enum Release {
    /// Nothing: there is no reference, or its environment is gone and the reference with it.
    Nothing,
    /// Give the reference up and delete it here.
    Here { env: NapiEnv, reference: NapiRef },
    /// Call this thread-safe function with the reference, in blocking mode.
    Through { function: CustomGcTsfn, reference: NapiRef },
}

/// One call of the C interface that releases a reference.
#[derive(Debug, Clone, Copy, PartialEq, Eq)]
pub enum ReleaseCall {
    /// `napi_reference_unref`
    Unref { env: NapiEnv, reference: NapiRef },
    /// `napi_delete_reference`
    Delete { env: NapiEnv, reference: NapiRef },
    /// `napi_call_threadsafe_function`
    CallThreadsafeFunction { function: CustomGcTsfn, data: NapiRef, mode: i32 },
}

impl Release {
    /// The calls to be made, each after the one before it has returned, whatever that one
    /// reported: a reference that is released here is given up first and then deleted.
    pub open spec fn spec_calls(self) -> Seq<ReleaseCall> {
        match self {
            Release::Nothing => Seq::empty(),
            Release::Here { env, reference } => seq![
                ReleaseCall::Unref { env, reference },
                ReleaseCall::Delete { env, reference },
            ],
            Release::Through { function, reference } => seq![
                ReleaseCall::CallThreadsafeFunction {
                    function,
                    data: reference,
                    mode: NAPI_TSFN_BLOCKING,
                },
            ],
        }
    }

    /// The calls to be made, each after the one before it has returned, whatever that one
    /// reported.
    pub fn calls(&self) -> (calls: Vec<ReleaseCall>)
        ensures
            calls@ == self.spec_calls(),
            match *self {
                Release::Nothing => calls@.len() == 0,
                Release::Here { env, reference } => {
                    &&& calls@.len() == 2
                    &&& calls@[0] == (ReleaseCall::Unref { env, reference })
                    &&& calls@[1] == (ReleaseCall::Delete { env, reference })
                },
                Release::Through { function, reference } => {
                    &&& calls@.len() == 1
                    &&& calls@[0] == (ReleaseCall::CallThreadsafeFunction {
                        function,
                        data: reference,
                        mode: NAPI_TSFN_BLOCKING,
                    })
                },
            },
    {
        let mut calls: Vec<ReleaseCall> = Vec::new();
        match *self {
            Release::Nothing => {},
            Release::Here { env, reference } => {
                calls.push(ReleaseCall::Unref { env, reference });
                calls.push(ReleaseCall::Delete { env, reference });
            },
            Release::Through { function, reference } => {
                calls.push(
                    ReleaseCall::CallThreadsafeFunction {
                        function,
                        data: reference,
                        mode: NAPI_TSFN_BLOCKING,
                    },
                );
            },
        }
        assert(calls@ =~= self.spec_calls());
        calls
    }
}

/// The model of a `CustomGcRegistry`.
#[verifier::ext_equal]
pub struct CustomGcView {
    /// For each living environment its thread-safe function.
    pub functions: Map<NapiEnv, CustomGcTsfn>,
    /// For each thread that belongs to an environment that environment.
    pub current: Map<ThreadKey, NapiEnv>,
}

impl CustomGcView {
    /// The environment that the thread belongs to; `NULL` where it belongs to none.
    pub open spec fn current_env(self, thread: ThreadKey) -> NapiEnv {
        if self.current.contains_key(thread) {
            self.current[thread]
        } else {
            NULL
        }
    }

    /// What is to be done, on `thread`, with a reference that was created in `env`.
    pub open spec fn route(self, thread: ThreadKey, reference: NapiRef, env: NapiEnv) -> Release {
        if reference == NULL || env == NULL {
            Release::Nothing
        } else if self.current_env(thread) == env {
            Release::Here { env, reference }
        } else if self.functions.contains_key(env) {
            Release::Through { function: self.functions[env], reference }
        } else {
            Release::Nothing
        }
    }

    /// `env`, whose thread is `thread`, has got its thread-safe function.
    pub open spec fn register(
        self,
        thread: ThreadKey,
        env: NapiEnv,
        function: CustomGcTsfn,
    ) -> CustomGcView {
        CustomGcView {
            functions: self.functions.insert(env, function),
            current: self.current.insert(thread, env),
        }
    }

    /// `env` is torn down.
    pub open spec fn finalize(self, env: NapiEnv) -> CustomGcView {
        CustomGcView { functions: self.functions.remove(env), ..self }
    }
}

/// The thread-safe functions of the living environments, and which thread belongs to which
/// environment.
pub struct CustomGcRegistry {
    functions: HashMap<NapiEnv, CustomGcTsfn>,
    current: HashMap<ThreadKey, NapiEnv>,
}

impl View for CustomGcRegistry {
    type V = CustomGcView;

    closed spec fn view(&self) -> CustomGcView {
        CustomGcView { functions: self.functions@, current: self.current@ }
    }
}

impl CustomGcRegistry {
    /// No environment is there yet.
    pub fn new() -> (registry: Self)
        ensures
            registry@ == (CustomGcView { functions: Map::empty(), current: Map::empty() }),
    {
        CustomGcRegistry { functions: HashMap::new(), current: HashMap::new() }
    }

    fn current_env(&self, thread: ThreadKey) -> (env: NapiEnv)
        ensures
            env == self@.current_env(thread),
    {
        match self.current.get(&thread) {
            Some(env) => *env,
            None => NULL,
        }
    }

    /// What is to be done, on `thread`, with a reference that was created in `env`.
    pub fn route(
        &self,
        thread: ThreadKey,
        reference: NapiRef,
        env: NapiEnv,
    ) -> (release: Release)
        ensures
            release == self@.route(thread, reference, env),
    {
        if reference == NULL || env == NULL {
            return Release::Nothing;
        }
        if self.current_env(thread) == env {
            return Release::Here { env, reference };
        }
        match self.functions.get(&env) {
            Some(function) => Release::Through { function: *function, reference },
            None => Release::Nothing,
        }
    }

    /// Notes the thread-safe function of `env` and that `thread` belongs to `env`.
    pub fn register(&mut self, thread: ThreadKey, env: NapiEnv, function: CustomGcTsfn)
        ensures
            final(self)@ == old(self)@.register(thread, env, function),
    {
        self.functions.insert(env, function);
        self.current.insert(thread, env);
    }

    /// Forgets the thread-safe function of `env`, which is torn down.
    pub fn finalize(&mut self, env: NapiEnv)
        ensures
            final(self)@ == old(self)@.finalize(env),
    {
        self.functions.remove(&env);
    }
}

/// Whether a reference that is given up on its own thread ends as it should: where giving it up
/// succeeded, no count is left.
pub fn is_unref_complete(status: i32, ref_count: u32) -> (complete: bool)
    ensures
        complete == (status == NAPI_OK ==> ref_count == 0),
{
    status != NAPI_OK || ref_count == 0
}

/// Whether the call of the thread-safe function went as it should: it was made, or the owning
/// environment is being torn down, which frees the reference too.
pub fn is_route_complete(status: i32) -> (complete: bool)
    ensures
        complete == (status == NAPI_OK || status == NAPI_CLOSING || status == NAPI_INVALID_ARG),
{
    status == NAPI_OK || status == NAPI_CLOSING || status == NAPI_INVALID_ARG
}

/// What the thread-safe function does, on the thread of its environment, with the reference that
/// it was called with: the reference is deleted, if there is one.
pub fn custom_gc(data: NapiRef) -> (delete: Option<NapiRef>)
    ensures
        delete == (if data == NULL {
            None
        } else {
            Some(data)
        }),
{
    if data == NULL {
        None
    } else {
        Some(data)
    }
}

/// Setting up the thread-safe function of an environment, one request at a time.
///
/// A failed request is reported to the script and the setup goes on.
#[derive(Debug, Clone, Copy, PartialEq, Eq)]
pub enum CustomGcSetup {
    /// The function that the thread-safe function stands for is created.
    Function,
    /// The name under which the engine lists it is created.
    Name { function: NapiValue },
    /// The thread-safe function is created.
    Threadsafe { function: NapiValue, resource_name: NapiValue },
    /// The thread-safe function is told not to keep the process alive.
    Unref { threadsafe_function: NapiThreadsafeFunction },
    /// The thread-safe function is there.
    Done { threadsafe_function: NapiThreadsafeFunction },
}

impl CustomGcSetup {
    /// The request that is under way.
    pub open spec fn spec_call(self) -> CallView
        recommends
            !(self is Done),
    {
        match self {
            CustomGcSetup::Function => CallView::CreateFunction { name: "custom_gc"@, length: 9 },
            CustomGcSetup::Name { .. } => CallView::CreateString { text: "CustomGC"@, length: 8 },
            CustomGcSetup::Threadsafe { function, resource_name } =>
                CallView::CreateThreadsafeFunction {
                function,
                resource_name,
                max_queue_size: 0,
                initial_thread_count: 1,
            },
            CustomGcSetup::Unref { threadsafe_function } => CallView::UnrefThreadsafeFunction {
                threadsafe_function,
            },
            CustomGcSetup::Done { .. } => arbitrary(),
        }
    }

    /// What the script is told when the request that is under way fails.
    pub open spec fn message(self) -> Seq<char> {
        match self {
            CustomGcSetup::Function =>
                "Create Custom GC Function in napi_register_module_v1 failed"@,
            CustomGcSetup::Name { .. } =>
                "Create async resource string in napi_register_module_v1"@,
            CustomGcSetup::Threadsafe { .. } =>
                "Create Custom GC ThreadsafeFunction in napi_register_module_v1 failed"@,
            CustomGcSetup::Unref { .. } =>
                "Unref Custom GC ThreadsafeFunction in napi_register_module_v1 failed"@,
            CustomGcSetup::Done { .. } => arbitrary(),
        }
    }

    /// The error that the status makes the script see, if any.
    pub open spec fn failure(self, status: i32) -> Option<ErrorView> {
        if status == NAPI_OK {
            None
        } else {
            Some(ErrorView { status, reason: self.message() })
        }
    }

    /// The setup after the request that is under way has given `value`.
    pub open spec fn next(self, value: usize) -> CustomGcSetup {
        match self {
            CustomGcSetup::Function => CustomGcSetup::Name { function: value },
            CustomGcSetup::Name { function } => CustomGcSetup::Threadsafe {
                function,
                resource_name: value,
            },
            CustomGcSetup::Threadsafe { .. } => CustomGcSetup::Unref { threadsafe_function: value },
            CustomGcSetup::Unref { threadsafe_function } => CustomGcSetup::Done {
                threadsafe_function,
            },
            CustomGcSetup::Done { .. } => self,
        }
    }

    /// The request that is under way.
    pub fn call(&self) -> (call: Call)
        requires
            !(self is Done),
        ensures
            call@ == self.spec_call(),
    {
        match *self {
            CustomGcSetup::Function => Call::CreateFunction { name: "custom_gc", length: 9 },
            CustomGcSetup::Name { .. } => Call::CreateString { text: "CustomGC", length: 8 },
            CustomGcSetup::Threadsafe { function, resource_name } =>
                Call::CreateThreadsafeFunction {
                function,
                resource_name,
                max_queue_size: 0,
                initial_thread_count: 1,
            },
            CustomGcSetup::Unref { threadsafe_function } => Call::UnrefThreadsafeFunction {
                threadsafe_function,
            },
            CustomGcSetup::Done { threadsafe_function } => {
                assert(false);
                Call::UnrefThreadsafeFunction { threadsafe_function }
            },
        }
    }

    /// Takes the answer to the request that is under way and goes on to the next request.
    /// Returns the error to be thrown into the script before that, if there is one.
    pub fn resume(&mut self, status: i32, value: usize) -> (throw: Option<Error>)
        requires
            !(*old(self) is Done),
        ensures
            *final(self) == old(self).next(value),
            error_view(throw) == old(self).failure(status),
    {
        let message: &'static str;
        match *self {
            CustomGcSetup::Function => {
                message = "Create Custom GC Function in napi_register_module_v1 failed";
                *self = CustomGcSetup::Name { function: value };
            },
            CustomGcSetup::Name { function } => {
                message = "Create async resource string in napi_register_module_v1";
                *self = CustomGcSetup::Threadsafe { function, resource_name: value };
            },
            CustomGcSetup::Threadsafe { .. } => {
                message = "Create Custom GC ThreadsafeFunction in napi_register_module_v1 failed";
                *self = CustomGcSetup::Unref { threadsafe_function: value };
            },
            CustomGcSetup::Unref { threadsafe_function } => {
                message = "Unref Custom GC ThreadsafeFunction in napi_register_module_v1 failed";
                *self = CustomGcSetup::Done { threadsafe_function };
            },
            CustomGcSetup::Done { .. } => {
                message = "";
            },
        }
        if status == NAPI_OK {
            None
        } else {
            Some(Error { status, reason: message.to_owned() })
        }
    }
}

/// Begins to set up the thread-safe function of an environment.
pub fn create_custom_gc() -> (setup: CustomGcSetup)
    ensures
        setup == CustomGcSetup::Function,
{
    CustomGcSetup::Function
}

/// A reference is only ever released on a thread of its own environment or handed to the
/// thread-safe function of that environment; nothing happens to it only where there is no
/// reference or its environment is gone.
pub proof fn law_a_reference_goes_to_its_own_environment(
    gc: CustomGcView,
    thread: ThreadKey,
    reference: NapiRef,
    env: NapiEnv,
)
    ensures
        match gc.route(thread, reference, env) {
            Release::Here { env: e, reference: r } => {
                &&& e == env && r == reference
                &&& env != NULL && reference != NULL
                &&& gc.current_env(thread) == env
                &&& gc.current.contains_key(thread) && gc.current[thread] == env
            },
            Release::Through { function, reference: r } => {
                &&& r == reference
                &&& env != NULL && reference != NULL
                &&& gc.current_env(thread) != env
                &&& !(gc.current.contains_key(thread) && gc.current[thread] == env)
                &&& gc.functions.contains_key(env) && gc.functions[env] == function
            },
            Release::Nothing => {
                ||| env == NULL || reference == NULL
                ||| gc.current_env(thread) != env && !gc.functions.contains_key(env) && !(
                gc.current.contains_key(thread) && gc.current[thread] == env)
            },
        },
        reference == NULL || env == NULL ==> gc.route(thread, reference, env) is Nothing,
{
}

/// Once an environment is registered, its references are released on its own thread and go to
/// its own thread-safe function from every thread that does not belong to it. The references of
/// every other environment go where they went before, except from the thread of the new one: from
/// there they go to the thread-safe function of their own environment, if it is there.
pub proof fn law_environments_do_not_take_over_from_each_other(
    gc: CustomGcView,
    thread: ThreadKey,
    env: NapiEnv,
    function: CustomGcTsfn,
    elsewhere: ThreadKey,
    reference: NapiRef,
    other: NapiEnv,
)
    requires
        env != NULL,
        reference != NULL,
        other != env,
        elsewhere != thread,
    ensures
        gc.register(thread, env, function).route(thread, reference, env) == (Release::Here {
            env,
            reference,
        }),
        gc.current_env(elsewhere) != env ==> gc.register(thread, env, function).route(
            elsewhere,
            reference,
            env,
        ) == (Release::Through { function, reference }),
        gc.register(thread, env, function).route(elsewhere, reference, other) == gc.route(
            elsewhere,
            reference,
            other,
        ),
        gc.functions.contains_key(other) && other != NULL ==> gc.register(
            thread,
            env,
            function,
        ).route(thread, reference, other) == (Release::Through {
            function: gc.functions[other],
            reference,
        }),
{
}

/// After an environment is torn down, no reference is sent to it any more, and the references of
/// every other environment go where they went before.
pub proof fn law_nothing_is_sent_to_a_dead_environment(
    gc: CustomGcView,
    env: NapiEnv,
    thread: ThreadKey,
    reference: NapiRef,
    other: NapiEnv,
)
    requires
        other != env,
    ensures
        !(gc.finalize(env).route(thread, reference, env) is Through),
        gc.current_env(thread) != env ==> gc.finalize(env).route(thread, reference, env)
            == Release::Nothing,
        gc.finalize(env).route(thread, reference, other) == gc.route(thread, reference, other),
{
}

/// An environment that is registered gets its function, its thread belongs to it, and nothing
/// else changes; one that is torn down loses its function, and nothing else changes.
pub proof fn law_an_environment_comes_and_goes_alone(
    gc: CustomGcView,
    thread: ThreadKey,
    env: NapiEnv,
    function: CustomGcTsfn,
)
    ensures
        gc.register(thread, env, function) == (CustomGcView {
            functions: gc.functions.insert(env, function),
            current: gc.current.insert(thread, env),
        }),
        gc.finalize(env) == (CustomGcView {
            functions: gc.functions.remove(env),
            current: gc.current,
        }),
        gc.current_env(thread) == (if gc.current.contains_key(thread) {
            gc.current[thread]
        } else {
            NULL
        }),
{
}

/// A reference that is released here is given up first and then deleted, in its environment; one
/// that is sent elsewhere is handed to the function in one blocking call; else nothing is called.
pub proof fn law_how_a_reference_is_released(
    env: NapiEnv,
    reference: NapiRef,
    function: CustomGcTsfn,
)
    ensures
        Release::Nothing.spec_calls().len() == 0,
        (Release::Here { env, reference }).spec_calls() == seq![
            ReleaseCall::Unref { env, reference },
            ReleaseCall::Delete { env, reference },
        ],
        (Release::Through { function, reference }).spec_calls() == seq![
            ReleaseCall::CallThreadsafeFunction {
                function,
                data: reference,
                mode: NAPI_TSFN_BLOCKING,
            },
        ],
{
}

/// What the script is told of each request of the setup that ended in `status`, and that it is told
/// nothing of one that succeeded.
pub proof fn law_what_the_script_is_told_of_the_setup(setup: CustomGcSetup, status: i32)
    ensures
        status == NAPI_OK ==> setup.failure(status) is None,
        status != NAPI_OK ==> match setup {
            CustomGcSetup::Function => setup.failure(status) == Some(
                ErrorView {
                    status,
                    reason: "Create Custom GC Function in napi_register_module_v1 failed"@,
                },
            ),
            CustomGcSetup::Name { .. } => setup.failure(status) == Some(
                ErrorView {
                    status,
                    reason: "Create async resource string in napi_register_module_v1"@,
                },
            ),
            CustomGcSetup::Threadsafe { .. } => setup.failure(status) == Some(
                ErrorView {
                    status,
                    reason:
                        "Create Custom GC ThreadsafeFunction in napi_register_module_v1 failed"@,
                },
            ),
            CustomGcSetup::Unref { .. } => setup.failure(status) == Some(
                ErrorView {
                    status,
                    reason:
                        "Unref Custom GC ThreadsafeFunction in napi_register_module_v1 failed"@,
                },
            ),
            CustomGcSetup::Done { .. } => true,
        },
{
}

/// The setup takes four requests, whatever they end in, and the function that is there in the end
/// is the one that the third of them gave.
pub proof fn law_the_setup_always_ends(a: usize, b: usize, c: usize, d: usize)
    ensures
        CustomGcSetup::Function.next(a).next(b).next(c).next(d) == (CustomGcSetup::Done {
            threadsafe_function: c,
        }),
        CustomGcSetup::Function.spec_call() == (CallView::CreateFunction {
            name: "custom_gc"@,
            length: 9,
        }),
        CustomGcSetup::Function.next(a).spec_call() == (CallView::CreateString {
            text: "CustomGC"@,
            length: 8,
        }),
        CustomGcSetup::Function.next(a).next(b).spec_call()
            == (CallView::CreateThreadsafeFunction {
            function: a,
            resource_name: b,
            max_queue_size: 0,
            initial_thread_count: 1,
        }),
        CustomGcSetup::Function.next(a).next(b).next(c).spec_call()
            == (CallView::UnrefThreadsafeFunction { threadsafe_function: c }),
{
}

} // verus!
