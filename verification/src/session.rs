//! The registration of a module with one environment, from the engine's call to its return.
use vstd::prelude::*;

use crate::calls::{answers, Call, CallView, Reply, ReplyView};
use crate::classes::all_definable;
use crate::custom_gc::{create_custom_gc, CustomGcSetup, CustomGcTsfn};
use crate::plan::{
    classes_tasks, exports_tasks, fillers_tasks, plan_classes, plan_exports, plan_fillers,
};
use crate::registry::{wait_first_thread_registered, Registry, RegistryView};
use crate::runtime::RuntimeSetup;
use crate::sys::{error_view, Error, ErrorView, NapiEnv, NapiValue, ThreadKey};
use crate::walk::{Walk, WalkView};

verus! {

/// How far a registration has come.
#[derive(Debug, Clone, Copy, PartialEq, Eq)]
pub enum Phase {
    /// Another module was first and has not ended yet.
    AwaitingFirst,
    /// The exports are created.
    Exports,
    /// The classes are about to be read.
    CheckingClasses,
    /// The classes are defined.
    Classes,
    /// The registered functions fill in `exports`.
    ModuleExports,
    /// The environment gets its share in the runtime.
    Runtime(RuntimeSetup),
    /// The thread-safe function of the environment is set up.
    CustomGc(CustomGcSetup),
    /// All is done.
    Finished,
}

/// What an environment is given besides the exports.
#[derive(Debug, Clone, Copy, PartialEq, Eq)]
pub struct Features {
    /// A share in the asynchronous runtime of the process.
    pub runtime: bool,
    /// A thread-safe function to release references with.
    pub custom_gc: bool,
}

impl Features {
    /// The setup of the runtime that comes after the filling functions.
    pub open spec fn runtime_setup(self) -> RuntimeSetup {
        if self.runtime {
            RuntimeSetup::Ensure
        } else {
            RuntimeSetup::Done
        }
    }
}

/// The model of a `ModuleRegistration`.
#[verifier::ext_equal]
pub struct SessionView {
    pub env: NapiEnv,
    pub exports: NapiValue,
    pub thread: ThreadKey,
    pub features: Features,
    pub phase: Phase,
    pub walk: WalkView,
}

/// A registration together with the registry that it works on.
#[verifier::ext_equal]
pub struct StateView {
    pub session: SessionView,
    pub registry: RegistryView,
}

impl SessionView {
    /// The request that is under way.
    pub open spec fn call(self) -> CallView {
        match self.phase {
            Phase::AwaitingFirst => CallView::AwaitFirstModule,
            Phase::CheckingClasses => CallView::CheckClasses,
            Phase::Exports | Phase::Classes | Phase::ModuleExports => self.walk.call(),
            Phase::Runtime(setup) => setup.spec_call(),
            Phase::CustomGc(setup) => setup.spec_call(),
            Phase::Finished => CallView::Return { exports: self.exports },
        }
    }

    /// The error that the reply makes the script see, if any.
    pub open spec fn failure(self, reply: ReplyView) -> Option<ErrorView> {
        match (self.phase, reply) {
            (Phase::Exports, _) | (Phase::Classes, _) | (Phase::ModuleExports, _) =>
                self.walk.failure(reply),
            (Phase::CustomGc(setup), ReplyView::Status { status, .. }) => setup.failure(status),
            _ => None,
        }
    }

    /// A phase that walks has something to do, the others have not, and a setup that is under way
    /// has not ended.
    pub open spec fn wf(self) -> bool {
        &&& self.walk.wf()
        &&& self.walk.exports == self.exports
        &&& match self.phase {
            Phase::Exports | Phase::Classes | Phase::ModuleExports => !self.walk.done(),
            Phase::Runtime(setup) => self.walk.done() && !(setup is Done),
            Phase::CustomGc(setup) => self.walk.done() && !(setup is Done),
            _ => self.walk.done(),
        }
    }
}

impl StateView {
    /// All is done; modules that wait may go on.
    pub open spec fn finish(self) -> StateView {
        StateView {
            session: SessionView { phase: Phase::Finished, ..self.session },
            registry: RegistryView { first_module_registered: true, ..self.registry },
        }
    }

    /// Where the thread-safe function is there it is noted, and all is done.
    pub open spec fn after_custom_gc(self, setup: CustomGcSetup) -> StateView {
        match setup {
            CustomGcSetup::Done { threadsafe_function } => StateView {
                registry: RegistryView {
                    custom_gc: self.registry.custom_gc.register(
                        self.session.thread,
                        self.session.env,
                        CustomGcTsfn(threadsafe_function),
                    ),
                    ..self.registry
                },
                ..self
            }.finish(),
            _ => StateView {
                session: SessionView { phase: Phase::CustomGc(setup), ..self.session },
                ..self
            },
        }
    }

    /// Where the environment has its share in the runtime, the thread-safe function comes next.
    pub open spec fn after_runtime(self, setup: RuntimeSetup) -> StateView {
        if !(setup is Done) {
            StateView {
                session: SessionView { phase: Phase::Runtime(setup), ..self.session },
                ..self
            }
        } else if self.session.features.custom_gc {
            self.after_custom_gc(CustomGcSetup::Function)
        } else {
            self.finish()
        }
    }

    /// Where the walk over the filling functions is over, the runtime comes next.
    pub open spec fn after_module_exports(self) -> StateView {
        if !self.session.walk.done() {
            StateView {
                session: SessionView { phase: Phase::ModuleExports, ..self.session },
                ..self
            }
        } else {
            self.after_runtime(self.session.features.runtime_setup())
        }
    }

    /// Where the walk over the classes is over, the references to them are kept and the filling
    /// functions come next.
    pub open spec fn after_classes(self) -> StateView {
        if !self.session.walk.done() {
            StateView { session: SessionView { phase: Phase::Classes, ..self.session }, ..self }
        } else {
            StateView {
                session: SessionView {
                    walk: self.session.walk.with_tasks(fillers_tasks(self.registry.fillers)),
                    ..self.session
                },
                registry: RegistryView {
                    constructors: self.registry.constructors.insert(
                        self.session.thread,
                        self.session.walk.classes,
                    ),
                    ..self.registry
                },
            }.after_module_exports()
        }
    }

    /// Where the walk over the exports is over, the classes come next.
    pub open spec fn after_exports(self) -> StateView {
        StateView {
            session: SessionView {
                phase: if self.session.walk.done() {
                    Phase::CheckingClasses
                } else {
                    Phase::Exports
                },
                ..self.session
            },
            ..self
        }
    }

    /// The exports are read and their walk begins.
    pub open spec fn enter_exports(self) -> StateView {
        self.walking(self.session.walk.with_tasks(exports_tasks(self.registry.exports)))
            .after_exports()
    }

    /// The state with another walk.
    pub open spec fn walking(self, walk: WalkView) -> StateView {
        StateView { session: SessionView { walk, ..self.session }, ..self }
    }

    /// The state after the request that is under way has been answered.
    pub open spec fn next(self, reply: ReplyView) -> StateView
        recommends
            answers(reply, self.session.call()),
    {
        let walked = self.walking(self.session.walk.next(reply));
        match (self.session.phase, reply) {
            (Phase::AwaitingFirst, _) => if self.registry.first_module_registered {
                self.enter_exports()
            } else {
                self
            },
            (Phase::Exports, _) => walked.after_exports(),
            (Phase::CheckingClasses, _) => self.walking(
                self.session.walk.with_tasks(classes_tasks(self.registry.classes)),
            ).after_classes(),
            (Phase::Classes, _) => walked.after_classes(),
            (Phase::ModuleExports, _) => walked.after_module_exports(),
            (Phase::Runtime(setup), _) => self.after_runtime(setup.spec_next()),
            (Phase::CustomGc(setup), ReplyView::Status { value, .. }) => self.after_custom_gc(
                setup.next(value),
            ),
            _ => self,
        }
    }

    /// The state in which a registration begins: the first one goes on at once, every other one
    /// waits.
    pub open spec fn begin(
        registry: RegistryView,
        env: NapiEnv,
        exports: NapiValue,
        thread: ThreadKey,
        features: Features,
    ) -> StateView {
        let waiting = StateView {
            session: SessionView {
                env,
                exports,
                thread,
                features,
                phase: Phase::AwaitingFirst,
                walk: WalkView::new(exports),
            },
            registry: RegistryView { is_first_module: false, ..registry },
        };
        if registry.is_first_module {
            waiting.enter_exports()
        } else {
            waiting
        }
    }
}

/// The registration of a module with one environment.
pub struct ModuleRegistration {
    env: NapiEnv,
    exports: NapiValue,
    thread: ThreadKey,
    features: Features,
    phase: Phase,
    walk: Walk,
}

impl View for ModuleRegistration {
    type V = SessionView;

    closed spec fn view(&self) -> SessionView {
        SessionView {
            env: self.env,
            exports: self.exports,
            thread: self.thread,
            features: self.features,
            phase: self.phase,
            walk: self.walk@,
        }
    }
}

/// Begins the registration of a module with the environment `env`, whose thread is `thread`:
/// `exports` is the object to be filled. `features` says what else the environment gets.
pub fn napi_register_module_v1(
    registry: &mut Registry,
    env: NapiEnv,
    exports: NapiValue,
    thread: ThreadKey,
    features: Features,
) -> (registration: ModuleRegistration)
    ensures
        (StateView { session: registration@, registry: final(registry)@ }) == StateView::begin(
            old(registry)@,
            env,
            exports,
            thread,
            features,
        ),
        registration@.wf(),
{
    let mut registration = ModuleRegistration {
        env,
        exports,
        thread,
        features,
        phase: Phase::AwaitingFirst,
        walk: Walk::new(exports),
    };
    if registry.begin_module() {
        registration.enter_exports(registry);
    }
    registration
}

impl ModuleRegistration {
    /// The environment that the requests are made on.
    pub fn env(&self) -> (env: NapiEnv)
        ensures
            env == self@.env,
    {
        self.env
    }

    /// The request that is under way.
    pub fn call(&self) -> (call: Call)
        requires
            self@.wf(),
        ensures
            call@ == self@.call(),
    {
        match &self.phase {
            Phase::AwaitingFirst => Call::AwaitFirstModule,
            Phase::CheckingClasses => Call::CheckClasses,
            Phase::Exports => self.walk.call(),
            Phase::Classes => self.walk.call(),
            Phase::ModuleExports => self.walk.call(),
            Phase::Runtime(setup) => setup.call(),
            Phase::CustomGc(setup) => setup.call(),
            Phase::Finished => Call::Return { exports: self.exports },
        }
    }

    fn enter_exports(&mut self, registry: &Registry)
        requires
            old(self)@.walk.done(),
            old(self)@.walk.exports == old(self)@.exports,
        ensures
            (StateView { session: final(self)@, registry: registry@ }) == (StateView {
                session: old(self)@,
                registry: registry@,
            }).enter_exports(),
            final(self)@.wf(),
    {
        self.walk.start(plan_exports(registry.exports()));
        self.after_exports();
    }

    fn after_exports(&mut self)
        requires
            old(self)@.walk.wf(),
            old(self)@.walk.exports == old(self)@.exports,
        ensures
            forall|registry: RegistryView|
                (StateView { session: final(self)@, registry }) == #[trigger] (StateView {
                    session: old(self)@,
                    registry,
                }).after_exports(),
            final(self)@.wf(),
    {
        self.phase = if self.walk.is_done() {
            Phase::CheckingClasses
        } else {
            Phase::Exports
        };
    }

    fn after_classes(&mut self, registry: &mut Registry)
        requires
            old(self)@.walk.wf(),
            old(self)@.walk.exports == old(self)@.exports,
        ensures
            (StateView { session: final(self)@, registry: final(registry)@ }) == (StateView {
                session: old(self)@,
                registry: old(registry)@,
            }).after_classes(),
            final(self)@.wf(),
    {
        if self.walk.is_done() {
            let constructors = self.walk.take_classes();
            registry.keep_constructors(self.thread, constructors);
            self.walk.start(plan_fillers(registry.fillers()));
            self.after_module_exports(registry);
        } else {
            self.phase = Phase::Classes;
        }
    }

    fn after_module_exports(&mut self, registry: &mut Registry)
        requires
            old(self)@.walk.wf(),
            old(self)@.walk.exports == old(self)@.exports,
        ensures
            (StateView { session: final(self)@, registry: final(registry)@ }) == (StateView {
                session: old(self)@,
                registry: old(registry)@,
            }).after_module_exports(),
            final(self)@.wf(),
    {
        if !self.walk.is_done() {
            self.phase = Phase::ModuleExports;
        } else if self.features.runtime {
            self.after_runtime(registry, RuntimeSetup::Ensure);
        } else {
            self.after_runtime(registry, RuntimeSetup::Done);
        }
    }

    fn after_runtime(&mut self, registry: &mut Registry, setup: RuntimeSetup)
        requires
            old(self)@.walk.wf(),
            old(self)@.walk.exports == old(self)@.exports,
            old(self)@.walk.done(),
        ensures
            (StateView { session: final(self)@, registry: final(registry)@ }) == (StateView {
                session: old(self)@,
                registry: old(registry)@,
            }).after_runtime(setup),
            final(self)@.wf(),
    {
        match setup {
            RuntimeSetup::Done => if self.features.custom_gc {
                self.phase = Phase::CustomGc(create_custom_gc());
            } else {
                self.phase = Phase::Finished;
                registry.end_module();
            },
            _ => {
                self.phase = Phase::Runtime(setup);
            },
        }
    }

    /// Takes the answer to the request that is under way and goes on to the next request.
    /// Returns the error to be thrown into the script before that, if there is one.
    pub fn resume(&mut self, registry: &mut Registry, reply: Reply) -> (throw: Option<Error>)
        requires
            old(self)@.wf(),
            answers(reply@, old(self)@.call()),
            old(self)@.phase is CheckingClasses ==> all_definable(old(registry)@.classes),
        ensures
            (StateView { session: final(self)@, registry: final(registry)@ }) == (StateView {
                session: old(self)@,
                registry: old(registry)@,
            }).next(reply@),
            error_view(throw) == old(self)@.failure(reply@),
            final(self)@.wf(),
    {
        match self.phase {
            Phase::AwaitingFirst => {
                if wait_first_thread_registered(registry) {
                    self.enter_exports(registry);
                }
                None
            },
            Phase::Exports => {
                let throw = self.walk.resume(reply);
                self.after_exports();
                throw
            },
            Phase::CheckingClasses => {
                self.walk.start(plan_classes(registry.classes()));
                self.after_classes(registry);
                None
            },
            Phase::Classes => {
                let throw = self.walk.resume(reply);
                self.after_classes(registry);
                throw
            },
            Phase::ModuleExports => {
                let throw = self.walk.resume(reply);
                self.after_module_exports(registry);
                throw
            },
            Phase::Runtime(setup) => {
                self.after_runtime(registry, setup.next());
                None
            },
            Phase::CustomGc(setup) => self.resume_custom_gc(registry, setup, reply),
            Phase::Finished => None,
        }
    }

    fn resume_custom_gc(
        &mut self,
        registry: &mut Registry,
        setup: CustomGcSetup,
        reply: Reply,
    ) -> (throw: Option<Error>)
        requires
            old(self)@.wf(),
            old(self)@.phase == Phase::CustomGc(setup),
            reply@ is Status,
        ensures
            (StateView { session: final(self)@, registry: final(registry)@ }) == (StateView {
                session: old(self)@,
                registry: old(registry)@,
            }).next(reply@),
            error_view(throw) == old(self)@.failure(reply@),
            final(self)@.wf(),
    {
        let mut setup = setup;
        match reply {
            Reply::Status { status, value } => {
                let throw = setup.resume(status, value);
                match setup {
                    CustomGcSetup::Done { threadsafe_function } => {
                        registry.register_custom_gc(
                            self.thread,
                            self.env,
                            CustomGcTsfn(threadsafe_function),
                        );
                        self.phase = Phase::Finished;
                        registry.end_module();
                    },
                    _ => {
                        self.phase = Phase::CustomGc(setup);
                    },
                }
                throw
            },
            _ => None,
        }
    }
}

} // verus!
