//! What holds of every registration, whatever the engine answers.
//!
//! A run is one registration from state to state with nothing else registered meanwhile.
use vstd::prelude::*;

use crate::calls::{answers, CallView, ReplyView};
use crate::classes::{all_definable, ClassView};
use crate::custom_gc::{CustomGcSetup, CustomGcTsfn, CustomGcView};
use crate::exports::groups_of;
use crate::plan::{class_tasks, classes_tasks, exports_tasks, fillers_tasks};
use crate::plan_laws::{
    class_names, define_call, export_calls, filler_calls, law_every_class_is_planned,
    law_every_class_is_planned_once, law_every_export_is_planned_once,
    law_every_filler_is_planned_once, law_modules_of_the_classes_are_opened,
    law_modules_of_the_exports_are_opened, lemma_exports_define_nothing, lemma_fillers_open_nothing,
    lemma_plans_wf, ungrouped,
};
use crate::registry::RegistryView;
use crate::runtime::RuntimeSetup;
use crate::session::{Features, Phase, SessionView, StateView};
use crate::sys::{NapiEnv, NapiRef, NapiThreadsafeFunction, NapiValue, ThreadKey, NAPI_OK};
use crate::walk::{tasks_wf, PendingView, TaskView, WalkView};
use crate::walk_laws::{
    is_milestone, law_every_answer_brings_the_walk_forward, lemma_first_of_filter, milestones,
    tasks_classes, tasks_cost, tasks_milestones, tasks_modules,
};

verus! {

/// `map` with the references added one after the other; the last one under a name counts.
pub open spec fn with_references(
    map: Map<Seq<char>, NapiRef>,
    references: Seq<(Seq<char>, NapiRef)>,
) -> Map<Seq<char>, NapiRef>
    decreases references.len(),
{
    if references.len() == 0 {
        map
    } else {
        with_references(map, references.drop_last()).insert(
            references.last().0,
            references.last().1,
        )
    }
}

impl Features {
    /// The call with which the setup of the thread-safe function begins, where there is to be one.
    pub open spec fn collector_calls(self) -> Seq<CallView> {
        if self.custom_gc {
            seq![CustomGcSetup::Function.spec_call()]
        } else {
            Seq::empty()
        }
    }

    /// The milestones of giving an environment these features, in order.
    pub open spec fn milestones(self) -> Seq<CallView> {
        self.runtime_setup().ahead() + self.collector_calls()
    }
}

impl StateView {
    /// Whether the registration is in order and, where the classes are still to be read, each of
    /// them can be defined.
    pub open spec fn ready(self) -> bool {
        &&& self.session.wf()
        &&& (self.session.phase is AwaitingFirst || self.session.phase is Exports
            || self.session.phase is CheckingClasses) ==> all_definable(self.registry.classes)
    }

    /// Whether the registration waits for another one.
    pub open spec fn blocked(self) -> bool {
        self.session.phase is AwaitingFirst && !self.registry.first_module_registered
    }

    /// Whether the registration is over.
    pub open spec fn finished(self) -> bool {
        self.session.phase is Finished
    }

    /// Whether each of the replies is of the kind that its request calls for.
    pub open spec fn fits(self, replies: Seq<ReplyView>) -> bool
        decreases replies.len(),
    {
        replies.len() == 0 || self.finished() || (answers(replies[0], self.session.call())
            && self.next(replies[0]).fits(replies.skip(1)))
    }

    /// The state after the replies.
    pub open spec fn run(self, replies: Seq<ReplyView>) -> StateView
        decreases replies.len(),
    {
        if replies.len() == 0 || self.finished() {
            self
        } else {
            self.next(replies[0]).run(replies.skip(1))
        }
    }

    /// The requests that the replies answer.
    pub open spec fn calls(self, replies: Seq<ReplyView>) -> Seq<CallView>
        decreases replies.len(),
    {
        if replies.len() == 0 || self.finished() {
            Seq::empty()
        } else {
            seq![self.session.call()] + self.next(replies[0]).calls(replies.skip(1))
        }
    }

    /// The modules whose objects are created by the requests that the replies answer, in order.
    pub open spec fn created(self, replies: Seq<ReplyView>) -> Seq<Seq<char>>
        decreases replies.len(),
    {
        if replies.len() == 0 || self.finished() {
            Seq::empty()
        } else {
            match self.session.walk.pending {
                PendingView::CreateModule { name } => seq![name] + self.next(replies[0]).created(
                    replies.skip(1),
                ),
                _ => self.next(replies[0]).created(replies.skip(1)),
            }
        }
    }

    /// The references to classes that are created by the requests that the replies answer, each
    /// with the name of its class, in order.
    pub open spec fn referenced(self, replies: Seq<ReplyView>) -> Seq<(Seq<char>, NapiRef)>
        decreases replies.len(),
    {
        if replies.len() == 0 || self.finished() {
            Seq::empty()
        } else {
            let rest = self.next(replies[0]).referenced(replies.skip(1));
            match (self.session.walk.pending, replies[0]) {
                (
                    PendingView::CreateReference { js_name, .. },
                    ReplyView::Status { value, .. },
                ) => seq![(js_name, value)] + rest,
                _ => rest,
            }
        }
    }

    /// The thread-safe function that is created by the requests that the replies answer, if one is.
    pub open spec fn threadsafe_created(self, replies: Seq<ReplyView>) -> Option<
        NapiThreadsafeFunction,
    >
        decreases replies.len(),
    {
        if replies.len() == 0 || self.finished() {
            None
        } else {
            match (self.session.call(), replies[0]) {
                (
                    CallView::CreateThreadsafeFunction { .. },
                    ReplyView::Status { value, .. },
                ) => Some(value),
                _ => self.next(replies[0]).threadsafe_created(replies.skip(1)),
            }
        }
    }

    /// How many requests are still to be answered, at most.
    pub open spec fn remaining(self) -> nat {
        let exports = tasks_cost(exports_tasks(self.registry.exports));
        let classes = tasks_cost(classes_tasks(self.registry.classes));
        let fillers = tasks_cost(fillers_tasks(self.registry.fillers));
        let custom_gc: nat = if self.session.features.custom_gc {
            4
        } else {
            0
        };
        let features = self.session.features.runtime_setup().ahead().len() + custom_gc;
        let walk = self.session.walk.remaining();
        match self.session.phase {
            Phase::AwaitingFirst => 2 + exports + classes + fillers + features,
            Phase::Exports => 1 + walk + classes + fillers + features,
            Phase::CheckingClasses => 1 + classes + fillers + features,
            Phase::Classes => walk + fillers + features,
            Phase::ModuleExports => walk + features,
            Phase::Runtime(setup) => setup.ahead().len() + custom_gc,
            Phase::CustomGc(setup) => match setup {
                CustomGcSetup::Function => 4,
                CustomGcSetup::Name { .. } => 3,
                CustomGcSetup::Threadsafe { .. } => 2,
                CustomGcSetup::Unref { .. } => 1,
                CustomGcSetup::Done { .. } => 0,
            },
            Phase::Finished => 0,
        }
    }

    /// The milestones that are still ahead, the request that is under way among them.
    pub open spec fn ahead(self) -> Seq<CallView> {
        let exports = tasks_milestones(exports_tasks(self.registry.exports), self.session.exports);
        let classes = tasks_milestones(classes_tasks(self.registry.classes), self.session.exports);
        let fillers = tasks_milestones(fillers_tasks(self.registry.fillers), self.session.exports);
        let features = self.session.features.milestones();
        match self.session.phase {
            Phase::AwaitingFirst => exports + (classes + (fillers + features)),
            Phase::Exports => self.session.walk.ahead() + (classes + (fillers + features)),
            Phase::CheckingClasses => classes + (fillers + features),
            Phase::Classes => self.session.walk.ahead() + (fillers + features),
            Phase::ModuleExports => self.session.walk.ahead() + features,
            Phase::Runtime(setup) => setup.ahead() + self.session.features.collector_calls(),
            Phase::CustomGc(CustomGcSetup::Function) => seq![self.session.call()],
            _ => Seq::empty(),
        }
    }

    /// The modules whose objects are still to be created.
    pub open spec fn to_be_created(self) -> Set<Seq<char>> {
        let exports = tasks_modules(exports_tasks(self.registry.exports));
        let classes = tasks_modules(classes_tasks(self.registry.classes));
        let walk = self.session.walk;
        let known = match walk.pending {
            PendingView::SetModule { name } => walk.objects.insert(name),
            _ => walk.objects,
        };
        match self.session.phase {
            Phase::AwaitingFirst => exports.union(classes).difference(known),
            Phase::Exports => walk.to_be_created().union(classes.difference(known)),
            Phase::CheckingClasses => classes.difference(known),
            Phase::Classes | Phase::ModuleExports => walk.to_be_created(),
            _ => Set::empty(),
        }
    }

    /// What the registry holds by the time a phase is reached.
    pub open spec fn coherent(self) -> bool {
        let names = class_names(self.registry.classes);
        let kept = self.registry.constructors;
        match self.session.phase {
            Phase::AwaitingFirst | Phase::CheckingClasses => true,
            Phase::Exports => self.session.walk.to_be_referenced() == Set::<Seq<char>>::empty(),
            Phase::Classes => self.session.walk.classes.dom().union(
                self.session.walk.to_be_referenced(),
            ) == names,
            _ => {
                &&& kept.contains_key(self.session.thread)
                &&& kept[self.session.thread].dom() == names
                &&& self.session.walk.to_be_referenced() == Set::<Seq<char>>::empty()
                &&& self.finished() ==> self.registry.first_module_registered
                &&& self.finished() && self.session.features.custom_gc
                    ==> self.registry.custom_gc.functions.contains_key(self.session.env)
                    && self.registry.custom_gc.current_env(self.session.thread) == self.session.env
            },
        }
    }
}

pub(crate) proof fn lemma_with_tasks(w: WalkView, tasks: Seq<TaskView>)
    requires
        w.done(),
        tasks_wf(tasks),
    ensures
        w.with_tasks(tasks).wf(),
        w.with_tasks(tasks).exports == w.exports,
        w.with_tasks(tasks).remaining() <= tasks_cost(tasks),
        w.with_tasks(tasks).ahead() == tasks_milestones(tasks, w.exports),
        w.with_tasks(tasks).objects == w.objects,
        w.with_tasks(tasks).to_be_created() == tasks_modules(tasks).difference(w.objects),
        w.with_tasks(tasks).classes == Map::<Seq<char>, usize>::empty(),
        w.with_tasks(tasks).to_be_referenced() == tasks_classes(tasks),
        !(w.with_tasks(tasks).pending is SetModule),
{
    let started = w.with_tasks(tasks);
    if tasks.len() > 0 {
        assert(tasks_wf(tasks.skip(1)));
    }
    assert(started.ahead() =~= tasks_milestones(tasks, w.exports));
    assert(started.to_be_created() =~= tasks_modules(tasks).difference(w.objects));
    assert(started.to_be_referenced() =~= tasks_classes(tasks));
}

/// A registration that does not wait is brought nearer to its end by every answer, whatever it
/// says, and stays in order.
pub proof fn law_every_answer_brings_the_registration_forward(s: StateView, reply: ReplyView)
    requires
        s.ready(),
        !s.finished(),
        !s.blocked(),
        answers(reply, s.session.call()),
    ensures
        s.next(reply).ready(),
        !s.next(reply).blocked(),
        s.next(reply).remaining() < s.remaining(),
{
    lemma_plans_wf(s.registry);
    let walk = s.session.walk;
    match s.session.phase {
        Phase::AwaitingFirst => {
            lemma_with_tasks(walk, exports_tasks(s.registry.exports));
        },
        Phase::Exports => {
            law_every_answer_brings_the_walk_forward(walk, reply);
        },
        Phase::CheckingClasses => {
            lemma_with_tasks(walk, classes_tasks(s.registry.classes));
            let walked = walk.with_tasks(classes_tasks(s.registry.classes));
            if walked.done() {
                lemma_with_tasks(walked, fillers_tasks(s.registry.fillers));
            }
        },
        Phase::Classes => {
            law_every_answer_brings_the_walk_forward(walk, reply);
            if walk.next(reply).done() {
                lemma_with_tasks(walk.next(reply), fillers_tasks(s.registry.fillers));
            }
        },
        Phase::ModuleExports => {
            law_every_answer_brings_the_walk_forward(walk, reply);
        },
        _ => {},
    }
}

/// A registration that need not wait ends after at most as many answers as its tasks take,
/// whatever the answers say: no error keeps a module from being handed back to the engine.
pub proof fn law_every_registration_ends(s: StateView, replies: Seq<ReplyView>)
    requires
        s.ready(),
        !s.blocked(),
        s.fits(replies),
        replies.len() >= s.remaining(),
    ensures
        s.run(replies).finished(),
        s.run(replies).session.call() == (CallView::Return {
            exports: s.run(replies).session.exports,
        }),
    decreases replies.len(),
{
    if !s.finished() {
        assert(s.remaining() > 0);
        law_every_answer_brings_the_registration_forward(s, replies[0]);
        law_every_registration_ends(s.next(replies[0]), replies.skip(1));
    }
}

/// A registration begins with the environment, the object, the thread and the features that it was
/// given, and changes nothing in the registry by that but that a module has begun. While it waits
/// for the first module, it stays as it is; the first one never waits, and no other one waits once
/// a module has ended its registration.
pub proof fn law_only_the_first_goes_ahead(
    registry: RegistryView,
    env: NapiEnv,
    exports: NapiValue,
    thread: ThreadKey,
    features: Features,
    reply: ReplyView,
)
    ensures
        ({
            let s = StateView::begin(registry, env, exports, thread, features);
            &&& !s.registry.is_first_module
            &&& s.session.wf()
            &&& s.session.env == env && s.session.exports == exports
            &&& s.session.thread == thread && s.session.features == features
            &&& s.registry == (RegistryView { is_first_module: false, ..registry })
            &&& s.blocked() <==> !registry.is_first_module && !registry.first_module_registered
            &&& s.blocked() ==> s.next(reply) == s && s.session.call()
                == CallView::AwaitFirstModule
            &&& !registry.is_first_module && registry.first_module_registered ==> s.next(reply)
                == s.enter_exports()
        }),
{
    let s = StateView::begin(registry, env, exports, thread, features);
    lemma_plans_wf(registry);
    lemma_with_tasks(WalkView::new(exports), exports_tasks(registry.exports));
}

/// What a registration leaves alone: everything that was registered, the references of other
/// threads, and how references of other environments are released.
pub open spec fn leaves_alone(s: StateView, t: StateView) -> bool {
    &&& t.session.env == s.session.env
    &&& t.session.exports == s.session.exports
    &&& t.session.thread == s.session.thread
    &&& t.session.features == s.session.features
    &&& t.registry.exports == s.registry.exports
    &&& t.registry.classes == s.registry.classes
    &&& t.registry.fillers == s.registry.fillers
    &&& t.registry.functions == s.registry.functions
    &&& t.registry.is_first_module == s.registry.is_first_module
    &&& s.registry.first_module_registered ==> t.registry.first_module_registered
    &&& t.registry.constructors.remove(s.session.thread) == s.registry.constructors.remove(
        s.session.thread,
    )
    &&& t.registry.custom_gc.functions.remove(s.session.env)
        == s.registry.custom_gc.functions.remove(s.session.env)
    &&& t.registry.custom_gc.current.remove(s.session.thread)
        == s.registry.custom_gc.current.remove(s.session.thread)
}

pub(crate) proof fn lemma_step_leaves_alone(s: StateView, reply: ReplyView)
    ensures
        leaves_alone(s, s.next(reply)),
{
    let t = s.next(reply);
    assert(t.registry.constructors.remove(s.session.thread) =~= s.registry.constructors.remove(
        s.session.thread,
    ));
    assert(t.registry.custom_gc.functions.remove(s.session.env)
        =~= s.registry.custom_gc.functions.remove(s.session.env));
    assert(t.registry.custom_gc.current.remove(s.session.thread)
        =~= s.registry.custom_gc.current.remove(s.session.thread));
}

/// A registration leaves alone what is not its own.
pub proof fn law_a_registration_keeps_to_itself(s: StateView, replies: Seq<ReplyView>)
    ensures
        leaves_alone(s, s.run(replies)),
    decreases replies.len(),
{
    if replies.len() > 0 && !s.finished() {
        lemma_step_leaves_alone(s, replies[0]);
        law_a_registration_keeps_to_itself(s.next(replies[0]), replies.skip(1));
    }
}

/// At every time of a registration, the milestones that have been passed, followed by those that
/// are still ahead, are those of what was registered and of the features: first the exports, module
/// by module, then the classes, then the functions that fill in `exports`, then the runtime, then
/// the thread-safe function. None is left out, none comes twice, and no error changes that.
pub proof fn law_everything_registered_is_done_once_and_in_order(
    s: StateView,
    replies: Seq<ReplyView>,
)
    requires
        s.ready(),
        s.fits(replies),
    ensures
        milestones(s.calls(replies)) + s.run(replies).ahead() == s.ahead(),
        s.run(replies).finished() ==> milestones(s.calls(replies)) == s.ahead(),
    decreases replies.len(),
{
    if replies.len() == 0 || s.finished() {
        reveal(Seq::filter);
        assert(milestones(s.calls(replies)) =~= Seq::empty());
        assert(Seq::<CallView>::empty() + s.ahead() =~= s.ahead());
    } else {
        let next = s.next(replies[0]);
        let rest = replies.skip(1);
        let call = s.session.call();
        if !s.blocked() {
            law_every_answer_brings_the_registration_forward(s, replies[0]);
        }
        law_everything_registered_is_done_once_and_in_order(next, rest);
        lemma_first_of_filter(call, next.calls(rest));
        let under_way = if is_milestone(call) {
            seq![call]
        } else {
            Seq::empty()
        };
        assert(s.ahead() =~= under_way + next.ahead()) by {
            lemma_step_ahead(s, replies[0]);
        }
        assert(milestones(s.calls(replies)) =~= under_way + milestones(next.calls(rest)));
        assert(milestones(s.calls(replies)) + s.run(replies).ahead() =~= s.ahead());
        if s.run(replies).finished() {
            assert(milestones(s.calls(replies)) =~= s.ahead());
        }
    }
}

proof fn lemma_walk_ahead(w: WalkView, reply: ReplyView)
    requires
        w.wf(),
        !w.done(),
        answers(reply, w.call()),
    ensures
        w.ahead() == if is_milestone(w.call()) {
            seq![w.call()] + w.next(reply).ahead()
        } else {
            w.next(reply).ahead()
        },
{
    law_every_answer_brings_the_walk_forward(w, reply);
    let under_way = if is_milestone(w.call()) {
        seq![w.call()]
    } else {
        Seq::empty()
    };
    assert(w.ahead() =~= under_way + w.next(reply).ahead());
    assert(Seq::<CallView>::empty() + w.next(reply).ahead() =~= w.next(reply).ahead());
}

/// The state in which the walk over the filling functions begins, `walked` being the one over the
/// classes that has ended.
spec fn filling(s: StateView, walked: WalkView) -> StateView {
    StateView {
        registry: RegistryView {
            constructors: s.registry.constructors.insert(s.session.thread, walked.classes),
            ..s.registry
        },
        ..s.walking(walked.with_tasks(fillers_tasks(s.registry.fillers)))
    }
}

/// Entering the phase of the filling functions, or passing it by, leaves what is ahead of it.
proof fn lemma_filling_ahead(s: StateView)
    requires
        s.session.walk.wf(),
    ensures
        s.after_module_exports().ahead() == s.session.walk.ahead()
            + s.session.features.milestones(),
{
    let features = s.session.features.milestones();
    let walk = s.session.walk.ahead();
    if s.session.walk.done() {
        assert(walk =~= Seq::empty());
        assert(walk + features =~= features);
        assert(Seq::<CallView>::empty() + s.session.features.collector_calls()
            =~= s.session.features.collector_calls());
        assert(s.after_module_exports().ahead() =~= features);
    }
}

proof fn lemma_associative(a: Seq<CallView>, b: Seq<CallView>, c: Seq<CallView>)
    ensures
        (a + b) + c == a + (b + c),
{
    assert((a + b) + c =~= a + (b + c));
}

proof fn lemma_step_ahead(s: StateView, reply: ReplyView)
    requires
        s.ready(),
        !s.finished(),
        answers(reply, s.session.call()),
    ensures
        s.ahead() == if is_milestone(s.session.call()) {
            seq![s.session.call()] + s.next(reply).ahead()
        } else {
            s.next(reply).ahead()
        },
{
    lemma_plans_wf(s.registry);
    let walk = s.session.walk;
    let next = s.next(reply);
    let none = Seq::<CallView>::empty();
    let classes = tasks_milestones(classes_tasks(s.registry.classes), s.session.exports);
    let fillers = tasks_milestones(fillers_tasks(s.registry.fillers), s.session.exports);
    let features = s.session.features.milestones();
    match s.session.phase {
        Phase::AwaitingFirst => {
            lemma_with_tasks(walk, exports_tasks(s.registry.exports));
            if walk.with_tasks(exports_tasks(s.registry.exports)).done() {
                assert(walk.with_tasks(exports_tasks(s.registry.exports)).ahead() =~= none);
                assert(none + (classes + (fillers + features)) =~= classes + (fillers + features));
            }
        },
        Phase::Exports => {
            let walked = walk.next(reply);
            lemma_walk_ahead(walk, reply);
            law_every_answer_brings_the_walk_forward(walk, reply);
            if walked.done() {
                assert(walked.ahead() =~= none);
                assert(none + (classes + (fillers + features)) =~= classes + (fillers + features));
            }
            lemma_associative(seq![walk.call()], walked.ahead(), classes + (fillers + features));
        },
        Phase::CheckingClasses => {
            let walked = walk.with_tasks(classes_tasks(s.registry.classes));
            lemma_with_tasks(walk, classes_tasks(s.registry.classes));
            if walked.done() {
                lemma_with_tasks(walked, fillers_tasks(s.registry.fillers));
                lemma_filling_ahead(filling(s, walked));
                assert(walked.ahead() =~= none);
                assert(none + (fillers + features) =~= fillers + features);
            }
        },
        Phase::Classes => {
            let walked = walk.next(reply);
            lemma_walk_ahead(walk, reply);
            law_every_answer_brings_the_walk_forward(walk, reply);
            if walked.done() {
                lemma_with_tasks(walked, fillers_tasks(s.registry.fillers));
                lemma_filling_ahead(filling(s, walked));
                assert(walked.ahead() =~= none);
                assert(none + (fillers + features) =~= fillers + features);
            }
            lemma_associative(seq![walk.call()], walked.ahead(), fillers + features);
        },
        Phase::ModuleExports => {
            lemma_walk_ahead(walk, reply);
            law_every_answer_brings_the_walk_forward(walk, reply);
            lemma_filling_ahead(s.walking(walk.next(reply)));
            lemma_associative(seq![walk.call()], walk.next(reply).ahead(), features);
        },
        Phase::Runtime(setup) => {
            assert(s.ahead() =~= seq![s.session.call()] + next.ahead());
        },
        _ => {
            assert(s.ahead() =~= if is_milestone(s.session.call()) {
                seq![s.session.call()] + next.ahead()
            } else {
                next.ahead()
            });
        },
    }
}

/// The object of a module is created once at most in a registration, whether exports, classes or
/// both belong to it; when the registration is over, each module that an export or a class belongs
/// to has been created.
pub proof fn law_each_module_is_created_once_per_registration(
    s: StateView,
    replies: Seq<ReplyView>,
)
    requires
        s.ready(),
        s.fits(replies),
    ensures
        s.created(replies).no_duplicates(),
        s.created(replies).to_set().subset_of(s.to_be_created()),
        s.run(replies).finished() ==> s.created(replies).to_set() == s.to_be_created(),
    decreases replies.len(),
{
    if replies.len() == 0 || s.finished() {
        if s.finished() {
            assert(s.created(replies).to_set() =~= s.to_be_created());
        }
    } else {
        let next = s.next(replies[0]);
        let rest = replies.skip(1);
        if !s.blocked() {
            law_every_answer_brings_the_registration_forward(s, replies[0]);
        }
        law_each_module_is_created_once_per_registration(next, rest);
        lemma_step_to_be_created(s, replies[0]);
        let created = s.created(replies);
        match s.session.walk.pending {
            PendingView::CreateModule { name } => {
                assert(created.to_set() =~= next.created(rest).to_set().insert(name)) by {
                    assert forall|m: Seq<char>| next.created(rest).contains(m) implies
                        #[trigger] created.contains(m) by {
                        let i = choose|i: int|
                            0 <= i < next.created(rest).len() && next.created(rest)[i] == m;
                        assert(created[i + 1] == m);
                    }
                    assert(created[0] == name);
                }
                assert(!next.created(rest).contains(name)) by {
                    if next.created(rest).contains(name) {
                        assert(next.created(rest).to_set().contains(name));
                    }
                }
            },
            _ => {},
        }
    }
}

pub(crate) proof fn lemma_step_to_be_created(s: StateView, reply: ReplyView)
    requires
        s.ready(),
        !s.finished(),
        answers(reply, s.session.call()),
    ensures
        match s.session.walk.pending {
            PendingView::CreateModule { name } => {
                &&& s.to_be_created().contains(name)
                &&& s.next(reply).to_be_created() == s.to_be_created().remove(name)
            },
            _ => s.next(reply).to_be_created() == s.to_be_created(),
        },
{
    lemma_plans_wf(s.registry);
    let walk = s.session.walk;
    let next = s.next(reply);
    match s.session.phase {
        Phase::AwaitingFirst => {
            lemma_with_tasks(walk, exports_tasks(s.registry.exports));
        },
        Phase::Exports => {
            law_every_answer_brings_the_walk_forward(walk, reply);
        },
        Phase::CheckingClasses => {
            lemma_with_tasks(walk, classes_tasks(s.registry.classes));
            let walked = walk.with_tasks(classes_tasks(s.registry.classes));
            if walked.done() {
                assert(walked.to_be_created() =~= Set::empty());
                lemma_with_tasks(walked, fillers_tasks(s.registry.fillers));
                lemma_fillers_open_nothing(s.registry.fillers);
            }
        },
        Phase::Classes => {
            law_every_answer_brings_the_walk_forward(walk, reply);
            if walk.next(reply).done() {
                lemma_with_tasks(walk.next(reply), fillers_tasks(s.registry.fillers));
                lemma_fillers_open_nothing(s.registry.fillers);
            }
        },
        Phase::ModuleExports => {
            law_every_answer_brings_the_walk_forward(walk, reply);
        },
        _ => {},
    }
    match walk.pending {
        PendingView::CreateModule { name } => {
            assert(next.to_be_created() =~= s.to_be_created().remove(name));
        },
        _ => {
            assert(next.to_be_created() =~= s.to_be_created());
        },
    }
}

proof fn lemma_step_coherent(s: StateView, reply: ReplyView)
    requires
        s.ready(),
        s.coherent(),
        !s.finished(),
        answers(reply, s.session.call()),
    ensures
        s.next(reply).coherent(),
{
    lemma_plans_wf(s.registry);
    law_every_class_is_planned(s.registry.classes);
    lemma_exports_define_nothing(groups_of(s.registry.exports));
    lemma_fillers_open_nothing(s.registry.fillers);
    let walk = s.session.walk;
    let names = class_names(s.registry.classes);
    match s.session.phase {
        Phase::AwaitingFirst => {
            lemma_with_tasks(walk, exports_tasks(s.registry.exports));
        },
        Phase::Exports => {
            law_every_answer_brings_the_walk_forward(walk, reply);
            assert(walk.next(reply).to_be_referenced() =~= Set::empty());
        },
        Phase::ModuleExports => {
            law_every_answer_brings_the_walk_forward(walk, reply);
            assert(walk.next(reply).to_be_referenced() =~= Set::empty());
        },
        Phase::CheckingClasses => {
            let tasks = classes_tasks(s.registry.classes);
            let walked = walk.with_tasks(tasks);
            lemma_with_tasks(walk, tasks);
            assert(walked.classes.dom().union(walked.to_be_referenced()) =~= names);
            if walked.done() {
                assert(walked.classes.dom() =~= names);
                lemma_with_tasks(walked, fillers_tasks(s.registry.fillers));
            }
        },
        Phase::Classes => {
            law_every_answer_brings_the_walk_forward(walk, reply);
            let walked = walk.next(reply);
            assert(walked.classes.dom().union(walked.to_be_referenced()) =~= names);
            if walked.done() {
                assert(walked.to_be_referenced() =~= Set::empty());
                assert(walked.classes.dom() =~= names);
                lemma_with_tasks(walked, fillers_tasks(s.registry.fillers));
            }
        },
        _ => {},
    }
}

proof fn lemma_with_references_first(
    map: Map<Seq<char>, NapiRef>,
    first: (Seq<char>, NapiRef),
    rest: Seq<(Seq<char>, NapiRef)>,
)
    ensures
        with_references(map, seq![first] + rest) == with_references(
            map.insert(first.0, first.1),
            rest,
        ),
    decreases rest.len(),
{
    let all = seq![first] + rest;
    if rest.len() == 0 {
        assert(all.drop_last() =~= Seq::empty());
        assert(with_references(map, all.drop_last()) == map);
    } else {
        assert(all.drop_last() =~= seq![first] + rest.drop_last());
        lemma_with_references_first(map, first, rest.drop_last());
    }
}

proof fn lemma_kept_references(s: StateView, replies: Seq<ReplyView>)
    requires
        s.ready(),
        s.coherent(),
        s.fits(replies),
        s.run(replies).finished(),
    ensures
        s.run(replies).registry.constructors[s.session.thread] == match s.session.phase {
            Phase::AwaitingFirst | Phase::Exports | Phase::CheckingClasses => with_references(
                Map::empty(),
                s.referenced(replies),
            ),
            Phase::Classes => with_references(s.session.walk.classes, s.referenced(replies)),
            _ => s.registry.constructors[s.session.thread],
        },
    decreases replies.len(),
{
    if !s.finished() {
        let reply = replies[0];
        let next = s.next(reply);
        let rest = replies.skip(1);
        let walk = s.session.walk;
        if !s.blocked() {
            law_every_answer_brings_the_registration_forward(s, reply);
        }
        lemma_plans_wf(s.registry);
        lemma_step_coherent(s, reply);
        lemma_step_leaves_alone(s, reply);
        lemma_kept_references(next, rest);
        match s.session.phase {
            Phase::AwaitingFirst | Phase::Exports => {
                if walk.pending is CreateReference {
                    assert(walk.to_be_referenced().contains(
                        walk.pending->CreateReference_js_name,
                    ));
                }
            },
            Phase::CheckingClasses => {
                lemma_with_tasks(walk, classes_tasks(s.registry.classes));
                if !(next.session.phase is Classes) {
                    lemma_referenced_later(next, rest);
                }
            },
            Phase::Classes => {
                law_every_answer_brings_the_walk_forward(walk, reply);
                if !(next.session.phase is Classes) {
                    lemma_referenced_later(next, rest);
                }
                match (walk.pending, reply) {
                    (
                        PendingView::CreateReference { js_name, .. },
                        ReplyView::Status { value, .. },
                    ) => {
                        lemma_with_references_first(
                            walk.classes,
                            (js_name, value),
                            next.referenced(rest),
                        );
                    },
                    _ => {},
                }
            },
            _ => {},
        }
    }
}

proof fn lemma_referenced_later(s: StateView, replies: Seq<ReplyView>)
    requires
        s.ready(),
        s.coherent(),
        s.fits(replies),
        s.session.phase is ModuleExports || s.session.phase is Runtime || s.session.phase is CustomGc
            || s.finished(),
    ensures
        s.referenced(replies) == Seq::<(Seq<char>, NapiRef)>::empty(),
    decreases replies.len(),
{
    if replies.len() > 0 && !s.finished() {
        law_every_answer_brings_the_registration_forward(s, replies[0]);
        lemma_step_coherent(s, replies[0]);
        lemma_referenced_later(s.next(replies[0]), replies.skip(1));
        if s.session.walk.pending is CreateReference {
            assert(s.session.walk.to_be_referenced().contains(
                s.session.walk.pending->CreateReference_js_name,
            ));
        }
    }
}

proof fn lemma_kept_threadsafe(s: StateView, replies: Seq<ReplyView>)
    requires
        s.ready(),
        s.fits(replies),
        s.session.features.custom_gc,
        !s.finished(),
        s.run(replies).finished(),
    ensures
        s.run(replies).registry.custom_gc.functions[s.session.env].0 == match s.session.phase {
            Phase::CustomGc(CustomGcSetup::Unref { threadsafe_function }) => threadsafe_function,
            _ => s.threadsafe_created(replies)->0,
        },
        !(s.session.phase matches Phase::CustomGc(CustomGcSetup::Unref { .. }))
            ==> s.threadsafe_created(replies) is Some,
    decreases replies.len(),
{
    let reply = replies[0];
    let next = s.next(reply);
    if !s.blocked() {
        law_every_answer_brings_the_registration_forward(s, reply);
    }
    lemma_step_leaves_alone(s, reply);
    if !next.finished() {
        lemma_kept_threadsafe(next, replies.skip(1));
    }
}

/// When a registration that was begun is over: the next modules may go on; on its thread each
/// registered class has the reference that was created for it last, and no other name has one;
/// and, where it was to get one, its environment has the thread-safe function that was created for
/// it, and its thread belongs to the environment.
pub proof fn law_what_a_registration_achieves(
    registry: RegistryView,
    env: NapiEnv,
    exports: NapiValue,
    thread: ThreadKey,
    features: Features,
    replies: Seq<ReplyView>,
)
    requires
        all_definable(registry.classes),
        StateView::begin(registry, env, exports, thread, features).fits(replies),
        StateView::begin(registry, env, exports, thread, features).run(replies).finished(),
    ensures
        ({
            let after = StateView::begin(registry, env, exports, thread, features).run(
                replies,
            ).registry;
            let references = StateView::begin(
                registry,
                env,
                exports,
                thread,
                features,
            ).referenced(replies);
            let collector = StateView::begin(
                registry,
                env,
                exports,
                thread,
                features,
            ).threadsafe_created(replies);
            &&& after.first_module_registered
            &&& after.constructors.contains_key(thread)
            &&& after.constructors[thread] == with_references(Map::empty(), references)
            &&& forall|name: Seq<char>|
                after.class_constructor(thread, name) is Some <==> #[trigger] class_names(
                    registry.classes,
                ).contains(name)
            &&& features.custom_gc ==> after.custom_gc.functions.contains_key(env)
            &&& features.custom_gc ==> collector == Some(after.custom_gc.functions[env].0)
            &&& features.custom_gc ==> after.custom_gc.current_env(thread) == env
        }),
{
    let s = StateView::begin(registry, env, exports, thread, features);
    lemma_plans_wf(registry);
    lemma_with_tasks(WalkView::new(exports), exports_tasks(registry.exports));
    lemma_exports_define_nothing(groups_of(registry.exports));
    lemma_run_coherent(s, replies);
    lemma_kept_references(s, replies);
    if features.custom_gc {
        lemma_kept_threadsafe(s, replies);
    }
    law_a_registration_keeps_to_itself(s, replies);
    let after = s.run(replies).registry;
    assert forall|name: Seq<char>|
        after.class_constructor(thread, name) is Some <==> #[trigger] class_names(
            registry.classes,
        ).contains(name) by {
        assert(after.constructors[thread].dom().contains(name) == class_names(
            registry.classes,
        ).contains(name));
    }
}

proof fn lemma_run_coherent(s: StateView, replies: Seq<ReplyView>)
    requires
        s.ready(),
        s.coherent(),
        s.fits(replies),
    ensures
        s.run(replies).coherent(),
    decreases replies.len(),
{
    if replies.len() > 0 && !s.finished() {
        if !s.blocked() {
            law_every_answer_brings_the_registration_forward(s, replies[0]);
        }
        lemma_step_coherent(s, replies[0]);
        lemma_run_coherent(s.next(replies[0]), replies.skip(1));
    }
}

/// The names of the classes that the tasks define, in order.
pub open spec fn tasks_class_names(tasks: Seq<TaskView>) -> Seq<Seq<char>>
    decreases tasks.len(),
{
    if tasks.len() == 0 {
        Seq::empty()
    } else {
        match tasks[0] {
            TaskView::DefineClass { class, .. } => seq![class.js_name] + tasks_class_names(
                tasks.skip(1),
            ),
            _ => tasks_class_names(tasks.skip(1)),
        }
    }
}

/// The calls that create a reference.
pub open spec fn reference_calls(calls: Seq<CallView>) -> Seq<CallView> {
    calls.filter(|call: CallView| call is CreateReference)
}

/// The calls that create an object.
pub open spec fn object_calls(calls: Seq<CallView>) -> Seq<CallView> {
    calls.filter(|call: CallView| call is CreateObject)
}

/// Each of the references with the name at its place.
pub open spec fn under_names(names: Seq<Seq<char>>, references: Seq<NapiRef>) -> Seq<
    (Seq<char>, NapiRef),
> {
    Seq::new(references.len(), |i: int| (names[i], references[i]))
}

impl StateView {
    /// What the engine gave for the requests that create a reference, in order.
    pub open spec fn references_given(self, replies: Seq<ReplyView>) -> Seq<NapiRef>
        decreases replies.len(),
    {
        if replies.len() == 0 || self.finished() {
            Seq::empty()
        } else {
            let rest = self.next(replies[0]).references_given(replies.skip(1));
            match (self.session.call(), replies[0]) {
                (CallView::CreateReference { .. }, ReplyView::Status { value, .. }) => seq![value]
                    + rest,
                _ => rest,
            }
        }
    }

    /// What the engine gave for the requests that define a class, in order.
    pub open spec fn classes_given(self, replies: Seq<ReplyView>) -> Seq<NapiValue>
        decreases replies.len(),
    {
        if replies.len() == 0 || self.finished() {
            Seq::empty()
        } else {
            let rest = self.next(replies[0]).classes_given(replies.skip(1));
            match (self.session.call(), replies[0]) {
                (CallView::DefineClass { .. }, ReplyView::Status { value, .. }) => seq![value]
                    + rest,
                _ => rest,
            }
        }
    }

    /// The names of the classes to which a reference is still to be created, in order.
    spec fn class_names_ahead(self) -> Seq<Seq<char>> {
        let walk = self.session.walk;
        let rest = tasks_class_names(walk.tasks);
        match self.session.phase {
            Phase::AwaitingFirst | Phase::Exports | Phase::CheckingClasses =>
                self.registry.classes.map_values(|c: ClassView| c.js_name),
            Phase::Classes => match walk.pending {
                PendingView::DefineClass { class, .. } => seq![class.js_name] + rest,
                PendingView::CreateReference { js_name, .. } => seq![js_name] + rest,
                _ => rest,
            },
            _ => Seq::empty(),
        }
    }
}

proof fn lemma_class_names_add(a: Seq<TaskView>, b: Seq<TaskView>)
    ensures
        tasks_class_names(a + b) == tasks_class_names(a) + tasks_class_names(b),
    decreases a.len(),
{
    if a.len() == 0 {
        assert(a + b =~= b);
    } else {
        lemma_class_names_add(a.skip(1), b);
        assert((a + b).skip(1) =~= a.skip(1) + b);
    }
    assert(tasks_class_names(a + b) =~= tasks_class_names(a) + tasks_class_names(b));
}

proof fn lemma_class_names_planned(classes: Seq<ClassView>)
    ensures
        tasks_class_names(classes_tasks(classes)) == classes.map_values(
            |c: ClassView| c.js_name,
        ),
    decreases classes.len(),
{
    if classes.len() > 0 {
        let before = classes.drop_last();
        let tasks = class_tasks(classes.last());
        lemma_class_names_planned(before);
        lemma_class_names_add(classes_tasks(before), tasks);
        reveal_with_fuel(tasks_class_names, 3);
        if classes.last().js_mod is Some {
            assert(tasks.skip(1).skip(1) =~= Seq::empty());
        } else {
            assert(tasks.skip(1) =~= Seq::empty());
        }
        assert(tasks_class_names(tasks) =~= seq![classes.last().js_name]);
    }
    assert(tasks_class_names(classes_tasks(classes)) =~= classes.map_values(
        |c: ClassView| c.js_name,
    ));
}

proof fn lemma_referenced_in_order(s: StateView, replies: Seq<ReplyView>)
    requires
        s.ready(),
        s.coherent(),
        s.fits(replies),
        s.run(replies).finished(),
    ensures
        s.references_given(replies).len() == s.class_names_ahead().len(),
        s.referenced(replies) == under_names(s.class_names_ahead(), s.references_given(replies)),
    decreases replies.len(),
{
    let all = under_names(s.class_names_ahead(), s.references_given(replies));
    if s.finished() {
        assert(s.referenced(replies) =~= all);
    } else {
        let reply = replies[0];
        let next = s.next(reply);
        let rest = replies.skip(1);
        let walk = s.session.walk;
        if !s.blocked() {
            law_every_answer_brings_the_registration_forward(s, reply);
        }
        lemma_plans_wf(s.registry);
        lemma_step_coherent(s, reply);
        lemma_step_leaves_alone(s, reply);
        lemma_referenced_in_order(next, rest);
        let later = under_names(next.class_names_ahead(), next.references_given(rest));
        assert(s.session.phase is Classes || !(walk.pending is CreateReference)) by {
            if walk.pending is CreateReference {
                assert(walk.to_be_referenced().contains(walk.pending->CreateReference_js_name));
            }
        }
        match s.session.phase {
            Phase::CheckingClasses => {
                let walked = walk.with_tasks(classes_tasks(s.registry.classes));
                lemma_class_names_planned(s.registry.classes);
                assert(s.class_names_ahead() =~= next.class_names_ahead());
            },
            Phase::Classes => {
                law_every_answer_brings_the_walk_forward(walk, reply);
                match walk.pending {
                    PendingView::CreateReference { js_name, .. } => {
                        assert(s.class_names_ahead() =~= seq![js_name]
                            + next.class_names_ahead());
                    },
                    _ => {
                        assert(s.class_names_ahead() =~= next.class_names_ahead());
                    },
                }
            },
            _ => {
                assert(s.class_names_ahead() =~= next.class_names_ahead());
            },
        }
        assert(s.referenced(replies) =~= all);
    }
}

proof fn lemma_reference_calls(s: StateView, replies: Seq<ReplyView>)
    requires
        s.ready(),
        s.fits(replies),
        s.run(replies).finished(),
    ensures
        reference_calls(s.calls(replies)) == (match s.session.walk.pending {
            PendingView::CreateReference { value, .. } => seq![
                CallView::CreateReference { value, initial_refcount: 1 },
            ],
            _ => Seq::empty(),
        }) + s.classes_given(replies).map_values(
            |value: NapiValue| CallView::CreateReference { value, initial_refcount: 1 },
        ),
        object_calls(s.calls(replies)).len() == s.created(replies).len(),
    decreases replies.len(),
{
    let asked = |value: NapiValue| CallView::CreateReference { value, initial_refcount: 1 };
    let in_hand = match s.session.walk.pending {
        PendingView::CreateReference { value, .. } => seq![
            CallView::CreateReference { value, initial_refcount: 1 },
        ],
        _ => Seq::empty(),
    };
    let is_reference = |call: CallView| call is CreateReference;
    let is_object = |call: CallView| call is CreateObject;
    if s.finished() {
        reveal(Seq::filter);
        assert(reference_calls(s.calls(replies)) =~= in_hand + s.classes_given(
            replies,
        ).map_values(asked));
    } else {
        let reply = replies[0];
        let call = s.session.call();
        let next = s.next(reply);
        let rest = replies.skip(1);
        if !s.blocked() {
            law_every_answer_brings_the_registration_forward(s, reply);
        }
        lemma_reference_calls(next, rest);
        Seq::filter_distributes_over_add(seq![call], next.calls(rest), is_reference);
        Seq::filter_distributes_over_add(seq![call], next.calls(rest), is_object);
        reveal_with_fuel(Seq::filter, 2);
        assert(seq![call].drop_last() =~= Seq::empty());
        assert(reference_calls(s.calls(replies)) =~= in_hand + s.classes_given(
            replies,
        ).map_values(asked));
    }
}

proof fn lemma_last_under_a_name(
    map: Map<Seq<char>, NapiRef>,
    references: Seq<(Seq<char>, NapiRef)>,
    i: int,
)
    requires
        0 <= i < references.len(),
        forall|j: int| i < j < references.len() ==> (#[trigger] references[j]).0 != references[i].0,
    ensures
        with_references(map, references).contains_key(references[i].0),
        with_references(map, references)[references[i].0] == references[i].1,
    decreases references.len(),
{
    if i < references.len() - 1 {
        let before = references.drop_last();
        assert forall|j: int| i < j < before.len() implies (#[trigger] before[j]).0 != before[i].0 by {
            assert(references[j].0 != references[i].0);
        }
        lemma_last_under_a_name(map, before, i);
        assert(references[references.len() - 1].0 != references[i].0);
    }
}

/// Which reference belongs to which class when a registration is over. For each class, in order,
/// one reference is created, to the value that the engine gave for that class, and it counts once;
/// the class is found on the thread of the registration by the reference that the engine gave
/// then, unless a later class has the same name. On every other thread each class is found as
/// before, and no object is created but those of the modules.
pub proof fn law_each_class_is_found_by_its_own_reference(
    registry: RegistryView,
    env: NapiEnv,
    exports: NapiValue,
    thread: ThreadKey,
    features: Features,
    replies: Seq<ReplyView>,
)
    requires
        all_definable(registry.classes),
        StateView::begin(registry, env, exports, thread, features).fits(replies),
        StateView::begin(registry, env, exports, thread, features).run(replies).finished(),
    ensures
        ({
            let s = StateView::begin(registry, env, exports, thread, features);
            let after = s.run(replies).registry;
            let classes = registry.classes;
            let references = s.references_given(replies);
            &&& references.len() == classes.len()
            &&& reference_calls(s.calls(replies)) == s.classes_given(replies).map_values(
                |value: NapiValue| CallView::CreateReference { value, initial_refcount: 1 },
            )
            &&& forall|i: int|
                #![trigger classes[i]]
                0 <= i < classes.len() && (forall|j: int|
                    i < j < classes.len() ==> (#[trigger] classes[j]).js_name
                        != classes[i].js_name) ==> after.class_constructor(
                    thread,
                    classes[i].js_name,
                ) == Some(references[i])
            &&& forall|name: Seq<char>|
                (forall|i: int|
                    0 <= i < classes.len() ==> (#[trigger] classes[i]).js_name != name)
                    ==> #[trigger] after.class_constructor(thread, name) is None
            &&& forall|other: ThreadKey, name: Seq<char>|
                other != thread ==> #[trigger] after.class_constructor(other, name)
                    == registry.class_constructor(other, name)
            &&& object_calls(s.calls(replies)).len() == s.created(replies).len()
        }),
{
    let s = StateView::begin(registry, env, exports, thread, features);
    let after = s.run(replies).registry;
    let classes = registry.classes;
    let names = classes.map_values(|c: ClassView| c.js_name);
    let references = s.references_given(replies);
    let kept = after.constructors[thread];
    lemma_plans_wf(registry);
    lemma_with_tasks(WalkView::new(exports), exports_tasks(registry.exports));
    lemma_exports_define_nothing(groups_of(registry.exports));
    law_what_a_registration_achieves(registry, env, exports, thread, features, replies);
    law_a_registration_keeps_to_itself(s, replies);
    lemma_referenced_in_order(s, replies);
    lemma_reference_calls(s, replies);
    assert(!(s.session.walk.pending is CreateReference));
    assert(Seq::<CallView>::empty() + s.classes_given(replies).map_values(
        |value: NapiValue| CallView::CreateReference { value, initial_refcount: 1 },
    ) =~= s.classes_given(replies).map_values(
        |value: NapiValue| CallView::CreateReference { value, initial_refcount: 1 },
    ));
    assert(s.class_names_ahead() =~= names);
    let all = under_names(names, references);
    assert(kept == with_references(Map::empty(), all));
    assert forall|i: int|
        #![trigger classes[i]]
        0 <= i < classes.len() && (forall|j: int|
            i < j < classes.len() ==> (#[trigger] classes[j]).js_name
                != classes[i].js_name) implies after.class_constructor(thread, classes[i].js_name)
        == Some(references[i]) by {
        assert forall|j: int| i < j < all.len() implies (#[trigger] all[j]).0 != all[i].0 by {
            assert(classes[j].js_name != classes[i].js_name);
        }
        lemma_last_under_a_name(Map::empty(), all, i);
        assert(all[i] == (classes[i].js_name, references[i]));
    }
    assert forall|name: Seq<char>|
        (forall|i: int|
            0 <= i < classes.len() ==> (#[trigger] classes[i]).js_name
                != name) implies #[trigger] after.class_constructor(thread, name) is None by {
        if class_names(classes).contains(name) {
            let i = choose|i: int| 0 <= i < names.len() && names[i] == name;
            assert(classes[i].js_name == name);
        }
    }
    assert forall|other: ThreadKey, name: Seq<char>|
        other != thread implies #[trigger] after.class_constructor(other, name)
        == registry.class_constructor(other, name) by {
        let rest = after.constructors.remove(thread);
        assert(rest == registry.constructors.remove(thread));
        assert(rest.contains_key(other) == after.constructors.contains_key(other));
        assert(rest.contains_key(other) == registry.constructors.contains_key(other));
        if after.constructors.contains_key(other) {
            assert(rest[other] == after.constructors[other]);
            assert(rest[other] == registry.constructors[other]);
        }
    }
}

/// What the reply gives, where it gives a value.
pub open spec fn value_of(reply: ReplyView) -> usize {
    match reply {
        ReplyView::Status { value, .. } => value,
        _ => 0,
    }
}

/// Whether the last four calls set up the thread-safe function: a function and a name for it are
/// created, then the thread-safe function from what the engine gave for these two, and then that
/// one, as the engine gave it, is told not to keep the process alive.
pub open spec fn ends_with_collector(calls: Seq<CallView>, replies: Seq<ReplyView>) -> bool {
    let n = calls.len();
    &&& 4 <= n <= replies.len()
    &&& calls[n - 4] == (CallView::CreateFunction { name: "custom_gc"@, length: 9 })
    &&& calls[n - 3] == (CallView::CreateString { text: "CustomGC"@, length: 8 })
    &&& calls[n - 2] == (CallView::CreateThreadsafeFunction {
        function: value_of(replies[n - 4]),
        resource_name: value_of(replies[n - 3]),
        max_queue_size: 0,
        initial_thread_count: 1,
    })
    &&& calls[n - 1] == (CallView::UnrefThreadsafeFunction {
        threadsafe_function: value_of(replies[n - 2]),
    })
}

proof fn lemma_collector(s: StateView, replies: Seq<ReplyView>)
    requires
        s.session.wf(),
        s.session.phase == Phase::CustomGc(CustomGcSetup::Function),
        s.fits(replies),
        s.run(replies).finished(),
    ensures
        ends_with_collector(s.calls(replies), replies),
        s.run(replies).registry.custom_gc == (CustomGcView {
            functions: s.registry.custom_gc.functions.insert(
                s.session.env,
                CustomGcTsfn(value_of(replies[s.calls(replies).len() - 2])),
            ),
            current: s.registry.custom_gc.current.insert(s.session.thread, s.session.env),
        }),
{
    let a = s.next(replies[0]);
    let b = a.next(replies[1]);
    let c = b.next(replies[2]);
    let d = c.next(replies[3]);
    let one = replies.skip(1);
    let two = one.skip(1);
    let three = two.skip(1);
    let four = three.skip(1);
    assert(replies.len() > 0 && a.fits(one) && s.run(replies) == a.run(one));
    assert(one.len() > 0 && one[0] == replies[1]);
    assert(b.fits(two) && a.run(one) == b.run(two));
    assert(two.len() > 0 && two[0] == replies[2]);
    assert(c.fits(three) && b.run(two) == c.run(three));
    assert(three.len() > 0 && three[0] == replies[3]);
    assert(d.finished());
    assert(c.run(three) == d.run(four) && d.run(four) == d);
    assert(d.calls(four) =~= Seq::empty());
    assert(c.calls(three) =~= seq![c.session.call()]);
    assert(b.calls(two) =~= seq![b.session.call(), c.session.call()]);
    assert(a.calls(one) =~= seq![a.session.call(), b.session.call(), c.session.call()]);
    assert(s.calls(replies) =~= seq![
        s.session.call(),
        a.session.call(),
        b.session.call(),
        c.session.call(),
    ]);
}

proof fn lemma_features(s: StateView, replies: Seq<ReplyView>)
    requires
        s.ready(),
        s.fits(replies),
        !(s.session.phase is CustomGc),
        !s.finished(),
        s.run(replies).finished(),
    ensures
        s.session.features.custom_gc ==> ends_with_collector(s.calls(replies), replies),
        s.run(replies).registry.custom_gc == (if s.session.features.custom_gc {
            CustomGcView {
                functions: s.registry.custom_gc.functions.insert(
                    s.session.env,
                    CustomGcTsfn(value_of(replies[s.calls(replies).len() - 2])),
                ),
                current: s.registry.custom_gc.current.insert(s.session.thread, s.session.env),
            }
        } else {
            s.registry.custom_gc
        }),
        s.run(replies).registry.first_module_registered,
    decreases replies.len(),
{
    let reply = replies[0];
    let next = s.next(reply);
    let rest = replies.skip(1);
    if !s.blocked() {
        law_every_answer_brings_the_registration_forward(s, reply);
    }
    lemma_step_leaves_alone(s, reply);
    assert(next.registry.custom_gc == s.registry.custom_gc);
    let calls = s.calls(replies);
    let later = next.calls(rest);
    assert(calls =~= seq![s.session.call()] + later);
    if next.session.phase is CustomGc {
        lemma_collector(next, rest);
        lemma_finishing(next, rest);
    } else if !next.finished() {
        lemma_features(next, rest);
    }
    if s.session.features.custom_gc {
        let n = calls.len();
        assert(later.len() == n - 1);
        assert(rest[n - 1 - 4] == replies[n - 4]);
        assert(rest[n - 1 - 3] == replies[n - 3]);
        assert(rest[n - 1 - 2] == replies[n - 2]);
    }
}

proof fn lemma_finishing(s: StateView, replies: Seq<ReplyView>)
    requires
        s.ready(),
        s.fits(replies),
        !s.finished(),
        s.run(replies).finished(),
    ensures
        s.run(replies).registry.first_module_registered,
    decreases replies.len(),
{
    let next = s.next(replies[0]);
    if !s.blocked() {
        law_every_answer_brings_the_registration_forward(s, replies[0]);
    }
    if !next.finished() {
        lemma_finishing(next, replies.skip(1));
    }
}

/// What a registration leaves in the registry when it is over, and that it leaves nothing else: the
/// references to the classes on its thread; where it was to set one up, the thread-safe function
/// that the engine gave, for its environment, to which its thread belongs from then on; and that
/// modules have begun and ended. The thread-safe function is set up last, by four calls.
pub proof fn law_what_a_registration_leaves_behind(
    registry: RegistryView,
    env: NapiEnv,
    exports: NapiValue,
    thread: ThreadKey,
    features: Features,
    replies: Seq<ReplyView>,
)
    requires
        all_definable(registry.classes),
        StateView::begin(registry, env, exports, thread, features).fits(replies),
        StateView::begin(registry, env, exports, thread, features).run(replies).finished(),
    ensures
        ({
            let s = StateView::begin(registry, env, exports, thread, features);
            let calls = s.calls(replies);
            &&& features.custom_gc ==> ends_with_collector(calls, replies)
            &&& s.run(replies).registry == (RegistryView {
                constructors: registry.constructors.insert(
                    thread,
                    with_references(
                        Map::empty(),
                        under_names(
                            registry.classes.map_values(|c: ClassView| c.js_name),
                            s.references_given(replies),
                        ),
                    ),
                ),
                custom_gc: if features.custom_gc {
                    CustomGcView {
                        functions: registry.custom_gc.functions.insert(
                            env,
                            CustomGcTsfn(value_of(replies[calls.len() - 2])),
                        ),
                        current: registry.custom_gc.current.insert(thread, env),
                    }
                } else {
                    registry.custom_gc
                },
                is_first_module: false,
                first_module_registered: true,
                ..registry
            })
        }),
{
    let s = StateView::begin(registry, env, exports, thread, features);
    let after = s.run(replies).registry;
    let names = registry.classes.map_values(|c: ClassView| c.js_name);
    lemma_plans_wf(registry);
    lemma_with_tasks(WalkView::new(exports), exports_tasks(registry.exports));
    lemma_exports_define_nothing(groups_of(registry.exports));
    law_what_a_registration_achieves(registry, env, exports, thread, features, replies);
    law_a_registration_keeps_to_itself(s, replies);
    lemma_referenced_in_order(s, replies);
    lemma_features(s, replies);
    assert(s.class_names_ahead() =~= names);
    let kept = with_references(
        Map::empty(),
        under_names(names, s.references_given(replies)),
    );
    assert(after.constructors =~= registry.constructors.insert(thread, kept)) by {
        assert(after.constructors =~= after.constructors.remove(thread).insert(thread, kept));
        assert(registry.constructors.insert(thread, kept) =~= registry.constructors.remove(
            thread,
        ).insert(thread, kept));
    }
}

/// What a registration asks by the phase that it is in.
pub proof fn law_what_a_registration_asks(s: SessionView)
    requires
        s.wf(),
    ensures
        match s.phase {
            Phase::AwaitingFirst => s.call() == CallView::AwaitFirstModule,
            Phase::CheckingClasses => s.call() == CallView::CheckClasses,
            Phase::Exports | Phase::Classes | Phase::ModuleExports => s.call() == s.walk.call()
                && s.walk.exports == s.exports,
            Phase::Runtime(setup) => match setup {
                RuntimeSetup::Ensure => s.call() == CallView::EnsureRuntime,
                RuntimeSetup::Count => s.call() == CallView::CountRuntimeUser,
                RuntimeSetup::Hook => s.call() == CallView::AddRuntimeCleanupHook,
                RuntimeSetup::Done => false,
            },
            Phase::CustomGc(_) => s.call() is CreateFunction || s.call() is CreateString
                || s.call() is CreateThreadsafeFunction || s.call() is UnrefThreadsafeFunction,
            Phase::Finished => s.call() == (CallView::Return { exports: s.exports }),
        },
{
}

/// What a registration does when it is over, whatever the engine answered: it has called the
/// function of each registered export, module by module, then defined each registered class, then
/// called each function that fills in `exports`, then, where the environment was to share in the
/// runtime, started the runtime, counted the environment and hooked its end, and then, where it was
/// to get one, begun to set up its thread-safe function; and it has created the object of each
/// module that an export or a class names, and of no other, once.
pub proof fn law_what_a_registration_does(
    registry: RegistryView,
    env: NapiEnv,
    exports: NapiValue,
    thread: ThreadKey,
    features: Features,
    replies: Seq<ReplyView>,
)
    requires
        all_definable(registry.classes),
        StateView::begin(registry, env, exports, thread, features).fits(replies),
        StateView::begin(registry, env, exports, thread, features).run(replies).finished(),
    ensures
        ({
            let s = StateView::begin(registry, env, exports, thread, features);
            &&& milestones(s.calls(replies)) == export_calls(ungrouped(groups_of(registry.exports)))
                + registry.classes.map_values(|c: ClassView| define_call(c)) + filler_calls(
                registry.fillers,
                exports,
            ) + (if features.runtime {
                seq![
                    CallView::EnsureRuntime,
                    CallView::CountRuntimeUser,
                    CallView::AddRuntimeCleanupHook,
                ]
            } else {
                Seq::empty()
            }) + (if features.custom_gc {
                seq![CallView::CreateFunction { name: "custom_gc"@, length: 9 }]
            } else {
                Seq::empty()
            })
            &&& ungrouped(groups_of(registry.exports)).to_multiset()
                == registry.exports.to_multiset()
            &&& s.created(replies).no_duplicates()
            &&& forall|name: Seq<char>|
                #[trigger] s.created(replies).contains(name) <==> {
                    ||| exists|i: int|
                        0 <= i < registry.exports.len() && (
                        #[trigger] registry.exports[i]).js_mod == Some(name)
                    ||| exists|i: int|
                        0 <= i < registry.classes.len() && (
                        #[trigger] registry.classes[i]).js_mod == Some(name)
                }
        }),
{
    let s = StateView::begin(registry, env, exports, thread, features);
    lemma_plans_wf(registry);
    lemma_with_tasks(WalkView::new(exports), exports_tasks(registry.exports));
    law_everything_registered_is_done_once_and_in_order(s, replies);
    law_each_module_is_created_once_per_registration(s, replies);
    law_every_export_is_planned_once(registry.exports, exports);
    law_every_class_is_planned_once(registry.classes, exports);
    law_every_filler_is_planned_once(registry.fillers, exports);
    let walked = WalkView::new(exports).with_tasks(exports_tasks(registry.exports));
    if registry.is_first_module && walked.done() {
        assert(walked.ahead() =~= Seq::empty());
    }
    assert(s.ahead() =~= export_calls(ungrouped(groups_of(registry.exports)))
        + registry.classes.map_values(|c: ClassView| define_call(c)) + filler_calls(
        registry.fillers,
        exports,
    ) + features.runtime_setup().ahead() + features.collector_calls());
    let modules = tasks_modules(exports_tasks(registry.exports)).union(
        tasks_modules(classes_tasks(registry.classes)),
    );
    assert(s.to_be_created() =~= modules);
    assert forall|name: Seq<char>|
        #[trigger] s.created(replies).contains(name) <==> {
            ||| exists|i: int|
                0 <= i < registry.exports.len() && (#[trigger] registry.exports[i]).js_mod == Some(
                    name,
                )
            ||| exists|i: int|
                0 <= i < registry.classes.len() && (#[trigger] registry.classes[i]).js_mod == Some(
                    name,
                )
        } by {
        law_modules_of_the_exports_are_opened(registry.exports, name);
        law_modules_of_the_classes_are_opened(registry.classes, name);
        assert(s.created(replies).to_set().contains(name) == modules.contains(name));
    }
}

/// The script sees an error for every request that fails, with the status of that request or the
/// error that the registered function returned, and for no other; the two statuses that are not
/// looked at are that of creating the reference to a class and that of hooking the end of the
/// environment.
pub proof fn law_every_failure_is_reported(s: SessionView, reply: ReplyView)
    requires
        s.wf(),
        answers(reply, s.call()),
    ensures
        match reply {
            ReplyView::Status { status, .. } => {
                &&& s.failure(reply) is Some <==> status != NAPI_OK && !(s.call()
                    is CreateReference) && !(s.call() is AddRuntimeCleanupHook)
                &&& s.failure(reply) matches Some(error) ==> error.status == status
            },
            ReplyView::Returned { result } => match result {
                Ok(_) => s.failure(reply) is None,
                Err(error) => s.failure(reply) == Some(error),
            },
            ReplyView::Ready => s.failure(reply) is None,
        },
        match s.phase {
            Phase::Exports | Phase::Classes | Phase::ModuleExports => s.failure(reply)
                == s.walk.failure(reply),
            Phase::CustomGc(setup) => reply matches ReplyView::Status { status, .. }
                && s.failure(reply) == setup.failure(status),
            _ => s.failure(reply) is None,
        },
{
}

} // verus!
