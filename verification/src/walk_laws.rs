//! What holds of every walk, whatever the engine answers.
use vstd::prelude::*;
use vstd::utf8::encode_utf8;

use crate::calls::{answers, CallView, ReplyView};
use crate::names::{c_length, law_the_length_counts_every_byte};
use crate::sys::{ErrorView, NapiValue, NAPI_OK, NULL};
use crate::walk::{tasks_wf, PendingView, TaskView, WalkView};

verus! {

/// How many requests a task takes at most.
pub open spec fn task_cost(task: TaskView) -> nat {
    match task {
        TaskView::OpenModule { .. } => 2,
        TaskView::Export { .. } => 2,
        TaskView::DefineClass { .. } => 3,
        TaskView::ModuleExports { .. } => 1,
    }
}

/// How many requests the tasks take at most.
pub open spec fn tasks_cost(tasks: Seq<TaskView>) -> nat
    decreases tasks.len(),
{
    if tasks.len() == 0 {
        0
    } else {
        task_cost(tasks[0]) + tasks_cost(tasks.skip(1))
    }
}

/// The calls by which the work gets done: those of the registered functions and the definitions of
/// the classes, which are the tasks of a plan; those that give an environment its share in the
/// runtime; and the one with which the setup of its thread-safe function begins.
pub open spec fn is_milestone(call: CallView) -> bool {
    match call {
        CallView::CallExport { .. }
        | CallView::DefineClass { .. }
        | CallView::CallModuleExports { .. }
        | CallView::EnsureRuntime
        | CallView::CountRuntimeUser
        | CallView::AddRuntimeCleanupHook
        | CallView::CreateFunction { .. } => true,
        _ => false,
    }
}

/// The milestones among the calls.
pub open spec fn milestones(calls: Seq<CallView>) -> Seq<CallView> {
    calls.filter(|call: CallView| is_milestone(call))
}

/// The milestone of a task, if it has one.
pub open spec fn task_milestone(task: TaskView, exports: NapiValue) -> Seq<CallView> {
    match task {
        TaskView::OpenModule { .. } => Seq::empty(),
        TaskView::Export { callback, .. } => seq![CallView::CallExport { callback }],
        TaskView::DefineClass { class, .. } => seq![
            CallView::DefineClass {
                name: class.js_name,
                length: c_length(class.js_name),
                constructor: class.constructor,
                properties: class.properties,
            },
        ],
        TaskView::ModuleExports { fill } => seq![CallView::CallModuleExports { fill, exports }],
    }
}

/// The milestones of the tasks, in order.
pub open spec fn tasks_milestones(tasks: Seq<TaskView>, exports: NapiValue) -> Seq<CallView>
    decreases tasks.len(),
{
    if tasks.len() == 0 {
        Seq::empty()
    } else {
        task_milestone(tasks[0], exports) + tasks_milestones(tasks.skip(1), exports)
    }
}

/// The modules that the tasks open.
pub open spec fn tasks_modules(tasks: Seq<TaskView>) -> Set<Seq<char>>
    decreases tasks.len(),
{
    if tasks.len() == 0 {
        Set::empty()
    } else {
        match tasks[0] {
            TaskView::OpenModule { name } => tasks_modules(tasks.skip(1)).insert(name),
            _ => tasks_modules(tasks.skip(1)),
        }
    }
}

/// The names of the classes that the tasks define.
pub open spec fn tasks_classes(tasks: Seq<TaskView>) -> Set<Seq<char>>
    decreases tasks.len(),
{
    if tasks.len() == 0 {
        Set::empty()
    } else {
        match tasks[0] {
            TaskView::DefineClass { class, .. } => tasks_classes(tasks.skip(1)).insert(
                class.js_name,
            ),
            _ => tasks_classes(tasks.skip(1)),
        }
    }
}

impl WalkView {
    /// Whether each of the replies is of the kind that its request calls for.
    pub open spec fn fits(self, replies: Seq<ReplyView>) -> bool
        decreases replies.len(),
    {
        replies.len() == 0 || self.done() || (answers(replies[0], self.call()) && self.next(
            replies[0],
        ).fits(replies.skip(1)))
    }

    /// The walk after the replies.
    pub open spec fn run(self, replies: Seq<ReplyView>) -> WalkView
        decreases replies.len(),
    {
        if replies.len() == 0 || self.done() {
            self
        } else {
            self.next(replies[0]).run(replies.skip(1))
        }
    }

    /// The requests that the replies answer.
    pub open spec fn calls(self, replies: Seq<ReplyView>) -> Seq<CallView>
        decreases replies.len(),
    {
        if replies.len() == 0 || self.done() {
            Seq::empty()
        } else {
            seq![self.call()] + self.next(replies[0]).calls(replies.skip(1))
        }
    }

    /// The modules whose objects are created by the requests that the replies answer, in order.
    pub open spec fn created(self, replies: Seq<ReplyView>) -> Seq<Seq<char>>
        decreases replies.len(),
    {
        if replies.len() == 0 || self.done() {
            Seq::empty()
        } else {
            match self.pending {
                PendingView::CreateModule { name } => seq![name] + self.next(replies[0]).created(
                    replies.skip(1),
                ),
                _ => self.next(replies[0]).created(replies.skip(1)),
            }
        }
    }

    /// How many requests are still to be answered, at most.
    pub open spec fn remaining(self) -> nat {
        tasks_cost(self.tasks) + match self.pending {
            PendingView::Nothing => 0nat,
            PendingView::GetModule { .. } => 1,
            PendingView::CreateModule { .. } => 2,
            PendingView::SetModule { .. } => 1,
            PendingView::CallExport { .. } => 2,
            PendingView::SetExport { .. } => 1,
            PendingView::DefineClass { .. } => 3,
            PendingView::CreateReference { .. } => 2,
            PendingView::SetClass { .. } => 1,
            PendingView::CallModuleExports { .. } => 1,
        }
    }

    /// The milestones that are still ahead, the request that is under way among them.
    pub open spec fn ahead(self) -> Seq<CallView> {
        let under_way = if !self.done() && is_milestone(self.call()) {
            seq![self.call()]
        } else {
            Seq::empty()
        };
        under_way + tasks_milestones(self.tasks, self.exports)
    }

    /// The modules whose objects are still to be created.
    pub open spec fn to_be_created(self) -> Set<Seq<char>> {
        let under_way = match self.pending {
            PendingView::CreateModule { name } => set![name],
            _ => Set::empty(),
        };
        let known = match self.pending {
            PendingView::SetModule { name } => self.objects.insert(name),
            _ => self.objects,
        };
        under_way.union(tasks_modules(self.tasks).difference(known))
    }

    /// The names of the classes to which a reference is still to be created.
    pub open spec fn to_be_referenced(self) -> Set<Seq<char>> {
        let under_way = match self.pending {
            PendingView::DefineClass { class, .. } => set![class.js_name],
            PendingView::CreateReference { js_name, .. } => set![js_name],
            _ => Set::empty(),
        };
        under_way.union(tasks_classes(self.tasks))
    }
}

/// What is asked of the engine. The object of a module is read from the `exports` object that the
/// engine handed in, and set on it, under the name of that module, whatever else has been created
/// or opened. An export or a class is set under its name on the object that was opened last, where
/// it belongs to a module and that object could be had, and else on `exports`. A class is defined
/// with all that its definition holds, and of its name every byte but the closing NUL counts; the
/// reference to it counts once. A filling function gets `exports`.
pub proof fn law_what_is_asked(w: WalkView)
    requires
        w.wf(),
        !w.done(),
    ensures
        match w.pending {
            PendingView::GetModule { name } => w.call() == (CallView::GetNamedProperty {
                object: w.exports,
                name,
            }),
            PendingView::CreateModule { .. } => w.call() == CallView::CreateObject,
            PendingView::SetModule { name } => w.call() == (CallView::SetNamedProperty {
                object: w.exports,
                name,
                value: w.opened,
            }),
            PendingView::CallExport { callback, .. } => w.call() == (CallView::CallExport {
                callback,
            }),
            PendingView::SetExport { in_module, name, value }
            | PendingView::SetClass { in_module, js_name: name, value, .. } => {
                &&& in_module && w.opened != NULL ==> w.call() == (CallView::SetNamedProperty {
                    object: w.opened,
                    name,
                    value,
                })
                &&& !in_module || w.opened == NULL ==> w.call() == (CallView::SetNamedProperty {
                    object: w.exports,
                    name,
                    value,
                })
            },
            PendingView::DefineClass { class, .. } => {
                &&& w.call() matches CallView::DefineClass { name, length, constructor, properties }
                &&& name == class.js_name
                &&& length + 1 == encode_utf8(class.js_name).len()
                &&& constructor == class.constructor
                &&& properties == class.properties
            },
            PendingView::CreateReference { value, .. } => w.call() == (CallView::CreateReference {
                value,
                initial_refcount: 1,
            }),
            PendingView::CallModuleExports { fill } => w.call() == (CallView::CallModuleExports {
                fill,
                exports: w.exports,
            }),
            PendingView::Nothing => true,
        },
{
    if let PendingView::DefineClass { class, .. } = w.pending {
        law_the_length_counts_every_byte(class.js_name);
    }
}

/// What the script is told of a request that ended in `status`, and that it is told nothing of one
/// that succeeded; a registered function that fails tells the script itself.
pub proof fn law_what_the_script_is_told(w: WalkView, reply: ReplyView)
    requires
        w.wf(),
        !w.done(),
        answers(reply, w.call()),
    ensures
        match reply {
            ReplyView::Status { status, .. } => {
                let told = |reason: Seq<char>|
                    if status == NAPI_OK {
                        None
                    } else {
                        Some(ErrorView { status, reason })
                    };
                match w.pending {
                    PendingView::GetModule { name } => w.failure(reply) == told(
                        "Get mod "@ + name + " from exports failed"@,
                    ),
                    PendingView::CreateModule { name } => w.failure(reply) == told(
                        "Create export JavaScript Object ["@ + name + "] failed"@,
                    ),
                    PendingView::SetModule { name } => w.failure(reply) == told(
                        "Set exports Object ["@ + name + "] into exports object failed"@,
                    ),
                    PendingView::SetExport { name, .. } => w.failure(reply) == told(
                        "Failed to register export `"@ + name + "`"@,
                    ),
                    PendingView::DefineClass { class, .. } => w.failure(reply) == told(
                        "Failed to register class `"@ + class.js_name
                            + "` generate by struct `"@ + class.rust_name + "`"@,
                    ),
                    PendingView::SetClass { js_name, rust_name, .. } => w.failure(reply) == told(
                        "Failed to register class `"@ + js_name + "` generate by struct `"@
                            + rust_name + "`"@,
                    ),
                    _ => w.failure(reply) is None,
                }
            },
            ReplyView::Returned { result } => w.failure(reply) == match result {
                Ok(_) => None,
                Err(error) => Some(error),
            },
            ReplyView::Ready => w.failure(reply) is None,
        },
{
}

/// What an answer leads to. The object that the engine gives for a module is the one that is open
/// from then on, until the next module is opened; a module counts as created once its object has
/// been set; an export or a class is set to the value that was given for it, under its own names;
/// a class keeps the reference that was given for it. Nothing else changes, whatever the status.
pub proof fn law_what_an_answer_leads_to(w: WalkView, reply: ReplyView)
    requires
        w.wf(),
        !w.done(),
        answers(reply, w.call()),
    ensures
        w.next(reply).exports == w.exports,
        w.next(reply).opened == (match (w.pending, reply) {
            (PendingView::GetModule { .. }, ReplyView::Status { value, .. }) => value,
            (PendingView::CreateModule { .. }, ReplyView::Status { value, .. }) => value,
            _ => w.opened,
        }),
        w.next(reply).objects == (match w.pending {
            PendingView::SetModule { name } => w.objects.insert(name),
            _ => w.objects,
        }),
        w.next(reply).classes == (match (w.pending, reply) {
            (
                PendingView::CreateReference { js_name, .. },
                ReplyView::Status { value, .. },
            ) => w.classes.insert(js_name, value),
            _ => w.classes,
        }),
        match (w.pending, reply) {
            (PendingView::CreateModule { name }, _) => {
                &&& w.next(reply).pending == (PendingView::SetModule { name })
                &&& w.next(reply).tasks == w.tasks
            },
            (
                PendingView::CallExport { in_module, name, .. },
                ReplyView::Returned { result: Ok(value) },
            ) => {
                &&& w.next(reply).pending == (PendingView::SetExport { in_module, name, value })
                &&& w.next(reply).tasks == w.tasks
            },
            (
                PendingView::DefineClass { in_module, class },
                ReplyView::Status { value, .. },
            ) => {
                &&& w.next(reply).pending == (PendingView::CreateReference {
                    in_module,
                    rust_name: class.rust_name,
                    js_name: class.js_name,
                    value,
                })
                &&& w.next(reply).tasks == w.tasks
            },
            (PendingView::CreateReference { in_module, rust_name, js_name, value }, _) => {
                &&& w.next(reply).pending == (PendingView::SetClass {
                    in_module,
                    rust_name,
                    js_name,
                    value,
                })
                &&& w.next(reply).tasks == w.tasks
            },
            _ => {
                &&& w.tasks.len() == 0 ==> w.next(reply).done() && w.next(reply).tasks == w.tasks
                &&& w.tasks.len() > 0 ==> w.next(reply).tasks == w.tasks.skip(1) && (
                match w.tasks[0] {
                    TaskView::OpenModule { name } => w.next(reply).pending == if w.next(
                        reply,
                    ).objects.contains(name) {
                        PendingView::GetModule { name }
                    } else {
                        PendingView::CreateModule { name }
                    },
                    TaskView::Export { in_module, name, callback } => w.next(reply).pending == (
                    PendingView::CallExport { in_module, name, callback }),
                    TaskView::DefineClass { in_module, class } => w.next(reply).pending == (
                    PendingView::DefineClass { in_module, class }),
                    TaskView::ModuleExports { fill } => w.next(reply).pending == (
                    PendingView::CallModuleExports { fill }),
                })
            },
        },
{
}

/// An answer keeps the walk in order and brings it nearer to its end, whatever it says: no error
/// stops a walk or sends it back.
pub proof fn law_every_answer_brings_the_walk_forward(w: WalkView, reply: ReplyView)
    requires
        w.wf(),
        !w.done(),
        answers(reply, w.call()),
    ensures
        w.next(reply).wf(),
        w.next(reply).remaining() < w.remaining(),
        w.next(reply).exports == w.exports,
{
    if w.tasks.len() > 0 {
        assert(tasks_wf(w.tasks.skip(1)));
    }
}

/// A walk ends after at most as many answers as its tasks take, whatever the answers say.
pub proof fn law_every_walk_ends(w: WalkView, replies: Seq<ReplyView>)
    requires
        w.wf(),
        w.fits(replies),
        replies.len() >= w.remaining(),
    ensures
        w.run(replies).done(),
        w.run(replies).remaining() == 0,
    decreases replies.len(),
{
    if !w.done() {
        assert(w.remaining() > 0);
        law_every_answer_brings_the_walk_forward(w, replies[0]);
        law_every_walk_ends(w.next(replies[0]), replies.skip(1));
    }
}

pub(crate) proof fn lemma_first_of_filter(call: CallView, rest: Seq<CallView>)
    ensures
        milestones(seq![call] + rest) == if is_milestone(call) {
            seq![call] + milestones(rest)
        } else {
            milestones(rest)
        },
{
    reveal_with_fuel(Seq::filter, 2);
    let pred = |c: CallView| is_milestone(c);
    Seq::filter_distributes_over_add(seq![call], rest, pred);
    assert(seq![call].drop_last() =~= Seq::empty());
    assert(seq![call].filter(pred) =~= if is_milestone(call) {
        seq![call]
    } else {
        Seq::empty()
    });
    assert(Seq::<CallView>::empty() + milestones(rest) =~= milestones(rest));
}

/// At every time of a walk, the registered functions that have been called and the classes that
/// have been defined, followed by those that are still ahead, are those of the tasks in their
/// order: none is left out, none comes twice, and no error changes that.
pub proof fn law_each_task_is_done_once_and_in_order(w: WalkView, replies: Seq<ReplyView>)
    requires
        w.wf(),
        w.fits(replies),
    ensures
        milestones(w.calls(replies)) + w.run(replies).ahead() == w.ahead(),
        w.run(replies).done() ==> milestones(w.calls(replies)) == w.ahead(),
    decreases replies.len(),
{
    if replies.len() == 0 || w.done() {
        reveal(Seq::filter);
        assert(milestones(w.calls(replies)) =~= Seq::empty());
        assert(Seq::<CallView>::empty() + w.ahead() =~= w.ahead());
        if w.done() {
            assert(w.ahead() =~= Seq::empty());
        }
    } else {
        let next = w.next(replies[0]);
        let rest = replies.skip(1);
        law_every_answer_brings_the_walk_forward(w, replies[0]);
        law_each_task_is_done_once_and_in_order(next, rest);
        lemma_first_of_filter(w.call(), next.calls(rest));
        let under_way = if is_milestone(w.call()) {
            seq![w.call()]
        } else {
            Seq::empty()
        };
        assert(w.ahead() =~= under_way + next.ahead());
        assert(milestones(w.calls(replies)) =~= under_way + milestones(next.calls(rest)));
        assert(milestones(w.calls(replies)) + w.run(replies).ahead() =~= w.ahead());
        if w.run(replies).done() {
            law_run_keeps_order(w, replies);
            assert(w.run(replies).ahead() =~= Seq::empty());
            assert(milestones(w.calls(replies)) =~= w.ahead());
        }
    }
}

/// Answers keep the walk in order.
pub proof fn law_run_keeps_order(w: WalkView, replies: Seq<ReplyView>)
    requires
        w.wf(),
        w.fits(replies),
    ensures
        w.run(replies).wf(),
        w.run(replies).exports == w.exports,
    decreases replies.len(),
{
    if replies.len() > 0 && !w.done() {
        law_every_answer_brings_the_walk_forward(w, replies[0]);
        law_run_keeps_order(w.next(replies[0]), replies.skip(1));
    }
}

/// The object of a module is created once at most, and only where this registration has not
/// created it before; when the walk is over, each module that was to be opened has been created.
pub proof fn law_each_module_is_created_once(w: WalkView, replies: Seq<ReplyView>)
    requires
        w.wf(),
        w.fits(replies),
    ensures
        w.created(replies).no_duplicates(),
        w.created(replies).to_set().subset_of(w.to_be_created()),
        w.run(replies).done() ==> w.created(replies).to_set() == w.to_be_created(),
        w.to_be_created().disjoint(w.objects),
    decreases replies.len(),
{
    if replies.len() == 0 || w.done() {
        if w.done() {
            assert(w.created(replies).to_set() =~= w.to_be_created());
        }
    } else {
        let next = w.next(replies[0]);
        let rest = replies.skip(1);
        law_every_answer_brings_the_walk_forward(w, replies[0]);
        law_each_module_is_created_once(next, rest);
        let created = w.created(replies);
        match w.pending {
            PendingView::CreateModule { name } => {
                assert(next.to_be_created() =~= w.to_be_created().remove(name));
                assert(created.to_set() =~= next.created(rest).to_set().insert(name)) by {
                    assert forall|m: Seq<char>| next.created(rest).contains(m) implies
                        #[trigger] created.contains(m) by {
                        let i = choose|i: int|
                            0 <= i < next.created(rest).len() && next.created(rest)[i] == m;
                        assert(created[i + 1] == m);
                    }
                    assert(created[0] == name);
                }
                assert(!next.created(rest).contains(name)) by {
                    if next.created(rest).contains(name) {
                        assert(next.created(rest).to_set().contains(name));
                    }
                }
            },
            _ => {
                assert(next.to_be_created() =~= w.to_be_created());
            },
        }
    }
}

/// When the walk is over, there is a reference to each class that was to be defined, and beside
/// those only the references that were there before.
pub proof fn law_each_class_is_referenced(w: WalkView, replies: Seq<ReplyView>)
    requires
        w.wf(),
        w.fits(replies),
        w.run(replies).done(),
    ensures
        w.run(replies).classes.dom() == w.classes.dom().union(w.to_be_referenced()),
    decreases replies.len(),
{
    if replies.len() == 0 || w.done() {
        assert(w.to_be_referenced() =~= Set::empty());
        assert(w.classes.dom() =~= w.classes.dom().union(w.to_be_referenced()));
    } else {
        let next = w.next(replies[0]);
        law_every_answer_brings_the_walk_forward(w, replies[0]);
        law_each_class_is_referenced(next, replies.skip(1));
        assert(w.classes.dom().union(w.to_be_referenced()) =~= next.classes.dom().union(
            next.to_be_referenced(),
        ));
    }
}

/// An export that has been created is set on its object next, under its name.
pub proof fn law_a_created_export_is_set(w: WalkView, value: NapiValue)
    requires
        w.pending is CallExport,
    ensures
        w.next(ReplyView::Returned { result: Ok(value) }).call() == (CallView::SetNamedProperty {
            object: w.target(w.pending->CallExport_in_module),
            name: w.pending->CallExport_name,
            value,
        }),
{
}

/// The value that stands for a class once it is defined gets a reference and is set on its object
/// under the name of the class, even where the engine reports errors; the reference is the one
/// that is kept under that name.
pub proof fn law_a_defined_class_is_referenced_and_set(
    w: WalkView,
    class: NapiValue,
    reference: usize,
    status: i32,
    reference_status: i32,
)
    requires
        w.pending is DefineClass,
    ensures
        ({
            let name = w.pending->DefineClass_class.js_name;
            let defined = w.next(ReplyView::Status { status, value: class });
            let referenced = defined.next(
                ReplyView::Status { status: reference_status, value: reference },
            );
            &&& defined.call() == (CallView::CreateReference { value: class, initial_refcount: 1 })
            &&& referenced.classes == w.classes.insert(name, reference)
            &&& referenced.call() == (CallView::SetNamedProperty {
                object: w.target(w.pending->DefineClass_in_module),
                name,
                value: class,
            })
        }),
{
}

/// Whether the tasks open no module.
pub open spec fn opens_nothing(tasks: Seq<TaskView>) -> bool {
    forall|i: int| 0 <= i < tasks.len() ==> !((#[trigger] tasks[i]) is OpenModule)
}

/// Until the next module is opened, everything that belongs to the module that was opened last is
/// set on the object that the engine gave for it.
pub proof fn law_a_module_stays_open(w: WalkView, replies: Seq<ReplyView>, in_module: bool)
    requires
        w.wf(),
        w.fits(replies),
        opens_nothing(w.tasks),
        !(w.pending is GetModule),
        !(w.pending is CreateModule),
    ensures
        w.run(replies).opened == w.opened,
        w.run(replies).target(in_module) == w.target(in_module),
    decreases replies.len(),
{
    if replies.len() > 0 && !w.done() {
        let next = w.next(replies[0]);
        law_every_answer_brings_the_walk_forward(w, replies[0]);
        if w.tasks.len() > 0 {
            assert(!(w.tasks[0] is OpenModule));
            assert(opens_nothing(w.tasks.skip(1)));
        }
        law_a_module_stays_open(next, replies.skip(1), in_module);
    }
}

/// The object that the engine gives for a module is set on `exports` under the module's name and
/// is from then on the one that the module's exports and classes are set on, if it is there.
pub proof fn law_a_created_module_is_set(w: WalkView, object: NapiValue, status: i32)
    requires
        w.pending is CreateModule,
    ensures
        ({
            let created = w.next(ReplyView::Status { status, value: object });
            &&& created.call() == (CallView::SetNamedProperty {
                object: w.exports,
                name: w.pending->CreateModule_name,
                value: object,
            })
            &&& created.target(true) == if object == NULL {
                w.exports
            } else {
                object
            }
        }),
{
}

} // verus!
