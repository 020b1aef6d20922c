//! The walk over the exports and classes of a module, one request to the engine at a time.
//!
//! A failed request is reported to the script and the walk goes on.
use std::collections::VecDeque;
use vstd::hash_map::StringHashMap;
use vstd::hash_set::StringHashSet;
use vstd::prelude::*;
use vstd::string::StringExecFns;

use crate::calls::{answers, Call, CallView, Reply, ReplyView};
use crate::classes::{ClassDefinition, ClassDefinitionView};
use crate::names::{c_length, name_length};
use crate::sys::{
    error_view, Error, ErrorView, ExportRegisterCallback, ModuleExportsCallback, NapiRef,
    NapiValue, NAPI_OK, NULL,
};

verus! {

/// One thing to be done.
#[derive(Debug, PartialEq, Eq)]
pub enum Task {
    /// Get hold of the object of a module; what follows belongs to that module.
    OpenModule { name: &'static str },
    /// Create an export and set it on its object.
    Export { in_module: bool, name: &'static str, callback: ExportRegisterCallback },
    /// Define a class, keep a reference to it and set it on its object.
    DefineClass { in_module: bool, class: ClassDefinition },
    /// Let a registered function fill in `exports`.
    ModuleExports { fill: ModuleExportsCallback },
}

/// The model of a `Task`.
#[verifier::ext_equal]
pub enum TaskView {
    OpenModule { name: Seq<char> },
    Export { in_module: bool, name: Seq<char>, callback: ExportRegisterCallback },
    DefineClass { in_module: bool, class: ClassDefinitionView },
    ModuleExports { fill: ModuleExportsCallback },
}

impl View for Task {
    type V = TaskView;

    open spec fn view(&self) -> TaskView {
        match *self {
            Task::OpenModule { name } => TaskView::OpenModule { name: name@ },
            Task::Export { in_module, name, callback } => TaskView::Export {
                in_module,
                name: name@,
                callback,
            },
            Task::DefineClass { in_module, class } => TaskView::DefineClass {
                in_module,
                class: class@,
            },
            Task::ModuleExports { fill } => TaskView::ModuleExports { fill },
        }
    }
}

/// The model of a list of tasks.
pub open spec fn tasks_view(tasks: Seq<Task>) -> Seq<TaskView> {
    tasks.map_values(|t: Task| t@)
}

/// The request that is under way, with what is needed to go on from its answer.
enum Pending {
    Nothing,
    GetModule { name: &'static str },
    CreateModule { name: &'static str },
    SetModule { name: &'static str },
    CallExport { in_module: bool, name: &'static str, callback: ExportRegisterCallback },
    SetExport { in_module: bool, name: &'static str, value: NapiValue },
    DefineClass { in_module: bool, class: ClassDefinition },
    CreateReference {
        in_module: bool,
        rust_name: &'static str,
        js_name: &'static str,
        value: NapiValue,
    },
    SetClass {
        in_module: bool,
        rust_name: &'static str,
        js_name: &'static str,
        value: NapiValue,
    },
    CallModuleExports { fill: ModuleExportsCallback },
}

/// The request that is under way.
#[verifier::ext_equal]
pub enum PendingView {
    /// None: the walk is over.
    Nothing,
    /// The object of a module that this registration has created before is read back.
    GetModule { name: Seq<char> },
    /// The object of a module is created.
    CreateModule { name: Seq<char> },
    /// That object is set on `exports`.
    SetModule { name: Seq<char> },
    /// The value of an export is created.
    CallExport { in_module: bool, name: Seq<char>, callback: ExportRegisterCallback },
    /// That value is set on its object.
    SetExport { in_module: bool, name: Seq<char>, value: NapiValue },
    /// A class is defined.
    DefineClass { in_module: bool, class: ClassDefinitionView },
    /// A reference to that class is created.
    CreateReference {
        in_module: bool,
        rust_name: Seq<char>,
        js_name: Seq<char>,
        value: NapiValue,
    },
    /// That class is set on its object.
    SetClass { in_module: bool, rust_name: Seq<char>, js_name: Seq<char>, value: NapiValue },
    /// A registered function fills in `exports`.
    CallModuleExports { fill: ModuleExportsCallback },
}

impl View for Pending {
    type V = PendingView;

    closed spec fn view(&self) -> PendingView {
        match *self {
            Pending::Nothing => PendingView::Nothing,
            Pending::GetModule { name } => PendingView::GetModule { name: name@ },
            Pending::CreateModule { name } => PendingView::CreateModule { name: name@ },
            Pending::SetModule { name } => PendingView::SetModule { name: name@ },
            Pending::CallExport { in_module, name, callback } => PendingView::CallExport {
                in_module,
                name: name@,
                callback,
            },
            Pending::SetExport { in_module, name, value } => PendingView::SetExport {
                in_module,
                name: name@,
                value,
            },
            Pending::DefineClass { in_module, class } => PendingView::DefineClass {
                in_module,
                class: class@,
            },
            Pending::CreateReference { in_module, rust_name, js_name, value } =>
                PendingView::CreateReference {
                in_module,
                rust_name: rust_name@,
                js_name: js_name@,
                value,
            },
            Pending::SetClass { in_module, rust_name, js_name, value } => PendingView::SetClass {
                in_module,
                rust_name: rust_name@,
                js_name: js_name@,
                value,
            },
            Pending::CallModuleExports { fill } => PendingView::CallModuleExports { fill },
        }
    }
}

/// The model of a `Walk`.
#[verifier::ext_equal]
pub struct WalkView {
    /// The object that the engine gave the module to fill.
    pub exports: NapiValue,
    /// The object of the module that was opened last; `NULL` where it could not be had.
    pub opened: NapiValue,
    /// The modules whose objects this registration has created.
    pub objects: Set<Seq<char>>,
    /// For each name of a class that has been defined the reference to that class.
    pub classes: Map<Seq<char>, NapiRef>,
    /// The request that is under way.
    pub pending: PendingView,
    /// What is to be done after that.
    pub tasks: Seq<TaskView>,
}

impl WalkView {
    /// Where an export or a class is set: on the object of its module, and on `exports` where it
    /// belongs to none or the module's object could not be had.
    pub open spec fn target(self, in_module: bool) -> NapiValue {
        if in_module && self.opened != NULL {
            self.opened
        } else {
            self.exports
        }
    }

    /// Whether the walk is over.
    pub open spec fn done(self) -> bool {
        self.pending is Nothing
    }

    /// The request that is under way.
    pub open spec fn call(self) -> CallView
        recommends
            !self.done(),
    {
        match self.pending {
            PendingView::GetModule { name } => CallView::GetNamedProperty {
                object: self.exports,
                name,
            },
            PendingView::CreateModule { name } => CallView::CreateObject,
            PendingView::SetModule { name } => CallView::SetNamedProperty {
                object: self.exports,
                name,
                value: self.opened,
            },
            PendingView::CallExport { callback, .. } => CallView::CallExport { callback },
            PendingView::SetExport { in_module, name, value } => CallView::SetNamedProperty {
                object: self.target(in_module),
                name,
                value,
            },
            PendingView::DefineClass { class, .. } => CallView::DefineClass {
                name: class.js_name,
                length: c_length(class.js_name),
                constructor: class.constructor,
                properties: class.properties,
            },
            PendingView::CreateReference { value, .. } => CallView::CreateReference {
                value,
                initial_refcount: 1,
            },
            PendingView::SetClass { in_module, js_name, value, .. } => CallView::SetNamedProperty {
                object: self.target(in_module),
                name: js_name,
                value,
            },
            PendingView::CallModuleExports { fill } => CallView::CallModuleExports {
                fill,
                exports: self.exports,
            },
            PendingView::Nothing => arbitrary(),
        }
    }

    /// What the script is told when the request that is under way ends in a status other than
    /// `NAPI_OK`; `None` where the status is not looked at.
    pub open spec fn message(self) -> Option<Seq<char>> {
        match self.pending {
            PendingView::GetModule { name } => Some("Get mod "@ + name + " from exports failed"@),
            PendingView::CreateModule { name } => Some(
                "Create export JavaScript Object ["@ + name + "] failed"@,
            ),
            PendingView::SetModule { name } => Some(
                "Set exports Object ["@ + name + "] into exports object failed"@,
            ),
            PendingView::SetExport { name, .. } => Some(
                "Failed to register export `"@ + name + "`"@,
            ),
            PendingView::DefineClass { class, .. } => Some(
                class_message(class.js_name, class.rust_name),
            ),
            PendingView::SetClass { js_name, rust_name, .. } => Some(
                class_message(js_name, rust_name),
            ),
            _ => None,
        }
    }

    /// The error that the reply makes the script see, if any.
    pub open spec fn failure(self, reply: ReplyView) -> Option<ErrorView> {
        match reply {
            ReplyView::Status { status, .. } => match self.message() {
                Some(reason) if status != NAPI_OK => Some(ErrorView { status, reason }),
                _ => None,
            },
            ReplyView::Returned { result } => match result {
                Ok(_) => None,
                Err(error) => Some(error),
            },
            ReplyView::Ready => None,
        }
    }

    /// The first request of a task.
    pub open spec fn first_request(self, task: TaskView) -> PendingView {
        match task {
            TaskView::OpenModule { name } => if self.objects.contains(name) {
                PendingView::GetModule { name }
            } else {
                PendingView::CreateModule { name }
            },
            TaskView::Export { in_module, name, callback } => PendingView::CallExport {
                in_module,
                name,
                callback,
            },
            TaskView::DefineClass { in_module, class } => PendingView::DefineClass {
                in_module,
                class,
            },
            TaskView::ModuleExports { fill } => PendingView::CallModuleExports { fill },
        }
    }

    /// The walk with its next task begun, or over where there is none.
    pub open spec fn next_task(self) -> WalkView {
        if self.tasks.len() == 0 {
            WalkView { pending: PendingView::Nothing, ..self }
        } else {
            WalkView {
                pending: self.first_request(self.tasks[0]),
                tasks: self.tasks.skip(1),
                ..self
            }
        }
    }

    /// The walk after the request that is under way has been answered.
    pub open spec fn next(self, reply: ReplyView) -> WalkView
        recommends
            !self.done(),
            answers(reply, self.call()),
    {
        match (self.pending, reply) {
            (PendingView::GetModule { .. }, ReplyView::Status { value, .. }) => WalkView {
                opened: value,
                ..self
            }.next_task(),
            (PendingView::CreateModule { name }, ReplyView::Status { value, .. }) => WalkView {
                opened: value,
                pending: PendingView::SetModule { name },
                ..self
            },
            (PendingView::SetModule { name }, _) => WalkView {
                objects: self.objects.insert(name),
                ..self
            }.next_task(),
            (
                PendingView::CallExport { in_module, name, .. },
                ReplyView::Returned { result: Ok(value) },
            ) => WalkView { pending: PendingView::SetExport { in_module, name, value }, ..self },
            (
                PendingView::DefineClass { in_module, class },
                ReplyView::Status { value, .. },
            ) => WalkView {
                pending: PendingView::CreateReference {
                    in_module,
                    rust_name: class.rust_name,
                    js_name: class.js_name,
                    value,
                },
                ..self
            },
            (
                PendingView::CreateReference { in_module, rust_name, js_name, value },
                ReplyView::Status { value: reference, .. },
            ) => WalkView {
                classes: self.classes.insert(js_name, reference),
                pending: PendingView::SetClass { in_module, rust_name, js_name, value },
                ..self
            },
            _ => self.next_task(),
        }
    }

    /// The walk, which must be over, sent through `tasks`. The references to classes are from
    /// now on those of these tasks.
    pub open spec fn with_tasks(self, tasks: Seq<TaskView>) -> WalkView
        recommends
            self.done(),
    {
        WalkView { tasks, classes: Map::empty(), ..self }.next_task()
    }

    /// A walk that has nothing to do and has seen nothing yet.
    pub open spec fn new(exports: NapiValue) -> WalkView {
        WalkView {
            exports,
            opened: NULL,
            objects: Set::empty(),
            classes: Map::empty(),
            pending: PendingView::Nothing,
            tasks: Seq::empty(),
        }
    }

    /// A walk that is over has no task left, no class without a name is to be defined, and the
    /// object of a module is created only where it has not been created before.
    pub open spec fn wf(self) -> bool {
        &&& self.done() ==> self.tasks.len() == 0
        &&& self.pending matches PendingView::CreateModule { name } ==> !self.objects.contains(name)
        &&& self.pending matches PendingView::SetModule { name } ==> !self.objects.contains(name)
        &&& self.pending matches PendingView::DefineClass { class, .. } ==> class.js_name.len() > 0
        &&& tasks_wf(self.tasks)
    }
}

/// No class without a name is to be defined.
pub open spec fn tasks_wf(tasks: Seq<TaskView>) -> bool {
    forall|i: int|
        0 <= i < tasks.len() ==> ((#[trigger] tasks[i]) matches TaskView::DefineClass { class, .. }
            ==> class.js_name.len() > 0)
}

/// What the script is told when a class cannot be defined or set.
pub open spec fn class_message(js_name: Seq<char>, rust_name: Seq<char>) -> Seq<char> {
    "Failed to register class `"@ + js_name + "` generate by struct `"@ + rust_name + "`"@
}

/// `before`, then `name`, then `after`.
fn sentence(before: &str, name: &str, after: &str) -> (text: String)
    ensures
        text@ == before@ + name@ + after@,
{
    let mut text = String::from_str(before);
    text.append(name);
    text.append(after);
    text
}

fn class_sentence(js_name: &str, rust_name: &str) -> (text: String)
    ensures
        text@ == class_message(js_name@, rust_name@),
{
    let mut text = String::from_str("Failed to register class `");
    text.append(js_name);
    text.append("` generate by struct `");
    text.append(rust_name);
    text.append("`");
    text
}

/// The error of a status other than `NAPI_OK`.
fn check_status(status: i32, reason: String) -> (error: Option<Error>)
    ensures
        error_view(error) == if status == NAPI_OK {
            None
        } else {
            Some(ErrorView { status, reason: reason@ })
        },
{
    if status == NAPI_OK {
        None
    } else {
        Some(Error { status, reason })
    }
}

/// A walk over tasks, of which one request at a time is under way.
pub struct Walk {
    exports: NapiValue,
    opened: NapiValue,
    objects: StringHashSet,
    classes: StringHashMap<NapiRef>,
    pending: Pending,
    tasks: VecDeque<Task>,
}

impl View for Walk {
    type V = WalkView;

    closed spec fn view(&self) -> WalkView {
        WalkView {
            exports: self.exports,
            opened: self.opened,
            objects: self.objects@,
            classes: self.classes@,
            pending: self.pending@,
            tasks: tasks_view(self.tasks@),
        }
    }
}

impl Walk {
    /// A walk that has nothing to do yet.
    pub fn new(exports: NapiValue) -> (walk: Self)
        ensures
            walk@ == WalkView::new(exports),
            walk@.wf(),
    {
        let walk = Walk {
            exports,
            opened: NULL,
            objects: StringHashSet::new(),
            classes: StringHashMap::new(),
            pending: Pending::Nothing,
            tasks: VecDeque::new(),
        };
        assert(walk@ =~= WalkView::new(exports));
        walk
    }

    /// Whether the walk is over.
    pub fn is_done(&self) -> (done: bool)
        ensures
            done == self@.done(),
    {
        matches!(self.pending, Pending::Nothing)
    }

    fn target(&self, in_module: bool) -> (object: NapiValue)
        ensures
            object == self@.target(in_module),
    {
        if in_module && self.opened != NULL {
            self.opened
        } else {
            self.exports
        }
    }

    /// The request that is under way.
    pub fn call(&self) -> (call: Call)
        requires
            self@.wf(),
            !self@.done(),
        ensures
            call@ == self@.call(),
    {
        match &self.pending {
            Pending::GetModule { name } => Call::GetNamedProperty { object: self.exports, name },
            Pending::CreateModule { .. } => Call::CreateObject,
            Pending::SetModule { name } => Call::SetNamedProperty {
                object: self.exports,
                name,
                value: self.opened,
            },
            Pending::CallExport { callback, .. } => Call::CallExport { callback: *callback },
            Pending::SetExport { in_module, name, value } => Call::SetNamedProperty {
                object: self.target(*in_module),
                name,
                value: *value,
            },
            Pending::DefineClass { class, .. } => {
                let properties = class.properties.clone();
                assert(properties@ =~= class.properties@);
                Call::DefineClass {
                    name: class.js_name,
                    length: name_length(class.js_name),
                    constructor: class.constructor,
                    properties,
                }
            },
            Pending::CreateReference { value, .. } => Call::CreateReference {
                value: *value,
                initial_refcount: 1,
            },
            Pending::SetClass { in_module, js_name, value, .. } => Call::SetNamedProperty {
                object: self.target(*in_module),
                name: js_name,
                value: *value,
            },
            Pending::CallModuleExports { fill } => Call::CallModuleExports {
                fill: *fill,
                exports: self.exports,
            },
            Pending::Nothing => {
                assert(false);
                Call::Return { exports: self.exports }
            },
        }
    }

    /// Sends the walk, which must be over, through `tasks`.
    pub fn start(&mut self, tasks: VecDeque<Task>)
        requires
            old(self)@.done(),
            tasks_wf(tasks_view(tasks@)),
        ensures
            final(self)@ == old(self)@.with_tasks(tasks_view(tasks@)),
            final(self)@.wf(),
    {
        self.tasks = tasks;
        self.classes = StringHashMap::new();
        self.next_task();
    }

    /// Takes the references to the classes out of the walk.
    pub fn take_classes(&mut self) -> (classes: StringHashMap<NapiRef>)
        ensures
            classes@ == old(self)@.classes,
            final(self)@ == (WalkView { classes: Map::empty(), ..old(self)@ }),
    {
        let mut classes: StringHashMap<NapiRef> = StringHashMap::new();
        core::mem::swap(&mut self.classes, &mut classes);
        assert(self@ =~= (WalkView { classes: Map::empty(), ..old(self)@ }));
        classes
    }

    fn next_task(&mut self)
        requires
            tasks_wf(old(self)@.tasks),
        ensures
            final(self)@ == old(self)@.next_task(),
            final(self)@.wf(),
    {
        let ghost tasks = self.tasks@;
        proof {
            assert(tasks_view(tasks).len() == tasks.len());
        }
        match self.tasks.pop_front() {
            None => {
                self.pending = Pending::Nothing;
                assert(self@ =~= old(self)@.next_task());
            },
            Some(task) => {
                assert(tasks_view(tasks)[0] == task@);
                assert(tasks_view(self.tasks@) =~= tasks_view(tasks).skip(1));
                self.pending = match task {
                    Task::OpenModule { name } => if self.objects.contains(name) {
                        Pending::GetModule { name }
                    } else {
                        Pending::CreateModule { name }
                    },
                    Task::Export { in_module, name, callback } => Pending::CallExport {
                        in_module,
                        name,
                        callback,
                    },
                    Task::DefineClass { in_module, class } => Pending::DefineClass {
                        in_module,
                        class,
                    },
                    Task::ModuleExports { fill } => Pending::CallModuleExports { fill },
                };
                assert(self@ =~= old(self)@.next_task());
            },
        }
    }

    /// Takes the answer to the request that is under way and goes on to the next request.
    /// Returns the error to be thrown into the script before that, if there is one.
    pub fn resume(&mut self, reply: Reply) -> (throw: Option<Error>)
        requires
            old(self)@.wf(),
            !old(self)@.done(),
            answers(reply@, old(self)@.call()),
        ensures
            final(self)@ == old(self)@.next(reply@),
            final(self)@.wf(),
            error_view(throw) == old(self)@.failure(reply@),
    {
        match reply {
            Reply::Status { status, value } => self.resume_status(status, value),
            Reply::Returned { result } => self.resume_returned(result),
            Reply::Ready => None,
        }
    }

    fn resume_returned(&mut self, result: Result<NapiValue, Error>) -> (throw: Option<Error>)
        requires
            old(self)@.wf(),
            old(self)@.call() is CallExport || old(self)@.call() is CallModuleExports,
            !old(self)@.done(),
        ensures
            final(self)@ == old(self)@.next((Reply::Returned { result })@),
            final(self)@.wf(),
            error_view(throw) == old(self)@.failure((Reply::Returned { result })@),
    {
        match result {
            Ok(value) => {
                match self.pending {
                    Pending::CallExport { in_module, name, .. } => {
                        self.pending = Pending::SetExport { in_module, name, value };
                    },
                    _ => self.next_task(),
                }
                None
            },
            Err(error) => {
                self.next_task();
                Some(error)
            },
        }
    }

    fn resume_status(&mut self, status: i32, value: usize) -> (throw: Option<Error>)
        requires
            old(self)@.wf(),
            !old(self)@.done(),
            !(old(self)@.call() is CallExport),
            !(old(self)@.call() is CallModuleExports),
        ensures
            final(self)@ == old(self)@.next(ReplyView::Status { status, value }),
            final(self)@.wf(),
            error_view(throw) == old(self)@.failure(ReplyView::Status { status, value }),
    {
        match &self.pending {
            Pending::GetModule { name } => {
                let reason = sentence("Get mod ", name, " from exports failed");
                self.opened = value;
                self.next_task();
                check_status(status, reason)
            },
            Pending::CreateModule { name } => {
                let name: &'static str = name;
                self.opened = value;
                self.pending = Pending::SetModule { name };
                check_status(
                    status,
                    sentence("Create export JavaScript Object [", name, "] failed"),
                )
            },
            Pending::SetModule { name } => {
                let name: &'static str = name;
                self.objects.insert(String::from_str(name));
                self.next_task();
                check_status(
                    status,
                    sentence("Set exports Object [", name, "] into exports object failed"),
                )
            },
            Pending::SetExport { name, .. } => {
                let reason = sentence("Failed to register export `", name, "`");
                self.next_task();
                check_status(status, reason)
            },
            Pending::DefineClass { in_module, class } => {
                let (in_module, rust_name, js_name): (bool, &'static str, &'static str) = (
                    *in_module,
                    class.rust_name,
                    class.js_name,
                );
                self.pending = Pending::CreateReference { in_module, rust_name, js_name, value };
                check_status(status, class_sentence(js_name, rust_name))
            },
            Pending::CreateReference { in_module, rust_name, js_name, value: class } => {
                let (in_module, rust_name, js_name, class): (
                    bool,
                    &'static str,
                    &'static str,
                    NapiValue,
                ) = (*in_module, rust_name, js_name, *class);
                self.classes.insert(String::from_str(js_name), value);
                self.pending = Pending::SetClass { in_module, rust_name, js_name, value: class };
                None
            },
            Pending::SetClass { rust_name, js_name, .. } => {
                let reason = class_sentence(js_name, rust_name);
                self.next_task();
                check_status(status, reason)
            },
            _ => None,
        }
    }
}

} // verus!
