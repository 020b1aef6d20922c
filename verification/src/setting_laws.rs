//! Where a registration sets the exports and the classes, whatever the engine's statuses say.
use vstd::prelude::*;
use vstd::seq_lib::lemma_multiset_commutative;

use crate::calls::{answers, CallView, ReplyView};
use crate::classes::{all_definable, ClassView};
use crate::exports::{groups_of, law_groups_hold_their_own, ExportView, GroupView};
use crate::plan::{
    class_tasks, classes_tasks, export_task, exports_tasks, fillers_tasks, group_tasks,
    groups_tasks, open_module,
};
use crate::plan_laws::{
    law_every_export_is_planned_once, law_modules_of_the_classes_are_opened,
    law_modules_of_the_exports_are_opened, lemma_plans_wf, ungrouped,
};
use crate::registry::RegistryView;
use crate::session::{Features, Phase, StateView};
use crate::session_laws::{
    law_each_module_is_created_once_per_registration,
    law_every_answer_brings_the_registration_forward, law_what_a_registration_does,
    lemma_step_leaves_alone, lemma_step_to_be_created, lemma_with_tasks,
};
use crate::sys::{ModuleExportsCallback, NapiEnv, NapiValue, ThreadKey, NULL};
use crate::walk::{PendingView, TaskView, WalkView};
use crate::walk_laws::{law_every_answer_brings_the_walk_forward, tasks_modules};

verus! {

/// An export or a class: the module that it belongs to, and the name that it is set under.
pub struct MemberView {
    pub js_mod: Option<Seq<char>>,
    pub name: Seq<char>,
}

/// The members of what is registered, in the order in which a registration comes to them: the
/// exports, module by module, then the classes.
pub open spec fn registered_members(registry: RegistryView) -> Seq<MemberView> {
    export_members(ungrouped(groups_of(registry.exports))) + class_members(registry.classes)
}

/// The exports as members.
pub open spec fn export_members(exports: Seq<ExportView>) -> Seq<MemberView> {
    exports.map_values(|e: ExportView| MemberView { js_mod: e.js_mod, name: e.name })
}

/// The classes as members.
pub open spec fn class_members(classes: Seq<ClassView>) -> Seq<MemberView> {
    classes.map_values(|c: ClassView| MemberView { js_mod: c.js_mod, name: c.js_name })
}

/// The object that the members of a module are set on: `exports` for those that belong to no
/// module, else the module's object, with `exports` in its place where it could not be had.
pub open spec fn object_of(
    exports: NapiValue,
    objects: Map<Seq<char>, NapiValue>,
    js_mod: Option<Seq<char>>,
) -> NapiValue {
    match js_mod {
        Some(name) => if objects[name] == NULL {
            exports
        } else {
            objects[name]
        },
        None => exports,
    }
}

/// The call that sets a member.
pub open spec fn set_call(
    exports: NapiValue,
    objects: Map<Seq<char>, NapiValue>,
    member: MemberView,
    value: NapiValue,
) -> CallView {
    CallView::SetNamedProperty {
        object: object_of(exports, objects, member.js_mod),
        name: member.name,
        value,
    }
}

/// The calls that set the members, each to the value that it turned out to have; one that has none
/// is not set.
pub open spec fn set_calls(
    exports: NapiValue,
    objects: Map<Seq<char>, NapiValue>,
    members: Seq<MemberView>,
    outcomes: Seq<Option<NapiValue>>,
) -> Seq<CallView>
    decreases members.len(),
{
    if members.len() == 0 || outcomes.len() == 0 {
        Seq::empty()
    } else {
        let rest = set_calls(exports, objects, members.skip(1), outcomes.skip(1));
        match outcomes[0] {
            Some(value) => seq![set_call(exports, objects, members[0], value)] + rest,
            None => rest,
        }
    }
}

/// The calls that set the objects of the modules on `exports`.
pub open spec fn module_set_calls(
    exports: NapiValue,
    objects: Map<Seq<char>, NapiValue>,
    modules: Seq<Seq<char>>,
) -> Seq<CallView> {
    modules.map_values(
        |name: Seq<char>|
            CallView::SetNamedProperty { object: exports, name, value: objects[name] },
    )
}

/// The calls that set a property.
pub open spec fn property_sets(calls: Seq<CallView>) -> Seq<CallView> {
    calls.filter(|call: CallView| call is SetNamedProperty)
}

/// Whether the reply to `call`, where that looks at a property of `exports` under the name of a
/// module that an object was given for, gives that object. Nothing is taken for granted of a look
/// at any other object or under any other name.
pub open spec fn honest_reply(
    exports: NapiValue,
    objects: Map<Seq<char>, NapiValue>,
    call: CallView,
    reply: ReplyView,
) -> bool {
    match (call, reply) {
        (CallView::GetNamedProperty { object, name }, ReplyView::Status { value, .. }) => object
            == exports && objects.contains_key(name) ==> value == objects[name],
        _ => true,
    }
}

/// The module that a member belongs to, where the module that was opened last is `opened`.
pub open spec fn module_of(in_module: bool, opened: Option<Seq<char>>) -> Option<Seq<char>> {
    if in_module {
        opened
    } else {
        None
    }
}

/// The members that the tasks deal with, where the module that was opened last is `opened`.
pub open spec fn tasks_members(tasks: Seq<TaskView>, opened: Option<Seq<char>>) -> Seq<MemberView>
    decreases tasks.len(),
{
    if tasks.len() == 0 {
        Seq::empty()
    } else {
        let rest = tasks.skip(1);
        match tasks[0] {
            TaskView::OpenModule { name } => tasks_members(rest, Some(name)),
            TaskView::Export { in_module, name, .. } => seq![
                MemberView { js_mod: module_of(in_module, opened), name },
            ] + tasks_members(rest, opened),
            TaskView::DefineClass { in_module, class } => seq![
                MemberView { js_mod: module_of(in_module, opened), name: class.js_name },
            ] + tasks_members(rest, opened),
            TaskView::ModuleExports { .. } => tasks_members(rest, opened),
        }
    }
}

/// The module that is the last to be opened when the tasks are done.
pub open spec fn tasks_opened(
    tasks: Seq<TaskView>,
    opened: Option<Seq<char>>,
) -> Option<Seq<char>>
    decreases tasks.len(),
{
    if tasks.len() == 0 {
        opened
    } else {
        match tasks[0] {
            TaskView::OpenModule { name } => tasks_opened(tasks.skip(1), Some(name)),
            _ => tasks_opened(tasks.skip(1), opened),
        }
    }
}

impl WalkView {
    /// The members of which it is still open what they will be set to.
    pub open spec fn members_ahead(self, opened: Option<Seq<char>>) -> Seq<MemberView> {
        match self.pending {
            PendingView::GetModule { name } => tasks_members(self.tasks, Some(name)),
            PendingView::CreateModule { name } => tasks_members(self.tasks, Some(name)),
            PendingView::CallExport { in_module, name, .. } => seq![
                MemberView { js_mod: module_of(in_module, opened), name },
            ] + tasks_members(self.tasks, opened),
            PendingView::DefineClass { in_module, class } => seq![
                MemberView { js_mod: module_of(in_module, opened), name: class.js_name },
            ] + tasks_members(self.tasks, opened),
            _ => tasks_members(self.tasks, opened),
        }
    }

    /// The call that sets the member whose value is known already, if there is one.
    pub open spec fn set_in_hand(
        self,
        opened: Option<Seq<char>>,
        objects: Map<Seq<char>, NapiValue>,
    ) -> Seq<CallView> {
        match self.pending {
            PendingView::SetExport { in_module, name, value } => seq![
                set_call(
                    self.exports,
                    objects,
                    MemberView { js_mod: module_of(in_module, opened), name },
                    value,
                ),
            ],
            PendingView::CreateReference { in_module, js_name, value, .. } => seq![
                set_call(
                    self.exports,
                    objects,
                    MemberView { js_mod: module_of(in_module, opened), name: js_name },
                    value,
                ),
            ],
            PendingView::SetClass { in_module, js_name, value, .. } => seq![
                set_call(
                    self.exports,
                    objects,
                    MemberView { js_mod: module_of(in_module, opened), name: js_name },
                    value,
                ),
            ],
            _ => Seq::empty(),
        }
    }

    /// The module whose object is there but still to be set, if there is one.
    pub open spec fn module_in_hand(self) -> Seq<Seq<char>> {
        match self.pending {
            PendingView::SetModule { name } => seq![name],
            _ => Seq::empty(),
        }
    }

    /// The module that was opened last, after the request that is under way has been answered.
    pub open spec fn opened_next(self, opened: Option<Seq<char>>) -> Option<Seq<char>> {
        match self.pending {
            PendingView::GetModule { name } => Some(name),
            PendingView::CreateModule { name } => Some(name),
            _ => opened,
        }
    }

    /// The objects that the engine has given for modules, after the reply.
    pub open spec fn objects_next(
        self,
        objects: Map<Seq<char>, NapiValue>,
        reply: ReplyView,
    ) -> Map<Seq<char>, NapiValue> {
        match (self.pending, reply) {
            (PendingView::CreateModule { name }, ReplyView::Status { value, .. }) =>
                objects.insert(name, value),
            _ => objects,
        }
    }

    /// Whether the reply reads back what was given for the modules.
    pub open spec fn honest(self, objects: Map<Seq<char>, NapiValue>, reply: ReplyView) -> bool {
        honest_reply(self.exports, objects, self.call(), reply)
    }

    /// Whether `opened` is the module that was opened last, and `objects` holds the objects of the
    /// modules that have been created.
    pub open spec fn follows(
        self,
        opened: Option<Seq<char>>,
        objects: Map<Seq<char>, NapiValue>,
    ) -> bool {
        &&& match opened {
            Some(name) => objects.contains_key(name) && objects[name] == self.opened,
            None => self.opened == NULL,
        }
        &&& self.pending matches PendingView::SetModule { name } ==> opened == Some(name)
        &&& self.pending matches PendingView::GetModule { name } ==> objects.contains_key(name)
        &&& objects.dom() == match self.pending {
            PendingView::SetModule { name } => self.objects.insert(name),
            _ => self.objects,
        }
    }
}

/// What the reply says of the value of an export or a class, where it says anything.
pub open spec fn outcome(call: CallView, reply: ReplyView) -> Seq<Option<NapiValue>> {
    match (call, reply) {
        (CallView::CallExport { .. }, ReplyView::Returned { result }) => match result {
            Ok(value) => seq![Some(value)],
            Err(_) => seq![None],
        },
        (CallView::DefineClass { .. }, ReplyView::Status { value, .. }) => seq![Some(value)],
        _ => Seq::empty(),
    }
}

impl WalkView {
    /// The request that is under way, where it sets an export or a class.
    pub open spec fn member_set(self) -> Seq<CallView> {
        match self.pending {
            PendingView::SetExport { .. } => seq![self.call()],
            PendingView::SetClass { .. } => seq![self.call()],
            _ => Seq::empty(),
        }
    }
}

impl StateView {
    /// What the registered functions and the definitions of classes gave, in the order in which
    /// they were asked: the value of an export, or `None` where its function failed; the value of
    /// a class.
    pub open spec fn outcomes(self, replies: Seq<ReplyView>) -> Seq<Option<NapiValue>>
        decreases replies.len(),
    {
        if replies.len() == 0 || self.finished() {
            Seq::empty()
        } else {
            outcome(self.session.call(), replies[0]) + self.next(replies[0]).outcomes(
                replies.skip(1),
            )
        }
    }

    /// The objects that the engine gave for modules, on top of `objects`.
    pub open spec fn objects_given(
        self,
        objects: Map<Seq<char>, NapiValue>,
        replies: Seq<ReplyView>,
    ) -> Map<Seq<char>, NapiValue>
        decreases replies.len(),
    {
        if replies.len() == 0 || self.finished() {
            objects
        } else {
            self.next(replies[0]).objects_given(
                self.session.walk.objects_next(objects, replies[0]),
                replies.skip(1),
            )
        }
    }

    /// Whether the engine, when it is asked for the property of `exports` that holds the object of
    /// a module, gives the object that it created for that module.
    pub open spec fn reads_back(
        self,
        objects: Map<Seq<char>, NapiValue>,
        replies: Seq<ReplyView>,
    ) -> bool
        decreases replies.len(),
    {
        replies.len() == 0 || self.finished() || (honest_reply(
            self.session.exports,
            objects,
            self.session.call(),
            replies[0],
        ) && self.next(replies[0]).reads_back(
            self.session.walk.objects_next(objects, replies[0]),
            replies.skip(1),
        ))
    }

    /// The calls that set an export or a class, in order.
    pub open spec fn members_set(self, replies: Seq<ReplyView>) -> Seq<CallView>
        decreases replies.len(),
    {
        if replies.len() == 0 || self.finished() {
            Seq::empty()
        } else {
            self.session.walk.member_set() + self.next(replies[0]).members_set(replies.skip(1))
        }
    }

    /// The calls that set the object of a module, in order.
    pub open spec fn modules_set(self, replies: Seq<ReplyView>) -> Seq<CallView>
        decreases replies.len(),
    {
        if replies.len() == 0 || self.finished() {
            Seq::empty()
        } else {
            let rest = self.next(replies[0]).modules_set(replies.skip(1));
            match self.session.walk.pending {
                PendingView::SetModule { .. } => seq![self.session.call()] + rest,
                _ => rest,
            }
        }
    }

    /// The members of which it is still open what they will be set to.
    pub open spec fn members_ahead(self, opened: Option<Seq<char>>) -> Seq<MemberView> {
        let exports = export_members(ungrouped(groups_of(self.registry.exports)));
        let classes = class_members(self.registry.classes);
        match self.session.phase {
            Phase::AwaitingFirst => exports + classes,
            Phase::Exports => self.session.walk.members_ahead(opened) + classes,
            Phase::CheckingClasses => classes,
            Phase::Classes => self.session.walk.members_ahead(opened),
            Phase::ModuleExports => self.session.walk.members_ahead(opened),
            _ => Seq::empty(),
        }
    }
}

proof fn lemma_members_add(a: Seq<TaskView>, b: Seq<TaskView>, opened: Option<Seq<char>>)
    ensures
        tasks_members(a + b, opened) == tasks_members(a, opened) + tasks_members(
            b,
            tasks_opened(a, opened),
        ),
    decreases a.len(),
{
    if a.len() == 0 {
        assert(a + b =~= b);
        assert(tasks_members(a + b, opened) =~= tasks_members(a, opened) + tasks_members(
            b,
            tasks_opened(a, opened),
        ));
    } else {
        let next = match a[0] {
            TaskView::OpenModule { name } => Some(name),
            _ => opened,
        };
        lemma_members_add(a.skip(1), b, next);
        assert((a + b).skip(1) =~= a.skip(1) + b);
        assert(tasks_members(a + b, opened) =~= tasks_members(a, opened) + tasks_members(
            b,
            tasks_opened(a, opened),
        ));
    }
}

proof fn lemma_opening(js_mod: Option<Seq<char>>, opened: Option<Seq<char>>)
    ensures
        tasks_members(open_module(js_mod), opened) == Seq::<MemberView>::empty(),
        tasks_opened(open_module(js_mod), opened) == match js_mod {
            Some(name) => Some(name),
            None => opened,
        },
{
    reveal_with_fuel(tasks_members, 2);
    reveal_with_fuel(tasks_opened, 2);
    if js_mod is Some {
        assert(open_module(js_mod).skip(1) =~= Seq::empty());
    }
}

proof fn lemma_items_members(
    items: Seq<ExportView>,
    js_mod: Option<Seq<char>>,
    opened: Option<Seq<char>>,
)
    requires
        forall|i: int| 0 <= i < items.len() ==> (#[trigger] items[i]).js_mod == js_mod,
        js_mod is Some ==> opened == js_mod,
    ensures
        tasks_members(items.map_values(|e: ExportView| export_task(e)), opened)
            == export_members(items),
    decreases items.len(),
{
    let tasks = items.map_values(|e: ExportView| export_task(e));
    if items.len() > 0 {
        let rest = items.skip(1);
        assert(tasks.skip(1) =~= rest.map_values(|e: ExportView| export_task(e)));
        assert forall|i: int| 0 <= i < rest.len() implies (#[trigger] rest[i]).js_mod
            == js_mod by {
            assert(rest[i] == items[i + 1]);
        }
        lemma_items_members(rest, js_mod, opened);
        assert(items[0].js_mod == js_mod);
    }
    assert(tasks_members(tasks, opened) =~= export_members(items));
}

proof fn lemma_groups_members(groups: Seq<GroupView>, opened: Option<Seq<char>>)
    requires
        forall|k: int, i: int|
            0 <= k < groups.len() && 0 <= i < groups[k].items.len() ==> (
            #[trigger] groups[k].items[i]).js_mod == groups[k].js_mod,
    ensures
        tasks_members(groups_tasks(groups), opened) == export_members(ungrouped(groups)),
    decreases groups.len(),
{
    if groups.len() > 0 {
        let before = groups.drop_last();
        let last = groups.last();
        let items = last.items.map_values(|e: ExportView| export_task(e));
        assert forall|k: int, i: int|
            0 <= k < before.len() && 0 <= i < before[k].items.len() implies (
        #[trigger] before[k].items[i]).js_mod == before[k].js_mod by {
            assert(groups[k].items[i].js_mod == groups[k].js_mod);
        }
        lemma_groups_members(before, opened);
        lemma_members_add(groups_tasks(before), group_tasks(last), opened);
        let reached = tasks_opened(groups_tasks(before), opened);
        lemma_members_add(open_module(last.js_mod), items, reached);
        lemma_opening(last.js_mod, reached);
        assert forall|i: int| 0 <= i < last.items.len() implies (#[trigger] last.items[i]).js_mod
            == last.js_mod by {
            assert(groups[groups.len() - 1].items[i].js_mod == last.js_mod);
        }
        lemma_items_members(
            last.items,
            last.js_mod,
            tasks_opened(open_module(last.js_mod), reached),
        );
    }
    assert(tasks_members(groups_tasks(groups), opened) =~= export_members(ungrouped(groups)));
}

proof fn lemma_exports_members(exports: Seq<ExportView>, opened: Option<Seq<char>>)
    ensures
        tasks_members(exports_tasks(exports), opened) == export_members(
            ungrouped(groups_of(exports)),
        ),
{
    let groups = groups_of(exports);
    assert forall|k: int, i: int|
        0 <= k < groups.len() && 0 <= i < groups[k].items.len() implies (
    #[trigger] groups[k].items[i]).js_mod == groups[k].js_mod by {
        law_groups_hold_their_own(exports, k);
    }
    lemma_groups_members(groups, opened);
}

proof fn lemma_classes_members(classes: Seq<ClassView>, opened: Option<Seq<char>>)
    ensures
        tasks_members(classes_tasks(classes), opened) == class_members(classes),
    decreases classes.len(),
{
    if classes.len() > 0 {
        let before = classes.drop_last();
        let last = classes.last();
        let reached = tasks_opened(classes_tasks(before), opened);
        let opening = open_module(last.js_mod);
        let definition = class_tasks(last).skip(opening.len() as int);
        lemma_classes_members(before, opened);
        lemma_members_add(classes_tasks(before), class_tasks(last), opened);
        assert(class_tasks(last) =~= opening + definition);
        lemma_members_add(opening, definition, reached);
        lemma_opening(last.js_mod, reached);
        assert(definition.len() == 1);
        assert(definition.skip(1) =~= Seq::empty());
        assert(tasks_members(definition, tasks_opened(opening, reached)) =~= seq![
            MemberView { js_mod: last.js_mod, name: last.js_name },
        ]) by {
            reveal_with_fuel(tasks_members, 2);
        }
    }
    assert(tasks_members(classes_tasks(classes), opened) =~= class_members(classes));
}

proof fn lemma_fillers_members(
    fillers: Seq<ModuleExportsCallback>,
    opened: Option<Seq<char>>,
)
    ensures
        tasks_members(fillers_tasks(fillers), opened) == Seq::<MemberView>::empty(),
    decreases fillers.len(),
{
    if fillers.len() > 0 {
        assert(fillers_tasks(fillers).skip(1) =~= fillers_tasks(fillers.skip(1)));
        lemma_fillers_members(fillers.skip(1), opened);
    }
}

proof fn lemma_started(w: WalkView, tasks: Seq<TaskView>, opened: Option<Seq<char>>)
    requires
        w.done(),
    ensures
        w.with_tasks(tasks).members_ahead(opened) == tasks_members(tasks, opened),
        w.with_tasks(tasks).opened == w.opened,
        w.with_tasks(tasks).objects == w.objects,
        w.with_tasks(tasks).module_in_hand() == Seq::<Seq<char>>::empty(),
        forall|objects: Map<Seq<char>, NapiValue>|
            #[trigger] w.with_tasks(tasks).set_in_hand(opened, objects) == Seq::<
                CallView,
            >::empty(),
{
    assert(w.with_tasks(tasks).members_ahead(opened) =~= tasks_members(tasks, opened));
}

/// What one answer does to the members that are ahead and the one that is in hand.
spec fn moves_on(
    exports: NapiValue,
    objects: Map<Seq<char>, NapiValue>,
    outcome: Seq<Option<NapiValue>>,
    set: Seq<CallView>,
    ahead: Seq<MemberView>,
    in_hand: Seq<CallView>,
    ahead_next: Seq<MemberView>,
    in_hand_next: Seq<CallView>,
) -> bool {
    if outcome.len() == 0 {
        &&& ahead == ahead_next
        &&& in_hand == set + in_hand_next
    } else {
        &&& outcome.len() == 1
        &&& ahead.len() > 0
        &&& ahead.skip(1) == ahead_next
        &&& set == Seq::<CallView>::empty()
        &&& in_hand == Seq::<CallView>::empty()
        &&& in_hand_next == match outcome[0] {
            Some(value) => seq![set_call(exports, objects, ahead[0], value)],
            None => Seq::empty(),
        }
    }
}

proof fn lemma_walk_moves_on(
    w: WalkView,
    opened: Option<Seq<char>>,
    objects: Map<Seq<char>, NapiValue>,
    reply: ReplyView,
    given: Map<Seq<char>, NapiValue>,
)
    requires
        w.wf(),
        !w.done(),
        answers(reply, w.call()),
        w.follows(opened, objects),
        w.honest(objects, reply),
    ensures
        w.next(reply).follows(w.opened_next(opened), w.objects_next(objects, reply)),
        objects.submap_of(w.objects_next(objects, reply)),
        objects.submap_of(given) ==> moves_on(
            w.exports,
            given,
            outcome(w.call(), reply),
            w.member_set(),
            w.members_ahead(opened),
            w.set_in_hand(opened, given),
            w.next(reply).members_ahead(w.opened_next(opened)),
            w.next(reply).set_in_hand(w.opened_next(opened), given),
        ),
        objects.submap_of(given) && w.pending is SetModule ==> w.call()
            == (CallView::SetNamedProperty {
            object: w.exports,
            name: w.pending->SetModule_name,
            value: given[w.pending->SetModule_name],
        }),
{
    let next = w.next(reply);
    let opened_next = w.opened_next(opened);
    let objects_next = w.objects_next(objects, reply);
    law_every_answer_brings_the_walk_forward(w, reply);
    assert(next.follows(opened_next, objects_next)) by {
        match next.pending {
            PendingView::SetModule { name } => {
                assert(objects_next.dom() =~= next.objects.insert(name));
            },
            _ => {
                assert(objects_next.dom() =~= next.objects);
            },
        }
    }
    if objects.submap_of(given) {
        if let Some(name) = opened {
            assert(given.dom().contains(name));
            assert(given[name] == w.opened);
        }
        assert(forall|in_module: bool|
            #![trigger module_of(in_module, opened)]
            object_of(w.exports, given, module_of(in_module, opened)) == w.target(in_module));
        let ahead = w.members_ahead(opened);
        let ahead_next = next.members_ahead(opened_next);
        let out = outcome(w.call(), reply);
        let in_hand = w.set_in_hand(opened, given);
        let in_hand_next = next.set_in_hand(opened_next, given);
        if out.len() == 0 {
            assert(ahead =~= ahead_next);
            assert(in_hand =~= w.member_set() + in_hand_next);
        } else {
            assert(ahead.skip(1) =~= ahead_next);
            assert(in_hand_next =~= match out[0] {
                Some(value) => seq![set_call(w.exports, given, ahead[0], value)],
                None => Seq::empty(),
            });
        }
    }
}

proof fn lemma_state_moves_on(
    s: StateView,
    opened: Option<Seq<char>>,
    objects: Map<Seq<char>, NapiValue>,
    reply: ReplyView,
    given: Map<Seq<char>, NapiValue>,
)
    requires
        s.ready(),
        !s.finished(),
        answers(reply, s.session.call()),
        s.session.walk.follows(opened, objects),
        honest_reply(s.session.exports, objects, s.session.call(), reply),
        objects.submap_of(given),
    ensures
        s.next(reply).session.walk.follows(
            s.session.walk.opened_next(opened),
            s.session.walk.objects_next(objects, reply),
        ),
        objects.submap_of(s.session.walk.objects_next(objects, reply)),
        s.next(reply).session.exports == s.session.exports,
        moves_on(
            s.session.exports,
            given,
            outcome(s.session.call(), reply),
            s.session.walk.member_set(),
            s.members_ahead(opened),
            s.session.walk.set_in_hand(opened, given),
            s.next(reply).members_ahead(s.session.walk.opened_next(opened)),
            s.next(reply).session.walk.set_in_hand(
                s.session.walk.opened_next(opened),
                given,
            ),
        ),
        s.session.walk.pending is SetModule ==> s.session.call() == (CallView::SetNamedProperty {
            object: s.session.exports,
            name: s.session.walk.pending->SetModule_name,
            value: given[s.session.walk.pending->SetModule_name],
        }),
{
    let walk = s.session.walk;
    let next = s.next(reply);
    let opened_next = walk.opened_next(opened);
    let classes = class_members(s.registry.classes);
    let none = Seq::<MemberView>::empty();
    lemma_plans_wf(s.registry);
    lemma_step_leaves_alone(s, reply);
    lemma_exports_members(s.registry.exports, opened_next);
    lemma_classes_members(s.registry.classes, opened_next);
    lemma_fillers_members(s.registry.fillers, opened_next);
    assert(none + classes =~= classes);
    match s.session.phase {
        Phase::AwaitingFirst => {
            lemma_started(walk, exports_tasks(s.registry.exports), opened);
            assert(walk.set_in_hand(opened, given) =~= Seq::empty() + next.session.walk.set_in_hand(
                opened,
                given,
            ));
        },
        Phase::Exports => {
            lemma_walk_moves_on(walk, opened, objects, reply, given);
            law_every_answer_brings_the_walk_forward(walk, reply);
            let ahead = walk.members_ahead(opened);
            let ahead_next = walk.next(reply).members_ahead(opened_next);
            if outcome(walk.call(), reply).len() > 0 {
                assert((ahead + classes).skip(1) =~= ahead_next + classes);
            }
        },
        Phase::CheckingClasses => {
            let walked = walk.with_tasks(classes_tasks(s.registry.classes));
            lemma_started(walk, classes_tasks(s.registry.classes), opened);
            if walked.done() {
                lemma_started(walked, fillers_tasks(s.registry.fillers), opened);
            }
            assert(walk.set_in_hand(opened, given) =~= Seq::empty() + next.session.walk.set_in_hand(
                opened,
                given,
            ));
        },
        Phase::Classes => {
            lemma_walk_moves_on(walk, opened, objects, reply, given);
            law_every_answer_brings_the_walk_forward(walk, reply);
            if walk.next(reply).done() {
                lemma_started(walk.next(reply), fillers_tasks(s.registry.fillers), opened_next);
            }
        },
        Phase::ModuleExports => {
            lemma_walk_moves_on(walk, opened, objects, reply, given);
            law_every_answer_brings_the_walk_forward(walk, reply);
        },
        _ => {
            assert(walk.set_in_hand(opened, given) =~= Seq::empty() + next.session.walk.set_in_hand(
                opened,
                given,
            ));
        },
    }
}

proof fn lemma_first_of_set_calls(
    exports: NapiValue,
    objects: Map<Seq<char>, NapiValue>,
    members: Seq<MemberView>,
    first: Option<NapiValue>,
    rest: Seq<Option<NapiValue>>,
)
    requires
        members.len() > 0,
    ensures
        set_calls(exports, objects, members, seq![first] + rest) == (match first {
            Some(value) => seq![set_call(exports, objects, members[0], value)],
            None => Seq::empty(),
        }) + set_calls(exports, objects, members.skip(1), rest),
{
    assert((seq![first] + rest).skip(1) =~= rest);
    let others = set_calls(exports, objects, members.skip(1), rest);
    assert(Seq::<CallView>::empty() + others =~= others);
}

proof fn lemma_objects_grow(
    s: StateView,
    opened: Option<Seq<char>>,
    objects: Map<Seq<char>, NapiValue>,
    replies: Seq<ReplyView>,
)
    requires
        s.ready(),
        s.fits(replies),
        s.reads_back(objects, replies),
        s.session.walk.follows(opened, objects),
    ensures
        objects.submap_of(s.objects_given(objects, replies)),
        s.objects_given(objects, replies).dom() == objects.dom().union(
            s.created(replies).to_set(),
        ),
    decreases replies.len(),
{
    if replies.len() == 0 || s.finished() {
        assert(s.objects_given(objects, replies) == objects);
        assert(objects.dom().union(s.created(replies).to_set()) =~= objects.dom());
    } else {
        let reply = replies[0];
        let next = s.next(reply);
        let rest = replies.skip(1);
        let walk = s.session.walk;
        let objects_next = walk.objects_next(objects, reply);
        lemma_state_moves_on(s, opened, objects, reply, objects);
        if !s.blocked() {
            law_every_answer_brings_the_registration_forward(s, reply);
        }
        lemma_objects_grow(next, walk.opened_next(opened), objects_next, rest);
        let given = s.objects_given(objects, replies);
        assert(given == next.objects_given(objects_next, rest));
        assert forall|k: Seq<char>| #[trigger] objects.dom().contains(k) implies
            #[trigger] given.dom().contains(k) && objects[k] == given[k] by {
            assert(objects_next.dom().contains(k) && objects[k] == objects_next[k]);
            assert(next.objects_given(objects_next, rest).dom().contains(k));
        }
        assert(objects.submap_of(given));
        let created = s.created(replies);
        let later = next.created(rest);
        match walk.pending {
            PendingView::CreateModule { name } => {
                assert(created.to_set() =~= later.to_set().insert(name)) by {
                    assert forall|m: Seq<char>| later.contains(m) implies
                        #[trigger] created.contains(m) by {
                        let i = choose|i: int| 0 <= i < later.len() && later[i] == m;
                        assert(created[i + 1] == m);
                    }
                    assert(created[0] == name);
                }
                assert(given.dom() =~= objects.dom().union(created.to_set()));
            },
            _ => {},
        }
    }
}

proof fn lemma_settings(
    s: StateView,
    opened: Option<Seq<char>>,
    objects: Map<Seq<char>, NapiValue>,
    replies: Seq<ReplyView>,
)
    requires
        s.ready(),
        s.fits(replies),
        s.run(replies).finished(),
        s.reads_back(objects, replies),
        s.session.walk.follows(opened, objects),
    ensures
        ({
            let given = s.objects_given(objects, replies);
            let exports = s.session.exports;
            &&& s.outcomes(replies).len() == s.members_ahead(opened).len()
            &&& s.members_set(replies) == s.session.walk.set_in_hand(opened, given) + set_calls(
                exports,
                given,
                s.members_ahead(opened),
                s.outcomes(replies),
            )
            &&& s.modules_set(replies) == module_set_calls(
                exports,
                given,
                s.session.walk.module_in_hand() + s.created(replies),
            )
        }),
    decreases replies.len(),
{
    let given = s.objects_given(objects, replies);
    let exports = s.session.exports;
    let walk = s.session.walk;
    lemma_objects_grow(s, opened, objects, replies);
    if s.finished() {
        assert(s.members_set(replies) =~= walk.set_in_hand(opened, given) + set_calls(
            exports,
            given,
            s.members_ahead(opened),
            s.outcomes(replies),
        ));
        assert(s.modules_set(replies) =~= module_set_calls(
            exports,
            given,
            walk.module_in_hand() + s.created(replies),
        ));
    } else {
        let reply = replies[0];
        let next = s.next(reply);
        let rest = replies.skip(1);
        let opened_next = walk.opened_next(opened);
        let objects_next = walk.objects_next(objects, reply);
        lemma_state_moves_on(s, opened, objects, reply, given);
        if !s.blocked() {
            law_every_answer_brings_the_registration_forward(s, reply);
        }
        lemma_settings(next, opened_next, objects_next, rest);
        let out = outcome(s.session.call(), reply);
        let later = next.outcomes(rest);
        if out.len() > 0 {
            assert(out =~= seq![out[0]]);
            lemma_first_of_set_calls(exports, given, s.members_ahead(opened), out[0], later);
        } else {
            assert(out + later =~= later);
        }
        assert(s.members_set(replies) =~= walk.set_in_hand(opened, given) + set_calls(
            exports,
            given,
            s.members_ahead(opened),
            s.outcomes(replies),
        ));
        assert(s.modules_set(replies) =~= module_set_calls(
            exports,
            given,
            walk.module_in_hand() + s.created(replies),
        ));
    }
}

proof fn lemma_property_sets(s: StateView, replies: Seq<ReplyView>)
    requires
        s.ready(),
        s.fits(replies),
    ensures
        property_sets(s.calls(replies)).to_multiset() == s.modules_set(replies).to_multiset().add(
            s.members_set(replies).to_multiset(),
        ),
    decreases replies.len(),
{
    broadcast use vstd::seq_lib::group_to_multiset_ensures;

    let pred = |call: CallView| call is SetNamedProperty;
    if replies.len() == 0 || s.finished() {
        reveal(Seq::filter);
        assert(property_sets(s.calls(replies)) =~= Seq::empty());
        assert(property_sets(s.calls(replies)).to_multiset() =~= s.modules_set(
            replies,
        ).to_multiset().add(s.members_set(replies).to_multiset()));
    } else {
        let call = s.session.call();
        let next = s.next(replies[0]);
        let rest = replies.skip(1);
        if !s.blocked() {
            law_every_answer_brings_the_registration_forward(s, replies[0]);
        }
        lemma_property_sets(next, rest);
        let later = property_sets(next.calls(rest));
        let own = seq![call].filter(pred);
        assert(property_sets(s.calls(replies)) == own + later) by {
            Seq::filter_distributes_over_add(seq![call], next.calls(rest), pred);
        }
        assert(own =~= if call is SetNamedProperty {
            seq![call]
        } else {
            Seq::empty()
        }) by {
            reveal_with_fuel(Seq::filter, 2);
            assert(seq![call].drop_last() =~= Seq::empty());
        }
        lemma_multiset_commutative(own, later);
        lemma_multiset_commutative(seq![call], next.members_set(rest));
        lemma_multiset_commutative(seq![call], next.modules_set(rest));
        assert(property_sets(s.calls(replies)).to_multiset() =~= s.modules_set(
            replies,
        ).to_multiset().add(s.members_set(replies).to_multiset()));
    }
}

/// What a registration has set when it is over, as long as the engine, asked for the object of a
/// module that it created before, gives that object. Each export whose function gave a value and
/// each class is set once, under its name and to its value, in the order of the exports and
/// classes: on `exports` where it belongs to no module, else on the one object of its module, with
/// `exports` in its place where the engine gave none. The object of each module is set once on
/// `exports`, under the module's name. No other property is set, and no status changes that.
pub proof fn law_where_a_registration_sets_things(
    registry: RegistryView,
    env: NapiEnv,
    exports: NapiValue,
    thread: ThreadKey,
    features: Features,
    replies: Seq<ReplyView>,
)
    requires
        all_definable(registry.classes),
        StateView::begin(registry, env, exports, thread, features).fits(replies),
        StateView::begin(registry, env, exports, thread, features).run(replies).finished(),
        StateView::begin(registry, env, exports, thread, features).reads_back(
            Map::empty(),
            replies,
        ),
    ensures
        ({
            let s = StateView::begin(registry, env, exports, thread, features);
            let objects = s.objects_given(Map::empty(), replies);
            let modules = s.created(replies);
            let members = registered_members(registry);
            let outcomes = s.outcomes(replies);
            &&& outcomes.len() == members.len()
            &&& s.members_set(replies) == set_calls(exports, objects, members, outcomes)
            &&& modules.no_duplicates()
            &&& objects.dom() == modules.to_set()
            &&& s.modules_set(replies) == module_set_calls(exports, objects, modules)
            &&& property_sets(s.calls(replies)).to_multiset() == (module_set_calls(
                exports,
                objects,
                modules,
            ) + set_calls(exports, objects, members, outcomes)).to_multiset()
            &&& forall|i: int|
                0 <= i < members.len() ==> ((#[trigger] members[i]).js_mod matches Some(name)
                    ==> objects.contains_key(name))
        }),
{
    let s = StateView::begin(registry, env, exports, thread, features);
    let empty = Map::<Seq<char>, NapiValue>::empty();
    let objects = s.objects_given(empty, replies);
    let modules = s.created(replies);
    let members = registered_members(registry);
    let outcomes = s.outcomes(replies);
    let tasks = exports_tasks(registry.exports);
    lemma_plans_wf(registry);
    lemma_with_tasks(WalkView::new(exports), tasks);
    lemma_started(WalkView::new(exports), tasks, None);
    lemma_exports_members(registry.exports, None);
    assert(empty.dom() =~= Set::<Seq<char>>::empty());
    assert(s.session.walk.follows(None, empty));
    lemma_settings(s, None, empty, replies);
    lemma_objects_grow(s, None, empty, replies);
    lemma_property_sets(s, replies);
    law_each_module_is_created_once_per_registration(s, replies);
    law_what_a_registration_does(registry, env, exports, thread, features, replies);
    assert(s.members_ahead(None) =~= members);
    let sets = set_calls(exports, objects, members, outcomes);
    assert(Seq::<CallView>::empty() + sets =~= sets);
    assert(Seq::<Seq<char>>::empty() + modules =~= modules);
    assert(objects.dom() =~= modules.to_set());
    lemma_multiset_commutative(module_set_calls(exports, objects, modules), sets);
    assert forall|i: int| 0 <= i < members.len() implies ((#[trigger] members[i]).js_mod matches Some(
        name,
    ) ==> objects.contains_key(name)) by {
        if let Some(name) = members[i].js_mod {
            let grouped = ungrouped(groups_of(registry.exports));
            if i < grouped.len() {
                lemma_same_elements(grouped, registry.exports, i);
                let k = choose|k: int| 0 <= k < registry.exports.len() && registry.exports[k]
                    == grouped[i];
                assert(registry.exports[k].js_mod == Some(name));
            } else {
                assert(registry.classes[i - grouped.len()].js_mod == Some(name));
            }
            assert(modules.contains(name));
            assert(modules.to_set().contains(name));
        }
    }
}

/// What was set last on `object` under `name` by the calls, if anything was.
pub open spec fn last_set(
    calls: Seq<CallView>,
    object: NapiValue,
    name: Seq<char>,
) -> Option<NapiValue>
    decreases calls.len(),
{
    if calls.len() == 0 {
        None
    } else {
        match calls.last() {
            CallView::SetNamedProperty { object: o, name: n, value } => if o == object && n
                == name {
                Some(value)
            } else {
                last_set(calls.drop_last(), object, name)
            },
            _ => last_set(calls.drop_last(), object, name),
        }
    }
}

/// Whether the reply is that of an engine that keeps what it was told by the calls before: a
/// property that was set on an object is found on that object under that name as it was set last,
/// and an object that is created is there and is not the object of the module itself.
pub open spec fn faithful_reply(
    exports: NapiValue,
    before: Seq<CallView>,
    call: CallView,
    reply: ReplyView,
) -> bool {
    match (call, reply) {
        (CallView::GetNamedProperty { object, name }, ReplyView::Status { value, .. }) => last_set(
            before,
            object,
            name,
        ) matches Some(known) ==> value == known,
        (CallView::CreateObject, ReplyView::Status { value, .. }) => value != NULL && value
            != exports,
        _ => true,
    }
}

impl StateView {
    /// Whether each of the replies is that of an engine that keeps what it was told.
    pub open spec fn faithful(self, before: Seq<CallView>, replies: Seq<ReplyView>) -> bool
        decreases replies.len(),
    {
        replies.len() == 0 || self.finished() || (faithful_reply(
            self.session.exports,
            before,
            self.session.call(),
            replies[0],
        ) && self.next(replies[0]).faithful(before.push(self.session.call()), replies.skip(1)))
    }
}

impl WalkView {
    /// The member whose value is known already, if there is one.
    spec fn member_in_hand(self, opened: Option<Seq<char>>) -> Seq<MemberView> {
        match self.pending {
            PendingView::SetExport { in_module, name, .. } => seq![
                MemberView { js_mod: module_of(in_module, opened), name },
            ],
            PendingView::CreateReference { in_module, js_name, .. } => seq![
                MemberView { js_mod: module_of(in_module, opened), name: js_name },
            ],
            PendingView::SetClass { in_module, js_name, .. } => seq![
                MemberView { js_mod: module_of(in_module, opened), name: js_name },
            ],
            _ => Seq::empty(),
        }
    }
}

/// No member that belongs to no module is called like one of the modules.
spec fn no_clash(members: Seq<MemberView>, modules: Set<Seq<char>>) -> bool {
    forall|k: int|
        0 <= k < members.len() && (#[trigger] members[k]).js_mod is None ==> !modules.contains(
            members[k].name,
        )
}

/// Whether the modules that have been created are found on `exports` after the calls, and none of
/// what is still to be set is in their way.
spec fn in_place(
    s: StateView,
    opened: Option<Seq<char>>,
    objects: Map<Seq<char>, NapiValue>,
    before: Seq<CallView>,
    modules: Set<Seq<char>>,
) -> bool {
    &&& s.session.walk.follows(opened, objects)
    &&& forall|m: Seq<char>| #[trigger]
        objects.contains_key(m) ==> objects[m] != NULL && objects[m] != s.session.exports
            && modules.contains(m)
    &&& forall|m: Seq<char>| #[trigger]
        s.session.walk.objects.contains(m) ==> last_set(before, s.session.exports, m) == Some(
            objects[m],
        )
    &&& s.to_be_created().subset_of(modules)
    &&& no_clash(s.members_ahead(opened), modules)
    &&& no_clash(s.session.walk.member_in_hand(opened), modules)
}

proof fn lemma_step_in_place(
    s: StateView,
    opened: Option<Seq<char>>,
    objects: Map<Seq<char>, NapiValue>,
    before: Seq<CallView>,
    modules: Set<Seq<char>>,
    reply: ReplyView,
)
    requires
        s.ready(),
        !s.finished(),
        answers(reply, s.session.call()),
        in_place(s, opened, objects, before, modules),
        faithful_reply(s.session.exports, before, s.session.call(), reply),
    ensures
        honest_reply(s.session.exports, objects, s.session.call(), reply),
        in_place(
            s.next(reply),
            s.session.walk.opened_next(opened),
            s.session.walk.objects_next(objects, reply),
            before.push(s.session.call()),
            modules,
        ),
{
    let walk = s.session.walk;
    let call = s.session.call();
    let next = s.next(reply);
    let opened_next = walk.opened_next(opened);
    let objects_next = walk.objects_next(objects, reply);
    let after = before.push(call);
    assert(honest_reply(s.session.exports, objects, call, reply)) by {
        if let CallView::GetNamedProperty { object, name } = call {
            if object == s.session.exports && objects.contains_key(name) {
                assert(walk.objects.contains(name));
            }
        }
    }
    lemma_state_moves_on(s, opened, objects, reply, objects);
    lemma_step_to_be_created(s, reply);
    lemma_step_leaves_alone(s, reply);
    assert(after.drop_last() =~= before);
    assert(no_clash(next.members_ahead(opened_next), modules)) by {
        let ahead = s.members_ahead(opened);
        let ahead_next = next.members_ahead(opened_next);
        assert forall|k: int|
            0 <= k < ahead_next.len() && (#[trigger] ahead_next[k]).js_mod is None implies
            !modules.contains(ahead_next[k].name) by {
            if outcome(call, reply).len() == 0 {
                assert(ahead_next[k] == ahead[k]);
            } else {
                assert(ahead_next[k] == ahead[k + 1]);
            }
        }
    }
    assert(no_clash(next.session.walk.member_in_hand(opened_next), modules)) by {
        let in_hand = walk.member_in_hand(opened);
        let ahead = s.members_ahead(opened);
        let in_hand_next = next.session.walk.member_in_hand(opened_next);
        if in_hand_next.len() > 0 {
            assert(walk.pending is CallExport || walk.pending is DefineClass
                || walk.pending is CreateReference);
            if walk.pending is CreateReference {
                assert(in_hand_next[0] == in_hand[0]);
            } else {
                assert(in_hand_next[0] == ahead[0]);
            }
        }
    }
    assert forall|m: Seq<char>| #[trigger] objects_next.contains_key(m) implies objects_next[m]
        != NULL && objects_next[m] != next.session.exports && modules.contains(m) by {
        match walk.pending {
            PendingView::CreateModule { name } if m == name => {
                assert(s.to_be_created().contains(name));
            },
            _ => {
                assert(objects.contains_key(m));
            },
        }
    }
    assert forall|m: Seq<char>| #[trigger] next.session.walk.objects.contains(m) implies last_set(
        after,
        next.session.exports,
        m,
    ) == Some(objects_next[m]) by {
        if walk.objects.contains(m) {
            assert(objects.contains_key(m));
            assert(last_set(before, s.session.exports, m) == Some(objects[m]));
            if let CallView::SetNamedProperty { object, name, .. } = call {
                if object == s.session.exports && name == m {
                    match walk.pending {
                        PendingView::SetModule { .. } => {},
                        _ => {
                            let member = walk.member_in_hand(opened)[0];
                            assert(member.name == m);
                            if let Some(o) = opened {
                                assert(objects.contains_key(o));
                            }
                            assert(member.js_mod is None);
                        },
                    }
                }
            }
        } else {
            assert(walk.pending == (PendingView::SetModule { name: m }));
        }
    }
}

proof fn lemma_faithful(
    s: StateView,
    opened: Option<Seq<char>>,
    objects: Map<Seq<char>, NapiValue>,
    before: Seq<CallView>,
    modules: Set<Seq<char>>,
    replies: Seq<ReplyView>,
)
    requires
        s.ready(),
        s.fits(replies),
        in_place(s, opened, objects, before, modules),
        s.faithful(before, replies),
        s.run(replies).finished(),
    ensures
        s.reads_back(objects, replies),
        forall|m: Seq<char>| #[trigger]
            s.objects_given(objects, replies).contains_key(m) ==> {
                &&& last_set(before + s.calls(replies), s.session.exports, m) == Some(
                    s.objects_given(objects, replies)[m],
                )
                &&& s.objects_given(objects, replies)[m] != NULL
                &&& s.objects_given(objects, replies)[m] != s.session.exports
            },
    decreases replies.len(),
{
    if s.finished() {
        assert(before + s.calls(replies) =~= before);
        assert(s.objects_given(objects, replies) == objects);
        assert forall|m: Seq<char>| #[trigger] objects.contains_key(m) implies last_set(
            before,
            s.session.exports,
            m,
        ) == Some(objects[m]) by {
            assert(s.session.walk.objects.contains(m));
        }
    } else {
        let reply = replies[0];
        let call = s.session.call();
        let next = s.next(reply);
        let rest = replies.skip(1);
        let opened_next = s.session.walk.opened_next(opened);
        let objects_next = s.session.walk.objects_next(objects, reply);
        lemma_step_in_place(s, opened, objects, before, modules, reply);
        lemma_step_leaves_alone(s, reply);
        if !s.blocked() {
            law_every_answer_brings_the_registration_forward(s, reply);
        }
        lemma_faithful(next, opened_next, objects_next, before.push(call), modules, rest);
        assert(before.push(call) + next.calls(rest) =~= before + s.calls(replies));
        assert(s.objects_given(objects, replies) == next.objects_given(objects_next, rest));
    }
}

proof fn lemma_set_calls_hold(
    exports: NapiValue,
    objects: Map<Seq<char>, NapiValue>,
    members: Seq<MemberView>,
    outcomes: Seq<Option<NapiValue>>,
    k: int,
)
    requires
        0 <= k < members.len(),
        members.len() == outcomes.len(),
        outcomes[k] is Some,
    ensures
        set_calls(exports, objects, members, outcomes).contains(
            set_call(exports, objects, members[k], outcomes[k]->0),
        ),
    decreases members.len(),
{
    let all = set_calls(exports, objects, members, outcomes);
    let call = set_call(exports, objects, members[k], outcomes[k]->0);
    if k == 0 {
        assert(all[0] == call);
    } else {
        let rest = set_calls(exports, objects, members.skip(1), outcomes.skip(1));
        lemma_set_calls_hold(exports, objects, members.skip(1), outcomes.skip(1), k - 1);
        let i = choose|i: int| 0 <= i < rest.len() && rest[i] == call;
        if outcomes[0] is Some {
            assert(all[i + 1] == call);
        } else {
            assert(all[i] == call);
        }
    }
}

proof fn lemma_modules_have_members(registry: RegistryView, m: Seq<char>)
    requires
        tasks_modules(exports_tasks(registry.exports)).contains(m) || tasks_modules(
            classes_tasks(registry.classes),
        ).contains(m),
    ensures
        exists|j: int|
            0 <= j < registered_members(registry).len() && (#[trigger] registered_members(
                registry,
            )[j]).js_mod == Some(m),
{
    let members = registered_members(registry);
    let grouped = ungrouped(groups_of(registry.exports));
    law_modules_of_the_exports_are_opened(registry.exports, m);
    law_modules_of_the_classes_are_opened(registry.classes, m);
    law_every_export_is_planned_once(registry.exports, NULL);
    if tasks_modules(exports_tasks(registry.exports)).contains(m) {
        let i = choose|i: int|
            0 <= i < registry.exports.len() && (#[trigger] registry.exports[i]).js_mod == Some(m);
        lemma_same_elements(registry.exports, grouped, i);
        let k = choose|k: int| 0 <= k < grouped.len() && grouped[k] == registry.exports[i];
        assert(members[k].js_mod == Some(m));
    } else {
        let i = choose|i: int|
            0 <= i < registry.classes.len() && (#[trigger] registry.classes[i]).js_mod == Some(m);
        assert(members[grouped.len() + i].js_mod == Some(m));
    }
}

/// With an engine that keeps what it is told, and where nothing that belongs to no module is
/// called like a module: when a registration is over, `exports` holds an object under the name of
/// each module that an export or a class names, and each export whose function gave a value and
/// each class has been set, under its name and to its value, on the object that `exports` holds for
/// its module, or on `exports` itself where it belongs to none.
pub proof fn law_every_member_reaches_its_module(
    registry: RegistryView,
    env: NapiEnv,
    exports: NapiValue,
    thread: ThreadKey,
    features: Features,
    replies: Seq<ReplyView>,
)
    requires
        all_definable(registry.classes),
        StateView::begin(registry, env, exports, thread, features).fits(replies),
        StateView::begin(registry, env, exports, thread, features).run(replies).finished(),
        StateView::begin(registry, env, exports, thread, features).faithful(
            Seq::empty(),
            replies,
        ),
        forall|i: int, j: int|
            #![trigger registered_members(registry)[i], registered_members(registry)[j]]
            0 <= i < registered_members(registry).len() && 0 <= j < registered_members(
                registry,
            ).len() && registered_members(registry)[i].js_mod is None
                ==> registered_members(registry)[j].js_mod != Some(
                registered_members(registry)[i].name,
            ),
    ensures
        ({
            let s = StateView::begin(registry, env, exports, thread, features);
            let calls = s.calls(replies);
            let members = registered_members(registry);
            let outcomes = s.outcomes(replies);
            &&& outcomes.len() == members.len()
            &&& forall|k: int|
                0 <= k < members.len() ==> ((#[trigger] members[k]).js_mod matches Some(m) ==> {
                    &&& last_set(calls, exports, m) matches Some(object)
                    &&& object != NULL
                    &&& object != exports
                })
            &&& forall|k: int|
                #![trigger members[k]]
                0 <= k < members.len() ==> (outcomes[k] matches Some(value) ==> calls.contains(
                    CallView::SetNamedProperty {
                        object: match members[k].js_mod {
                            Some(m) => last_set(calls, exports, m)->0,
                            None => exports,
                        },
                        name: members[k].name,
                        value,
                    },
                ))
        }),
{
    broadcast use vstd::seq_lib::group_to_multiset_ensures;

    let s = StateView::begin(registry, env, exports, thread, features);
    let empty = Map::<Seq<char>, NapiValue>::empty();
    let none = Seq::<CallView>::empty();
    let members = registered_members(registry);
    let modules = Set::new(
        |m: Seq<char>| exists|j: int| 0 <= j < members.len() && members[j].js_mod == Some(m),
    );
    let tasks = exports_tasks(registry.exports);
    lemma_plans_wf(registry);
    lemma_with_tasks(WalkView::new(exports), tasks);
    lemma_started(WalkView::new(exports), tasks, None);
    lemma_exports_members(registry.exports, None);
    assert(empty.dom() =~= Set::<Seq<char>>::empty());
    assert(s.session.walk.follows(None, empty));
    assert(s.members_ahead(None) =~= members);
    let planned = tasks_modules(tasks).union(tasks_modules(classes_tasks(registry.classes)));
    assert(s.to_be_created() =~= planned);
    assert(s.to_be_created().subset_of(modules)) by {
        assert forall|m: Seq<char>| #[trigger] s.to_be_created().contains(m) implies
            modules.contains(m) by {
            lemma_modules_have_members(registry, m);
        }
    }
    assert(no_clash(members, modules)) by {
        assert forall|k: int| 0 <= k < members.len() && (#[trigger] members[k]).js_mod is None implies
            !modules.contains(members[k].name) by {
            if modules.contains(members[k].name) {
                let j = choose|j: int|
                    0 <= j < members.len() && members[j].js_mod == Some(members[k].name);
                assert(members[j].js_mod != Some(members[k].name));
            }
        }
    }
    assert(in_place(s, None, empty, none, modules));
    lemma_faithful(s, None, empty, none, modules, replies);
    assert(none + s.calls(replies) =~= s.calls(replies));
    law_where_a_registration_sets_things(registry, env, exports, thread, features, replies);
    let calls = s.calls(replies);
    let objects = s.objects_given(empty, replies);
    let outcomes = s.outcomes(replies);
    let created = s.created(replies);
    let sets = set_calls(exports, objects, members, outcomes);
    let module_sets = module_set_calls(exports, objects, created);
    assert forall|k: int| #![trigger members[k]] 0 <= k < members.len() implies (
    outcomes[k] matches Some(value) ==> calls.contains(
        CallView::SetNamedProperty {
            object: match members[k].js_mod {
                Some(m) => last_set(calls, exports, m)->0,
                None => exports,
            },
            name: members[k].name,
            value,
        },
    )) by {
        if let Some(value) = outcomes[k] {
            let call = set_call(exports, objects, members[k], value);
            lemma_set_calls_hold(exports, objects, members, outcomes, k);
            let i = choose|i: int| 0 <= i < sets.len() && sets[i] == call;
            assert((module_sets + sets)[module_sets.len() + i] == call);
            assert((module_sets + sets).contains(call));
            assert((module_sets + sets).to_multiset().count(call) > 0);
            assert(property_sets(calls).to_multiset().count(call) > 0);
            assert(property_sets(calls).contains(call));
            calls.lemma_filter_contains_rev(|c: CallView| c is SetNamedProperty, call);
        }
    }
}

proof fn lemma_same_elements(a: Seq<ExportView>, b: Seq<ExportView>, i: int)
    requires
        a.to_multiset() == b.to_multiset(),
        0 <= i < a.len(),
    ensures
        b.contains(a[i]),
{
    broadcast use vstd::seq_lib::group_to_multiset_ensures;

    assert(a.contains(a[i]));
    assert(a.to_multiset().count(a[i]) > 0);
    assert(b.to_multiset().count(a[i]) > 0);
}

} // verus!
