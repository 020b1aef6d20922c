//! The tasks that put the registered exports and classes before the engine.
use std::collections::VecDeque;
use vstd::prelude::*;

use crate::classes::{all_definable, classes_view, definable, definition_of, ClassEntry, ClassView};
use crate::exports::{
    exports_view, group_by_module, groups_of, groups_view, law_groups_hold_their_own, ExportView, GroupView, ModuleExport,
    ModuleGroup,
};
use crate::names::module_view;
use crate::sys::ModuleExportsCallback;
use crate::walk::{tasks_view, tasks_wf, Task, TaskView};

verus! {

/// A module is opened before anything is set on its object; `exports` itself needs no opening.
pub open spec fn open_module(js_mod: Option<Seq<char>>) -> Seq<TaskView> {
    match js_mod {
        Some(name) => seq![TaskView::OpenModule { name }],
        None => Seq::empty(),
    }
}

/// The task of one export.
pub open spec fn export_task(e: ExportView) -> TaskView {
    TaskView::Export { in_module: e.js_mod is Some, name: e.name, callback: e.callback }
}

/// The tasks of one group of exports.
pub open spec fn group_tasks(group: GroupView) -> Seq<TaskView> {
    open_module(group.js_mod) + group.items.map_values(|e: ExportView| export_task(e))
}

/// The tasks of the groups, one group after the other.
pub open spec fn groups_tasks(groups: Seq<GroupView>) -> Seq<TaskView>
    decreases groups.len(),
{
    if groups.len() == 0 {
        Seq::empty()
    } else {
        groups_tasks(groups.drop_last()) + group_tasks(groups.last())
    }
}

/// The tasks of all exports: they go module by module.
pub open spec fn exports_tasks(exports: Seq<ExportView>) -> Seq<TaskView> {
    groups_tasks(groups_of(exports))
}

/// The tasks of one class.
pub open spec fn class_tasks(class: ClassView) -> Seq<TaskView> {
    open_module(class.js_mod).push(
        TaskView::DefineClass { in_module: class.js_mod is Some, class: definition_of(class) },
    )
}

/// The tasks of the classes, one class after the other.
pub open spec fn classes_tasks(classes: Seq<ClassView>) -> Seq<TaskView>
    decreases classes.len(),
{
    if classes.len() == 0 {
        Seq::empty()
    } else {
        classes_tasks(classes.drop_last()) + class_tasks(classes.last())
    }
}

/// The tasks of the functions that fill in `exports` by themselves.
pub open spec fn fillers_tasks(fillers: Seq<ModuleExportsCallback>) -> Seq<TaskView> {
    fillers.map_values(|fill: ModuleExportsCallback| TaskView::ModuleExports { fill })
}

fn push_task(tasks: &mut VecDeque<Task>, task: Task)
    ensures
        tasks_view(final(tasks)@) == tasks_view(old(tasks)@).push(task@),
{
    tasks.push_back(task);
    assert(tasks_view(tasks@) =~= tasks_view(old(tasks)@).push(task@));
}

fn push_open(tasks: &mut VecDeque<Task>, js_mod: Option<&'static str>)
    ensures
        tasks_view(final(tasks)@) == tasks_view(old(tasks)@) + open_module(module_view(js_mod)),
{
    match js_mod {
        Some(name) => {
            push_task(tasks, Task::OpenModule { name });
        },
        None => {},
    }
    assert(tasks_view(tasks@) =~= tasks_view(old(tasks)@) + open_module(module_view(js_mod)));
}

fn push_group(tasks: &mut VecDeque<Task>, group: &ModuleGroup)
    requires
        forall|i: int|
            0 <= i < group@.items.len() ==> (#[trigger] group@.items[i]).js_mod == group@.js_mod,
    ensures
        tasks_view(final(tasks)@) == tasks_view(old(tasks)@) + group_tasks(group@),
{
    push_open(tasks, group.js_mod);
    let ghost opened = tasks_view(tasks@);
    let ghost all = group@.items.map_values(|e: ExportView| export_task(e));
    let mut i: usize = 0;
    while i < group.items.len()
        invariant
            i <= group.items@.len(),
            forall|k: int|
                0 <= k < group@.items.len() ==> (#[trigger] group@.items[k]).js_mod
                    == group@.js_mod,
            all == group@.items.map_values(|e: ExportView| export_task(e)),
            tasks_view(tasks@) == opened + all.take(i as int),
        decreases group.items@.len() - i,
    {
        let item = group.items[i];
        assert(group@.items[i as int] == item@);
        push_task(
            tasks,
            Task::Export {
                in_module: group.js_mod.is_some(),
                name: item.name,
                callback: item.callback,
            },
        );
        assert(tasks_view(tasks@) =~= opened + all.take(i + 1));
        i += 1;
    }
    assert(all.take(group.items@.len() as int) =~= all);
    assert(tasks_view(tasks@) =~= tasks_view(old(tasks)@) + group_tasks(group@));
}

/// The tasks that create the registered exports.
pub fn plan_exports(exports: &[ModuleExport]) -> (tasks: VecDeque<Task>)
    ensures
        tasks_view(tasks@) == exports_tasks(exports_view(exports@)),
        tasks_wf(tasks_view(tasks@)),
{
    let groups = group_by_module(exports);
    let ghost all = groups_view(groups@);
    let mut tasks: VecDeque<Task> = VecDeque::new();
    let mut i: usize = 0;
    assert(tasks_view(tasks@) =~= groups_tasks(all.take(0)));
    while i < groups.len()
        invariant
            i <= groups@.len(),
            all == groups_view(groups@),
            all == groups_of(exports_view(exports@)),
            tasks_view(tasks@) == groups_tasks(all.take(i as int)),
            tasks_wf(tasks_view(tasks@)),
        decreases groups@.len() - i,
    {
        proof {
            assert(all[i as int] == groups@[i as int]@);
            law_groups_hold_their_own(exports_view(exports@), i as int);
            assert(all.take(i + 1).drop_last() =~= all.take(i as int));
        }
        push_group(&mut tasks, &groups[i]);
        i += 1;
    }
    assert(all.take(groups@.len() as int) =~= all);
    tasks
}

/// The tasks that define the registered classes.
pub fn plan_classes(classes: &Vec<ClassEntry>) -> (tasks: VecDeque<Task>)
    requires
        all_definable(classes_view(classes@)),
    ensures
        tasks_view(tasks@) == classes_tasks(classes_view(classes@)),
        tasks_wf(tasks_view(tasks@)),
{
    let ghost all = classes_view(classes@);
    let mut tasks: VecDeque<Task> = VecDeque::new();
    let mut i: usize = 0;
    assert(tasks_view(tasks@) =~= classes_tasks(all.take(0)));
    while i < classes.len()
        invariant
            i <= classes@.len(),
            all == classes_view(classes@),
            all_definable(all),
            tasks_view(tasks@) == classes_tasks(all.take(i as int)),
            tasks_wf(tasks_view(tasks@)),
        decreases classes@.len() - i,
    {
        let entry = &classes[i];
        proof {
            assert(all[i as int] == entry@);
            assert(definable(all[i as int]));
            assert(all.take(i + 1).drop_last() =~= all.take(i as int));
        }
        let ghost before = tasks_view(tasks@);
        push_open(&mut tasks, entry.js_mod);
        push_task(
            &mut tasks,
            Task::DefineClass { in_module: entry.js_mod.is_some(), class: entry.definition() },
        );
        assert(tasks_view(tasks@) =~= before + class_tasks(entry@));
        i += 1;
    }
    assert(all.take(classes@.len() as int) =~= all);
    tasks
}

/// The tasks that let the registered functions fill in `exports`.
pub fn plan_fillers(fillers: &[ModuleExportsCallback]) -> (tasks: VecDeque<Task>)
    ensures
        tasks_view(tasks@) == fillers_tasks(fillers@),
        tasks_wf(tasks_view(tasks@)),
{
    let mut tasks: VecDeque<Task> = VecDeque::new();
    let mut i: usize = 0;
    assert(tasks_view(tasks@) =~= fillers_tasks(fillers@).take(0));
    while i < fillers.len()
        invariant
            i <= fillers@.len(),
            tasks_view(tasks@) == fillers_tasks(fillers@).take(i as int),
        decreases fillers@.len() - i,
    {
        push_task(&mut tasks, Task::ModuleExports { fill: fillers[i] });
        assert(tasks_view(tasks@) =~= fillers_tasks(fillers@).take(i + 1));
        i += 1;
    }
    assert(tasks_view(tasks@) =~= fillers_tasks(fillers@));
    tasks
}

} // verus!
