//! What the tasks of a registration are made of.
use vstd::prelude::*;
use vstd::seq_lib::lemma_multiset_commutative;
use vstd::utf8::encode_utf8;

use crate::calls::CallView;
use crate::classes::{all_definable, definable, ClassView, Constructor};
use crate::exports::{
    exports_of, groups_of, law_modules_are_those_of_the_exports, lemma_exports_of_push,
    lemma_modules_of_push, lemma_no_exports, modules_of, ExportView, GroupView,
};
use crate::plan::{
    class_tasks, classes_tasks, export_task, exports_tasks, fillers_tasks, group_tasks,
    groups_tasks, open_module,
};
use crate::registry::RegistryView;
use crate::sys::{ModuleExportsCallback, NapiValue, Property};
use crate::walk::{tasks_wf, TaskView};
use crate::walk_laws::{tasks_classes, tasks_milestones, tasks_modules};

verus! {

/// The names of the classes.
pub open spec fn class_names(classes: Seq<ClassView>) -> Set<Seq<char>> {
    classes.map_values(|c: ClassView| c.js_name).to_set()
}

/// The calls of the functions that create the exports.
pub open spec fn export_calls(exports: Seq<ExportView>) -> Seq<CallView> {
    exports.map_values(|e: ExportView| CallView::CallExport { callback: e.callback })
}

/// The call that defines a class: under its name, of which every byte but the closing NUL counts,
/// with the method of its first constructor, if it has any, and with the descriptors of all other
/// properties.
pub open spec fn define_call(class: ClassView) -> CallView {
    let constructors = class.properties.filter(|p: Property| p.is_ctor);
    let members = class.properties.filter(|p: Property| !p.is_ctor);
    CallView::DefineClass {
        name: class.js_name,
        length: encode_utf8(class.js_name).len() - 1,
        constructor: if constructors.len() == 0 {
            Constructor::Noop
        } else {
            Constructor::Method(constructors[0].descriptor.method->0)
        },
        properties: members.map_values(|p: Property| p.descriptor),
    }
}

/// The calls of the functions that fill in `exports`.
pub open spec fn filler_calls(fillers: Seq<ModuleExportsCallback>, exports: NapiValue) -> Seq<
    CallView,
> {
    fillers.map_values(|fill: ModuleExportsCallback| CallView::CallModuleExports { fill, exports })
}

/// The exports of the groups, one group after the other.
pub open spec fn ungrouped(groups: Seq<GroupView>) -> Seq<ExportView>
    decreases groups.len(),
{
    if groups.len() == 0 {
        Seq::empty()
    } else {
        ungrouped(groups.drop_last()) + groups.last().items
    }
}

proof fn lemma_tasks_add(a: Seq<TaskView>, b: Seq<TaskView>)
    ensures
        tasks_classes(a + b) == tasks_classes(a).union(tasks_classes(b)),
        tasks_modules(a + b) == tasks_modules(a).union(tasks_modules(b)),
    decreases a.len(),
{
    if a.len() == 0 {
        assert(a + b =~= b);
        assert(tasks_classes(a + b) =~= tasks_classes(a).union(tasks_classes(b)));
        assert(tasks_modules(a + b) =~= tasks_modules(a).union(tasks_modules(b)));
    } else {
        lemma_tasks_add(a.skip(1), b);
        assert((a + b).skip(1) =~= a.skip(1) + b);
        assert(tasks_classes(a + b) =~= tasks_classes(a).union(tasks_classes(b)));
        assert(tasks_modules(a + b) =~= tasks_modules(a).union(tasks_modules(b)));
    }
}

pub(crate) proof fn lemma_fillers_open_nothing(fillers: Seq<ModuleExportsCallback>)
    ensures
        tasks_modules(fillers_tasks(fillers)) == Set::<Seq<char>>::empty(),
        tasks_classes(fillers_tasks(fillers)) == Set::<Seq<char>>::empty(),
    decreases fillers.len(),
{
    if fillers.len() > 0 {
        assert(fillers_tasks(fillers).skip(1) =~= fillers_tasks(fillers.skip(1)));
        lemma_fillers_open_nothing(fillers.skip(1));
    }
}

/// The tasks of the classes define each of the classes.
pub proof fn law_every_class_is_planned(classes: Seq<ClassView>)
    ensures
        tasks_classes(classes_tasks(classes)) == class_names(classes),
    decreases classes.len(),
{
    if classes.len() == 0 {
        assert(tasks_classes(classes_tasks(classes)) =~= class_names(classes));
    } else {
        let before = classes.drop_last();
        let last = classes.last();
        law_every_class_is_planned(before);
        lemma_tasks_add(classes_tasks(before), class_tasks(last));
        let tasks = class_tasks(last);
        assert(tasks_classes(tasks) =~= set![last.js_name]) by {
            reveal_with_fuel(tasks_classes, 3);
            if last.js_mod is Some {
                assert(tasks.skip(1).skip(1) =~= Seq::empty());
            } else {
                assert(tasks.skip(1) =~= Seq::empty());
            }
        }
        let names = classes.map_values(|c: ClassView| c.js_name);
        let names_before = before.map_values(|c: ClassView| c.js_name);
        assert(names =~= names_before.push(last.js_name));
        assert(names.to_set() =~= names_before.to_set().insert(last.js_name)) by {
            assert forall|n: Seq<char>| names_before.contains(n) implies
                #[trigger] names.contains(n) by {
                let i = choose|i: int| 0 <= i < names_before.len() && names_before[i] == n;
                assert(names[i] == n);
            }
            assert(names[names.len() - 1] == last.js_name);
        }
        assert(tasks_classes(classes_tasks(classes)) =~= class_names(classes));
    }
}

pub(crate) proof fn lemma_plans_wf(registry: RegistryView)
    ensures
        tasks_wf(exports_tasks(registry.exports)),
        tasks_wf(fillers_tasks(registry.fillers)),
        all_definable(registry.classes) ==> tasks_wf(classes_tasks(registry.classes)),
{
    lemma_exports_tasks_wf(groups_of(registry.exports));
    if all_definable(registry.classes) {
        lemma_classes_tasks_wf(registry.classes);
    }
}

proof fn lemma_exports_tasks_wf(groups: Seq<GroupView>)
    ensures
        tasks_wf(groups_tasks(groups)),
    decreases groups.len(),
{
    if groups.len() > 0 {
        lemma_exports_tasks_wf(groups.drop_last());
    }
}

proof fn lemma_classes_tasks_wf(classes: Seq<ClassView>)
    requires
        all_definable(classes),
    ensures
        tasks_wf(classes_tasks(classes)),
    decreases classes.len(),
{
    if classes.len() > 0 {
        let before = classes.drop_last();
        assert forall|i: int| 0 <= i < before.len() implies definable(#[trigger] before[i]) by {
            assert(before[i] == classes[i]);
        }
        lemma_classes_tasks_wf(before);
        assert(definable(classes.last()));
    }
}

proof fn lemma_milestones_add(a: Seq<TaskView>, b: Seq<TaskView>, exports: NapiValue)
    ensures
        tasks_milestones(a + b, exports) == tasks_milestones(a, exports) + tasks_milestones(
            b,
            exports,
        ),
    decreases a.len(),
{
    if a.len() == 0 {
        assert(a + b =~= b);
        assert(Seq::<CallView>::empty() + tasks_milestones(b, exports) =~= tasks_milestones(
            b,
            exports,
        ));
    } else {
        lemma_milestones_add(a.skip(1), b, exports);
        assert((a + b).skip(1) =~= a.skip(1) + b);
        assert(tasks_milestones(a + b, exports) =~= tasks_milestones(a, exports)
            + tasks_milestones(b, exports));
    }
}

/// Each function that fills in `exports` is called once, in the order of registration.
pub proof fn law_every_filler_is_planned_once(
    fillers: Seq<ModuleExportsCallback>,
    exports: NapiValue,
)
    ensures
        tasks_milestones(fillers_tasks(fillers), exports) == filler_calls(fillers, exports),
    decreases fillers.len(),
{
    if fillers.len() > 0 {
        assert(fillers_tasks(fillers).skip(1) =~= fillers_tasks(fillers.skip(1)));
        law_every_filler_is_planned_once(fillers.skip(1), exports);
    }
    assert(tasks_milestones(fillers_tasks(fillers), exports) =~= filler_calls(fillers, exports));
}

/// Each class is defined once, in the order of the classes.
pub proof fn law_every_class_is_planned_once(classes: Seq<ClassView>, exports: NapiValue)
    ensures
        tasks_milestones(classes_tasks(classes), exports) == classes.map_values(
            |c: ClassView| define_call(c),
        ),
    decreases classes.len(),
{
    let calls = classes.map_values(|c: ClassView| define_call(c));
    if classes.len() > 0 {
        let before = classes.drop_last();
        let tasks = class_tasks(classes.last());
        law_every_class_is_planned_once(before, exports);
        lemma_milestones_add(classes_tasks(before), tasks, exports);
        reveal_with_fuel(tasks_milestones, 3);
        if classes.last().js_mod is Some {
            assert(tasks.skip(1).skip(1) =~= Seq::empty());
        } else {
            assert(tasks.skip(1) =~= Seq::empty());
        }
        assert(tasks_milestones(tasks, exports) =~= seq![define_call(classes.last())]);
    }
    assert(tasks_milestones(classes_tasks(classes), exports) =~= calls);
}

proof fn lemma_export_milestones(items: Seq<ExportView>, exports: NapiValue)
    ensures
        tasks_milestones(items.map_values(|e: ExportView| export_task(e)), exports)
            == export_calls(items),
    decreases items.len(),
{
    let tasks = items.map_values(|e: ExportView| export_task(e));
    if items.len() > 0 {
        assert(tasks.skip(1) =~= items.skip(1).map_values(|e: ExportView| export_task(e)));
        lemma_export_milestones(items.skip(1), exports);
    }
    assert(tasks_milestones(tasks, exports) =~= export_calls(items));
}

proof fn lemma_groups_milestones(groups: Seq<GroupView>, exports: NapiValue)
    ensures
        tasks_milestones(groups_tasks(groups), exports) == export_calls(ungrouped(groups)),
    decreases groups.len(),
{
    if groups.len() > 0 {
        let last = groups.last();
        let before = groups.drop_last();
        let opening = open_module(last.js_mod);
        let items = last.items.map_values(|e: ExportView| export_task(e));
        lemma_groups_milestones(before, exports);
        lemma_milestones_add(groups_tasks(before), group_tasks(last), exports);
        lemma_milestones_add(opening, items, exports);
        lemma_export_milestones(last.items, exports);
        assert(tasks_milestones(opening, exports) =~= Seq::empty()) by {
            reveal_with_fuel(tasks_milestones, 2);
            if last.js_mod is Some {
                assert(opening.skip(1) =~= Seq::empty());
            }
        }
    }
    assert(tasks_milestones(groups_tasks(groups), exports) =~= export_calls(ungrouped(groups)));
}

proof fn lemma_ungrouped_update(groups: Seq<GroupView>, k: int, e: ExportView)
    requires
        0 <= k < groups.len(),
    ensures
        ungrouped(
            groups.update(k, GroupView { items: groups[k].items.push(e), ..groups[k] }),
        ).to_multiset() == ungrouped(groups).to_multiset().insert(e),
    decreases groups.len(),
{
    broadcast use vstd::seq_lib::group_to_multiset_ensures;

    let more = groups.update(k, GroupView { items: groups[k].items.push(e), ..groups[k] });
    let before = groups.drop_last();
    lemma_multiset_commutative(ungrouped(more.drop_last()), more.last().items);
    lemma_multiset_commutative(ungrouped(before), groups.last().items);
    if k == groups.len() - 1 {
        assert(more.drop_last() =~= before);
    } else {
        assert(more.drop_last() =~= before.update(
            k,
            GroupView { items: before[k].items.push(e), ..before[k] },
        ));
        lemma_ungrouped_update(before, k, e);
    }
    assert(ungrouped(more).to_multiset() =~= ungrouped(groups).to_multiset().insert(e));
}

proof fn lemma_grouping_is_a_permutation(exports: Seq<ExportView>)
    ensures
        ungrouped(groups_of(exports)).to_multiset() == exports.to_multiset(),
    decreases exports.len(),
{
    broadcast use vstd::seq_lib::group_to_multiset_ensures;

    if exports.len() == 0 {
        assert(groups_of(exports) =~= Seq::empty());
        assert(ungrouped(groups_of(exports)) =~= exports);
    } else {
        let before = exports.drop_last();
        let e = exports.last();
        let m = e.js_mod;
        assert(exports =~= before.push(e));
        lemma_grouping_is_a_permutation(before);
        lemma_modules_of_push(before, e);
        law_modules_are_those_of_the_exports(before);
        let groups = groups_of(before);
        assert forall|j: int|
            0 <= j < groups.len() && modules_of(before)[j] != m implies #[trigger] groups_of(
            exports,
        )[j] == groups[j] by {
            lemma_exports_of_push(before, e, modules_of(before)[j]);
        }
        lemma_exports_of_push(before, e, m);
        if modules_of(before).contains(m) {
            let k = choose|k: int| 0 <= k < modules_of(before).len() && modules_of(before)[k] == m;
            assert(groups_of(exports) =~= groups.update(
                k,
                GroupView { items: groups[k].items.push(e), ..groups[k] },
            ));
            lemma_ungrouped_update(groups, k, e);
        } else {
            lemma_no_exports(before, m);
            let own = GroupView { js_mod: m, items: seq![e] };
            assert(exports_of(exports, m) =~= seq![e]);
            assert(groups_of(exports) =~= groups.push(own)) by {
                assert forall|j: int| 0 <= j < groups.len() implies #[trigger] groups_of(
                    exports,
                )[j] == groups.push(own)[j] by {
                    assert(modules_of(before)[j] != m);
                }
            }
            assert(groups_of(exports).drop_last() =~= groups);
            assert(ungrouped(groups_of(exports)) =~= ungrouped(groups).push(e));
        }
    }
}

pub(crate) proof fn lemma_exports_define_nothing(groups: Seq<GroupView>)
    ensures
        tasks_classes(groups_tasks(groups)) == Set::<Seq<char>>::empty(),
    decreases groups.len(),
{
    if groups.len() > 0 {
        let last = groups.last();
        let items = last.items.map_values(|e: ExportView| export_task(e));
        lemma_exports_define_nothing(groups.drop_last());
        lemma_tasks_add(groups_tasks(groups.drop_last()), group_tasks(last));
        lemma_tasks_add(open_module(last.js_mod), items);
        lemma_exports_open_nothing(last.items);
        reveal_with_fuel(tasks_classes, 2);
        if last.js_mod is Some {
            assert(open_module(last.js_mod).skip(1) =~= Seq::empty());
        }
        assert(tasks_classes(groups_tasks(groups)) =~= Set::empty());
    }
}

/// Each export is created once, module by module: the exports of the groups, one group after the
/// other, are those that were registered.
pub proof fn law_every_export_is_planned_once(exports: Seq<ExportView>, object: NapiValue)
    ensures
        tasks_milestones(exports_tasks(exports), object) == export_calls(
            ungrouped(groups_of(exports)),
        ),
        ungrouped(groups_of(exports)).to_multiset() == exports.to_multiset(),
{
    lemma_groups_milestones(groups_of(exports), object);
    lemma_grouping_is_a_permutation(exports);
}

proof fn lemma_groups_modules(groups: Seq<GroupView>, name: Seq<char>)
    ensures
        tasks_modules(groups_tasks(groups)).contains(name) <==> exists|k: int|
            0 <= k < groups.len() && (#[trigger] groups[k]).js_mod == Some(name),
    decreases groups.len(),
{
    if groups.len() > 0 {
        let before = groups.drop_last();
        let last = groups.last();
        let items = last.items.map_values(|e: ExportView| export_task(e));
        lemma_groups_modules(before, name);
        lemma_tasks_add(groups_tasks(before), group_tasks(last));
        lemma_tasks_add(open_module(last.js_mod), items);
        lemma_exports_open_nothing(last.items);
        reveal_with_fuel(tasks_modules, 2);
        if last.js_mod is Some {
            assert(open_module(last.js_mod).skip(1) =~= Seq::empty());
        }
        assert(groups[groups.len() - 1] == last);
        assert forall|k: int| 0 <= k < before.len() implies #[trigger] before[k] == groups[k] by {
        }
        if exists|k: int| 0 <= k < groups.len() && (#[trigger] groups[k]).js_mod == Some(name) {
            let k = choose|k: int|
                0 <= k < groups.len() && (#[trigger] groups[k]).js_mod == Some(name);
            if k < before.len() {
                assert(before[k].js_mod == Some(name));
            }
        }
        if tasks_modules(groups_tasks(before)).contains(name) {
            let k = choose|k: int|
                0 <= k < before.len() && (#[trigger] before[k]).js_mod == Some(name);
            assert(groups[k].js_mod == Some(name));
        }
    }
}

proof fn lemma_exports_open_nothing(items: Seq<ExportView>)
    ensures
        tasks_modules(items.map_values(|e: ExportView| export_task(e)))
            == Set::<Seq<char>>::empty(),
        tasks_classes(items.map_values(|e: ExportView| export_task(e)))
            == Set::<Seq<char>>::empty(),
    decreases items.len(),
{
    if items.len() > 0 {
        let tasks = items.map_values(|e: ExportView| export_task(e));
        assert(tasks.skip(1) =~= items.skip(1).map_values(|e: ExportView| export_task(e)));
        lemma_exports_open_nothing(items.skip(1));
    }
}

/// The modules that are opened are those that the exports name.
pub proof fn law_modules_of_the_exports_are_opened(exports: Seq<ExportView>, name: Seq<char>)
    ensures
        tasks_modules(exports_tasks(exports)).contains(name) <==> exists|i: int|
            0 <= i < exports.len() && (#[trigger] exports[i]).js_mod == Some(name),
{
    lemma_groups_modules(groups_of(exports), name);
    law_modules_are_those_of_the_exports(exports);
    let groups = groups_of(exports);
    let m = Some(name);
    if modules_of(exports).contains(m) {
        let k = choose|k: int| 0 <= k < modules_of(exports).len() && modules_of(exports)[k] == m;
        assert(groups[k].js_mod == m);
    }
    if exists|k: int| 0 <= k < groups.len() && (#[trigger] groups[k]).js_mod == m {
        let k = choose|k: int| 0 <= k < groups.len() && (#[trigger] groups[k]).js_mod == m;
        assert(modules_of(exports)[k] == m);
    }
}

/// The modules that are opened for the classes are those that the classes name.
pub proof fn law_modules_of_the_classes_are_opened(classes: Seq<ClassView>, name: Seq<char>)
    ensures
        tasks_modules(classes_tasks(classes)).contains(name) <==> exists|i: int|
            0 <= i < classes.len() && (#[trigger] classes[i]).js_mod == Some(name),
    decreases classes.len(),
{
    if classes.len() > 0 {
        let before = classes.drop_last();
        let last = classes.last();
        let tasks = class_tasks(last);
        law_modules_of_the_classes_are_opened(before, name);
        lemma_tasks_add(classes_tasks(before), tasks);
        reveal_with_fuel(tasks_modules, 3);
        if last.js_mod is Some {
            assert(tasks.skip(1).skip(1) =~= Seq::empty());
        } else {
            assert(tasks.skip(1) =~= Seq::empty());
        }
        assert(classes[classes.len() - 1] == last);
        if exists|i: int| 0 <= i < classes.len() && (#[trigger] classes[i]).js_mod == Some(name) {
            let i = choose|i: int|
                0 <= i < classes.len() && (#[trigger] classes[i]).js_mod == Some(name);
            if i < before.len() {
                assert(before[i].js_mod == Some(name));
            }
        }
        if tasks_modules(classes_tasks(before)).contains(name) {
            let i = choose|i: int|
                0 <= i < before.len() && (#[trigger] before[i]).js_mod == Some(name);
            assert(classes[i].js_mod == Some(name));
        }
    }
}

} // verus!
