//! Module exports, and how they are gathered by JavaScript module.
use vstd::prelude::*;

use crate::names::{module_view, same_module};
use crate::sys::ExportRegisterCallback;

verus! {

/// One export: the module that it belongs to (`None` for the `exports` object itself), its
/// name, and the function that creates its value.
#[derive(Debug, Clone, Copy, PartialEq, Eq)]
pub struct ModuleExport {
    pub js_mod: Option<&'static str>,
    pub name: &'static str,
    pub callback: ExportRegisterCallback,
}

/// The model of a `ModuleExport`.
pub struct ExportView {
    pub js_mod: Option<Seq<char>>,
    pub name: Seq<char>,
    pub callback: ExportRegisterCallback,
}

impl View for ModuleExport {
    type V = ExportView;

    open spec fn view(&self) -> ExportView {
        ExportView {
            js_mod: module_view(self.js_mod),
            name: self.name@,
            callback: self.callback,
        }
    }
}

/// The model of a list of exports.
pub open spec fn exports_view(exports: Seq<ModuleExport>) -> Seq<ExportView> {
    exports.map_values(|e: ModuleExport| e@)
}

/// The exports of one module.
#[derive(Debug, PartialEq, Eq)]
pub struct ModuleGroup {
    pub js_mod: Option<&'static str>,
    pub items: Vec<ModuleExport>,
}

/// The model of a `ModuleGroup`.
#[verifier::ext_equal]
pub struct GroupView {
    pub js_mod: Option<Seq<char>>,
    pub items: Seq<ExportView>,
}

impl View for ModuleGroup {
    type V = GroupView;

    open spec fn view(&self) -> GroupView {
        GroupView { js_mod: module_view(self.js_mod), items: exports_view(self.items@) }
    }
}

/// The model of a list of groups.
pub open spec fn groups_view(groups: Seq<ModuleGroup>) -> Seq<GroupView> {
    groups.map_values(|g: ModuleGroup| g@)
}

/// The modules that `exports` names, each once, in the order in which they first occur.
pub open spec fn modules_of(exports: Seq<ExportView>) -> Seq<Option<Seq<char>>>
    decreases exports.len(),
{
    if exports.len() == 0 {
        Seq::empty()
    } else {
        let before = modules_of(exports.drop_last());
        if before.contains(exports.last().js_mod) {
            before
        } else {
            before.push(exports.last().js_mod)
        }
    }
}

/// The exports of the module `js_mod`, in the order of `exports`.
pub open spec fn exports_of(exports: Seq<ExportView>, js_mod: Option<Seq<char>>) -> Seq<
    ExportView,
> {
    exports.filter(|e: ExportView| e.js_mod == js_mod)
}

/// `exports` gathered by module.
pub open spec fn groups_of(exports: Seq<ExportView>) -> Seq<GroupView> {
    modules_of(exports).map_values(
        |m: Option<Seq<char>>| GroupView { js_mod: m, items: exports_of(exports, m) },
    )
}

pub(crate) proof fn lemma_exports_of_push(exports: Seq<ExportView>, e: ExportView, m: Option<Seq<char>>)
    ensures
        exports_of(exports.push(e), m) == if e.js_mod == m {
            exports_of(exports, m).push(e)
        } else {
            exports_of(exports, m)
        },
{
    reveal(Seq::filter);
    assert(exports.push(e).drop_last() =~= exports);
}

pub(crate) proof fn lemma_modules_of_push(exports: Seq<ExportView>, e: ExportView)
    ensures
        modules_of(exports.push(e)) == if modules_of(exports).contains(e.js_mod) {
            modules_of(exports)
        } else {
            modules_of(exports).push(e.js_mod)
        },
{
    assert(exports.push(e).drop_last() =~= exports);
}

/// No module has two groups, every export's module has one, and no module is made up.
pub proof fn law_modules_are_those_of_the_exports(exports: Seq<ExportView>)
    ensures
        modules_of(exports).no_duplicates(),
        forall|m: Option<Seq<char>>|
            #[trigger] modules_of(exports).contains(m) <==> exists|i: int|
                0 <= i < exports.len() && (#[trigger] exports[i]).js_mod == m,
    decreases exports.len(),
{
    if exports.len() > 0 {
        let before = exports.drop_last();
        law_modules_are_those_of_the_exports(before);
        let e = exports.last();
        assert forall|m: Option<Seq<char>>| #[trigger] modules_of(exports).contains(m) implies exists|
            i: int,
        |
            0 <= i < exports.len() && (#[trigger] exports[i]).js_mod == m by {
            if modules_of(before).contains(m) {
                let i = choose|i: int| 0 <= i < before.len() && (#[trigger] before[i]).js_mod == m;
                assert(exports[i].js_mod == m);
            } else {
                assert(exports[exports.len() - 1].js_mod == m);
            }
        }
        assert forall|m: Option<Seq<char>>|
            (exists|i: int| 0 <= i < exports.len() && (#[trigger] exports[i]).js_mod
                == m) implies #[trigger] modules_of(exports).contains(m) by {
            let i = choose|i: int| 0 <= i < exports.len() && (#[trigger] exports[i]).js_mod == m;
            let all = modules_of(exports);
            if i < before.len() {
                assert(before[i].js_mod == m);
                assert(modules_of(before).contains(m));
                let k = choose|k: int|
                    0 <= k < modules_of(before).len() && modules_of(before)[k] == m;
                assert(all[k] == m);
            } else if !modules_of(before).contains(m) {
                assert(all[all.len() - 1] == m);
            }
        }
    }
}

/// Every export of a group belongs to the group's module, and no group is empty.
pub proof fn law_groups_hold_their_own(exports: Seq<ExportView>, k: int)
    requires
        0 <= k < groups_of(exports).len(),
    ensures
        groups_of(exports)[k].items.len() > 0,
        forall|i: int|
            0 <= i < groups_of(exports)[k].items.len() ==> (
            #[trigger] groups_of(exports)[k].items[i]).js_mod == groups_of(exports)[k].js_mod,
{
    let m = modules_of(exports)[k];
    let own = |e: ExportView| e.js_mod == m;
    let items = exports.filter(own);
    assert(items == groups_of(exports)[k].items);
    assert forall|i: int| 0 <= i < items.len() implies (#[trigger] items[i]).js_mod == m by {
        exports.lemma_filter_pred(own, i);
    }
    law_modules_are_those_of_the_exports(exports);
    assert(modules_of(exports).contains(m));
    let i = choose|i: int| 0 <= i < exports.len() && (#[trigger] exports[i]).js_mod == m;
    exports.lemma_filter_contains(own, i);
}

/// Gathering keeps everything: each module that an export names has one group and no other module
/// has any; a group holds the exports of its module, all of them and nothing else, in the order of
/// their registration.
pub proof fn law_gathering_keeps_every_export(exports: Seq<ExportView>)
    ensures
        forall|k: int|
            0 <= k < groups_of(exports).len() ==> (#[trigger] groups_of(exports)[k]).items
                == exports.filter(|e: ExportView| e.js_mod == groups_of(exports)[k].js_mod),
        forall|k: int, l: int|
            0 <= k < l < groups_of(exports).len() ==> (#[trigger] groups_of(exports)[k]).js_mod != (
            #[trigger] groups_of(exports)[l]).js_mod,
        forall|i: int|
            0 <= i < exports.len() ==> exists|k: int|
                0 <= k < groups_of(exports).len() && (#[trigger] groups_of(exports)[k]).js_mod == (
                #[trigger] exports[i]).js_mod,
        forall|k: int|
            0 <= k < groups_of(exports).len() ==> (#[trigger] groups_of(exports)[k]).items.len()
                > 0,
{
    let groups = groups_of(exports);
    law_modules_are_those_of_the_exports(exports);
    assert forall|k: int| 0 <= k < groups.len() implies (#[trigger] groups[k]).items
        == exports.filter(|e: ExportView| e.js_mod == groups[k].js_mod) by {
        assert(groups[k].js_mod == modules_of(exports)[k]);
    }
    assert forall|k: int, l: int| 0 <= k < l < groups.len() implies (#[trigger] groups[k]).js_mod
        != (#[trigger] groups[l]).js_mod by {
        assert(modules_of(exports)[k] != modules_of(exports)[l]);
    }
    assert forall|i: int| 0 <= i < exports.len() implies exists|k: int|
        0 <= k < groups.len() && (#[trigger] groups[k]).js_mod == (#[trigger] exports[i]).js_mod by {
        let m = exports[i].js_mod;
        assert(modules_of(exports).contains(m));
        let k = choose|k: int| 0 <= k < modules_of(exports).len() && modules_of(exports)[k] == m;
        assert(groups[k].js_mod == m);
    }
    assert forall|k: int| 0 <= k < groups.len() implies (#[trigger] groups[k]).items.len() > 0 by {
        law_groups_hold_their_own(exports, k);
    }
}

/// The model of an export, of a list of exports and of a group is what they hold, item by item.
pub proof fn law_exports_are_what_they_hold(exports: Seq<ModuleExport>, group: ModuleGroup)
    ensures
        exports_view(exports).len() == exports.len(),
        forall|i: int|
            0 <= i < exports.len() ==> {
                &&& (#[trigger] exports_view(exports)[i]).name == exports[i].name@
                &&& exports_view(exports)[i].callback == exports[i].callback
                &&& exports_view(exports)[i].js_mod == match exports[i].js_mod {
                    Some(name) => Some(name@),
                    None => None,
                }
            },
        group@.items == exports_view(group.items@),
        group@.js_mod == match group.js_mod {
            Some(name) => Some(name@),
            None => None,
        },
{
}

/// Where the group of `js_mod` stands, if there is one.
fn find_group(groups: &Vec<ModuleGroup>, js_mod: Option<&'static str>) -> (found: Option<usize>)
    ensures
        match found {
            Some(k) => k < groups@.len() && groups@[k as int]@.js_mod == module_view(js_mod),
            None => forall|k: int|
                0 <= k < groups@.len() ==> (#[trigger] groups@[k])@.js_mod != module_view(js_mod),
        },
{
    let mut k: usize = 0;
    while k < groups.len()
        invariant
            k <= groups@.len(),
            forall|j: int|
                0 <= j < k ==> (#[trigger] groups@[j])@.js_mod != module_view(js_mod),
        decreases groups@.len() - k,
    {
        if same_module(groups[k].js_mod, js_mod) {
            return Some(k);
        }
        k += 1;
    }
    None
}

/// Gathers `exports` by module: one group for each module, in the order in which the modules
/// first occur; within a group the exports keep their order.
pub fn group_by_module(exports: &[ModuleExport]) -> (groups: Vec<ModuleGroup>)
    ensures
        groups_view(groups@) == groups_of(exports_view(exports@)),
{
    let ghost all = exports_view(exports@);
    let mut groups: Vec<ModuleGroup> = Vec::new();
    let mut i: usize = 0;
    assert(groups_view(groups@) =~= groups_of(all.take(0)));
    while i < exports.len()
        invariant
            i <= exports@.len(),
            all == exports_view(exports@),
            groups_view(groups@) == groups_of(all.take(i as int)),
        decreases exports@.len() - i,
    {
        let item = exports[i];
        let ghost seen = all.take(i as int);
        let ghost before = groups_view(groups@);
        proof {
            assert(all.take(i + 1) =~= seen.push(item@));
            lemma_modules_of_push(seen, item@);
            law_modules_are_those_of_the_exports(seen);
            assert(groups@.len() == before.len());
            assert(groups_of(seen).len() == modules_of(seen).len());
            assert forall|k: int| 0 <= k < groups@.len() implies (#[trigger] groups@[k])@.js_mod
                == modules_of(seen)[k] by {
                assert(before[k] == groups@[k]@);
                assert(before[k] == groups_of(seen)[k]);
            }
        }
        match find_group(&groups, item.js_mod) {
            Some(k) => {
                groups[k].items.push(item);
                proof {
                    assert(modules_of(seen)[k as int] == item@.js_mod);
                    assert(modules_of(seen).contains(item@.js_mod));
                    assert(exports_view(groups@[k as int].items@) =~= before[k as int].items.push(
                        item@,
                    ));
                    let after = groups_view(groups@);
                    assert forall|j: int| 0 <= j < before.len() implies after[j]
                        == #[trigger] groups_of(seen.push(item@))[j] by {
                        assert(before[j] == groups_of(seen)[j]);
                        assert(after[j].js_mod == modules_of(seen)[j]);
                        lemma_exports_of_push(seen, item@, modules_of(seen)[j]);
                        if j != k {
                            assert(modules_of(seen)[j] != modules_of(seen)[k as int]);
                            assert(after[j] == before[j]);
                        }
                        assert(after[j].items =~= exports_of(
                            seen.push(item@),
                            modules_of(seen)[j],
                        ));
                    }
                    assert(groups_view(groups@) =~= groups_of(seen.push(item@)));
                }
            },
            None => {
                let mut items: Vec<ModuleExport> = Vec::new();
                items.push(item);
                groups.push(ModuleGroup { js_mod: item.js_mod, items });
                proof {
                    assert(!modules_of(seen).contains(item@.js_mod)) by {
                        if modules_of(seen).contains(item@.js_mod) {
                            let k = choose|k: int|
                                0 <= k < modules_of(seen).len() && modules_of(seen)[k]
                                    == item@.js_mod;
                            assert(before[k].js_mod == item@.js_mod);
                        }
                    }
                    assert(exports_of(seen, item@.js_mod) =~= Seq::empty()) by {
                        lemma_no_exports(seen, item@.js_mod);
                    }
                    let after = groups_view(groups@);
                    lemma_exports_of_push(seen, item@, item@.js_mod);
                    assert(after.last().items =~= exports_of(seen.push(item@), item@.js_mod));
                    assert forall|k: int| 0 <= k < before.len() implies after[k]
                        == #[trigger] groups_of(seen.push(item@))[k] by {
                        assert(before[k] == groups_of(seen)[k]);
                        assert(after[k] == before[k]);
                        assert(modules_of(seen)[k] != item@.js_mod);
                        lemma_exports_of_push(seen, item@, modules_of(seen)[k]);
                    }
                    assert(groups_view(groups@) =~= groups_of(seen.push(item@)));
                }
            },
        }
        i += 1;
    }
    assert(all.take(exports@.len() as int) =~= all);
    groups
}

pub(crate) proof fn lemma_no_exports(exports: Seq<ExportView>, m: Option<Seq<char>>)
    requires
        !modules_of(exports).contains(m),
    ensures
        exports_of(exports, m) == Seq::<ExportView>::empty(),
    decreases exports.len(),
{
    reveal(Seq::filter);
    if exports.len() > 0 {
        let before = exports.drop_last();
        lemma_modules_of_push(before, exports.last());
        assert(before.push(exports.last()) =~= exports);
        if modules_of(before).contains(m) {
            let k = choose|k: int| 0 <= k < modules_of(before).len() && modules_of(before)[k] == m;
            assert(modules_of(exports)[k] == m);
        }
        assert(modules_of(exports).contains(exports.last().js_mod)) by {
            let all = modules_of(exports);
            if !modules_of(before).contains(exports.last().js_mod) {
                assert(all[all.len() - 1] == exports.last().js_mod);
            }
        }
        lemma_no_exports(before, m);
    }
}

} // verus!
