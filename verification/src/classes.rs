//! The classes that wait to be defined, and how one is put before the engine.
use vstd::prelude::*;

use crate::names::{module_view, same_module, same_name};
use crate::sys::{Callback, Property, PropertyDescriptor};

verus! {

/// What is known of the class of one struct in one module.
#[derive(Debug, PartialEq, Eq)]
pub struct ClassEntry {
    pub rust_name: &'static str,
    pub js_mod: Option<&'static str>,
    pub js_name: &'static str,
    pub properties: Vec<Property>,
}

/// The model of a `ClassEntry`.
#[verifier::ext_equal]
pub struct ClassView {
    pub rust_name: Seq<char>,
    pub js_mod: Option<Seq<char>>,
    pub js_name: Seq<char>,
    pub properties: Seq<Property>,
}

impl View for ClassEntry {
    type V = ClassView;

    open spec fn view(&self) -> ClassView {
        ClassView {
            rust_name: self.rust_name@,
            js_mod: module_view(self.js_mod),
            js_name: self.js_name@,
            properties: self.properties@,
        }
    }
}

/// The model of a list of classes.
pub open spec fn classes_view(entries: Seq<ClassEntry>) -> Seq<ClassView> {
    entries.map_values(|e: ClassEntry| e@)
}

/// Whether `class` is that of the struct `rust_name` in the module `js_mod`.
pub open spec fn is_class(
    class: ClassView,
    rust_name: Seq<char>,
    js_mod: Option<Seq<char>>,
) -> bool {
    class.rust_name == rust_name && class.js_mod == js_mod
}

/// Whether `classes` holds the class of the struct `rust_name` in the module `js_mod`.
pub open spec fn has_class(
    classes: Seq<ClassView>,
    rust_name: Seq<char>,
    js_mod: Option<Seq<char>>,
) -> bool {
    exists|i: int| 0 <= i < classes.len() && is_class(#[trigger] classes[i], rust_name, js_mod)
}

/// Where that class stands.
pub open spec fn class_position(
    classes: Seq<ClassView>,
    rust_name: Seq<char>,
    js_mod: Option<Seq<char>>,
) -> int {
    choose|i: int| 0 <= i < classes.len() && is_class(#[trigger] classes[i], rust_name, js_mod)
}

/// That class, if it is there.
pub open spec fn class_of(
    classes: Seq<ClassView>,
    rust_name: Seq<char>,
    js_mod: Option<Seq<char>>,
) -> Option<ClassView> {
    if has_class(classes, rust_name, js_mod) {
        Some(classes[class_position(classes, rust_name, js_mod)])
    } else {
        None
    }
}

/// Where the last class of the struct `rust_name` stands; -1 where the struct has none.
pub open spec fn last_of_struct(classes: Seq<ClassView>, rust_name: Seq<char>) -> int
    decreases classes.len(),
{
    if classes.len() == 0 {
        -1
    } else if classes.last().rust_name == rust_name {
        classes.len() - 1
    } else {
        last_of_struct(classes.drop_last(), rust_name)
    }
}

/// Where a new class of the struct `rust_name` goes: right behind the last one of the struct, or
/// at the end where the struct has none.
pub open spec fn slot_of_struct(classes: Seq<ClassView>, rust_name: Seq<char>) -> int {
    if last_of_struct(classes, rust_name) < 0 {
        classes.len() as int
    } else {
        last_of_struct(classes, rust_name) + 1
    }
}

/// `classes` after a registration: a class that was not there yet is put right behind those of
/// its struct; one that was there takes the new JavaScript name and keeps its properties, with
/// the new ones behind them.
pub open spec fn with_class(
    classes: Seq<ClassView>,
    rust_name: Seq<char>,
    js_mod: Option<Seq<char>>,
    js_name: Seq<char>,
    properties: Seq<Property>,
) -> Seq<ClassView> {
    if has_class(classes, rust_name, js_mod) {
        let i = class_position(classes, rust_name, js_mod);
        classes.update(
            i,
            ClassView { js_name, properties: classes[i].properties + properties, ..classes[i] },
        )
    } else {
        classes.insert(
            slot_of_struct(classes, rust_name),
            ClassView { rust_name, js_mod, js_name, properties },
        )
    }
}

/// Each struct has at most one class in each module, and the classes of a struct stand together.
pub open spec fn classes_wf(classes: Seq<ClassView>) -> bool {
    &&& forall|i: int, j: int|
        0 <= i < j < classes.len() ==> !is_class(
            #[trigger] classes[j],
            (#[trigger] classes[i]).rust_name,
            classes[i].js_mod,
        )
    &&& forall|i: int, j: int, k: int|
        0 <= i <= j <= k < classes.len() && (#[trigger] classes[i]).rust_name == (
        #[trigger] classes[k]).rust_name ==> (#[trigger] classes[j]).rust_name
            == classes[i].rust_name
}

proof fn lemma_last_of_struct(classes: Seq<ClassView>, rust_name: Seq<char>)
    ensures
        -1 <= last_of_struct(classes, rust_name) < classes.len(),
        last_of_struct(classes, rust_name) >= 0 ==> classes[last_of_struct(
            classes,
            rust_name,
        )].rust_name == rust_name,
        forall|i: int|
            last_of_struct(classes, rust_name) < i < classes.len() ==> (
            #[trigger] classes[i]).rust_name != rust_name,
    decreases classes.len(),
{
    if classes.len() > 0 && classes.last().rust_name != rust_name {
        lemma_last_of_struct(classes.drop_last(), rust_name);
        let before = classes.drop_last();
        assert forall|i: int|
            last_of_struct(classes, rust_name) < i < classes.len() implies (
        #[trigger] classes[i]).rust_name != rust_name by {
            if i < before.len() {
                assert(before[i] == classes[i]);
            }
        }
    }
}

proof fn lemma_last_of_struct_is(classes: Seq<ClassView>, rust_name: Seq<char>, last: int)
    requires
        -1 <= last < classes.len(),
        last >= 0 ==> classes[last].rust_name == rust_name,
        forall|i: int|
            last < i < classes.len() ==> (#[trigger] classes[i]).rust_name != rust_name,
    ensures
        last_of_struct(classes, rust_name) == last,
{
    lemma_last_of_struct(classes, rust_name);
    let other = last_of_struct(classes, rust_name);
    if other < last {
        assert(classes[last].rust_name != rust_name);
    } else if last < other {
        assert(classes[other].rust_name != rust_name);
    }
}

proof fn lemma_class_position(
    classes: Seq<ClassView>,
    rust_name: Seq<char>,
    js_mod: Option<Seq<char>>,
    i: int,
)
    requires
        classes_wf(classes),
        0 <= i < classes.len(),
        is_class(classes[i], rust_name, js_mod),
    ensures
        has_class(classes, rust_name, js_mod),
        class_position(classes, rust_name, js_mod) == i,
{
    let j = class_position(classes, rust_name, js_mod);
    assert(is_class(classes[j], rust_name, js_mod));
    if i < j {
        assert(!is_class(classes[j], classes[i].rust_name, classes[i].js_mod));
    } else if j < i {
        assert(!is_class(classes[i], classes[j].rust_name, classes[j].js_mod));
    }
}

/// A registration keeps the table in order, sets the class that it names, and leaves every other
/// class as it was.
pub proof fn law_registering_a_class(
    classes: Seq<ClassView>,
    rust_name: Seq<char>,
    js_mod: Option<Seq<char>>,
    js_name: Seq<char>,
    properties: Seq<Property>,
)
    requires
        classes_wf(classes),
    ensures
        classes_wf(with_class(classes, rust_name, js_mod, js_name, properties)),
        class_of(
            with_class(classes, rust_name, js_mod, js_name, properties),
            rust_name,
            js_mod,
        ) == Some(
            ClassView {
                rust_name,
                js_mod,
                js_name,
                properties: match class_of(classes, rust_name, js_mod) {
                    Some(class) => class.properties + properties,
                    None => properties,
                },
            },
        ),
        forall|r: Seq<char>, m: Option<Seq<char>>|
            (r, m) != (rust_name, js_mod) ==> #[trigger] class_of(
                with_class(classes, rust_name, js_mod, js_name, properties),
                r,
                m,
            ) == class_of(classes, r, m),
{
    let after = with_class(classes, rust_name, js_mod, js_name, properties);
    lemma_last_of_struct(classes, rust_name);
    let slot = slot_of_struct(classes, rust_name);
    let there = has_class(classes, rust_name, js_mod);
    let at = if there { class_position(classes, rust_name, js_mod) } else { slot };
    let shift = |i: int| if there || i < slot { i } else { i + 1 };
    let unshift = |i: int| if there || i < slot { i } else { i - 1 };
    if !there {
        classes.insert_ensures(slot, after[slot]);
    }
    assert forall|i: int| 0 <= i < classes.len() && !(there && i == at) implies
        #[trigger] after[shift(i)] == classes[i] by {
    }
    assert forall|i: int| 0 <= i < after.len() && i != at implies #[trigger] after[i]
        == classes[unshift(i)] by {
    }
    assert(classes_wf(after)) by {
        assert forall|i: int, j: int| 0 <= i < j < after.len() implies !is_class(
            #[trigger] after[j],
            (#[trigger] after[i]).rust_name,
            after[i].js_mod,
        ) by {
            if there {
                assert(!is_class(classes[j], classes[i].rust_name, classes[i].js_mod));
            } else if i != at && j != at {
                assert(!is_class(
                    classes[unshift(j)],
                    classes[unshift(i)].rust_name,
                    classes[unshift(i)].js_mod,
                ));
            } else if i == at {
                assert(!is_class(classes[unshift(j)], rust_name, js_mod));
            } else {
                assert(!is_class(classes[unshift(i)], rust_name, js_mod));
            }
        }
        assert forall|i: int, j: int, k: int|
            0 <= i <= j <= k < after.len() && (#[trigger] after[i]).rust_name == (
            #[trigger] after[k]).rust_name implies (#[trigger] after[j]).rust_name
            == after[i].rust_name by {
            let name = after[i].rust_name;
            if there {
                assert(classes[j].rust_name == classes[i].rust_name);
            } else if i == j || j == k {
            } else if i != at && j != at && k != at {
                assert(classes[unshift(j)].rust_name == classes[unshift(i)].rust_name);
            } else if j == at {
                assert(classes[slot - 1].rust_name == name) by {
                    assert(classes[i].rust_name == classes[k - 1].rust_name);
                }
                if slot < classes.len() {
                    assert(classes[slot - 1].rust_name == rust_name);
                }
            } else if k == at {
                let last = last_of_struct(classes, rust_name);
                assert(classes[i].rust_name == rust_name);
                assert(last >= 0 && i <= last);
                assert(j <= last);
                assert(classes[j].rust_name == classes[i].rust_name);
            } else {
                assert(classes[k - 1].rust_name == rust_name);
            }
        }
    }
    if there {
        assert(is_class(classes[at], rust_name, js_mod));
    }
    assert(is_class(after[at], rust_name, js_mod));
    lemma_class_position(after, rust_name, js_mod, at);
    assert forall|r: Seq<char>, m: Option<Seq<char>>| (r, m) != (
        rust_name,
        js_mod,
    ) implies #[trigger] class_of(after, r, m) == class_of(classes, r, m) by {
        if has_class(classes, r, m) {
            let p = class_position(classes, r, m);
            assert(is_class(classes[p], r, m));
            assert(after[shift(p)] == classes[p]);
            lemma_class_position(after, r, m, shift(p));
        } else if has_class(after, r, m) {
            let p = class_position(after, r, m);
            assert(is_class(after[p], r, m));
            assert(p != at);
            assert(is_class(classes[unshift(p)], r, m));
        }
    }
}

/// A registration touches one class: where the struct has a class in the module, that one takes
/// the new name and the new properties behind its own; where it has none, one is added with what
/// was registered. Every other class stays as it is and where it is, but that those behind an
/// added one move up by one.
pub proof fn law_a_registration_touches_one_class(
    classes: Seq<ClassView>,
    rust_name: Seq<char>,
    js_mod: Option<Seq<char>>,
    js_name: Seq<char>,
    properties: Seq<Property>,
)
    ensures
        ({
            let after = with_class(classes, rust_name, js_mod, js_name, properties);
            let there = exists|i: int|
                0 <= i < classes.len() && (#[trigger] classes[i]).rust_name == rust_name
                    && classes[i].js_mod == js_mod;
            &&& there ==> exists|i: int|
                0 <= i < classes.len() && (#[trigger] classes[i]).rust_name == rust_name
                    && classes[i].js_mod == js_mod && after == classes.update(
                    i,
                    ClassView {
                        rust_name,
                        js_mod,
                        js_name,
                        properties: classes[i].properties + properties,
                    },
                )
            &&& !there ==> exists|i: int|
                0 <= i <= classes.len() && after == #[trigger] classes.insert(
                    i,
                    ClassView { rust_name, js_mod, js_name, properties },
                )
        }),
{
    let after = with_class(classes, rust_name, js_mod, js_name, properties);
    lemma_last_of_struct(classes, rust_name);
    if has_class(classes, rust_name, js_mod) {
        let i = class_position(classes, rust_name, js_mod);
        assert(is_class(classes[i], rust_name, js_mod));
        assert(after == classes.update(
            i,
            ClassView {
                rust_name,
                js_mod,
                js_name,
                properties: classes[i].properties + properties,
            },
        ));
    } else {
        assert forall|i: int| 0 <= i < classes.len() implies !((
        #[trigger] classes[i]).rust_name == rust_name && classes[i].js_mod == js_mod) by {
            assert(!is_class(classes[i], rust_name, js_mod));
        }
        let slot = slot_of_struct(classes, rust_name);
        assert(after == classes.insert(
            slot,
            ClassView { rust_name, js_mod, js_name, properties },
        ));
    }
}

/// A class that is looked up is the one of that struct in that module, and it is not found only
/// where there is none.
pub proof fn law_a_class_is_found_by_struct_and_module(
    classes: Seq<ClassView>,
    rust_name: Seq<char>,
    js_mod: Option<Seq<char>>,
)
    ensures
        match class_of(classes, rust_name, js_mod) {
            Some(class) => {
                &&& class.rust_name == rust_name
                &&& class.js_mod == js_mod
                &&& classes.contains(class)
            },
            None => forall|i: int|
                0 <= i < classes.len() ==> (#[trigger] classes[i]).rust_name != rust_name
                    || classes[i].js_mod != js_mod,
        },
{
    if has_class(classes, rust_name, js_mod) {
        let i = class_position(classes, rust_name, js_mod);
        assert(is_class(classes[i], rust_name, js_mod));
    } else {
        assert forall|i: int| 0 <= i < classes.len() implies (#[trigger] classes[i]).rust_name
            != rust_name || classes[i].js_mod != js_mod by {
            assert(!is_class(classes[i], rust_name, js_mod));
        }
    }
}

/// The classes that wait to be defined.
pub struct ClassTable {
    entries: Vec<ClassEntry>,
}

impl View for ClassTable {
    type V = Seq<ClassView>;

    closed spec fn view(&self) -> Seq<ClassView> {
        classes_view(self.entries@)
    }
}

impl ClassTable {
    /// The empty table.
    pub fn new() -> (table: Self)
        ensures
            table@ == Seq::<ClassView>::empty(),
            classes_wf(table@),
    {
        let table = ClassTable { entries: Vec::new() };
        assert(table@ =~= Seq::<ClassView>::empty());
        table
    }

    /// The classes, for reading.
    pub fn entries(&self) -> (entries: &Vec<ClassEntry>)
        ensures
            classes_view(entries@) == self@,
    {
        &self.entries
    }

    fn position(&self, rust_name: &'static str, js_mod: Option<&'static str>) -> (found: Option<
        usize,
    >)
        requires
            classes_wf(self@),
        ensures
            match found {
                Some(i) => {
                    &&& i < self@.len()
                    &&& has_class(self@, rust_name@, module_view(js_mod))
                    &&& i == class_position(self@, rust_name@, module_view(js_mod))
                },
                None => !has_class(self@, rust_name@, module_view(js_mod)),
            },
    {
        let mut i: usize = 0;
        while i < self.entries.len()
            invariant
                classes_wf(self@),
                i <= self.entries@.len(),
                forall|j: int|
                    0 <= j < i ==> !is_class(#[trigger] self@[j], rust_name@, module_view(js_mod)),
            decreases self.entries@.len() - i,
        {
            let entry = &self.entries[i];
            assert(self@[i as int] == entry@);
            if same_name(entry.rust_name, rust_name) && same_module(entry.js_mod, js_mod) {
                proof {
                    lemma_class_position(self@, rust_name@, module_view(js_mod), i as int);
                }
                return Some(i);
            }
            i += 1;
        }
        None
    }

    fn slot(&self, rust_name: &'static str) -> (slot: usize)
        ensures
            slot == slot_of_struct(self@, rust_name@),
    {
        let mut i: usize = self.entries.len();
        while i > 0
            invariant
                i <= self.entries@.len(),
                forall|j: int|
                    i <= j < self@.len() ==> (#[trigger] self@[j]).rust_name != rust_name@,
            decreases i,
        {
            assert(self@[i - 1] == self.entries@[i - 1]@);
            if same_name(self.entries[i - 1].rust_name, rust_name) {
                proof {
                    lemma_last_of_struct_is(self@, rust_name@, i - 1);
                }
                return i;
            }
            i -= 1;
        }
        proof {
            lemma_last_of_struct_is(self@, rust_name@, -1);
        }
        self.entries.len()
    }

    /// Adds `properties` to the class of the struct `rust_name` in the module `js_mod`, and names
    /// that class `js_name` from now on.
    pub fn register(
        &mut self,
        rust_name: &'static str,
        js_mod: Option<&'static str>,
        js_name: &'static str,
        properties: Vec<Property>,
    )
        requires
            classes_wf(old(self)@),
        ensures
            classes_wf(final(self)@),
            final(self)@ == with_class(
                old(self)@,
                rust_name@,
                module_view(js_mod),
                js_name@,
                properties@,
            ),
    {
        proof {
            law_registering_a_class(
                self@,
                rust_name@,
                module_view(js_mod),
                js_name@,
                properties@,
            );
            lemma_last_of_struct(self@, rust_name@);
        }
        let ghost added = properties@;
        let mut properties = properties;
        match self.position(rust_name, js_mod) {
            Some(i) => {
                self.entries[i].js_name = js_name;
                self.entries[i].properties.append(&mut properties);
            },
            None => {
                let slot = self.slot(rust_name);
                self.entries.insert(slot, ClassEntry { rust_name, js_mod, js_name, properties });
            },
        }
        assert(self@ =~= with_class(
            old(self)@,
            rust_name@,
            module_view(js_mod),
            js_name@,
            added,
        ));
    }
}

/// What runs when a script constructs an instance.
#[derive(Debug, Clone, Copy, PartialEq, Eq)]
pub enum Constructor {
    /// The class has no constructor of its own.
    Noop,
    /// The callback of the property that is the constructor.
    Method(Callback),
}

/// What the constructor of a class that has none of its own throws: an instance can only be
/// handed out by a factory, which runs this constructor too.
pub fn noop(called_from_factory: bool) -> (throw: Option<&'static str>)
    ensures
        match throw {
            Some(message) => !called_from_factory && message@
                == "Class contains no `constructor`, can not new it!"@,
            None => called_from_factory,
        },
{
    if called_from_factory {
        None
    } else {
        Some("Class contains no `constructor`, can not new it!")
    }
}

/// A class as it is put before the engine.
#[derive(Debug, PartialEq, Eq)]
pub struct ClassDefinition {
    pub rust_name: &'static str,
    pub js_name: &'static str,
    pub constructor: Constructor,
    pub properties: Vec<PropertyDescriptor>,
}

/// The model of a `ClassDefinition`.
#[verifier::ext_equal]
pub struct ClassDefinitionView {
    pub rust_name: Seq<char>,
    pub js_name: Seq<char>,
    pub constructor: Constructor,
    pub properties: Seq<PropertyDescriptor>,
}

impl View for ClassDefinition {
    type V = ClassDefinitionView;

    open spec fn view(&self) -> ClassDefinitionView {
        ClassDefinitionView {
            rust_name: self.rust_name@,
            js_name: self.js_name@,
            constructor: self.constructor,
            properties: self.properties@,
        }
    }
}

/// The properties that are constructors.
pub open spec fn constructors_of(properties: Seq<Property>) -> Seq<Property> {
    properties.filter(|p: Property| p.is_ctor)
}

/// The descriptors of the properties that are not constructors.
pub open spec fn members_of(properties: Seq<Property>) -> Seq<PropertyDescriptor> {
    properties.filter(|p: Property| !p.is_ctor).map_values(|p: Property| p.descriptor)
}

/// Whether the class can be put before the engine: it has a name, and the first of its
/// constructors, if it has any, has a callback.
pub open spec fn definable(class: ClassView) -> bool {
    &&& class.js_name.len() > 0
    &&& constructors_of(class.properties).len() > 0 ==> constructors_of(
        class.properties,
    )[0].descriptor.method is Some
}

/// Whether each of the classes can be put before the engine.
pub open spec fn all_definable(classes: Seq<ClassView>) -> bool {
    forall|i: int| 0 <= i < classes.len() ==> definable(#[trigger] classes[i])
}

/// The first constructor is the one that runs; the other properties are the members, in order.
pub open spec fn definition_of(class: ClassView) -> ClassDefinitionView {
    ClassDefinitionView {
        rust_name: class.rust_name,
        js_name: class.js_name,
        constructor: if constructors_of(class.properties).len() > 0 {
            Constructor::Method(constructors_of(class.properties)[0].descriptor.method->0)
        } else {
            Constructor::Noop
        },
        properties: members_of(class.properties),
    }
}

proof fn lemma_partition_push(properties: Seq<Property>, p: Property)
    ensures
        constructors_of(properties.push(p)) == if p.is_ctor {
            constructors_of(properties).push(p)
        } else {
            constructors_of(properties)
        },
        members_of(properties.push(p)) == if p.is_ctor {
            members_of(properties)
        } else {
            members_of(properties).push(p.descriptor)
        },
{
    reveal(Seq::filter);
    assert(properties.push(p).drop_last() =~= properties);
    if !p.is_ctor {
        assert(members_of(properties.push(p)) =~= members_of(properties).push(p.descriptor));
    }
}

/// Whether the property at `k` is the first constructor.
pub open spec fn is_first_constructor(properties: Seq<Property>, k: int) -> bool {
    &&& 0 <= k < properties.len()
    &&& properties[k].is_ctor
    &&& forall|j: int| 0 <= j < k ==> !(#[trigger] properties[j]).is_ctor
}

proof fn lemma_first_constructor(properties: Seq<Property>, k: int)
    requires
        is_first_constructor(properties, k),
    ensures
        constructors_of(properties).len() > 0,
        constructors_of(properties)[0] == properties[k],
    decreases properties.len(),
{
    let before = properties.drop_last();
    assert(before.push(properties.last()) =~= properties);
    lemma_partition_push(before, properties.last());
    if k < before.len() {
        assert forall|j: int| 0 <= j < k implies !(#[trigger] before[j]).is_ctor by {
            assert(!properties[j].is_ctor);
        }
        lemma_first_constructor(before, k);
    } else {
        assert forall|j: int| 0 <= j < before.len() implies !(#[trigger] before[j]).is_ctor by {
            assert(!properties[j].is_ctor);
        }
        lemma_no_constructor(before);
    }
}

proof fn lemma_no_constructor(properties: Seq<Property>)
    requires
        forall|j: int| 0 <= j < properties.len() ==> !(#[trigger] properties[j]).is_ctor,
    ensures
        constructors_of(properties) == Seq::<Property>::empty(),
    decreases properties.len(),
{
    reveal(Seq::filter);
    if properties.len() > 0 {
        let before = properties.drop_last();
        assert forall|j: int| 0 <= j < before.len() implies !(#[trigger] before[j]).is_ctor by {
            assert(!properties[j].is_ctor);
        }
        lemma_no_constructor(before);
        assert(!properties[properties.len() - 1].is_ctor);
    }
}

proof fn lemma_some_constructor(properties: Seq<Property>) -> (k: int)
    requires
        constructors_of(properties).len() > 0,
    ensures
        is_first_constructor(properties, k),
    decreases properties.len(),
{
    reveal(Seq::filter);
    let before = properties.drop_last();
    if constructors_of(before).len() > 0 {
        let k = lemma_some_constructor(before);
        assert(properties[k] == before[k]);
        assert forall|j: int| 0 <= j < k implies !(#[trigger] properties[j]).is_ctor by {
            assert(!before[j].is_ctor);
        }
        k
    } else {
        let k = properties.len() - 1;
        assert forall|j: int| 0 <= j < k implies !(#[trigger] properties[j]).is_ctor by {
            if properties[j].is_ctor {
                before.lemma_filter_contains(|p: Property| p.is_ctor, j);
            }
        }
        k
    }
}

/// A class is defined under its own names, with the descriptors of all its properties that are not
/// constructors, each once and in the order of registration, and with no others. What runs when a
/// script constructs an instance is the method of the first property that is a constructor, and
/// nothing of its own only where no property is one.
pub proof fn law_a_definition_holds_every_property(class: ClassView)
    ensures
        definition_of(class).rust_name == class.rust_name,
        definition_of(class).js_name == class.js_name,
        definition_of(class).properties == class.properties.filter(
            |p: Property| !p.is_ctor,
        ).map_values(|p: Property| p.descriptor),
        forall|k: int|
            #![trigger class.properties[k]]
            0 <= k < class.properties.len() && class.properties[k].is_ctor && (forall|j: int|
                0 <= j < k ==> !(#[trigger] class.properties[j]).is_ctor)
                ==> definition_of(class).constructor == Constructor::Method(
                class.properties[k].descriptor.method->0,
            ),
        (forall|j: int|
            0 <= j < class.properties.len() ==> !(#[trigger] class.properties[j]).is_ctor)
            ==> definition_of(class).constructor == Constructor::Noop,
        forall|k: int|
            0 <= k < class.properties.len() && !(#[trigger] class.properties[k]).is_ctor
                ==> definition_of(class).properties.contains(class.properties[k].descriptor),
{
    let properties = class.properties;
    assert forall|k: int|
        #![trigger class.properties[k]]
        0 <= k < class.properties.len() && class.properties[k].is_ctor && (forall|j: int|
            0 <= j < k ==> !(#[trigger] class.properties[j]).is_ctor) implies definition_of(
        class,
    ).constructor == Constructor::Method(class.properties[k].descriptor.method->0) by {
        assert(is_first_constructor(properties, k));
        lemma_first_constructor(properties, k);
    }
    if forall|j: int| 0 <= j < properties.len() ==> !(#[trigger] properties[j]).is_ctor {
        lemma_no_constructor(properties);
    }
    let member = |p: Property| !p.is_ctor;
    assert forall|k: int| 0 <= k < properties.len() && !(#[trigger] properties[k]).is_ctor implies
        definition_of(class).properties.contains(properties[k].descriptor) by {
        properties.lemma_filter_contains(member, k);
        let members = properties.filter(member);
        let i = choose|i: int| 0 <= i < members.len() && members[i] == properties[k];
        assert(definition_of(class).properties[i] == properties[k].descriptor);
    }
}

/// A class can be put before the engine exactly where it has a name and the first property that is
/// a constructor, if one is, has a method.
pub proof fn law_what_keeps_a_class_from_being_defined(class: ClassView)
    ensures
        definable(class) <==> class.js_name.len() > 0 && forall|k: int|
            #![trigger class.properties[k]]
            0 <= k < class.properties.len() && class.properties[k].is_ctor && (forall|j: int|
                0 <= j < k ==> !(#[trigger] class.properties[j]).is_ctor)
                ==> class.properties[k].descriptor.method is Some,
{
    let properties = class.properties;
    assert forall|k: int|
        #![trigger class.properties[k]]
        0 <= k < class.properties.len() && class.properties[k].is_ctor && (forall|j: int|
            0 <= j < k ==> !(#[trigger] class.properties[j]).is_ctor) && definable(
            class,
        ) implies class.properties[k].descriptor.method is Some by {
        assert(is_first_constructor(properties, k));
        lemma_first_constructor(properties, k);
    }
    if constructors_of(properties).len() > 0 {
        let k = lemma_some_constructor(properties);
        lemma_first_constructor(properties, k);
        assert(class.properties[k].is_ctor);
    }
}

/// Classes can be put before the engine where each of them can.
pub proof fn law_one_class_can_keep_all_from_being_defined(classes: Seq<ClassView>)
    ensures
        all_definable(classes) <==> forall|i: int|
            0 <= i < classes.len() ==> definable(#[trigger] classes[i]),
{
}

/// The model of a list of classes is what it holds, class by class.
pub proof fn law_classes_are_what_they_hold(entries: Seq<ClassEntry>)
    ensures
        classes_view(entries).len() == entries.len(),
        forall|i: int|
            0 <= i < entries.len() ==> {
                &&& (#[trigger] classes_view(entries)[i]).rust_name == entries[i].rust_name@
                &&& classes_view(entries)[i].js_name == entries[i].js_name@
                &&& classes_view(entries)[i].properties == entries[i].properties@
                &&& classes_view(entries)[i].js_mod == match entries[i].js_mod {
                    Some(name) => Some(name@),
                    None => None,
                }
            },
{
}

/// Parts the properties: the first constructor, if there is one, and the descriptors of those
/// that are not constructors.
fn partition(properties: &Vec<Property>) -> (parts: (Option<Property>, Vec<PropertyDescriptor>))
    ensures
        parts.0 == (if constructors_of(properties@).len() > 0 {
            Some(constructors_of(properties@)[0])
        } else {
            None
        }),
        parts.1@ == members_of(properties@),
{
    let mut first: Option<Property> = None;
    let mut members: Vec<PropertyDescriptor> = Vec::new();
    let mut i: usize = 0;
    proof {
        reveal(Seq::filter);
        assert(members@ =~= members_of(properties@.take(0)));
    }
    while i < properties.len()
        invariant
            i <= properties@.len(),
            first == (if constructors_of(properties@.take(i as int)).len() > 0 {
                Some(constructors_of(properties@.take(i as int))[0])
            } else {
                None
            }),
            members@ == members_of(properties@.take(i as int)),
        decreases properties@.len() - i,
    {
        let property = properties[i];
        proof {
            lemma_partition_push(properties@.take(i as int), property);
            assert(properties@.take(i + 1) =~= properties@.take(i as int).push(property));
        }
        if property.is_ctor {
            if first.is_none() {
                first = Some(property);
            }
        } else {
            members.push(property.raw());
        }
        i += 1;
    }
    assert(properties@.take(properties@.len() as int) =~= properties@);
    (first, members)
}

impl ClassEntry {
    /// Whether the class can be put before the engine.
    pub fn is_definable(&self) -> (yes: bool)
        ensures
            yes == definable(self@),
            yes ==> self.js_name@.len() > 0,
    {
        if self.js_name.is_empty() {
            return false;
        }
        match partition(&self.properties).0 {
            Some(constructor) => constructor.raw().method.is_some(),
            None => true,
        }
    }

    /// The class as it is put before the engine.
    pub fn definition(&self) -> (definition: ClassDefinition)
        requires
            definable(self@),
        ensures
            definition@ == definition_of(self@),
            definition.rust_name@ == self.rust_name@,
            definition.js_name@ == self.js_name@,
            definition.properties@ == self.properties@.filter(
                |p: Property| !p.is_ctor,
            ).map_values(|p: Property| p.descriptor),
            forall|k: int|
                #![trigger self.properties@[k]]
                0 <= k < self.properties@.len() && self.properties@[k].is_ctor && (forall|j: int|
                    0 <= j < k ==> !(#[trigger] self.properties@[j]).is_ctor)
                    ==> Some(definition.constructor) == (match self.properties@[k].descriptor.method {
                    Some(method) => Some(Constructor::Method(method)),
                    None => None,
                }),
            (forall|j: int|
                0 <= j < self.properties@.len() ==> !(#[trigger] self.properties@[j]).is_ctor)
                ==> definition.constructor == Constructor::Noop,
    {
        proof {
            law_a_definition_holds_every_property(self@);
            law_what_keeps_a_class_from_being_defined(self@);
        }
        let (first, properties) = partition(&self.properties);
        let constructor = match first {
            Some(property) => Constructor::Method(property.raw().method.unwrap()),
            None => Constructor::Noop,
        };
        ClassDefinition { rust_name: self.rust_name, js_name: self.js_name, constructor, properties }
    }
}

impl ClassTable {
    /// Whether each of the classes can be put before the engine.
    pub fn all_definable(&self) -> (yes: bool)
        ensures
            yes == all_definable(self@),
    {
        let mut i: usize = 0;
        while i < self.entries.len()
            invariant
                i <= self.entries@.len(),
                forall|j: int| 0 <= j < i ==> definable(#[trigger] self@[j]),
            decreases self.entries@.len() - i,
        {
            assert(self@[i as int] == self.entries@[i as int]@);
            if !self.entries[i].is_definable() {
                return false;
            }
            i += 1;
        }
        true
    }
}

} // verus!
