//! Containers that live as long as the process and are lent out for each use.
use std::collections::HashMap;
use vstd::prelude::*;

verus! {

/// A list that only ever grows; its items are lent out as one mutable slice.
pub struct PersistedPerInstanceVec<T> {
    inner: Vec<T>,
}

impl<T> View for PersistedPerInstanceVec<T> {
    type V = Seq<T>;

    closed spec fn view(&self) -> Seq<T> {
        self.inner@
    }
}

impl<T> Default for PersistedPerInstanceVec<T> {
    /// The empty list.
    fn default() -> (list: Self)
        ensures
            list@ == Seq::<T>::empty(),
    {
        PersistedPerInstanceVec { inner: Vec::with_capacity(1) }
    }
}

/// The items of `list` as one slice, by `AsMut::as_mut` of `Vec`.
///
/// Claimed, not proved: the slice holds what the list holds, when it is lent out and when it is
/// given back, and the loan does not change how many items there are, since a slice can neither
/// grow nor shrink.
#[verifier::external_body]
fn lend<T>(list: &mut Vec<T>) -> (items: &mut [T])
    ensures
        items@ == old(list)@,
        final(items)@ == final(list)@,
        final(items)@.len() == items@.len(),
{
    list.as_mut()
}

impl<T> PersistedPerInstanceVec<T> {
    /// Lends the items to `f`, once; what `f` leaves in the slice is what the list holds. There
    /// are as many items afterwards as there were before.
    pub fn borrow_mut<F>(&mut self, f: F) where F: FnOnce(&mut [T])
        requires
            forall|items: &mut [T]| items@ == old(self)@ ==> #[trigger] f.requires((items,)),
        ensures
            exists|items: &mut [T]|
                {
                    &&& items@ == old(self)@
                    &&& #[trigger] f.ensures((items,), ())
                    &&& final(items)@ == final(self)@
                },
            final(self)@.len() == old(self)@.len(),
    {
        f(lend(&mut self.inner));
    }

    /// The items, for reading.
    pub fn as_slice(&self) -> (items: &[T])
        ensures
            items@ == self@,
    {
        self.inner.as_slice()
    }

    /// Adds `item` behind all others.
    pub fn push(&mut self, item: T)
        ensures
            final(self)@ == old(self)@.push(item),
    {
        self.inner.push(item);
    }
}

/// A hash map that is lent out for each use.
pub struct PersistedPerInstanceHashMap<K, V>(HashMap<K, V>);

impl<K, V> View for PersistedPerInstanceHashMap<K, V> {
    type V = Map<K, V>;

    closed spec fn view(&self) -> Map<K, V> {
        self.0@
    }
}

impl<K, V> PersistedPerInstanceHashMap<K, V> {
    /// Takes `hashmap` over as it is.
    pub fn from_hashmap(hashmap: HashMap<K, V>) -> (map: Self)
        ensures
            map@ == hashmap@,
    {
        PersistedPerInstanceHashMap(hashmap)
    }

    /// Lends the map to `f`, once, and hands back what `f` returns.
    pub fn borrow_mut<F, R>(&mut self, f: F) -> (result: R) where
        F: FnOnce(&mut HashMap<K, V>) -> R,

        requires
            forall|map: &mut HashMap<K, V>| map@ == old(self)@ ==> #[trigger] f.requires((map,)),
        ensures
            exists|map: &mut HashMap<K, V>|
                {
                    &&& map@ == old(self)@
                    &&& #[trigger] f.ensures((map,), result)
                    &&& final(map)@ == final(self)@
                },
    {
        f(&mut self.0)
    }

    /// The map, for reading.
    pub fn borrow(&self) -> (map: &HashMap<K, V>)
        ensures
            map@ == self@,
    {
        &self.0
    }
}

impl<K, V> Default for PersistedPerInstanceHashMap<K, V> {
    /// The empty map.
    fn default() -> (map: Self)
        ensures
            map@ == Map::<K, V>::empty(),
    {
        PersistedPerInstanceHashMap(HashMap::default())
    }
}

} // verus!
