use std::collections::HashMap;

use module_register::persisted::{PersistedPerInstanceHashMap, PersistedPerInstanceVec};

#[test]
fn list_grows_and_is_lent_out() {
    let mut list = PersistedPerInstanceVec::default();
    let mut seen = 99;
    list.borrow_mut(|items: &mut [u32]| seen = items.len());
    assert_eq!(seen, 0);
    for i in 0..10 {
        list.push(i);
    }
    list.borrow_mut(|items: &mut [u32]| {
        for item in items.iter_mut() {
            *item *= 2;
        }
    });
    assert_eq!(list.as_slice(), &[0, 2, 4, 6, 8, 10, 12, 14, 16, 18]);
    list.borrow_mut(|items: &mut [u32]| items.reverse());
    assert_eq!(list.as_slice(), &[18, 16, 14, 12, 10, 8, 6, 4, 2, 0]);
    list.push(7);
    list.borrow_mut(|items: &mut [u32]| seen = items.len());
    assert_eq!(seen, 11);
}

#[test]
fn map_is_taken_over_and_lent_out() {
    let mut inner = HashMap::new();
    inner.insert(1, "one");
    let mut map = PersistedPerInstanceHashMap::from_hashmap(inner);
    let replaced = map.borrow_mut(|m: &mut HashMap<i32, &str>| m.insert(1, "eins"));
    assert_eq!(replaced, Some("one"));
    assert_eq!(map.borrow().get(&1), Some(&"eins"));
    let empty: PersistedPerInstanceHashMap<i32, i32> = PersistedPerInstanceHashMap::default();
    assert!(empty.borrow().is_empty());
}
