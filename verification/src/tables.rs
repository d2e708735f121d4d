//! The tables that the bot keeps per chat: `dashmap` collections keyed by chat.

use dashmap::{DashMap, DashSet};
use vstd::prelude::*;

verus! {

#[verifier::external_type_specification]
#[verifier::external_body]
#[verifier::reject_recursive_types(K)]
#[verifier::reject_recursive_types(V)]
#[verifier::reject_recursive_types(S)]
pub struct ExDashMap<K, V, S>(DashMap<K, V, S>);

#[verifier::external_type_specification]
#[verifier::external_body]
#[verifier::reject_recursive_types(K)]
#[verifier::reject_recursive_types(S)]
pub struct ExDashSet<K, S>(DashSet<K, S>);

/// The entries of a map.
pub uninterp spec fn entries(map: DashMap<i64, i64>) -> Map<i64, i64>;

/// The members of a set.
pub uninterp spec fn members(set: DashSet<i64>) -> Set<i64>;

/// What a map holds under `key`, if anything.
pub open spec fn lookup(map: Map<i64, i64>, key: i64) -> Option<i64> {
    if map.dom().contains(key) {
        Some(map[key])
    } else {
        None
    }
}

/// `DashMap::new`: a map without entries.
#[verifier::external_body]
pub(crate) fn new_map() -> (map: DashMap<i64, i64>)
    ensures
        (entries(map) == Map::<i64, i64>::empty()),
{
    DashMap::new()
}

/// `DashMap::insert`: puts `value` under `key` and returns what stood there
/// before. The exclusive borrow keeps every other user of the map out.
#[verifier::external_body]
pub(crate) fn map_insert(map: &mut DashMap<i64, i64>, key: i64, value: i64) -> (before: Option<i64>)
    ensures
        entries(*final(map)) == entries(*old(map)).insert(key, value),
        before == lookup(entries(*old(map)), key),
{
    map.insert(key, value)
}

/// `DashMap::get`, with the value copied out of the reference that it returns.
#[verifier::external_body]
pub(crate) fn map_get(map: &DashMap<i64, i64>, key: i64) -> (value: Option<i64>)
    ensures
        value == lookup(entries(*map), key),
{
    map.get(&key).map(|found| *found.value())
}

/// `DashMap::remove`: takes the entry under `key` out and returns its value.
#[verifier::external_body]
pub(crate) fn map_remove(map: &mut DashMap<i64, i64>, key: i64) -> (before: Option<i64>)
    ensures
        entries(*final(map)) == entries(*old(map)).remove(key),
        before == lookup(entries(*old(map)), key),
{
    map.remove(&key).map(|found| found.1)
}

/// `DashSet::new`: a set without members.
#[verifier::external_body]
pub(crate) fn new_set() -> (set: DashSet<i64>)
    ensures
        members(set) == Set::<i64>::empty(),
{
    DashSet::new()
}

/// `DashSet::insert`: adds `key` and tells whether it was new.
#[verifier::external_body]
pub(crate) fn set_insert(set: &mut DashSet<i64>, key: i64) -> (fresh: bool)
    ensures
        members(*final(set)) == members(*old(set)).insert(key),
        fresh == !members(*old(set)).contains(key),
{
    set.insert(key)
}

/// `DashSet::remove`: takes `key` out, if it is there.
#[verifier::external_body]
pub(crate) fn set_remove(set: &mut DashSet<i64>, key: i64)
    ensures
        members(*final(set)) == members(*old(set)).remove(key),
{
    set.remove(&key);
}

}
