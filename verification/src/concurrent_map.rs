//! The concurrent hash map of the `dashmap` crate, as far as this crate
//! uses it: as the index of the tile cache and as the property mapping of a
//! feature.
//!
//! The map and the JSON values are not verified here. What this module
//! states about them is taken from their source and believed by the
//! verifier; everything built on it rests on these statements.

use vstd::prelude::*;
use dashmap::DashMap;
use serde_json::Value;

verus! {

/// The map type of `dashmap`, opaque to the verifier.
#[verifier::external_type_specification]
#[verifier::external_body]
#[verifier::reject_recursive_types(K)]
#[verifier::reject_recursive_types(V)]
#[verifier::reject_recursive_types(S)]
pub struct ExDashMap<K, V, S>(DashMap<K, V, S>);

/// The JSON value type of `serde_json`, opaque to the verifier.
#[verifier::external_type_specification]
#[verifier::external_body]
pub struct ExJsonValue(Value);

/// What an index holds: the slot number stored under each key.
pub uninterp spec fn index_entries(index: DashMap<u128, usize>) -> Map<u128, usize>;

/// What a property mapping holds: under each key the JSON text of its value.
pub uninterp spec fn property_entries(properties: DashMap<String, Value>) -> Map<
    Seq<char>,
    Seq<char>,
>;

/// `DashMap::new`: a map that holds no key.
#[verifier::external_body]
pub(crate) fn index_new() -> (index: DashMap<u128, usize>)
    ensures
        forall|key: u128| !index_entries(index).contains_key(key),
{
    DashMap::new()
}

/// `DashMap::get`: the slot number stored under the key, if there is one.
/// The guard that the map hands out is released before the call returns.
#[verifier::external_body]
pub(crate) fn index_get(index: &DashMap<u128, usize>, key: u128) -> (slot: Option<usize>)
    ensures
        slot == (if index_entries(*index).contains_key(key) {
            Some(index_entries(*index)[key])
        } else {
            None
        }),
{
    index.get(&key).map(|entry| *entry.value())
}

/// `DashMap::insert`: afterwards the key holds the slot number, whatever it
/// held before, and every other key is as it was.
#[verifier::external_body]
pub(crate) fn index_insert(index: &mut DashMap<u128, usize>, key: u128, slot: usize)
    ensures
        index_entries(*final(index)) == index_entries(*old(index)).insert(key, slot),
{
    index.insert(key, slot);
}

/// `DashMap::remove`: afterwards the key is absent and every other key is
/// as it was.
#[verifier::external_body]
pub(crate) fn index_remove(index: &mut DashMap<u128, usize>, key: u128)
    ensures
        index_entries(*final(index)) == index_entries(*old(index)).remove(key),
{
    index.remove(&key);
}

/// `DashMap::new`: a property mapping that holds no key.
#[verifier::external_body]
pub(crate) fn properties_new() -> (properties: DashMap<String, Value>)
    ensures
        forall|key: Seq<char>| !property_entries(properties).contains_key(key),
{
    DashMap::new()
}

/// `DashMap::clone`: a property mapping of its own that holds the same keys
/// with the same values.
#[verifier::external_body]
pub(crate) fn properties_clone(properties: &DashMap<String, Value>) -> (copy: DashMap<
    String,
    Value,
>)
    ensures
        property_entries(copy) == property_entries(*properties),
{
    properties.clone()
}

} // verus!
