//! Who is connected: streams by the name under which they are found. A stream
//! is known to the library by a number.
use dashmap::DashMap;
use std::collections::hash_map::RandomState;
use vstd::prelude::*;

verus! {

/// `dashmap::DashMap`, of which nothing is known but what the functions below say.
#[verifier::external_type_specification]
#[verifier::external_body]
#[verifier::reject_recursive_types(K)]
#[verifier::reject_recursive_types(V)]
#[verifier::reject_recursive_types(S)]
pub struct ExDashMap<K, V, S>(dashmap::DashMap<K, V, S>);

/// What a map holds: the number of a stream for each name.
pub uninterp spec fn held(map: DashMap<String, u64, RandomState>) -> Map<Seq<char>, u64>;

/// `DashMap::default` holds nothing.
#[verifier::external_body]
pub(crate) fn empty_map() -> (r: DashMap<String, u64, RandomState>)
    ensures
        forall|name: Seq<char>| !held(r).contains_key(name),
{
    DashMap::default()
}

/// `DashMap::get` gives what the map holds under the name, if it holds anything.
#[verifier::external_body]
pub(crate) fn look_up(map: &DashMap<String, u64, RandomState>, name: &str) -> (r: Option<u64>)
    ensures
        r is Some <==> held(*map).contains_key(name@),
        r matches Some(stream) ==> stream == held(*map)[name@],
{
    match map.get(name) {
        Some(entry) => Some(*entry.value()),
        None => None,
    }
}

/// `DashMap::insert` puts the stream under the name and gives back the one that
/// it takes the place of, if there was one. The map changes, so it is taken by a
/// reference that no other code holds meanwhile.
#[verifier::external_body]
pub(crate) fn put(
    map: &mut DashMap<String, u64, RandomState>,
    name: String,
    stream: u64,
) -> (r: Option<u64>)
    ensures
        held(*final(map)) == held(*old(map)).insert(name@, stream),
        r is Some <==> held(*old(map)).contains_key(name@),
        r matches Some(before) ==> before == held(*old(map))[name@],
{
    map.insert(name, stream)
}

/// `DashMap::remove` takes out what the map holds under the name, if it holds
/// anything, and gives it back.
#[verifier::external_body]
pub(crate) fn take(map: &mut DashMap<String, u64, RandomState>, name: &str) -> (r: Option<u64>)
    ensures
        held(*final(map)) == held(*old(map)).remove(name@),
        r is Some <==> held(*old(map)).contains_key(name@),
        r matches Some(stream) ==> stream == held(*old(map))[name@],
{
    map.remove(name).map(|entry| entry.1)
}

} // verus!
