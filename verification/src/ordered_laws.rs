//! What holds of maps that are walked in the order of their keys.
use crate::ordered::{discard, lookup, sorted_keys, store};
use std::collections::BTreeMap;
use vstd::prelude::*;

verus! {

/// A value that was stored is found at its key until it is taken out, and what
/// is found at any other key stays.
pub proof fn law_stored_value_is_found<V>(
    put: &mut BTreeMap<u32, V>,
    key: u32,
    value: V,
    take: &mut BTreeMap<u32, V>,
    other: u32,
    before: Option<&V>,
    between: Option<&V>,
    after: Option<&V>,
)
    requires
        call_ensures(store::<V>, (put, key, value), ()),
        *take == *final(put),
        call_ensures(discard::<V>, (take, key), ()),
        call_ensures(lookup::<V>, (&*put, other), before),
        call_ensures(lookup::<V>, (&*take, other), between),
        call_ensures(lookup::<V>, (&*final(take), other), after),
    ensures
        other == key ==> between == Some(&value) && after is None,
        other != key ==> between == before && after == before,
{
}

/// The keys come in ascending order, and are just those at which there is a
/// value.
pub proof fn law_keys_are_walked_in_order<V>(
    map: &BTreeMap<u32, V>,
    keys: Vec<u32>,
    key: u32,
    found: Option<&V>,
    i: int,
    j: int,
)
    requires
        call_ensures(sorted_keys::<V>, (map,), keys),
        call_ensures(lookup::<V>, (map, key), found),
    ensures
        keys@.contains(key) <==> found is Some,
        0 <= i < j < keys@.len() ==> keys@[i] < keys@[j],
{
    if keys@.contains(key) {
        let x = choose|x: int| 0 <= x < keys@.len() && keys@[x] == key;
        assert(map@.contains_key(keys@[x]));
    }
}

} // verus!
