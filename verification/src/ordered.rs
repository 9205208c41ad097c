//! Walking a map with integer keys in the order of its keys.
use std::collections::BTreeMap;
use vstd::prelude::*;
use vstd::std_specs::cmp::OrdSpec;
use vstd::std_specs::iter::IteratorSpec;

verus! {

/// `keys` are exactly the keys of the map, in ascending order.
pub open spec fn are_sorted_keys<V>(map: Map<u32, V>, keys: Seq<u32>) -> bool {
    &&& forall|i: int, j: int| 0 <= i < j < keys.len() ==> (#[trigger] keys[i]) < (#[trigger] keys[j])
    &&& forall|i: int| 0 <= i < keys.len() ==> map.contains_key(#[trigger] keys[i])
    &&& forall|k: u32| #[trigger] map.contains_key(k) ==> keys.contains(k)
}

/// The keys of a map, in ascending order.
pub fn sorted_keys<V>(map: &BTreeMap<u32, V>) -> (keys: Vec<u32>)
    ensures
        are_sorted_keys(map@, keys@),
{
    broadcast use vstd::std_specs::btree::group_btree_axioms;
    broadcast use vstd::laws_cmp::group_laws_cmp;

    let mut keys: Vec<u32> = Vec::new();
    let pairs = map.iter();
    let ghost all = pairs.remaining();
    let ghost sorted = all.map_values(|kv: (&u32, &V)| *kv.0);
    proof {
        assert(vstd::std_specs::btree::increasing_seq(sorted));
        assert forall|i: int, j: int| 0 <= i < j < sorted.len() implies (#[trigger] sorted[i]) < (
        #[trigger] sorted[j]) by {
            assert(sorted[i].cmp_spec(&sorted[j]) is Less);
        }
    }
    for pair in it: pairs
        invariant
            it.seq() == all,
            sorted == all.map_values(|kv: (&u32, &V)| *kv.0),
            keys@ == sorted.take(it.index()),
    {
        keys.push(*pair.0);
        assert(keys@ =~= sorted.take(it.index() + 1));
    }
    proof {
        assert(keys@ =~= sorted);
        assert forall|i: int| 0 <= i < keys@.len() implies map@.contains_key(
            #[trigger] keys@[i],
        ) by {
            assert(map@.contains_key(*all[i].0));
        }
        assert forall|k: u32| #[trigger] map@.contains_key(k) implies keys@.contains(k) by {
            assert(all.contains((&k, &map@[k])));
            let i = choose|i: int| 0 <= i < all.len() && all[i] == (&k, &map@[k]);
            assert(keys@[i] == k);
        }
    }
    keys
}

/// The value at a key.
pub fn lookup<V>(map: &BTreeMap<u32, V>, key: u32) -> (r: Option<&V>)
    ensures
        r is Some <==> map@.contains_key(key),
        r matches Some(value) ==> *value == map@[key],
{
    broadcast use vstd::laws_cmp::group_laws_cmp;

    map.get(&key)
}

/// Sets the value at a key.
pub fn store<V>(map: &mut BTreeMap<u32, V>, key: u32, value: V)
    ensures
        final(map)@ == old(map)@.insert(key, value),
{
    broadcast use vstd::laws_cmp::group_laws_cmp;

    map.insert(key, value);
}

/// Takes out a key and its value.
pub fn discard<V>(map: &mut BTreeMap<u32, V>, key: u32)
    ensures
        final(map)@ == old(map)@.remove(key),
{
    broadcast use vstd::laws_cmp::group_laws_cmp;

    map.remove(&key);
}

} // verus!
