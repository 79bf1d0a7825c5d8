//! The keys of a map as a list.

use std::collections::HashMap;
use std::hash::Hash;
use vstd::prelude::*;
use vstd::std_specs::hash::obeys_key_model;
use vstd::std_specs::iter::IteratorSpec;

verus! {

/// The keys of a map, each once, in no particular order.
pub fn keys_of<K: Copy + Eq + Hash, V>(map: &HashMap<K, V>) -> (keys: Vec<K>)
    requires
        obeys_key_model::<K>(),
    ensures
        keys@.no_duplicates(),
        keys@.to_set() == map@.dom(),
{
    broadcast use vstd::std_specs::hash::group_hash_axioms;

    let mut keys: Vec<K> = Vec::new();
    let ghost all = vstd::std_specs::hash::spec_keys_iter(map).remaining();
    for key in it: map.keys()
        invariant
            keys@.len() == it.index(),
            it.seq() == all,
            forall|i: int| 0 <= i < keys@.len() ==> keys@[i] == *all[i],
    {
        keys.push(*key);
    }
    proof {
        assert(keys@ =~= all.unref());
    }
    keys
}

} // verus!
