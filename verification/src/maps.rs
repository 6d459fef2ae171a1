//! Helpers for maps keyed by integers.

use vstd::prelude::*;
use std::collections::HashMap;
use vstd::std_specs::iter::IteratorSpec;

verus! {

broadcast use vstd::std_specs::hash::group_hash_axioms;

/// The keys of `m`, each once, in the map's iteration order.
pub fn keys_of<V>(m: &HashMap<u32, V>) -> (v: Vec<u32>)
    ensures
        v@.to_set() == m@.dom(),
        v@.no_duplicates(),
        v@.len() == m@.len(),
{
    let mut v: Vec<u32> = Vec::new();
    for k in it: m.keys()
        invariant
            v@ == it.seq().take(it.index()).unref(),
            it.seq() == vstd::std_specs::hash::spec_keys_iter(m).remaining(),
    {
        v.push(*k);
        assert(it.seq().take(it.index() + 1).unref() =~= it.seq().take(it.index()).unref().push(*k));
    }
    let ghost all = vstd::std_specs::hash::spec_keys_iter(m).remaining();
    assert(v@ =~= all.unref());
    v
}

} // verus!
