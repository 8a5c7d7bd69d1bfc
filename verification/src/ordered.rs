//! Maps from numbers, walked in order.

use std::collections::BTreeMap;

use vstd::prelude::*;

verus! {

/// Whether `keys` lists the keys of `m` from the smallest to the largest.
pub open spec fn lists_keys<V>(keys: Seq<u64>, m: Map<u64, V>) -> bool {
    &&& forall|i: int, j: int| 0 <= i < j < keys.len() ==> keys[i] < keys[j]
    &&& forall|k: u64| keys.contains(k) <==> #[trigger] m.contains_key(k)
}

/// A list of keys ascends, and holds every key of the map once and nothing else: as many as the map
/// has.
pub proof fn law_listed_keys_ascend<V>(keys: Seq<u64>, m: Map<u64, V>)
    requires
        lists_keys(keys, m),
    ensures
        forall|i: int, j: int| 0 <= i < j < keys.len() ==> #[trigger] keys[i] < #[trigger] keys[j],
        keys.to_set() == m.dom(),
        keys.no_duplicates(),
        m.dom().finite(),
        m.dom().len() == keys.len(),
{
    assert(keys.to_set() =~= m.dom()) by {
        assert forall|k: u64| keys.to_set().contains(k) <==> m.dom().contains(k) by {
            assert(keys.contains(k) <==> m.contains_key(k));
        }
    }
    keys.unique_seq_to_set();
    vstd::seq_lib::seq_to_set_is_finite(keys);
}

/// The keys of a map, from the smallest to the largest.
pub fn sorted_keys<V>(m: &BTreeMap<u64, V>) -> (r: Vec<u64>)
    ensures
        lists_keys(r@, m@),
{
    broadcast use vstd::std_specs::btree::group_btree_axioms;
    broadcast use vstd::laws_cmp::group_laws_cmp;

    let mut out: Vec<u64> = Vec::new();
    for k in it: m.keys()
        invariant
            out@ == it.seq().unref().take(it.index()),
            it.seq() == vstd::std_specs::iter::IteratorSpec::remaining(
                &vstd::std_specs::btree::spec_keys_iter(m),
            ),
    {
        out.push(*k);
    }
    proof {
        let keys = vstd::std_specs::iter::IteratorSpec::remaining(
            &vstd::std_specs::btree::spec_keys_iter(m),
        );
        assert(out@ =~= keys.unref());
        assert(vstd::laws_cmp::obeys_cmp::<&u64>()) by {
            broadcast use vstd::laws_eq::group_laws_eq;

            reveal(vstd::laws_cmp::obeys_partial_cmp_spec_properties);
            reveal(vstd::laws_cmp::obeys_cmp_partial_ord);
            reveal(vstd::laws_cmp::obeys_cmp_ord);
        }
        assert(vstd::std_specs::btree::increasing_seq(keys));
        assert forall|i: int, j: int| 0 <= i < j < out@.len() implies out@[i] < out@[j] by {
            assert(*keys[i] == out@[i] && *keys[j] == out@[j]);
            assert(vstd::std_specs::cmp::OrdSpec::cmp_spec(&keys[i], &keys[j]) is Less);
        }
        assert forall|k: u64| out@.contains(k) <==> #[trigger] m@.contains_key(k) by {
            assert(keys.unref().to_set().contains(k) <==> out@.contains(k));
        }
    }
    out
}

} // verus!
