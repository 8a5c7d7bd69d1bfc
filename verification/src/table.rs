//! Concurrent hash tables of `dashmap`, held by one owner at a time.
//!
//! A table is only ever changed through an exclusive reference here, so that what it holds stays
//! the same for as long as it is shared.

use dashmap::DashMap;
use vstd::prelude::*;

verus! {

/// The table of `dashmap`.
#[verifier::external_type_specification]
#[verifier::external_body]
#[verifier::reject_recursive_types(K)]
#[verifier::reject_recursive_types(V)]
#[verifier::reject_recursive_types(S)]
pub struct ExDashMap<K, V, S>(dashmap::DashMap<K, V, S>);

/// What a table of numbers under texts holds.
pub uninterp spec fn name_entries(m: DashMap<String, u64>) -> Map<Seq<char>, u64>;

/// `DashMap::new` makes a table without entries.
#[verifier::external_body]
pub(crate) fn name_table() -> (r: DashMap<String, u64>)
    ensures
        name_entries(r).dom() == Set::<Seq<char>>::empty(),
{
    DashMap::new()
}

/// `DashMap::insert` puts a value under a key, and hands back the value that stood there.
#[verifier::external_body]
pub(crate) fn name_table_insert(m: &mut DashMap<String, u64>, key: String, value: u64) -> (r:
    Option<u64>)
    ensures
        name_entries(*final(m)) == name_entries(*old(m)).insert(key@, value),
        r == name_entries(*old(m)).get(key@),
{
    m.insert(key, value)
}

/// `DashMap::remove` takes the entry of a key out, and hands back its value.
#[verifier::external_body]
pub(crate) fn name_table_remove(m: &mut DashMap<String, u64>, key: &str) -> (r: Option<u64>)
    ensures
        name_entries(*final(m)) == name_entries(*old(m)).remove(key@),
        r == name_entries(*old(m)).get(key@),
{
    m.remove(key).map(|entry| entry.1)
}

/// `DashMap::get` finds the value under a key.
#[verifier::external_body]
pub(crate) fn name_table_get(m: &DashMap<String, u64>, key: &str) -> (r: Option<u64>)
    ensures
        r == name_entries(*m).get(key@),
{
    m.get(key).map(|entry| *entry.value())
}

/// `DashMap::len` counts the entries, of which there are finitely many.
#[verifier::external_body]
pub(crate) fn name_table_len(m: &DashMap<String, u64>) -> (r: usize)
    ensures
        name_entries(*m).dom().finite() ==> r == name_entries(*m).dom().len(),
{
    m.len()
}

} // verus!
