//! The tunnels that are connected right now, by identity and by name.
//!
//! The tables do not keep a record alive. They hold numbers that refer to records, and a reference
//! leads to nothing once those who hold the record have let it go.

use std::cmp::Ordering;
use std::collections::BTreeMap;
use std::sync::Arc;

use dashmap::DashMap;
use vstd::laws_cmp::obeys_cmp;
use vstd::prelude::*;
use vstd::std_specs::cmp::OrdSpec;

use crate::authentication::AuthenticationAttributes;
use crate::tunnel::id::TunnelId;
use crate::tunnel::TunnelName;

verus! {

/// What is known of a connected tunnel. The tunnel itself is found by its identity.
#[derive(Debug)]
pub struct PeerRecord {
    pub id: TunnelId,
    pub name: TunnelName,
    /// When the tunnel was registered: nanoseconds on the clock that never goes back, and on the
    /// clock of the day.
    pub registered_at: (u64, u64),
    pub attributes: Arc<AuthenticationAttributes>,
}

impl Clone for PeerRecord {
    fn clone(&self) -> (r: PeerRecord)
        ensures
            r == *self,
    {
        PeerRecord {
            id: self.id,
            name: self.name.clone(),
            registered_at: self.registered_at,
            attributes: self.attributes.clone(),
        }
    }
}

/// Records are the same when they are of the same tunnel under the same name.
impl PartialEq for PeerRecord {
    fn eq(&self, other: &PeerRecord) -> (r: bool) {
        self.id == other.id && self.name == other.name
    }
}

impl vstd::std_specs::cmp::PartialEqSpecImpl for PeerRecord {
    open spec fn obeys_eq_spec() -> bool {
        true
    }

    open spec fn eq_spec(&self, other: &PeerRecord) -> bool {
        self.id == other.id && self.name@ == other.name@
    }
}

impl Eq for PeerRecord {

}

/// `u64::hash` feeds a number to a hasher. Nothing is claimed of what the hasher makes of it.
pub assume_specification<H: std::hash::Hasher>[ <u64 as std::hash::Hash>::hash ](
    number: &u64,
    state: &mut H,
);

/// `str::hash` feeds a text to a hasher. Nothing is claimed of what the hasher makes of it.
pub assume_specification<H: std::hash::Hasher>[ <str as std::hash::Hash>::hash ](
    text: &str,
    state: &mut H,
);

/// Records are hashed by their identity and their name.
impl std::hash::Hash for PeerRecord {
    fn hash<H: std::hash::Hasher>(&self, state: &mut H) {
        self.id.id.hash(state);
        self.name.raw().hash(state);
    }
}

/// What a table of references under identities holds.
pub uninterp spec fn id_peers(m: DashMap<u64, u64>) -> Map<u64, u64>;

/// What a table of such tables under names holds.
pub uninterp spec fn name_peers(m: DashMap<String, DashMap<u64, u64>>) -> Map<
    Seq<char>,
    Map<u64, u64>,
>;

/// Whether `entries` are the entries of `m`, each once, in some order.
pub open spec fn lists_entries(entries: Seq<(u64, u64)>, m: Map<u64, u64>) -> bool {
    &&& forall|i: int|
        0 <= i < entries.len() ==> m.contains_key((#[trigger] entries[i]).0) && m[entries[i].0]
            == entries[i].1
    &&& forall|i: int, j: int|
        0 <= i < j < entries.len() ==> (#[trigger] entries[i]).0 != (#[trigger] entries[j]).0
    &&& forall|k: u64| #[trigger]
        m.contains_key(k) ==> exists|i: int| 0 <= i < entries.len() && (#[trigger] entries[i]).0 == k
}

/// Whether `records` are the values of `m`, each once, in some order.
pub open spec fn lists_values(records: Seq<Arc<PeerRecord>>, m: Map<u64, PeerRecord>) -> bool {
    exists|keys: Seq<u64>| #[trigger] lists_values_by(records, m, keys)
}

/// Whether `records` are the values of `m` under `keys`, and `keys` are all keys, each once.
pub open spec fn lists_values_by(
    records: Seq<Arc<PeerRecord>>,
    m: Map<u64, PeerRecord>,
    keys: Seq<u64>,
) -> bool {
    &&& keys.len() == records.len()
    &&& keys.no_duplicates()
    &&& forall|k: u64| keys.contains(k) <==> #[trigger] m.contains_key(k)
    &&& forall|i: int| 0 <= i < keys.len() ==> *#[trigger] records[i] == m[keys[i]]
}

/// `DashMap::new` makes a table without entries.
#[verifier::external_body]
fn id_table() -> (r: DashMap<u64, u64>)
    ensures
        id_peers(r).dom() == Set::<u64>::empty(),
{
    DashMap::new()
}

/// `DashMap::insert` puts a value under a key, in place of the one that stood there.
#[verifier::external_body]
fn id_table_insert(m: &mut DashMap<u64, u64>, key: u64, reference: u64)
    ensures
        id_peers(*final(m)) == id_peers(*old(m)).insert(key, reference),
{
    m.insert(key, reference);
}

/// `DashMap::remove` takes the entry of a key out.
#[verifier::external_body]
fn id_table_remove(m: &mut DashMap<u64, u64>, key: u64)
    ensures
        id_peers(*final(m)) == id_peers(*old(m)).remove(key),
{
    m.remove(&key);
}

/// `DashMap::get` finds the value under a key.
#[verifier::external_body]
fn id_table_get(m: &DashMap<u64, u64>, key: u64) -> (r: Option<u64>)
    ensures
        r == id_peers(*m).get(key),
{
    m.get(&key).map(|entry| *entry.value())
}

/// `DashMap::is_empty` says whether there are no entries.
#[verifier::external_body]
fn id_table_is_empty(m: &DashMap<u64, u64>) -> (r: bool)
    ensures
        r == (id_peers(*m).dom() == Set::<u64>::empty()),
{
    m.is_empty()
}

/// `DashMap::iter` yields every entry once, in no order that could be told beforehand.
#[verifier::external_body]
fn id_table_entries(m: &DashMap<u64, u64>) -> (r: Vec<(u64, u64)>)
    ensures
        lists_entries(r@, id_peers(*m)),
{
    m.iter().map(|entry| (*entry.key(), *entry.value())).collect()
}

/// `DashMap::new` makes a table without entries.
#[verifier::external_body]
fn name_table() -> (r: DashMap<String, DashMap<u64, u64>>)
    ensures
        name_peers(r).dom() == Set::<Seq<char>>::empty(),
{
    DashMap::new()
}

/// `DashMap::insert` puts a table under a key, in place of the one that stood there.
#[verifier::external_body]
fn name_table_insert(
    m: &mut DashMap<String, DashMap<u64, u64>>,
    key: String,
    table: DashMap<u64, u64>,
)
    ensures
        name_peers(*final(m)) == name_peers(*old(m)).insert(key@, id_peers(table)),
{
    m.insert(key, table);
}

/// `DashMap::remove` takes the table under a key out, and hands it back.
#[verifier::external_body]
fn name_table_remove(m: &mut DashMap<String, DashMap<u64, u64>>, key: &str) -> (r: Option<
    DashMap<u64, u64>,
>)
    ensures
        name_peers(*final(m)) == name_peers(*old(m)).remove(key@),
        match r {
            Some(table) => name_peers(*old(m)).contains_key(key@) && name_peers(*old(m))[key@]
                == id_peers(table),
            None => !name_peers(*old(m)).contains_key(key@),
        },
{
    m.remove(key).map(|entry| entry.1)
}

/// `DashMap::get` finds the table under a key, of which `DashMap::clone` makes a copy with the same
/// entries.
#[verifier::external_body]
fn name_table_get(m: &DashMap<String, DashMap<u64, u64>>, key: &str) -> (r: Option<
    DashMap<u64, u64>,
>)
    ensures
        match r {
            Some(table) => name_peers(*m).contains_key(key@) && name_peers(*m)[key@] == id_peers(
                table,
            ),
            None => !name_peers(*m).contains_key(key@),
        },
{
    m.get(key).map(|entry| entry.value().clone())
}

/// What a tracker finds.
pub struct PeersState {
    pub by_id: Map<u64, PeerRecord>,
    pub by_name: Map<Seq<char>, Map<u64, PeerRecord>>,
}

impl PeersState {
    /// The records of the tunnels with this name.
    pub open spec fn named(self, name: Seq<char>) -> Map<u64, PeerRecord> {
        if self.by_name.contains_key(name) {
            self.by_name[name]
        } else {
            Map::empty()
        }
    }

    /// With a record under its identity and under its name.
    pub open spec fn with(self, record: PeerRecord) -> PeersState {
        PeersState {
            by_id: self.by_id.insert(record.id.id, record),
            by_name: self.by_name.insert(
                record.name@,
                self.named(record.name@).insert(record.id.id, record),
            ),
        }
    }

    /// With a record that is shared.
    pub open spec fn with_shared(self, record: Arc<PeerRecord>) -> PeersState {
        self.with(*record)
    }

    /// Without the entries of a record. A name that has no tunnel any more is dropped.
    pub open spec fn without(self, record: PeerRecord) -> PeersState {
        let left = self.named(record.name@).remove(record.id.id);
        PeersState {
            by_id: self.by_id.remove(record.id.id),
            by_name: if left.dom() == Set::<u64>::empty() {
                self.by_name.remove(record.name@)
            } else {
                self.by_name.insert(record.name@, left)
            },
        }
    }

    /// Each record stands under its identity and its name, and no name is without a record.
    pub open spec fn well_formed(self) -> bool {
        &&& forall|k: u64| #[trigger] self.by_id.contains_key(k) ==> self.by_id[k].id.id == k
        &&& forall|n: Seq<char>| #[trigger]
            self.by_name.contains_key(n) ==> self.by_name[n].dom() != Set::<u64>::empty()
        &&& forall|n: Seq<char>, k: u64|
            self.by_name.contains_key(n) && #[trigger] self.by_name[n].contains_key(k)
                ==> self.by_name[n][k].id.id == k && self.by_name[n][k].name@ == n
    }

    /// Whether the two tables hold the same records.
    pub open spec fn coherent(self) -> bool {
        &&& self.well_formed()
        &&& forall|k: u64| #[trigger]
            self.by_id.contains_key(k) ==> self.named(self.by_id[k].name@).contains_key(k)
                && self.named(self.by_id[k].name@)[k] == self.by_id[k]
        &&& forall|n: Seq<char>, k: u64| #[trigger]
            self.named(n).contains_key(k) ==> self.by_id.contains_key(k) && self.by_id[k]
                == self.named(n)[k]
    }
}

/// A record that is added is found under its identity and under its name, and what is found under
/// other identities stays as it is.
pub proof fn law_inserted_record_is_found(
    state: PeersState,
    record: PeerRecord,
    other: u64,
    name: Seq<char>,
)
    ensures
        state.with(record).by_id.get(record.id.id) == Some(record),
        state.with(record).named(record.name@).get(record.id.id) == Some(record),
        other != record.id.id ==> {
            &&& state.with(record).by_id.get(other) == state.by_id.get(other)
            &&& state.with(record).named(name).get(other) == state.named(name).get(other)
        },
        name != record.name@ ==> state.with(record).named(name) == state.named(name),
{
}

/// A record that is taken out is found neither under its identity nor under its name, and what is
/// found under other identities stays as it is. A name is known as long as a tunnel has it.
pub proof fn law_removed_record_is_gone(
    state: PeersState,
    record: PeerRecord,
    other: u64,
    name: Seq<char>,
)
    ensures
        !state.without(record).by_id.contains_key(record.id.id),
        !state.without(record).named(record.name@).contains_key(record.id.id),
        other != record.id.id ==> {
            &&& state.without(record).by_id.get(other) == state.by_id.get(other)
            &&& state.without(record).named(name).get(other) == state.named(name).get(other)
        },
        name != record.name@ ==> state.without(record).named(name) == state.named(name),
        state.without(record).by_name.contains_key(record.name@) <==> exists|k: u64|
            k != record.id.id && #[trigger] state.named(record.name@).contains_key(k),
{
    let left = state.named(record.name@).remove(record.id.id);
    if left.dom() == Set::<u64>::empty() {
        assert forall|k: u64| k != record.id.id implies !#[trigger] state.named(
            record.name@,
        ).contains_key(k) by {
            assert(!left.dom().contains(k));
        }
    } else {
        if forall|k: u64| !left.dom().contains(k) {
            assert(left.dom() =~= Set::<u64>::empty());
        }
        let k = choose|k: u64| left.dom().contains(k);
        assert(state.named(record.name@).contains_key(k));
    }
}

/// As long as no identity is used twice, the two tables hold the same records.
pub proof fn law_insert_keeps_coherence(state: PeersState, record: PeerRecord)
    requires
        state.coherent(),
        !state.by_id.contains_key(record.id.id),
    ensures
        state.with(record).coherent(),
{
    let after = state.with(record);
    let id = record.id.id;
    assert(after.by_name[record.name@].contains_key(id));
    assert forall|n: Seq<char>| #[trigger] after.by_name.contains_key(n) implies after.by_name[n].dom()
        != Set::<u64>::empty() by {
        if n == record.name@ {
            assert(after.by_name[n].dom().contains(id));
        } else {
            assert(state.by_name.contains_key(n));
        }
    }
    assert forall|n: Seq<char>, k: u64|
        after.by_name.contains_key(n) && #[trigger] after.by_name[n].contains_key(k) implies
        after.by_name[n][k].id.id == k && after.by_name[n][k].name@ == n by {
        if n == record.name@ {
            if k != id {
                assert(state.by_name.contains_key(n));
                assert(state.by_name[n].contains_key(k));
            }
        } else {
            assert(state.by_name[n].contains_key(k));
        }
    }
    assert forall|k: u64| #[trigger] after.by_id.contains_key(k) implies after.named(
        after.by_id[k].name@,
    ).contains_key(k) && after.named(after.by_id[k].name@)[k] == after.by_id[k] by {
        if k != id {
            assert(state.by_id.contains_key(k));
            assert(state.named(state.by_id[k].name@).contains_key(k));
        }
    }
    assert forall|n: Seq<char>, k: u64| #[trigger] after.named(n).contains_key(k) implies
        after.by_id.contains_key(k) && after.by_id[k] == after.named(n)[k] by {
        if !(n == record.name@ && k == id) {
            assert(state.named(n).contains_key(k));
        }
    }
}

/// Taking out a record that is there keeps the two tables in step.
pub proof fn law_remove_keeps_coherence(state: PeersState, record: PeerRecord)
    requires
        state.coherent(),
        state.by_id.contains_key(record.id.id),
        state.by_id[record.id.id] == record,
    ensures
        state.without(record).coherent(),
{
    let after = state.without(record);
    let id = record.id.id;
    let name = record.name@;
    let left = state.named(name).remove(id);
    assert(state.named(name).contains_key(id));
    assert(state.by_name.contains_key(name));
    assert forall|n: Seq<char>, k: u64| #[trigger] after.named(n).contains_key(k) implies k != id
        && state.named(n).contains_key(k) && after.named(n)[k] == state.named(n)[k] by {
        if n == name {
            assert(left.contains_key(k)) by {
                if left.dom() == Set::<u64>::empty() {
                    assert(!after.by_name.contains_key(n));
                }
            }
        } else {
            assert(state.named(n).contains_key(k));
            if k == id {
                assert(state.by_id[k] == state.named(n)[k]);
                assert(state.by_name[n].contains_key(k));
            }
        }
    }
    assert forall|n: Seq<char>| #[trigger] after.by_name.contains_key(n) implies after.by_name[n].dom()
        != Set::<u64>::empty() by {
        if n != name {
            assert(state.by_name.contains_key(n));
        }
    }
    assert forall|n: Seq<char>, k: u64|
        after.by_name.contains_key(n) && #[trigger] after.by_name[n].contains_key(k) implies
        after.by_name[n][k].id.id == k && after.by_name[n][k].name@ == n by {
        assert(after.named(n).contains_key(k));
        assert(state.named(n).contains_key(k));
        assert(state.by_name[n].contains_key(k));
    }
    assert forall|k: u64| #[trigger] after.by_id.contains_key(k) implies after.named(
        after.by_id[k].name@,
    ).contains_key(k) && after.named(after.by_id[k].name@)[k] == after.by_id[k] by {
        assert(state.by_id.contains_key(k));
        assert(state.named(state.by_id[k].name@).contains_key(k));
        if state.by_id[k].name@ == name {
            assert(left.contains_key(k));
            assert(left.dom().contains(k));
        }
    }
    assert forall|n: Seq<char>, k: u64| #[trigger] after.named(n).contains_key(k) implies
        after.by_id.contains_key(k) && after.by_id[k] == after.named(n)[k] by {
        assert(state.named(n).contains_key(k));
        assert(state.by_id.contains_key(k));
    }
}

/// Taking out a record that was just added, under an identity that was free, gives back what was
/// there before.
pub proof fn law_remove_undoes_insert(state: PeersState, record: PeerRecord)
    requires
        state.coherent(),
        !state.by_id.contains_key(record.id.id),
    ensures
        state.with(record).without(record).by_id == state.by_id,
        state.with(record).without(record).by_name == state.by_name,
{
    let id = record.id.id;
    let name = record.name@;
    let after = state.with(record).without(record);
    assert(after.by_id =~= state.by_id);
    assert(!state.named(name).contains_key(id)) by {
        if state.named(name).contains_key(id) {
            assert(state.by_id.contains_key(id));
        }
    }
    let left = state.with(record).named(name).remove(id);
    assert(left =~= state.named(name));
    assert(after.by_name =~= state.by_name) by {
        if state.by_name.contains_key(name) {
            assert(left.dom() != Set::<u64>::empty());
        } else {
            assert(left.dom() =~= Set::<u64>::empty());
        }
    }
}

/// The records that the references of a table lead to.
pub open spec fn resolved(table: Map<u64, u64>, held: Map<u64, Arc<PeerRecord>>) -> Map<
    u64,
    PeerRecord,
> {
    Map::new(
        |k: u64| table.contains_key(k) && held.contains_key(table[k]),
        |k: u64| *held[table[k]],
    )
}

/// The tables of a tracker, and the records that are held, each under the number that refers to it.
pub struct PeerTables {
    pub ids: Map<u64, u64>,
    pub names: Map<Seq<char>, Map<u64, u64>>,
    pub held: Map<u64, Arc<PeerRecord>>,
}

impl PeerTables {
    /// The references under a name.
    pub open spec fn under(self, name: Seq<char>) -> Map<u64, u64> {
        if self.names.contains_key(name) {
            self.names[name]
        } else {
            Map::empty()
        }
    }

    /// The records that are found.
    pub open spec fn state(self) -> PeersState {
        PeersState {
            by_id: resolved(self.ids, self.held),
            by_name: Map::new(
                |n: Seq<char>|
                    self.names.contains_key(n) && resolved(self.names[n], self.held).dom() != Set::<
                        u64,
                    >::empty(),
                |n: Seq<char>| resolved(self.names[n], self.held),
            ),
        }
    }

    /// With a record that is held from now on, and referred to under its identity and its name.
    pub open spec fn with(self, record: Arc<PeerRecord>, reference: u64) -> PeerTables {
        PeerTables {
            ids: self.ids.insert(record.id.id, reference),
            names: self.names.insert(
                record.name@,
                self.under(record.name@).insert(record.id.id, reference),
            ),
            held: self.held.insert(reference, record),
        }
    }

    /// Without the references under the identity and the name of a record. A name that has no
    /// reference any more is dropped.
    pub open spec fn without(self, record: PeerRecord) -> PeerTables {
        let left = self.under(record.name@).remove(record.id.id);
        PeerTables {
            ids: self.ids.remove(record.id.id),
            names: if left.dom() == Set::<u64>::empty() {
                self.names.remove(record.name@)
            } else {
                self.names.insert(record.name@, left)
            },
            held: self.held,
        }
    }

    /// With a record that no one holds any more. What refers to it stays.
    pub open spec fn lost(self, reference: u64) -> PeerTables {
        PeerTables { held: self.held.remove(reference), ..self }
    }

    /// Whether only numbers below `next` refer to records.
    pub open spec fn below(self, next: u64) -> bool {
        &&& forall|k: u64| #[trigger] self.ids.contains_key(k) ==> self.ids[k] < next
        &&& forall|n: Seq<char>, k: u64|
            self.names.contains_key(n) && #[trigger] self.names[n].contains_key(k)
                ==> self.names[n][k] < next
        &&& forall|k: u64| #[trigger] self.held.contains_key(k) ==> k < next
    }
}

/// What is found under a name is what the references under it lead to.
proof fn lemma_named(tables: PeerTables, name: Seq<char>)
    ensures
        tables.state().named(name) == resolved(tables.under(name), tables.held),
{
    assert(tables.state().named(name) =~= resolved(tables.under(name), tables.held));
}

/// To add a record under a new reference adds it to what is found.
proof fn lemma_with(tables: PeerTables, record: Arc<PeerRecord>, reference: u64)
    requires
        tables.below(reference),
    ensures
        tables.with(record, reference).state() == tables.state().with_shared(record),
{
    let after = tables.with(record, reference);
    let want = tables.state().with_shared(record);
    let name = record.name@;
    let id = record.id.id;
    lemma_named(tables, name);
    assert(after.state().by_id =~= want.by_id);
    assert forall|n: Seq<char>| tables.names.contains_key(n) implies #[trigger] resolved(
        tables.names[n],
        after.held,
    ) == resolved(tables.names[n], tables.held) by {
        assert(resolved(tables.names[n], after.held) =~= resolved(tables.names[n], tables.held));
    }
    assert(resolved(after.names[name], after.held) =~= want.by_name[name]);
    assert(want.by_name[name].dom().contains(id));
    assert(after.state().by_name =~= want.by_name);
}

/// To take out the references to a record takes it out of what is found.
proof fn lemma_without(tables: PeerTables, record: PeerRecord)
    ensures
        tables.without(record).state() == tables.state().without(record),
{
    let after = tables.without(record);
    let want = tables.state().without(record);
    let name = record.name@;
    let id = record.id.id;
    let left = tables.under(name).remove(id);
    lemma_named(tables, name);
    assert(after.state().by_id =~= want.by_id);
    assert(resolved(left, tables.held) =~= tables.state().named(name).remove(id));
    if left.dom() == Set::<u64>::empty() {
        assert(resolved(left, tables.held).dom() =~= Set::<u64>::empty());
    }
    assert(after.state().by_name =~= want.by_name);
}

/// A record that no one holds any more is found under no identity and no name, and nothing else
/// is lost with it.
pub proof fn law_lost_record_is_not_found(tables: PeerTables, reference: u64)
    ensures
        forall|k: u64| #[trigger]
            tables.lost(reference).state().by_id.contains_key(k)
                <==> tables.state().by_id.contains_key(k) && tables.ids[k] != reference,
        forall|k: u64| #[trigger]
            tables.lost(reference).state().by_id.contains_key(k)
                ==> tables.lost(reference).state().by_id[k] == tables.state().by_id[k],
        forall|n: Seq<char>, k: u64| #[trigger]
            tables.lost(reference).state().named(n).contains_key(k)
                <==> tables.state().named(n).contains_key(k) && tables.under(n)[k] != reference,
        forall|n: Seq<char>, k: u64| #[trigger]
            tables.lost(reference).state().named(n).contains_key(k)
                ==> tables.lost(reference).state().named(n)[k] == tables.state().named(n)[k],
{
    let after = tables.lost(reference);
    assert forall|n: Seq<char>| #[trigger]
        after.state().named(n) == resolved(tables.under(n), after.held) && tables.state().named(n)
            == resolved(tables.under(n), tables.held) by {
        lemma_named(after, n);
        lemma_named(tables, n);
    }
}

/// To deregister a tunnel that was registered under a new reference, with an identity that no other
/// tunnel has, brings back what was found before.
pub proof fn law_deregistration_undoes_registration(
    tables: PeerTables,
    record: PeerRecord,
    reference: u64,
)
    requires
        tables.below(reference),
        tables.state().coherent(),
        !tables.state().by_id.contains_key(record.id.id),
    ensures
        tables.with(Arc::new(record), reference).without(record).lost(reference).state()
            == tables.state(),
{
    let there = tables.with(Arc::new(record), reference);
    let gone = there.without(record);
    lemma_with(tables, Arc::new(record), reference);
    lemma_without(there, record);
    law_remove_undoes_insert(tables.state(), record);
    let after = gone.lost(reference);
    assert(resolved(gone.ids, after.held) =~= resolved(gone.ids, gone.held));
    assert forall|n: Seq<char>| gone.names.contains_key(n) implies #[trigger] resolved(
        gone.names[n],
        after.held,
    ) == resolved(gone.names[n], gone.held) by {
        assert(resolved(gone.names[n], after.held) =~= resolved(gone.names[n], gone.held));
    }
    assert(after.state().by_name =~= gone.state().by_name);
}

/// The connected tunnels.
pub struct PeerTracker {
    by_name: DashMap<String, DashMap<u64, u64>>,
    by_id: DashMap<u64, u64>,
    held: BTreeMap<u64, Arc<PeerRecord>>,
    next_reference: u64,
}

impl PeerTracker {
    /// The tables, and the records that are held.
    pub closed spec fn tables(&self) -> PeerTables {
        PeerTables {
            ids: id_peers(self.by_id),
            names: name_peers(self.by_name),
            held: self.held@,
        }
    }

    /// The number by which the next record is referred to.
    pub closed spec fn next(&self) -> u64 {
        self.next_reference
    }

    /// What the tracker finds.
    pub open spec fn state(&self) -> PeersState {
        self.tables().state()
    }

    /// No number refers to a record before it is given out.
    pub open spec fn well_formed(&self) -> bool {
        self.tables().below(self.next())
    }

    /// A tracker without tunnels.
    pub fn new() -> (r: Self)
        ensures
            r.well_formed(),
            r.next() == 0,
            r.state().by_id == Map::<u64, PeerRecord>::empty(),
            r.state().by_name == Map::<Seq<char>, Map<u64, PeerRecord>>::empty(),
            r.state().coherent(),
    {
        let r = PeerTracker {
            by_id: id_table(),
            by_name: name_table(),
            held: BTreeMap::new(),
            next_reference: 0,
        };
        assert forall|k: u64| !r.tables().ids.contains_key(k) by {
            assert(!id_peers(r.by_id).dom().contains(k));
        }
        assert forall|n: Seq<char>| !r.tables().names.contains_key(n) by {
            assert(!name_peers(r.by_name).dom().contains(n));
        }
        assert(r.state().by_id =~= Map::<u64, PeerRecord>::empty());
        assert(r.state().by_name =~= Map::<Seq<char>, Map<u64, PeerRecord>>::empty());
        r
    }

    /// Whether one more record can be referred to.
    pub fn has_room(&self) -> (r: bool)
        ensures
            r == (self.next() < u64::MAX),
    {
        self.next_reference < u64::MAX
    }

    /// A view of the tunnels.
    pub fn view(&self) -> (r: PeersView<'_>)
        ensures
            r.state() == self.state(),
    {
        PeersView { tracker: Some(self) }
    }

    /// Adds a tunnel under its identity and under its name. The record is found until it is taken
    /// out, or until the one who holds it says by this number that it is held no longer.
    pub fn insert(&mut self, record: &Arc<PeerRecord>) -> (r: u64)
        requires
            old(self).well_formed(),
            old(self).next() < u64::MAX,
        ensures
            final(self).well_formed(),
            r == old(self).next(),
            final(self).next() == r + 1,
            final(self).tables() == old(self).tables().with(*record, r),
            final(self).state() == old(self).state().with(**record),
    {
        broadcast use vstd::std_specs::btree::group_btree_axioms;

        let ghost before = self.tables();
        let ghost name = record.name@;
        let reference = self.next_reference;
        self.next_reference = reference + 1;
        let _ = self.held.insert(reference, record.clone());
        id_table_insert(&mut self.by_id, record.id.id, reference);
        let mut table = match name_table_remove(&mut self.by_name, record.name.raw()) {
            Some(table) => table,
            None => id_table(),
        };
        assert(id_peers(table) =~= before.under(name));
        id_table_insert(&mut table, record.id.id, reference);
        name_table_insert(&mut self.by_name, record.name.raw().to_owned(), table);
        assert(self.tables().names =~= before.with(*record, reference).names);
        assert(self.tables().held =~= before.with(*record, reference).held);
        proof {
            lemma_with(before, *record, reference);
        }
        reference
    }

    /// Takes a tunnel out under its identity and under its name.
    pub fn remove(&mut self, record: &PeerRecord)
        ensures
            old(self).well_formed() ==> final(self).well_formed(),
            final(self).next() == old(self).next(),
            final(self).tables() == old(self).tables().without(*record),
            final(self).state() == old(self).state().without(*record),
    {
        let ghost before = self.tables();
        let ghost name = record.name@;
        id_table_remove(&mut self.by_id, record.id.id);
        match name_table_remove(&mut self.by_name, record.name.raw()) {
            Some(table) => {
                let mut table = table;
                id_table_remove(&mut table, record.id.id);
                if !id_table_is_empty(&table) {
                    name_table_insert(&mut self.by_name, record.name.raw().to_owned(), table);
                }
            },
            None => {
                assert(before.under(name).remove(record.id.id).dom() =~= Set::<u64>::empty());
            },
        }
        assert(self.tables().names =~= before.without(*record).names);
        proof {
            lemma_without(before, *record);
        }
    }

    /// Notes that no one holds the record any more that was added with this number.
    pub fn lose(&mut self, reference: u64)
        ensures
            old(self).well_formed() ==> final(self).well_formed(),
            final(self).next() == old(self).next(),
            final(self).tables() == old(self).tables().lost(reference),
    {
        broadcast use vstd::std_specs::btree::group_btree_axioms;

        let ghost before = self.tables();
        let _ = self.held.remove(&reference);
        assert(self.tables().held =~= before.lost(reference).held);
    }

    /// The record that a number refers to.
    fn follow(&self, reference: u64) -> (r: Option<Arc<PeerRecord>>)
        ensures
            match r {
                Some(record) => self.tables().held.contains_key(reference)
                    && self.tables().held[reference] == record,
                None => !self.tables().held.contains_key(reference),
            },
    {
        broadcast use vstd::std_specs::btree::group_btree_axioms;

        match self.held.get(&reference) {
            Some(record) => Some(record.clone()),
            None => None,
        }
    }

    /// The records that the references of a table lead to, in no particular order.
    fn follow_all(&self, table: &DashMap<u64, u64>) -> (r: Vec<Arc<PeerRecord>>)
        ensures
            lists_values(r@, resolved(id_peers(*table), self.tables().held)),
    {
        let ghost m = id_peers(*table);
        let ghost held = self.tables().held;
        let entries = id_table_entries(table);
        let mut out: Vec<Arc<PeerRecord>> = Vec::new();
        let ghost mut keys: Seq<u64> = Seq::empty();
        let mut i: usize = 0;
        while i < entries.len()
            invariant
                i <= entries.len(),
                m == id_peers(*table),
                held == self.tables().held,
                lists_entries(entries@, m),
                keys.len() == out.len(),
                keys.no_duplicates(),
                forall|j: int|
                    0 <= j < keys.len() ==> *#[trigger] out@[j] == resolved(m, held)[keys[j]],
                forall|j: int|
                    0 <= j < keys.len() ==> resolved(m, held).contains_key(#[trigger] keys[j])
                        && exists|p: int| 0 <= p < i && (#[trigger] entries@[p]).0 == keys[j],
                forall|p: int|
                    0 <= p < i && held.contains_key((#[trigger] entries@[p]).1) ==> keys.contains(
                        entries@[p].0,
                    ),
            decreases entries.len() - i,
        {
            let (key, reference) = entries[i];
            let ghost before = keys;
            match self.follow(reference) {
                Some(record) => {
                    out.push(record);
                    proof {
                        assert(entries@[i as int] == (key, reference));
                        assert(!keys.contains(key));
                        keys = keys.push(key);
                        assert(keys[before.len() as int] == key);
                        assert forall|k: u64| before.contains(k) implies keys.contains(k) by {
                            let j = before.index_of(k);
                            assert(keys[j] == k);
                        }
                    }
                },
                None => {
                    assert(entries@[i as int] == (key, reference));
                },
            }
            i += 1;
            proof {
                assert forall|j: int| 0 <= j < keys.len() implies exists|p: int|
                    0 <= p < i && (#[trigger] entries@[p]).0 == #[trigger] keys[j] by {
                    if j == before.len() {
                        assert(entries@[i - 1].0 == keys[j]);
                    } else {
                        assert(before[j] == keys[j]);
                    }
                }
            }
        }
        proof {
            let all = resolved(m, held);
            assert forall|k: u64| keys.contains(k) <==> #[trigger] all.contains_key(k) by {
                if keys.contains(k) {
                    assert(all.contains_key(keys[keys.index_of(k)]));
                }
                if all.contains_key(k) {
                    assert(m.contains_key(k));
                    let p = choose|p: int| 0 <= p < entries.len() && (#[trigger] entries@[p]).0 == k;
                    assert(m[entries@[p].0] == entries@[p].1);
                }
            }
            assert(lists_values_by(out@, all, keys));
        }
        out
    }
}

/// Whether the order of a type is one: what the rest rests on where the best of some is sought.
pub open spec fn is_ordered<K: Ord>() -> bool {
    obeys_cmp::<K>()
}

/// Whether one rank is below another.
pub open spec fn rank_below<K: Ord>(a: K, b: K) -> bool {
    a.cmp_spec(&b) == Ordering::Less
}

/// What is not below something is not below anything that is not above that.
proof fn lemma_rank_order<K: Ord>(a: K, b: K, c: K)
    requires
        is_ordered::<K>(),
        !rank_below(b, a),
        !rank_below(c, b),
    ensures
        !rank_below(c, a),
{
    reveal(vstd::laws_eq::obeys_eq_spec_properties);
    reveal(vstd::laws_cmp::obeys_partial_cmp_spec_properties);
    reveal(vstd::laws_cmp::obeys_cmp_partial_ord);
    reveal(vstd::laws_cmp::obeys_cmp_ord);
    assert(a.cmp_spec(&b) == a.cmp_spec(&b) && b.cmp_spec(&a) == b.cmp_spec(&a));
    assert(b.cmp_spec(&c) == b.cmp_spec(&c) && c.cmp_spec(&b) == c.cmp_spec(&b));
    assert(a.cmp_spec(&c) == a.cmp_spec(&c) && c.cmp_spec(&a) == c.cmp_spec(&a));
}

/// Nothing is below itself.
proof fn lemma_rank_self<K: Ord>(a: K)
    requires
        is_ordered::<K>(),
    ensures
        !rank_below(a, a),
{
    reveal(vstd::laws_cmp::obeys_partial_cmp_spec_properties);
    reveal(vstd::laws_cmp::obeys_cmp_ord);
    assert(a.cmp_spec(&a) == a.cmp_spec(&a));
}

/// Whether one rank is below another.
fn is_below<K: Ord>(a: &K, b: &K) -> (r: bool)
    ensures
        is_ordered::<K>() ==> r == rank_below(*a, *b),
{
    proof {
        reveal(vstd::laws_cmp::obeys_cmp_ord);
    }
    match a.cmp(b) {
        Ordering::Less => true,
        _ => false,
    }
}

/// The best of some records, by a rank: none of the others has a higher one.
fn best_of<K: Ord, P: Fn(&PeerRecord) -> K>(records: &Vec<Arc<PeerRecord>>, rank: &P) -> (r: Option<
    Arc<PeerRecord>,
>)
    requires
        forall|i: int| 0 <= i < records.len() ==> rank.requires((&*#[trigger] records@[i],)),
    ensures
        match r {
            Some(best) => exists|i: int, top: K|
                0 <= i < records.len() && best == #[trigger] records@[i] && rank.ensures(
                    (&*best,),
                    top,
                ) && #[trigger] tops(records@, *rank, top),
            None => records.len() == 0,
        },
{
    let mut best: Option<(usize, K)> = None;
    let mut i: usize = 0;
    while i < records.len()
        invariant
            i <= records.len(),
            forall|i: int| 0 <= i < records.len() ==> rank.requires((&*#[trigger] records@[i],)),
            best is None <==> i == 0,
            best matches Some((k, top)) ==> k < i && rank.ensures((&*records@[k as int],), top)
                && tops(records@.take(i as int), *rank, top),
        decreases records.len() - i,
    {
        let here = rank(&records[i]);
        let ghost next = records@.take(i + 1);
        let ghost seen = records@.take(i as int);
        best = match best {
            None => {
                proof {
                    if is_ordered::<K>() {
                        lemma_rank_self(here);
                    }
                    assert forall|j: int| 0 <= j < next.len() implies ranked_at_most(
                        *rank,
                        #[trigger] next[j],
                        here,
                    ) by {
                        assert(rank.ensures((&*next[j],), here));
                    }
                }
                Some((i, here))
            },
            Some((k, top)) => {
                if is_below(&here, &top) {
                    proof {
                        assert forall|j: int| 0 <= j < next.len() implies ranked_at_most(
                            *rank,
                            #[trigger] next[j],
                            top,
                        ) by {
                            if j < i {
                                assert(ranked_at_most(*rank, seen[j], top));
                            } else {
                                assert(rank.ensures((&*next[j],), here));
                                if is_ordered::<K>() {
                                    lemma_below_is_one_way(here, top);
                                }
                            }
                        }
                    }
                    Some((k, top))
                } else {
                    proof {
                        assert forall|j: int| 0 <= j < next.len() implies ranked_at_most(
                            *rank,
                            #[trigger] next[j],
                            here,
                        ) by {
                            if j < i {
                                assert(ranked_at_most(*rank, seen[j], top));
                                let k2 = choose|k2: K| #[trigger]
                                    rank.ensures((&*seen[j],), k2) && (is_ordered::<K>()
                                        ==> !rank_below(top, k2));
                                if is_ordered::<K>() {
                                    lemma_rank_order(k2, top, here);
                                }
                                assert(rank.ensures((&*next[j],), k2));
                            } else {
                                assert(rank.ensures((&*next[j],), here));
                                if is_ordered::<K>() {
                                    lemma_rank_self(here);
                                }
                            }
                        }
                    }
                    Some((i, here))
                }
            },
        };
        i += 1;
    }
    assert(records@.take(records.len() as int) =~= records@);
    match best {
        Some((k, _)) => Some(records[k].clone()),
        None => None,
    }
}

/// Of two ranks at most one is below the other.
proof fn lemma_below_is_one_way<K: Ord>(a: K, b: K)
    requires
        is_ordered::<K>(),
        rank_below(a, b),
    ensures
        !rank_below(b, a),
{
    reveal(vstd::laws_cmp::obeys_partial_cmp_spec_properties);
    reveal(vstd::laws_cmp::obeys_cmp_ord);
    assert(a.cmp_spec(&b) == a.cmp_spec(&b) && b.cmp_spec(&a) == b.cmp_spec(&a));
}

/// Whether a record can be given a rank that is not above `top`, where ranks are ordered at all.
pub open spec fn ranked_at_most<K: Ord, P: Fn(&PeerRecord) -> K>(
    rank: P,
    record: Arc<PeerRecord>,
    top: K,
) -> bool {
    exists|k: K| #[trigger]
        rank.ensures((&*record,), k) && (is_ordered::<K>() ==> !rank_below(top, k))
}

/// Whether no record has a rank above `top`.
pub open spec fn tops<K: Ord, P: Fn(&PeerRecord) -> K>(
    records: Seq<Arc<PeerRecord>>,
    rank: P,
    top: K,
) -> bool {
    forall|j: int| 0 <= j < records.len() ==> ranked_at_most(rank, #[trigger] records[j], top)
}

/// Whether `best` is in `m`, and can be given a rank that none of `m` has to exceed.
pub open spec fn is_best<K: Ord, P: Fn(&PeerRecord) -> K>(
    best: Option<Arc<PeerRecord>>,
    m: Map<u64, PeerRecord>,
    rank: P,
) -> bool {
    match best {
        None => m.dom() == Set::<u64>::empty(),
        Some(record) => {
            &&& m.contains_value(*record)
            &&& exists|top: K| #[trigger]
                rank.ensures((&*record,), top) && forall|k: u64| #[trigger]
                    m.contains_key(k) ==> ranked_at_most(rank, Arc::new(m[k]), top)
        },
    }
}

/// The best of some records is one of them, and none of the others ranks above it, where ranks are
/// ordered and each record has one; there is none exactly where there are no records.
pub proof fn law_best_is_not_exceeded<K: Ord, P: Fn(&PeerRecord) -> K>(
    best: Option<Arc<PeerRecord>>,
    m: Map<u64, PeerRecord>,
    rank: P,
    k: u64,
    highest: K,
    other: K,
)
    requires
        is_best(best, m, rank),
        is_ordered::<K>(),
        forall|record: PeerRecord, a: K, b: K|
            #[trigger] rank.ensures((&record,), a) && #[trigger] rank.ensures((&record,), b) ==> a
                == b,
        m.contains_key(k),
        best matches Some(record) ==> rank.ensures((&*record,), highest),
        rank.ensures((&m[k],), other),
    ensures
        best matches Some(record) && m.contains_value(*record) && !rank_below(highest, other),
{
    match best {
        None => {
            assert(m.dom().contains(k));
        },
        Some(record) => {
            let top = choose|top: K| #[trigger]
                rank.ensures((&*record,), top) && forall|k: u64| #[trigger]
                    m.contains_key(k) ==> ranked_at_most(rank, Arc::new(m[k]), top);
            assert(top == highest);
            assert(ranked_at_most(rank, Arc::new(m[k]), top));
            let held = choose|held: K| #[trigger]
                rank.ensures((&*Arc::new(m[k]),), held) && (is_ordered::<K>() ==> !rank_below(
                    top,
                    held,
                ));
            assert(held == other);
        },
    }
}

/// Nothing is found.
pub open spec fn no_peers() -> PeersState {
    PeersState { by_id: Map::empty(), by_name: Map::empty() }
}

/// The connected tunnels, for those who look for one. There are none once the tracker is gone.
pub struct PeersView<'a> {
    tracker: Option<&'a PeerTracker>,
}

impl<'a> PeersView<'a> {
    /// What is found.
    pub closed spec fn state(&self) -> PeersState {
        match self.tracker {
            Some(tracker) => tracker.state(),
            None => no_peers(),
        }
    }

    /// A view of the tunnels of a tracker, or of one that is gone.
    pub fn new(tracker: Option<&'a PeerTracker>) -> (r: Self)
        ensures
            r.state() == match tracker {
                Some(tracker) => tracker.state(),
                None => no_peers(),
            },
    {
        PeersView { tracker }
    }

    /// The tunnel with this identity.
    pub fn get_by_id(&self, tunnel_id: &TunnelId) -> (r: Option<Arc<PeerRecord>>)
        ensures
            match r {
                Some(record) => self.state().by_id.contains_key(tunnel_id.id)
                    && self.state().by_id[tunnel_id.id] == *record,
                None => !self.state().by_id.contains_key(tunnel_id.id),
            },
    {
        match self.tracker {
            Some(tracker) => match id_table_get(&tracker.by_id, tunnel_id.id) {
                Some(reference) => tracker.follow(reference),
                None => None,
            },
            None => None,
        }
    }

    /// The tunnels with this name, in no particular order.
    pub fn get_by_name(&self, tunnel_name: &TunnelName) -> (r: Vec<Arc<PeerRecord>>)
        ensures
            lists_values(r@, self.state().named(tunnel_name@)),
    {
        if let Some(tracker) = self.tracker {
            proof {
                lemma_named(tracker.tables(), tunnel_name@);
            }
            if let Some(table) = name_table_get(&tracker.by_name, tunnel_name.raw()) {
                return tracker.follow_all(&table);
            }
        }
        let none: Vec<Arc<PeerRecord>> = Vec::new();
        assert(lists_values_by(none@, self.state().named(tunnel_name@), Seq::empty()));
        none
    }

    /// A tunnel with this name for which `predicate` holds.
    pub fn find_by_name_and_predicate<P: Fn(&PeerRecord) -> bool>(
        &self,
        tunnel_name: &TunnelName,
        predicate: P,
    ) -> (r: Option<Arc<PeerRecord>>)
        requires
            forall|record: &PeerRecord| predicate.requires((record,)),
        ensures
            ({
                let m = self.state().named(tunnel_name@);
                match r {
                    Some(record) => m.contains_value(*record) && predicate.ensures(
                        (&*record,),
                        true,
                    ),
                    None => forall|k: u64| #[trigger]
                        m.contains_key(k) ==> predicate.ensures((&m[k],), false),
                }
            }),
    {
        let records = self.get_by_name(tunnel_name);
        let ghost m = self.state().named(tunnel_name@);
        let ghost keys = choose|keys: Seq<u64>| #[trigger] lists_values_by(records@, m, keys);
        let mut i: usize = 0;
        while i < records.len()
            invariant
                i <= records.len(),
                forall|record: &PeerRecord| predicate.requires((record,)),
                m == self.state().named(tunnel_name@),
                lists_values_by(records@, m, keys),
                forall|j: int|
                    0 <= j < i ==> predicate.ensures((&*#[trigger] records@[j],), false),
            decreases records.len() - i,
        {
            if predicate(&records[i]) {
                proof {
                    let k = keys[i as int];
                    assert(keys.contains(k));
                    assert(m.contains_key(k) && m[k] == *records@[i as int]);
                }
                return Some(records[i].clone());
            }
            i += 1;
        }
        proof {
            assert forall|k: u64| #[trigger] m.contains_key(k) implies predicate.ensures(
                (&m[k],),
                false,
            ) by {
                assert(keys.contains(k));
                let j = keys.index_of(k);
                assert(*records@[j] == m[k]);
            }
        }
        None
    }

    /// The tunnel with the highest rank.
    pub fn find_by_comparator<K: Ord, P: Fn(&PeerRecord) -> K>(&self, rank: P) -> (r: Option<
        Arc<PeerRecord>,
    >)
        requires
            forall|record: &PeerRecord| rank.requires((record,)),
        ensures
            is_best(r, self.state().by_id, rank),
    {
        let records = self.all();
        let r = best_of(&records, &rank);
        proof {
            lemma_best(records@, self.state().by_id, rank, r);
        }
        r
    }

    /// The tunnel with the highest rank of those with this name.
    pub fn find_by_name_and_comparator<K: Ord, P: Fn(&PeerRecord) -> K>(
        &self,
        tunnel_name: &TunnelName,
        rank: P,
    ) -> (r: Option<Arc<PeerRecord>>)
        requires
            forall|record: &PeerRecord| rank.requires((record,)),
        ensures
            is_best(r, self.state().named(tunnel_name@), rank),
    {
        let records = self.get_by_name(tunnel_name);
        let r = best_of(&records, &rank);
        proof {
            lemma_best(records@, self.state().named(tunnel_name@), rank, r);
        }
        r
    }

    /// All tunnels, in no particular order.
    pub fn all(&self) -> (r: Vec<Arc<PeerRecord>>)
        ensures
            lists_values(r@, self.state().by_id),
    {
        match self.tracker {
            Some(tracker) => tracker.follow_all(&tracker.by_id),
            None => {
                let none: Vec<Arc<PeerRecord>> = Vec::new();
                assert(lists_values_by(none@, self.state().by_id, Seq::empty()));
                none
            },
        }
    }
}

/// The best of the values of a table is the best of the table.
proof fn lemma_best<K: Ord, P: Fn(&PeerRecord) -> K>(
    records: Seq<Arc<PeerRecord>>,
    m: Map<u64, PeerRecord>,
    rank: P,
    r: Option<Arc<PeerRecord>>,
)
    requires
        lists_values(records, m),
        match r {
            Some(best) => exists|i: int, top: K|
                0 <= i < records.len() && best == #[trigger] records[i] && rank.ensures(
                    (&*best,),
                    top,
                ) && #[trigger] tops(records, rank, top),
            None => records.len() == 0,
        },
    ensures
        is_best(r, m, rank),
{
    let keys = choose|keys: Seq<u64>| #[trigger] lists_values_by(records, m, keys);
    match r {
        None => {
            assert forall|k: u64| !m.dom().contains(k) by {
                if m.contains_key(k) {
                    assert(keys.contains(k));
                }
            }
            assert(m.dom() =~= Set::<u64>::empty());
        },
        Some(best) => {
            let (i, top) = choose|i: int, top: K|
                0 <= i < records.len() && best == #[trigger] records[i] && rank.ensures(
                    (&*best,),
                    top,
                ) && #[trigger] tops(records, rank, top);
            assert(keys.contains(keys[i]));
            assert(m.contains_key(keys[i]) && m[keys[i]] == *best);
            assert forall|k: u64| #[trigger] m.contains_key(k) implies ranked_at_most(
                rank,
                Arc::new(m[k]),
                top,
            ) by {
                assert(keys.contains(k));
                let j = keys.index_of(k);
                assert(*records[j] == m[k]);
                assert(ranked_at_most(rank, records[j], top));
            }
        },
    }
}

} // verus!
