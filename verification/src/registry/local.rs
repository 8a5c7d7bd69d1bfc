//! A registry of the tunnels of one process, by identity, in which a name belongs to at most one
//! tunnel.

use std::collections::BTreeMap;
use std::sync::Arc;

use vstd::prelude::*;

use crate::ordered::{lists_keys, sorted_keys};
use crate::text::same_text;
use crate::tunnel::id::TunnelId;
use crate::tunnel::TunnelName;

verus! {

/// What is known of a tunnel.
#[derive(Debug)]
pub struct TunnelRecord<T, M> {
    pub id: TunnelId,
    pub name: Option<TunnelName>,
    /// The tunnel, unless it lives elsewhere.
    pub tunnel: Option<Arc<T>>,
    pub metadata: M,
}

/// Why a tunnel was not registered.
#[derive(Debug, Clone, Copy, PartialEq, Eq, Structural)]
pub enum TunnelRegistrationError {
    /// There is a tunnel with this identity already.
    IdOccupied(TunnelId),
}

/// Why a tunnel was not named.
#[derive(Debug, Clone, Copy, PartialEq, Eq, Structural)]
pub enum TunnelNamingError {
    /// There is no tunnel with this identity.
    TunnelNotRegistered(TunnelId),
}

/// Whether both are names, and the same one.
pub open spec fn same_name(a: Option<TunnelName>, b: Option<TunnelName>) -> bool {
    match (a, b) {
        (Some(x), Some(y)) => x@ == y@,
        _ => false,
    }
}

fn is_same_name(a: &Option<TunnelName>, b: &Option<TunnelName>) -> (r: bool)
    ensures
        r == same_name(*a, *b),
{
    match (a, b) {
        (Some(x), Some(y)) => same_text(x.raw(), y.raw()),
        _ => false,
    }
}

/// Whether each record stands under its identity, and no two records have the same name.
pub open spec fn consistent<T, M>(m: Map<u64, TunnelRecord<T, M>>) -> bool {
    &&& forall|k: u64| #[trigger] m.contains_key(k) ==> m[k].id.id == k
    &&& forall|j: u64, k: u64|
        m.contains_key(j) && m.contains_key(k) && j != k ==> !same_name(
            (#[trigger] m[j]).name,
            (#[trigger] m[k]).name,
        )
}

/// A record without its name.
pub open spec fn unnamed<T, M>(record: TunnelRecord<T, M>) -> TunnelRecord<T, M> {
    TunnelRecord { name: None, ..record }
}

/// The records with `name` taken from every tunnel but `id`.
pub open spec fn name_taken<T, M>(
    m: Map<u64, TunnelRecord<T, M>>,
    id: TunnelId,
    name: Option<TunnelName>,
) -> Map<u64, TunnelRecord<T, M>> {
    Map::new(
        |k: u64| m.contains_key(k),
        |k: u64|
            if k != id.id && same_name(m[k].name, name) {
                unnamed(m[k])
            } else {
                m[k]
            },
    )
}

/// The records of tunnels, and how the metadata of a new one is made.
pub struct InMemoryTunnelRegistry<T, M, F> {
    tunnels: BTreeMap<u64, TunnelRecord<T, M>>,
    metadata_constructor: F,
}

impl<T, M, F> View for InMemoryTunnelRegistry<T, M, F> {
    type V = Map<u64, TunnelRecord<T, M>>;

    closed spec fn view(&self) -> Map<u64, TunnelRecord<T, M>> {
        self.tunnels@
    }
}

impl<T, M: Clone, F: Fn(TunnelId, Option<&Arc<T>>) -> M> InMemoryTunnelRegistry<T, M, F> {
    /// How the metadata of a new tunnel is made.
    pub closed spec fn constructor(&self) -> F {
        self.metadata_constructor
    }

    /// A registry without tunnels.
    pub fn new_with_metadata_constructor(metadata_constructor: F) -> (r: Self)
        ensures
            r@ == Map::<u64, TunnelRecord<T, M>>::empty(),
            r.constructor() == metadata_constructor,
            consistent(r@),
    {
        InMemoryTunnelRegistry { tunnels: BTreeMap::new(), metadata_constructor }
    }

    /// The identities of the tunnels, from the smallest to the largest.
    pub fn keys(&self) -> (r: Vec<TunnelId>)
        ensures
            lists_keys(r@.map_values(|id: TunnelId| id.id), self@),
    {
        let keys = sorted_keys(&self.tunnels);
        let mut out: Vec<TunnelId> = Vec::new();
        let mut i: usize = 0;
        while i < keys.len()
            invariant
                i <= keys.len(),
                out@.map_values(|id: TunnelId| id.id) == keys@.take(i as int),
            decreases keys.len() - i,
        {
            let ghost before = out@;
            out.push(TunnelId::new(keys[i]));
            proof {
                assert(out@.map_values(|id: TunnelId| id.id) =~= before.map_values(
                    |id: TunnelId| id.id,
                ).push(keys@[i as int]));
                assert(keys@.take(i + 1) =~= keys@.take(i as int).push(keys@[i as int]));
            }
            i += 1;
        }
        assert(keys@.take(keys.len() as int) =~= keys@);
        out
    }

    /// The largest identity of a tunnel.
    pub fn max_key(&self) -> (r: Option<TunnelId>)
        ensures
            match r {
                Some(id) => self@.contains_key(id.id) && forall|k: u64| #[trigger]
                    self@.contains_key(k) ==> k <= id.id,
                None => forall|k: u64| !#[trigger] self@.contains_key(k),
            },
    {
        let keys = sorted_keys(&self.tunnels);
        if keys.len() == 0 {
            proof {
                assert forall|k: u64| !#[trigger] self@.contains_key(k) by {
                    assert(!keys@.contains(k));
                }
            }
            return None;
        }
        let last: u64 = keys[keys.len() - 1];
        proof {
            assert(keys@.contains(last));
            assert forall|k: u64| #[trigger] self@.contains_key(k) implies k <= last by {
                assert(keys@.contains(k));
                let i = keys@.index_of(k);
                if i < keys.len() - 1 {
                    assert(keys@[i] < keys@[keys.len() - 1]);
                }
            }
        }
        Some(TunnelId::new(last))
    }

    /// The record of a tunnel.
    pub fn lookup_by_id(&self, tunnel_id: TunnelId) -> (r: Option<&TunnelRecord<T, M>>)
        ensures
            match r {
                Some(record) => self@.contains_key(tunnel_id.id) && *record == self@[tunnel_id.id],
                None => !self@.contains_key(tunnel_id.id),
            },
    {
        broadcast use vstd::std_specs::btree::group_btree_axioms;

        self.tunnels.get(&tunnel_id.id)
    }

    /// The record of the tunnel with this name, or, where several had it, of the one with the
    /// smallest identity.
    pub fn lookup_by_name(&self, tunnel_name: &TunnelName) -> (r: Option<&TunnelRecord<T, M>>)
        ensures
            match r {
                Some(record) => exists|k: u64|
                    #![trigger self@[k]]
                    self@.contains_key(k) && self@[k] == *record && same_name(
                        self@[k].name,
                        Some(*tunnel_name),
                    ) && forall|j: u64| #[trigger]
                        self@.contains_key(j) && j < k ==> !same_name(
                            self@[j].name,
                            Some(*tunnel_name),
                        ),
                None => forall|k: u64| #[trigger]
                    self@.contains_key(k) ==> !same_name(self@[k].name, Some(*tunnel_name)),
            },
    {
        broadcast use vstd::std_specs::btree::group_btree_axioms;

        let keys = sorted_keys(&self.tunnels);
        let mut i: usize = 0;
        while i < keys.len()
            invariant
                i <= keys.len(),
                self@ == self.tunnels@,
                lists_keys(keys@, self@),
                forall|j: int|
                    0 <= j < i ==> !same_name(
                        self@[#[trigger] keys@[j]].name,
                        Some(*tunnel_name),
                    ),
            decreases keys.len() - i,
        {
            assert(keys@.contains(keys@[i as int]));
            assert(self@.contains_key(keys@[i as int]));
            if let Some(record) = self.tunnels.get(&keys[i]) {
                if let Some(name) = &record.name {
                    if same_text(name.raw(), tunnel_name.raw()) {
                        proof {
                            let k = keys@[i as int];
                            assert(self@[k] == *record);
                            assert forall|j: u64| #[trigger]
                                self@.contains_key(j) && j < k implies !same_name(
                                self@[j].name,
                                Some(*tunnel_name),
                            ) by {
                                assert(keys@.contains(j));
                                let n = keys@.index_of(j);
                                if n > i {
                                    assert(keys@[i as int] < keys@[n]);
                                }
                            }
                        }
                        return Some(record);
                    }
                }
            }
            i += 1;
        }
        proof {
            assert forall|k: u64| #[trigger] self@.contains_key(k) implies !same_name(
                self@[k].name,
                Some(*tunnel_name),
            ) by {
                assert(keys@.contains(k));
                let n = keys@.index_of(k);
                assert(keys@[n] == k);
            }
        }
        None
    }

    /// Registers a tunnel of this process, and hands its metadata back.
    pub fn register_tunnel(&mut self, tunnel_id: TunnelId, tunnel: Arc<T>) -> (r: Result<
        M,
        TunnelRegistrationError,
    >)
        requires
            consistent(old(self)@),
            old(self).constructor().requires((tunnel_id, Some(&tunnel))),
        ensures
            consistent(final(self)@),
            final(self).constructor() == old(self).constructor(),
            registered(*old(self), *final(self), tunnel_id, Some(tunnel), r),
    {
        self.register_tunnel_mirror(tunnel_id, Some(tunnel))
    }

    /// Registers a tunnel that may live elsewhere, and hands its metadata back.
    pub fn register_tunnel_mirror(&mut self, tunnel_id: TunnelId, tunnel: Option<Arc<T>>) -> (r:
        Result<M, TunnelRegistrationError>)
        requires
            consistent(old(self)@),
            old(self).constructor().requires(
                (
                    tunnel_id,
                    match tunnel {
                        Some(t) => Some(&t),
                        None => None,
                    },
                ),
            ),
        ensures
            consistent(final(self)@),
            final(self).constructor() == old(self).constructor(),
            registered(*old(self), *final(self), tunnel_id, tunnel, r),
    {
        broadcast use vstd::std_specs::btree::group_btree_axioms;

        if self.tunnels.contains_key(&tunnel_id.id) {
            return Err(TunnelRegistrationError::IdOccupied(tunnel_id));
        }
        let metadata = (self.metadata_constructor)(tunnel_id, tunnel.as_ref());
        let copy = metadata.clone();
        let record = TunnelRecord { id: tunnel_id, name: None, tunnel, metadata };
        let _ = self.tunnels.insert(tunnel_id.id, record);
        Ok(copy)
    }

    /// Gives a tunnel a name, or takes its name away. A name that another tunnel has is taken from
    /// that tunnel first, even where the tunnel that is to be named is not there.
    pub fn name_tunnel(&mut self, tunnel_id: TunnelId, name: Option<TunnelName>) -> (r: Result<
        (),
        TunnelNamingError,
    >)
        requires
            consistent(old(self)@),
        ensures
            consistent(final(self)@),
            final(self).constructor() == old(self).constructor(),
            ({
                let taken = name_taken(old(self)@, tunnel_id, name);
                match r {
                    Ok(_) => {
                        &&& old(self)@.contains_key(tunnel_id.id)
                        &&& final(self)@ == taken.insert(
                            tunnel_id.id,
                            TunnelRecord { name, ..old(self)@[tunnel_id.id] },
                        )
                    },
                    Err(e) => {
                        &&& !old(self)@.contains_key(tunnel_id.id)
                        &&& e == TunnelNamingError::TunnelNotRegistered(tunnel_id)
                        &&& final(self)@ == taken
                    },
                }
            }),
    {
        broadcast use vstd::std_specs::btree::group_btree_axioms;

        let ghost before = self@;
        let ghost taken = name_taken(before, tunnel_id, name);
        let keys = sorted_keys(&self.tunnels);
        let mut i: usize = 0;
        while i < keys.len()
            invariant
                i <= keys.len(),
                self@ == self.tunnels@,
                self.constructor() == old(self).constructor(),
                lists_keys(keys@, before),
                taken == name_taken(before, tunnel_id, name),
                forall|k: u64| self@.contains_key(k) <==> #[trigger] before.contains_key(k),
                forall|j: int|
                    0 <= j < i ==> self@[#[trigger] keys@[j]] == taken[keys@[j]],
                forall|j: int|
                    i <= j < keys.len() ==> self@[#[trigger] keys@[j]] == before[keys@[j]],
            decreases keys.len() - i,
        {
            let k: u64 = keys[i];
            assert(keys@.contains(k));
            assert(before.contains_key(k));
            if k != tunnel_id.id {
                if let Some(record) = self.tunnels.remove(&k) {
                    let mut record = record;
                    if is_same_name(&record.name, &name) {
                        record.name = None;
                    }
                    let _ = self.tunnels.insert(k, record);
                }
            }
            i += 1;
        }
        proof {
            assert forall|k: u64| #[trigger] before.contains_key(k) implies self@[k]
                == taken[k] by {
                assert(keys@.contains(k));
                let n = keys@.index_of(k);
                assert(keys@[n] == k);
            }
            assert(self@ =~= taken);
            assert forall|j: u64, k: u64|
                taken.contains_key(j) && taken.contains_key(k) && j != k implies !same_name(
                (#[trigger] taken[j]).name,
                (#[trigger] taken[k]).name,
            ) by {
                assert(before.contains_key(j) && before.contains_key(k));
                assert(!same_name(before[j].name, before[k].name));
            }
        }
        match self.tunnels.remove(&tunnel_id.id) {
            None => {
                assert(self@ =~= taken);
                Err(TunnelNamingError::TunnelNotRegistered(tunnel_id))
            },
            Some(record) => {
                let mut record = record;
                record.name = name;
                let _ = self.tunnels.insert(tunnel_id.id, record);
                proof {
                    let after = taken.insert(tunnel_id.id, record);
                    assert(self@ =~= after);
                    assert forall|j: u64, k: u64|
                        after.contains_key(j) && after.contains_key(k) && j != k implies !same_name(
                        (#[trigger] after[j]).name,
                        (#[trigger] after[k]).name,
                    ) by {
                        assert(before.contains_key(j) && before.contains_key(k));
                        assert(!same_name(taken[j].name, taken[k].name));
                    }
                    assert forall|k: u64| #[trigger] after.contains_key(k) implies after[k].id.id
                        == k by {
                        assert(before.contains_key(k));
                    }
                }
                Ok(())
            },
        }
    }

    /// Takes the record of a tunnel out.
    pub fn deregister_tunnel(&mut self, tunnel_id: TunnelId) -> (r: Option<TunnelRecord<T, M>>)
        requires
            consistent(old(self)@),
        ensures
            consistent(final(self)@),
            final(self)@ == old(self)@.remove(tunnel_id.id),
            final(self).constructor() == old(self).constructor(),
            r == old(self)@.get(tunnel_id.id),
    {
        broadcast use vstd::std_specs::btree::group_btree_axioms;

        self.tunnels.remove(&tunnel_id.id)
    }
}

/// What registering a tunnel does: it is refused where the identity is taken, and adds a record
/// without a name otherwise.
pub open spec fn registered<T, M: Clone, F: Fn(TunnelId, Option<&Arc<T>>) -> M>(
    before: InMemoryTunnelRegistry<T, M, F>,
    after: InMemoryTunnelRegistry<T, M, F>,
    tunnel_id: TunnelId,
    tunnel: Option<Arc<T>>,
    r: Result<M, TunnelRegistrationError>,
) -> bool {
    match r {
        Err(e) => {
            &&& before@.contains_key(tunnel_id.id)
            &&& e == TunnelRegistrationError::IdOccupied(tunnel_id)
            &&& after@ == before@
        },
        Ok(m) => {
            &&& !before@.contains_key(tunnel_id.id)
            &&& after@.contains_key(tunnel_id.id)
            &&& after@ == before@.insert(tunnel_id.id, after@[tunnel_id.id])
            &&& after@[tunnel_id.id].id == tunnel_id
            &&& after@[tunnel_id.id].name is None
            &&& after@[tunnel_id.id].tunnel == tunnel
            &&& before.constructor().ensures(
                (
                    tunnel_id,
                    match tunnel {
                        Some(t) => Some(&t),
                        None => None,
                    },
                ),
                after@[tunnel_id.id].metadata,
            )
            &&& cloned(after@[tunnel_id.id].metadata, m)
        },
    }
}

/// After a tunnel was named, it is the one that is found under the name.
pub proof fn law_named_tunnel_is_found<T, M>(
    m: Map<u64, TunnelRecord<T, M>>,
    id: TunnelId,
    name: TunnelName,
    k: u64,
)
    requires
        consistent(m),
        m.contains_key(id.id),
        m.contains_key(k),
    ensures
        ({
            let named = name_taken(m, id, Some(name)).insert(
                id.id,
                TunnelRecord { name: Some(name), ..m[id.id] },
            );
            same_name(named[k].name, Some(name)) <==> k == id.id
        }),
{
}

/// To give a name takes it from every other tunnel that has it, and changes nothing else of any
/// tunnel: no tunnel is added or left out, and only the name of a tunnel that had the name is gone.
pub proof fn law_naming_takes_only_the_name<T, M>(
    m: Map<u64, TunnelRecord<T, M>>,
    id: TunnelId,
    name: Option<TunnelName>,
    k: u64,
)
    ensures
        ({
            let taken = name_taken(m, id, name);
            &&& taken.contains_key(k) <==> m.contains_key(k)
            &&& m.contains_key(k) ==> {
                &&& taken[k].id == m[k].id
                &&& taken[k].tunnel == m[k].tunnel
                &&& taken[k].metadata == m[k].metadata
                &&& k == id.id ==> taken[k].name == m[k].name
                &&& taken[k].name is Some ==> taken[k].name == m[k].name
                &&& k != id.id ==> (taken[k].name is None <==> m[k].name is None || (
                m[k].name matches Some(held) && name matches Some(wanted) && held@ == wanted@))
            }
        }),
{
}

/// A tunnel is registered exactly where its identity was free, and then without a name; the records
/// of all other tunnels stay as they are.
pub proof fn law_registration_adds_one_record<T, M: Clone, F: Fn(TunnelId, Option<&Arc<T>>) -> M>(
    before: InMemoryTunnelRegistry<T, M, F>,
    after: InMemoryTunnelRegistry<T, M, F>,
    tunnel_id: TunnelId,
    tunnel: Option<Arc<T>>,
    r: Result<M, TunnelRegistrationError>,
    other: u64,
)
    requires
        registered(before, after, tunnel_id, tunnel, r),
    ensures
        r is Ok <==> !before@.contains_key(tunnel_id.id),
        r is Err ==> after@ == before@ && r->Err_0 == TunnelRegistrationError::IdOccupied(
            tunnel_id,
        ),
        after@.contains_key(tunnel_id.id),
        r is Ok ==> after@[tunnel_id.id].name is None && after@[tunnel_id.id].id == tunnel_id
            && after@[tunnel_id.id].tunnel == tunnel,
        other != tunnel_id.id ==> after@.get(other) == before@.get(other),
        r matches Ok(m) ==> {
            let given = match tunnel {
                Some(t) => Some(&t),
                None => None,
            };
            &&& before.constructor().ensures((tunnel_id, given), after@[tunnel_id.id].metadata)
            &&& cloned(after@[tunnel_id.id].metadata, m)
        },
{
}

/// In a consistent registry, every tunnel is found under its own identity, and a name is that of at
/// most one tunnel.
pub proof fn law_names_are_held_once<T, M>(m: Map<u64, TunnelRecord<T, M>>, j: u64, k: u64)
    requires
        consistent(m),
        m.contains_key(j),
        m.contains_key(k),
    ensures
        m[k].id.id == k,
        m[j].name matches Some(x) ==> (m[k].name matches Some(y) ==> (x@ == y@ ==> j == k)),
{
    if j != k {
        assert(!same_name(m[j].name, m[k].name));
    }
}

} // verus!
