//! A registry that lives in the memory of one process.

use dashmap::DashMap;
use vstd::prelude::*;

use crate::slab::Slab;
use crate::table::{
    name_entries, name_table, name_table_get, name_table_insert, name_table_len, name_table_remove,
};
use crate::tunnel::TunnelName;

verus! {

/// The records of tunnels under their names. The last registration of a name wins.
pub struct InMemoryTunnelRegistry<R> {
    tunnels: DashMap<String, u64>,
    records: Slab<R>,
}

/// Names a registration, by the name of its tunnel.
#[derive(Debug, PartialEq, Eq, Hash)]
pub struct InMemoryTunnelRegistryIdentifier {
    name: TunnelName,
}

impl InMemoryTunnelRegistryIdentifier {
    /// The name of the tunnel.
    pub closed spec fn tunnel_name(&self) -> Seq<char> {
        self.name@
    }

    pub fn of(tunnel_name: &TunnelName) -> (r: Self)
        ensures
            r.tunnel_name() == tunnel_name@,
    {
        InMemoryTunnelRegistryIdentifier { name: tunnel_name.clone() }
    }
}

impl<R> View for InMemoryTunnelRegistry<R> {
    type V = Map<Seq<char>, R>;

    closed spec fn view(&self) -> Map<Seq<char>, R> {
        Map::new(
            |name: Seq<char>| name_entries(self.tunnels).contains_key(name),
            |name: Seq<char>| self.records@[name_entries(self.tunnels)[name]],
        )
    }
}

impl<R> InMemoryTunnelRegistry<R> {
    /// Every name leads to a record, and no two names to the same one.
    pub closed spec fn well_formed(&self) -> bool {
        let names = name_entries(self.tunnels);
        &&& self.records.well_formed()
        &&& names.dom().finite()
        &&& forall|n: Seq<char>| #[trigger]
            names.contains_key(n) ==> self.records@.contains_key(names[n])
        &&& forall|n: Seq<char>, m: Seq<char>|
            names.contains_key(n) && names.contains_key(m) && n != m ==> #[trigger] names[n]
                != #[trigger] names[m]
    }

    /// A registry without tunnels.
    pub fn new() -> (r: Self)
        ensures
            r.well_formed(),
            r@ == Map::<Seq<char>, R>::empty(),
    {
        let r = InMemoryTunnelRegistry { tunnels: name_table(), records: Slab::new() };
        assert(r@ =~= Map::<Seq<char>, R>::empty());
        r
    }

    /// How many names are registered.
    pub fn len(&self) -> (r: usize)
        requires
            self.well_formed(),
        ensures
            r == self@.dom().len(),
    {
        assert(self@.dom() =~= name_entries(self.tunnels).dom());
        name_table_len(&self.tunnels)
    }

    /// The record under a name.
    pub fn lookup(&self, tunnel_name: &TunnelName) -> (r: Option<&R>)
        requires
            self.well_formed(),
        ensures
            match r {
                Some(record) => self@.get(tunnel_name@) == Some(*record),
                None => self@.get(tunnel_name@) is None,
            },
    {
        match name_table_get(&self.tunnels, tunnel_name.raw()) {
            Some(k) => {
                assert(name_entries(self.tunnels).contains_key(tunnel_name@));
                self.records.get(k)
            },
            None => None,
        }
    }

    /// Puts a record under a name, in place of the one that stood there.
    pub fn register(&mut self, tunnel_name: TunnelName, record: R) -> (r:
        InMemoryTunnelRegistryIdentifier)
        requires
            old(self).well_formed(),
        ensures
            final(self).well_formed(),
            final(self)@ == change_made(
                old(self)@,
                RegistryChange::Register(tunnel_name@, record),
            ),
            r.tunnel_name() == tunnel_name@,
    {
        let ghost before = *self;
        let ghost name = tunnel_name@;
        let identifier = InMemoryTunnelRegistryIdentifier::of(&tunnel_name);
        let k = self.records.insert(record);
        let replaced = name_table_insert(&mut self.tunnels, tunnel_name.into_string(), k);
        if let Some(j) = replaced {
            assert(name_entries(before.tunnels).contains_key(name));
            let _ = self.records.remove(j);
        }
        proof {
            let names = name_entries(self.tunnels);
            let old_names = name_entries(before.tunnels);
            assert forall|n: Seq<char>| #[trigger] names.contains_key(n) implies
                self.records@.contains_key(names[n]) by {
                if n != name {
                    assert(old_names.contains_key(n));
                }
            }
            assert forall|n: Seq<char>, m: Seq<char>|
                names.contains_key(n) && names.contains_key(m) && n != m implies
                #[trigger] names[n] != #[trigger] names[m] by {
                if n != name {
                    assert(old_names.contains_key(n));
                }
                if m != name {
                    assert(old_names.contains_key(m));
                }
            }
            assert(self@ =~= before@.insert(name, record)) by {
                assert forall|n: Seq<char>| self@.contains_key(n) implies #[trigger] self@[n]
                    == before@.insert(name, record)[n] by {
                    if n != name {
                        assert(old_names.contains_key(n));
                        if replaced is Some {
                            assert(old_names[n] != old_names[name]);
                        }
                    }
                }
            }
        }
        identifier
    }

    /// Takes the record under a name out.
    pub fn deregister(&mut self, tunnel_name: &TunnelName) -> (r: Option<R>)
        requires
            old(self).well_formed(),
        ensures
            final(self).well_formed(),
            final(self)@ == change_made(old(self)@, RegistryChange::Deregister(tunnel_name@)),
            r == old(self)@.get(tunnel_name@),
    {
        let ghost before = *self;
        let ghost name = tunnel_name@;
        match name_table_remove(&mut self.tunnels, tunnel_name.raw()) {
            Some(k) => {
                assert(name_entries(before.tunnels).contains_key(name));
                let record = self.records.remove(k);
                proof {
                    let names = name_entries(self.tunnels);
                    let old_names = name_entries(before.tunnels);
                    assert forall|n: Seq<char>| #[trigger] names.contains_key(n) implies
                        self.records@.contains_key(names[n]) by {
                        assert(old_names.contains_key(n));
                        assert(old_names[n] != old_names[name]);
                    }
                    assert forall|n: Seq<char>, m: Seq<char>|
                        names.contains_key(n) && names.contains_key(m) && n != m implies
                        #[trigger] names[n] != #[trigger] names[m] by {
                        assert(old_names.contains_key(n) && old_names.contains_key(m));
                    }
                    assert forall|n: Seq<char>| self@.contains_key(n) implies #[trigger] self@[n]
                        == before@[n] by {
                        assert(old_names.contains_key(n));
                        assert(old_names[n] != old_names[name]);
                    }
                    assert(self@ =~= before@.remove(name));
                }
                record
            },
            None => {
                proof {
                    assert(name_entries(self.tunnels) =~= name_entries(before.tunnels));
                    assert(self@ =~= before@.remove(name));
                }
                None
            },
        }
    }

    /// Takes the record of a registration out.
    pub fn deregister_identifier(&mut self, identifier: InMemoryTunnelRegistryIdentifier) -> (r:
        Option<R>)
        requires
            old(self).well_formed(),
        ensures
            final(self).well_formed(),
            final(self)@ == change_made(
                old(self)@,
                RegistryChange::Deregister(identifier.tunnel_name()),
            ),
            r == old(self)@.get(identifier.tunnel_name()),
    {
        self.deregister(&identifier.name)
    }
}

/// What changes a registry.
pub enum RegistryChange<R> {
    /// A record is put under a name.
    Register(Seq<char>, R),
    /// The record under a name is taken out, if there is one.
    Deregister(Seq<char>),
}

impl<R> RegistryChange<R> {
    /// The name that is changed.
    pub open spec fn name(self) -> Seq<char> {
        match self {
            RegistryChange::Register(name, _) => name,
            RegistryChange::Deregister(name) => name,
        }
    }

    /// What is found under the name afterwards.
    pub open spec fn leaves(self) -> Option<R> {
        match self {
            RegistryChange::Register(_, record) => Some(record),
            RegistryChange::Deregister(_) => None,
        }
    }
}

/// What a registry holds after a change.
pub open spec fn change_made<R>(
    before: Map<Seq<char>, R>,
    change: RegistryChange<R>,
) -> Map<Seq<char>, R> {
    match change {
        RegistryChange::Register(name, record) => before.insert(name, record),
        RegistryChange::Deregister(name) => before.remove(name),
    }
}

/// What a registry holds after some changes, one after the other.
pub open spec fn changes_made<R>(
    before: Map<Seq<char>, R>,
    changes: Seq<RegistryChange<R>>,
) -> Map<Seq<char>, R>
    decreases changes.len(),
{
    if changes.len() == 0 {
        before
    } else {
        change_made(changes_made(before, changes.drop_last()), changes.last())
    }
}

/// After any number of registrations and deregistrations, what is found under a name is what the
/// last change to that name left there; a name that was not changed is found as before.
pub proof fn law_last_registration_is_found<R>(
    before: Map<Seq<char>, R>,
    changes: Seq<RegistryChange<R>>,
    name: Seq<char>,
)
    ensures
        forall|i: int|
            0 <= i < changes.len() && (#[trigger] changes[i]).name() == name && (forall|j: int|
                i < j < changes.len() ==> (#[trigger] changes[j]).name() != name)
                ==> changes_made(before, changes).get(name) == changes[i].leaves(),
        (forall|i: int| 0 <= i < changes.len() ==> (#[trigger] changes[i]).name() != name)
            ==> changes_made(before, changes).get(name) == before.get(name),
    decreases changes.len(),
{
    if changes.len() > 0 {
        let init = changes.drop_last();
        law_last_registration_is_found(before, init, name);
        let held = changes_made(before, init);
        assert(changes.last() == changes[changes.len() - 1]);
        assert(changes.last().name() == name ==> change_made(held, changes.last()).get(name)
            == changes.last().leaves());
        assert(changes.last().name() != name ==> change_made(held, changes.last()).get(name)
            == held.get(name));
        assert forall|i: int|
            0 <= i < changes.len() && (#[trigger] changes[i]).name() == name && (forall|j: int|
                i < j < changes.len() ==> (#[trigger] changes[j]).name() != name) implies
            changes_made(before, changes).get(name) == changes[i].leaves() by {
            if i < init.len() {
                assert(init[i] == changes[i]);
                assert forall|j: int| i < j < init.len() implies (#[trigger] init[j]).name()
                    != name by {
                    assert(init[j] == changes[j]);
                }
            }
        }
        if forall|i: int| 0 <= i < changes.len() ==> (#[trigger] changes[i]).name() != name {
            assert forall|i: int| 0 <= i < init.len() implies (#[trigger] init[i]).name() != name by {
                assert(init[i] == changes[i]);
            }
        }
    }
}

/// A record that is registered is found under its name, a name that is deregistered is not found, and
/// neither changes what is found under another name.
pub proof fn law_change_is_seen_under_its_name<R>(
    before: Map<Seq<char>, R>,
    name: Seq<char>,
    record: R,
    other: Seq<char>,
)
    requires
        other != name,
    ensures
        change_made(before, RegistryChange::Register(name, record)).get(name) == Some(record),
        change_made(before, RegistryChange::Register(name, record)).get(other) == before.get(other),
        change_made(before, RegistryChange::Deregister(name)).get(name) is None,
        change_made(before, RegistryChange::Deregister(name)).get(other) == before.get(other),
{
}

} // verus!
