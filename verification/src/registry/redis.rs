//! A registry that several processes share through a Redis server.
//!
//! A tunnel has an entry of its own, under a random key, and its name refers to that key. The last
//! registration of a name wins. Both expire unless the process that registered the tunnel renews
//! them.

use dashmap::DashMap;
use vstd::prelude::*;
use vstd::string::StringExecFns;

use crate::table::{name_entries, name_table, name_table_insert, name_table_remove};
use crate::text::same_text;
use crate::tunnel::TunnelName;

verus! {

/// A length of time.
#[derive(Debug, Clone, Copy, PartialEq, Eq, Structural)]
pub struct Span {
    pub secs: u64,
    /// Billionths of a second beside the seconds.
    pub nanos: u32,
}

/// How long entries live, and how often they are renewed.
#[derive(Debug, Clone, Copy, PartialEq, Eq, Structural)]
pub struct RedisRegistryConfig {
    /// How long the reference from a name to an entry lives. Only whole seconds count.
    pub tunnel_id_ref_lifetime: Span,
    /// How long an entry lives. Only whole seconds count.
    pub tunnel_entry_lifetime: Span,
    /// How often both are renewed. An entry that is found missing then is set again, unless the name
    /// refers to another entry by now.
    pub renewal_rate: Span,
}

impl Default for RedisRegistryConfig {
    fn default() -> (r: Self)
        ensures
            r == (RedisRegistryConfig {
                tunnel_id_ref_lifetime: Span { secs: 600, nanos: 0 },
                tunnel_entry_lifetime: Span { secs: 60, nanos: 0 },
                renewal_rate: Span { secs: 20, nanos: 0 },
            }),
    {
        RedisRegistryConfig {
            tunnel_id_ref_lifetime: Span { secs: 600, nanos: 0 },
            tunnel_entry_lifetime: Span { secs: 60, nanos: 0 },
            renewal_rate: Span { secs: 20, nanos: 0 },
        }
    }
}

/// The whole seconds of a span, as far as Redis can count them.
pub open spec fn expiry(span: Span) -> i64 {
    if span.secs <= i64::MAX {
        span.secs as i64
    } else {
        i64::MAX
    }
}

/// The whole seconds of a span, as far as Redis can count them.
pub fn expiry_secs(span: Span) -> (r: i64)
    ensures
        r == expiry(span),
{
    if span.secs <= 0x7fff_ffff_ffff_ffff {
        span.secs as i64
    } else {
        0x7fff_ffff_ffff_ffff
    }
}

/// How often entries are renewed: as configured, and at most once in a second.
pub open spec fn effective_rate(span: Span) -> Span {
    if span.secs >= 1 {
        span
    } else {
        Span { secs: 1, nanos: 0 }
    }
}

/// The key of the reference from a name to an entry.
pub open spec fn reference_key(name: Seq<char>) -> Seq<char> {
    "/tunnel/id/"@ + name
}

/// The key of an entry.
pub open spec fn entry_key(rid: Seq<char>) -> Seq<char> {
    "/tunnel/rid/"@ + rid
}

/// The key of the reference from a name to an entry.
pub fn tunnel_key_for(tunnel_name: &TunnelName) -> (r: String)
    ensures
        r@ == reference_key(tunnel_name@),
{
    let mut out = String::new();
    out.append("/tunnel/id/");
    out.append(tunnel_name.raw());
    assert(out@ =~= reference_key(tunnel_name@));
    out
}

/// The key of an entry.
pub fn tunnel_rid_key(rid: &str) -> (r: String)
    ensures
        r@ == entry_key(rid@),
{
    let mut out = String::new();
    out.append("/tunnel/rid/");
    out.append(rid);
    assert(out@ =~= entry_key(rid@));
    out
}

/// The keys of references and of entries never meet, and each names one name or one entry.
pub proof fn law_keys_differ(a: Seq<char>, b: Seq<char>)
    ensures
        reference_key(a) != entry_key(b),
        reference_key(a) == reference_key(b) <==> a == b,
        entry_key(a) == entry_key(b) <==> a == b,
{
    reveal_strlit("/tunnel/id/");
    reveal_strlit("/tunnel/rid/");
    assert(reference_key(a)[8] == 'i');
    assert(entry_key(b)[8] == 'r');
    assert(reference_key(a).skip(11) =~= a);
    assert(reference_key(b).skip(11) =~= b);
    assert(entry_key(a).skip(12) =~= a);
    assert(entry_key(b).skip(12) =~= b);
}

/// Whether a character is a hexadecimal digit in lower case.
pub open spec fn is_lower_hex(c: char) -> bool {
    '0' <= c <= '9' || 'a' <= c <= 'f'
}

/// Whether a text is the notation of a random identifier: groups of 8, 4, 4, 4 and 12 hexadecimal
/// digits between hyphens, of version 4 and of the variant that goes with it.
pub open spec fn is_random_id(s: Seq<char>) -> bool {
    &&& s.len() == 36
    &&& forall|i: int|
        0 <= i < 36 ==> if i == 8 || i == 13 || i == 18 || i == 23 {
            s[i] == '-'
        } else {
            is_lower_hex(#[trigger] s[i])
        }
    &&& s[14] == '4'
    &&& s[19] == '8' || s[19] == '9' || s[19] == 'a' || s[19] == 'b'
}

/// `uuid::Uuid::new_v4` draws 122 random bits, and `to_string` writes them as the hyphenated
/// notation of a random identifier in lower case. Nothing is said of which one it is, nor of
/// whether it was drawn before. Where the operating system gives no random bits, the call panics.
#[verifier::external_body]
fn random_id() -> (r: String)
    ensures
        is_random_id(r@),
{
    uuid::Uuid::new_v4().to_string()
}

/// Whether the generator can draw this identifier.
pub closed spec fn is_drawn(rid: Seq<char>) -> bool {
    exists|id: String| id@ == rid && #[trigger] call_ensures(random_id, (), id)
}

/// How many keys are tried for an entry.
pub const MAX_ITERATIONS: usize = 10;

/// How an operation on the registry can fail.
#[derive(Debug)]
pub enum RedisRegistryError<RE, SE> {
    /// The server or the connection to it failed.
    Redis(RE),
    /// A record could not be written or read.
    SerializationError(SE),
    /// No key was free.
    RepeatKeyConflicts { num_attempts: usize },
}

/// Names a registration.
#[derive(Debug, PartialEq, Eq, Hash)]
pub struct RedisIdentifier {
    pub tunnel_name: TunnelName,
    pub rid: String,
}

/// How far a registration has come.
#[derive(Debug, Clone, Copy, PartialEq, Eq, Structural)]
pub enum RegisterPhase {
    /// An entry is being set; so many keys have been tried, this one among them.
    Entry { attempts: usize },
    /// The reference is being set.
    Reference,
    Over,
}

/// What is to be done next in a registration.
#[derive(Debug)]
pub enum RegisterAction<RE, SE> {
    /// Set the encoded record under this key unless the key is taken, with this lifetime.
    SetEntry { key: String, secs: i64 },
    /// Set this key to the key of the entry, with this lifetime.
    SetReference { key: String, rid: String, secs: i64 },
    /// The tunnel is registered: renew it from now on.
    Complete(RedisIdentifier),
    Fail(RedisRegistryError<RE, SE>),
}

/// A registration of a tunnel.
pub struct Registration {
    config: RedisRegistryConfig,
    name: TunnelName,
    rid: String,
    phase: RegisterPhase,
}

impl Registration {
    pub closed spec fn config(&self) -> RedisRegistryConfig {
        self.config
    }

    pub closed spec fn tunnel_name(&self) -> Seq<char> {
        self.name@
    }

    /// The random part of the key that is tried.
    pub closed spec fn rid(&self) -> Seq<char> {
        self.rid@
    }

    pub closed spec fn phase(&self) -> RegisterPhase {
        self.phase
    }

    /// No more keys are tried than may be.
    pub open spec fn well_formed(&self) -> bool {
        self.phase() matches RegisterPhase::Entry { attempts } ==> 1 <= attempts <= MAX_ITERATIONS
    }

    /// What trying one more key looks like from outside.
    pub open spec fn tries_entry<RE, SE>(&self, action: RegisterAction<RE, SE>) -> bool {
        &&& is_drawn(self.rid())
        &&& is_random_id(self.rid())
        &&& action matches RegisterAction::SetEntry { key, secs }
        &&& key@ == entry_key(self.rid())
        &&& secs == expiry(self.config().tunnel_entry_lifetime)
    }

    /// Starts to register a tunnel whose record was encoded.
    pub fn register<RE, SE>(config: RedisRegistryConfig, tunnel_name: TunnelName) -> (r: (
        Self,
        RegisterAction<RE, SE>,
    ))
        ensures
            r.0.well_formed(),
            r.0.config() == config,
            r.0.tunnel_name() == tunnel_name@,
            r.0.phase() == (RegisterPhase::Entry { attempts: 1 }),
            r.0.tries_entry(r.1),
    {
        let rid = random_id();
        let key = tunnel_rid_key(rid.as_str());
        let secs = expiry_secs(config.tunnel_entry_lifetime);
        (
            Registration {
                config,
                name: tunnel_name,
                rid,
                phase: RegisterPhase::Entry { attempts: 1 },
            },
            RegisterAction::SetEntry { key, secs },
        )
    }

    /// Goes on once the server was told to set the entry: to the reference where it was set, else
    /// to another key, as long as fewer than `MAX_ITERATIONS` were tried.
    pub fn entry_set<RE, SE>(&mut self, set: bool) -> (r: RegisterAction<RE, SE>)
        requires
            old(self).well_formed(),
            old(self).phase() is Entry,
        ensures
            final(self).well_formed(),
            final(self).config() == old(self).config(),
            final(self).tunnel_name() == old(self).tunnel_name(),
            final(self).phase() == attempt_step(old(self).phase()->attempts, set),
            if set {
                &&& final(self).rid() == old(self).rid()
                &&& r matches RegisterAction::SetReference { key, rid, secs }
                &&& key@ == reference_key(old(self).tunnel_name())
                &&& rid@ == old(self).rid()
                &&& secs == expiry(old(self).config().tunnel_id_ref_lifetime)
            } else if old(self).phase()->attempts >= MAX_ITERATIONS {
                &&& final(self).rid() == old(self).rid()
                &&& r == RegisterAction::<RE, SE>::Fail(
                    RedisRegistryError::RepeatKeyConflicts { num_attempts: MAX_ITERATIONS },
                )
            } else {
                final(self).tries_entry(r)
            },
    {
        let attempts: usize = match self.phase {
            RegisterPhase::Entry { attempts } => attempts,
            _ => 0,
        };
        if set {
            self.phase = RegisterPhase::Reference;
            RegisterAction::SetReference {
                key: tunnel_key_for(&self.name),
                rid: self.rid.clone(),
                secs: expiry_secs(self.config.tunnel_id_ref_lifetime),
            }
        } else if attempts >= MAX_ITERATIONS {
            self.phase = RegisterPhase::Over;
            RegisterAction::Fail(
                RedisRegistryError::RepeatKeyConflicts { num_attempts: MAX_ITERATIONS },
            )
        } else {
            self.rid = random_id();
            self.phase = RegisterPhase::Entry { attempts: attempts + 1 };
            RegisterAction::SetEntry {
                key: tunnel_rid_key(self.rid.as_str()),
                secs: expiry_secs(self.config.tunnel_entry_lifetime),
            }
        }
    }

    /// Ends the registration once the server was told to set the reference.
    pub fn reference_set<RE, SE>(&mut self, set: Result<(), RE>) -> (r: RegisterAction<RE, SE>)
        requires
            old(self).phase() is Reference,
        ensures
            final(self).phase() is Over,
            match set {
                Err(e) => r == RegisterAction::<RE, SE>::Fail(RedisRegistryError::Redis(e)),
                Ok(_) => r matches RegisterAction::Complete(ident) && ident.tunnel_name@ == old(
                    self,
                ).tunnel_name() && ident.rid@ == old(self).rid(),
            },
    {
        self.phase = RegisterPhase::Over;
        match set {
            Err(e) => RegisterAction::Fail(RedisRegistryError::Redis(e)),
            Ok(()) => RegisterAction::Complete(
                RedisIdentifier { tunnel_name: self.name.clone(), rid: self.rid.clone() },
            ),
        }
    }
}

/// Where a registration stands after one more answer to the setting of an entry.
pub open spec fn attempt_step(attempts: usize, set: bool) -> RegisterPhase {
    if set {
        RegisterPhase::Reference
    } else if attempts >= MAX_ITERATIONS {
        RegisterPhase::Over
    } else {
        RegisterPhase::Entry { attempts: (attempts + 1) as usize }
    }
}

/// Where a registration stands after these answers to the setting of entries.
pub open spec fn attempt_run(answers: Seq<bool>) -> RegisterPhase
    decreases answers.len(),
{
    if answers.len() == 0 {
        RegisterPhase::Entry { attempts: 1 }
    } else {
        match attempt_run(answers.drop_last()) {
            RegisterPhase::Entry { attempts } => attempt_step(attempts, answers.last()),
            phase => phase,
        }
    }
}

/// A registration gives up exactly when its first `MAX_ITERATIONS` keys were all taken, and
/// reaches its reference exactly when one of them was not.
pub proof fn law_registration_attempts(answers: Seq<bool>)
    ensures
        attempt_run(answers) is Over <==> answers.len() >= MAX_ITERATIONS && forall|i: int|
            0 <= i < MAX_ITERATIONS ==> !#[trigger] answers[i],
        attempt_run(answers) is Reference <==> exists|i: int|
            0 <= i < answers.len() && i < MAX_ITERATIONS && #[trigger] answers[i],
        attempt_run(answers) matches RegisterPhase::Entry { attempts } ==> attempts
            == answers.len() + 1 && forall|i: int| 0 <= i < answers.len() ==> !#[trigger] answers[i],
    decreases answers.len(),
{
    if answers.len() > 0 {
        let init = answers.drop_last();
        law_registration_attempts(init);
        assert forall|i: int| 0 <= i < init.len() implies init[i] == #[trigger] answers[i] by {}
        let n = answers.len() - 1;
        assert(answers.last() == answers[n]);
        if attempt_run(init) is Reference {
            let i = choose|i: int|
                0 <= i < init.len() && i < MAX_ITERATIONS && #[trigger] init[i];
            assert(answers[i]);
        }
        if exists|i: int| 0 <= i < answers.len() && i < MAX_ITERATIONS && #[trigger] answers[i] {
            let i = choose|i: int|
                0 <= i < answers.len() && i < MAX_ITERATIONS && #[trigger] answers[i];
            if i < init.len() {
                assert(init[i]);
            }
        }
        if attempt_run(init) is Over {
            assert forall|i: int| 0 <= i < MAX_ITERATIONS implies !#[trigger] answers[i] by {
                assert(!init[i]);
            }
        }
    }
}

/// What is read next in a lookup by name.
#[derive(Debug)]
pub enum ReadStep {
    /// Read this key.
    Get(String),
    /// Read this key and delete it.
    GetDel(String),
    /// There is no such tunnel.
    Missing,
}

/// Goes on with a lookup once the reference was read: an entry that is named is read next.
pub fn lookup_entry(rid: Option<String>) -> (r: ReadStep)
    ensures
        match rid {
            Some(rid) => r matches ReadStep::Get(key) && key@ == entry_key(rid@),
            None => r is Missing,
        },
{
    match rid {
        Some(rid) => ReadStep::Get(tunnel_rid_key(rid.as_str())),
        None => ReadStep::Missing,
    }
}

/// A value on the server.
pub enum Stored {
    /// An encoded record.
    Entry(Seq<u8>),
    /// The random part of the key of an entry.
    Reference(Seq<char>),
}

/// What the server holds once the entry of a registration, and then its reference, were set.
pub open spec fn registered(
    store: Map<Seq<char>, Stored>,
    name: Seq<char>,
    rid: Seq<char>,
    record: Seq<u8>,
) -> Map<Seq<char>, Stored> {
    store.insert(entry_key(rid), Stored::Entry(record)).insert(
        reference_key(name),
        Stored::Reference(rid),
    )
}

/// The record that a lookup by name reads: that of the entry which the reference names.
pub open spec fn looked_up(store: Map<Seq<char>, Stored>, name: Seq<char>) -> Option<Seq<u8>> {
    match store.get(reference_key(name)) {
        Some(Stored::Reference(rid)) => match store.get(entry_key(rid)) {
            Some(Stored::Entry(record)) => Some(record),
            _ => None,
        },
        _ => None,
    }
}

/// A lookup gives the record that was registered last under a name, until its reference or its
/// entry is deleted. Lookups of other names do not change, as long as none of them refers to the
/// key that was drawn.
pub proof fn law_registered_record_is_found(
    store: Map<Seq<char>, Stored>,
    name: Seq<char>,
    rid: Seq<char>,
    record: Seq<u8>,
)
    ensures
        looked_up(registered(store, name, rid, record), name) == Some(record),
        looked_up(registered(store, name, rid, record).remove(reference_key(name)), name) is None,
        looked_up(registered(store, name, rid, record).remove(entry_key(rid)), name) is None,
        forall|other: Seq<char>|
            other != name && store.get(reference_key(other)) != Some(Stored::Reference(rid))
                ==> #[trigger] looked_up(registered(store, name, rid, record), other) == looked_up(
                store,
                other,
            ),
{
    law_keys_differ(name, rid);
    assert forall|other: Seq<char>|
        other != name && store.get(reference_key(other)) != Some(
            Stored::Reference(rid),
        ) implies #[trigger] looked_up(registered(store, name, rid, record), other) == looked_up(
        store,
        other,
    ) by {
        law_keys_differ(other, name);
        law_keys_differ(other, rid);
        if let Some(Stored::Reference(held)) = store.get(reference_key(other)) {
            law_keys_differ(held, rid);
            law_keys_differ(name, held);
        }
    }
}

/// The registrations of this process that are being renewed, each by the number of its renewal.
pub struct ActiveRegistrations {
    active_registration_map: DashMap<String, u64>,
}

impl View for ActiveRegistrations {
    type V = Map<Seq<char>, u64>;

    closed spec fn view(&self) -> Map<Seq<char>, u64> {
        name_entries(self.active_registration_map)
    }
}

impl ActiveRegistrations {
    /// Nothing is being renewed.
    pub fn new() -> (r: Self)
        ensures
            r@ == Map::<Seq<char>, u64>::empty(),
    {
        let r = ActiveRegistrations { active_registration_map: name_table() };
        assert(r@ =~= Map::<Seq<char>, u64>::empty());
        r
    }

    /// Notes that the entry with this key is renewed by the task of this number.
    pub fn register_for_renewals(&mut self, rid: &str, renewal: u64)
        ensures
            final(self)@ == old(self)@.insert(rid@, renewal),
    {
        let _ = name_table_insert(&mut self.active_registration_map, rid.to_owned(), renewal);
    }

    /// Decides how the entry with this key is taken out: one that is renewed here is no longer
    /// renewed, and is deleted as it is read; one of another process is only read.
    pub fn deregister_by_rid(&mut self, rid: &str) -> (r: (Option<u64>, ReadStep))
        ensures
            final(self)@ == old(self)@.remove(rid@),
            r.0 == old(self)@.get(rid@),
            if old(self)@.contains_key(rid@) {
                r.1 matches ReadStep::GetDel(key) && key@ == entry_key(rid@)
            } else {
                r.1 matches ReadStep::Get(key) && key@ == entry_key(rid@)
            },
    {
        match name_table_remove(&mut self.active_registration_map, rid) {
            Some(renewal) => (Some(renewal), ReadStep::GetDel(tunnel_rid_key(rid))),
            None => (None, ReadStep::Get(tunnel_rid_key(rid))),
        }
    }

    /// Goes on with the deregistration of a name, once its reference was read and deleted.
    pub fn deregister(&mut self, rid: Option<String>) -> (r: (Option<u64>, ReadStep))
        ensures
            match rid {
                None => {
                    &&& r == (None::<u64>, ReadStep::Missing)
                    &&& final(self)@ == old(self)@
                },
                Some(rid) => {
                    &&& final(self)@ == old(self)@.remove(rid@)
                    &&& r.0 == old(self)@.get(rid@)
                    &&& if old(self)@.contains_key(rid@) {
                        r.1 matches ReadStep::GetDel(key) && key@ == entry_key(rid@)
                    } else {
                        r.1 matches ReadStep::Get(key) && key@ == entry_key(rid@)
                    }
                },
            },
    {
        match rid {
            None => (None, ReadStep::Missing),
            Some(rid) => self.deregister_by_rid(rid.as_str()),
        }
    }

    /// Goes on with the deregistration of an identifier. The reference is left to expire, because
    /// it may refer to another entry by now.
    pub fn deregister_identifier(&mut self, identifier: RedisIdentifier) -> (r: (
        Option<u64>,
        ReadStep,
    ))
        ensures
            final(self)@ == old(self)@.remove(identifier.rid@),
            r.0 == old(self)@.get(identifier.rid@),
            if old(self)@.contains_key(identifier.rid@) {
                r.1 matches ReadStep::GetDel(key) && key@ == entry_key(identifier.rid@)
            } else {
                r.1 matches ReadStep::Get(key) && key@ == entry_key(identifier.rid@)
            },
    {
        self.deregister_by_rid(identifier.rid.as_str())
    }
}

/// How far one round of renewal has come.
#[derive(Debug, Clone, Copy, PartialEq, Eq, Structural)]
pub enum RenewalPhase {
    Sleeping,
    Connecting,
    /// The lifetime of the reference is renewed.
    Reference,
    /// The lifetime of the entry is renewed.
    Entry,
    /// The server is asked whether the entry is there.
    Checking,
    /// The server is asked which entry the name refers to by now.
    Mapping,
    /// The server is asked whether that other entry is there.
    Rival,
    /// The entry is set again.
    Restoring,
    Over,
}

/// What happened during renewal.
#[derive(Debug)]
pub enum RenewalEvent<E> {
    /// The time is over, or renewal was cancelled meanwhile.
    Woken,
    /// There is a connection, or there can be none.
    Connected(Result<(), E>),
    /// The server was told to renew the reference. What it answered is of no interest.
    ReferenceRenewed,
    /// The server was told to renew the entry, and answered whether it did, or failed.
    EntryRenewed(Result<bool, E>),
    /// The server answered whether the entry is there, or failed.
    Checked(Result<bool, E>),
    /// The server answered which entry the name refers to, if any, or failed.
    Mapped(Result<Option<String>, E>),
    /// The server answered whether the other entry is there, or failed.
    RivalChecked(Result<bool, E>),
    /// The server was told to set the entry. What it answered is of no interest.
    Restored,
}

/// What is to be done next during renewal.
#[derive(Debug)]
pub enum RenewalAction<E> {
    /// Sleep for this long, or until renewal is cancelled.
    Sleep(Span),
    Connect,
    /// Renew the lifetime of this key.
    Expire { key: String, secs: i64 },
    /// Ask whether this key is there.
    Exists { key: String },
    /// Read this key.
    Get { key: String },
    /// Set the encoded record under this key unless the key is taken, with this lifetime.
    SetEntry { key: String, secs: i64 },
    /// Renewal was cancelled.
    Complete,
    Fail(E),
}

/// The renewal of one registration.
pub struct Renewal {
    config: RedisRegistryConfig,
    name: TunnelName,
    rid: String,
    phase: RenewalPhase,
}

/// The phase that one event leads to in the renewal of the entry with this key. An entry that is
/// missing is set again only where no other entry stands in its place: the name refers to none, to
/// this one, or to one that is missing too.
pub open spec fn renewal_phase<E>(
    rid: Seq<char>,
    phase: RenewalPhase,
    event: RenewalEvent<E>,
    cancelled: bool,
) -> RenewalPhase {
    let next_round = if cancelled {
        RenewalPhase::Over
    } else {
        RenewalPhase::Sleeping
    };
    match (phase, event) {
        (RenewalPhase::Sleeping, RenewalEvent::Woken) => if cancelled {
            RenewalPhase::Over
        } else {
            RenewalPhase::Connecting
        },
        (RenewalPhase::Connecting, RenewalEvent::Connected(Ok(_))) => RenewalPhase::Reference,
        (RenewalPhase::Connecting, RenewalEvent::Connected(Err(_))) => RenewalPhase::Over,
        (RenewalPhase::Reference, RenewalEvent::ReferenceRenewed) => RenewalPhase::Entry,
        (RenewalPhase::Entry, RenewalEvent::EntryRenewed(Ok(false))) => RenewalPhase::Checking,
        (RenewalPhase::Entry, RenewalEvent::EntryRenewed(_)) => next_round,
        (RenewalPhase::Checking, RenewalEvent::Checked(Ok(false))) => RenewalPhase::Mapping,
        (RenewalPhase::Checking, RenewalEvent::Checked(_)) => next_round,
        (RenewalPhase::Mapping, RenewalEvent::Mapped(Ok(Some(held)))) => if held@ == rid {
            RenewalPhase::Restoring
        } else {
            RenewalPhase::Rival
        },
        (RenewalPhase::Mapping, RenewalEvent::Mapped(Ok(None))) => RenewalPhase::Restoring,
        (RenewalPhase::Mapping, RenewalEvent::Mapped(Err(_))) => next_round,
        (RenewalPhase::Rival, RenewalEvent::RivalChecked(Ok(false))) => RenewalPhase::Restoring,
        (RenewalPhase::Rival, RenewalEvent::RivalChecked(_)) => next_round,
        (RenewalPhase::Restoring, RenewalEvent::Restored) => next_round,
        _ => RenewalPhase::Over,
    }
}

/// Whether this event is one that the phase waits for.
pub open spec fn renewal_expects<E>(phase: RenewalPhase, event: RenewalEvent<E>) -> bool {
    match event {
        RenewalEvent::Woken => phase is Sleeping,
        RenewalEvent::Connected(_) => phase is Connecting,
        RenewalEvent::ReferenceRenewed => phase is Reference,
        RenewalEvent::EntryRenewed(_) => phase is Entry,
        RenewalEvent::Checked(_) => phase is Checking,
        RenewalEvent::Mapped(_) => phase is Mapping,
        RenewalEvent::RivalChecked(_) => phase is Rival,
        RenewalEvent::Restored => phase is Restoring,
    }
}

impl Renewal {
    pub closed spec fn config(&self) -> RedisRegistryConfig {
        self.config
    }

    pub closed spec fn tunnel_name(&self) -> Seq<char> {
        self.name@
    }

    pub closed spec fn rid(&self) -> Seq<char> {
        self.rid@
    }

    pub closed spec fn phase(&self) -> RenewalPhase {
        self.phase
    }

    /// What is to be done in a phase that has just begun.
    pub open spec fn enters<E>(&self, action: RenewalAction<E>) -> bool {
        match self.phase() {
            RenewalPhase::Sleeping => action == RenewalAction::<E>::Sleep(
                effective_rate(self.config().renewal_rate),
            ),
            RenewalPhase::Connecting => action is Connect,
            RenewalPhase::Reference => {
                &&& action matches RenewalAction::Expire { key, secs }
                &&& key@ == reference_key(self.tunnel_name())
                &&& secs == expiry(self.config().tunnel_id_ref_lifetime)
            },
            RenewalPhase::Entry => {
                &&& action matches RenewalAction::Expire { key, secs }
                &&& key@ == entry_key(self.rid())
                &&& secs == expiry(self.config().tunnel_entry_lifetime)
            },
            RenewalPhase::Checking => {
                &&& action matches RenewalAction::Exists { key }
                &&& key@ == entry_key(self.rid())
            },
            RenewalPhase::Mapping => {
                &&& action matches RenewalAction::Get { key }
                &&& key@ == reference_key(self.tunnel_name())
            },
            RenewalPhase::Rival => action is Exists,
            RenewalPhase::Restoring => {
                &&& action matches RenewalAction::SetEntry { key, secs }
                &&& key@ == entry_key(self.rid())
                &&& secs == expiry(self.config().tunnel_entry_lifetime)
            },
            RenewalPhase::Over => action is Complete || action is Fail,
        }
    }

    /// Starts to renew a registration, unless that was cancelled already.
    pub fn run_renewal<E>(
        config: RedisRegistryConfig,
        identifier: RedisIdentifier,
        cancelled: bool,
    ) -> (r: (Self, RenewalAction<E>))
        ensures
            r.0.config() == config,
            r.0.tunnel_name() == identifier.tunnel_name@,
            r.0.rid() == identifier.rid@,
            r.0.phase() == if cancelled {
                RenewalPhase::Over
            } else {
                RenewalPhase::Sleeping
            },
            r.0.enters(r.1),
            cancelled ==> r.1 is Complete,
    {
        let mut renewal = Renewal {
            config,
            name: identifier.tunnel_name,
            rid: identifier.rid,
            phase: RenewalPhase::Over,
        };
        let action = renewal.next_round(cancelled);
        (renewal, action)
    }

    fn next_round<E>(&mut self, cancelled: bool) -> (r: RenewalAction<E>)
        ensures
            final(self).config() == old(self).config(),
            final(self).tunnel_name() == old(self).tunnel_name(),
            final(self).rid() == old(self).rid(),
            final(self).phase() == if cancelled {
                RenewalPhase::Over
            } else {
                RenewalPhase::Sleeping
            },
            final(self).enters(r),
            cancelled ==> r is Complete,
    {
        if cancelled {
            self.phase = RenewalPhase::Over;
            RenewalAction::Complete
        } else {
            self.phase = RenewalPhase::Sleeping;
            let rate = self.config.renewal_rate;
            RenewalAction::Sleep(
                if rate.secs >= 1 {
                    rate
                } else {
                    Span { secs: 1, nanos: 0 }
                },
            )
        }
    }

    fn restore<E>(&mut self) -> (r: RenewalAction<E>)
        ensures
            final(self).config() == old(self).config(),
            final(self).tunnel_name() == old(self).tunnel_name(),
            final(self).rid() == old(self).rid(),
            final(self).phase() is Restoring,
            final(self).enters(r),
    {
        self.phase = RenewalPhase::Restoring;
        RenewalAction::SetEntry {
            key: tunnel_rid_key(self.rid.as_str()),
            secs: expiry_secs(self.config.tunnel_entry_lifetime),
        }
    }

    /// Takes the renewal one event further; `cancelled` says whether it was cancelled by now.
    pub fn step<E>(&mut self, event: RenewalEvent<E>, cancelled: bool) -> (r: RenewalAction<E>)
        requires
            renewal_expects(old(self).phase(), event),
        ensures
            final(self).config() == old(self).config(),
            final(self).tunnel_name() == old(self).tunnel_name(),
            final(self).rid() == old(self).rid(),
            final(self).phase() == renewal_phase(
                old(self).rid(),
                old(self).phase(),
                event,
                cancelled,
            ),
            final(self).enters(r),
            !cancelled ==> (final(self).phase() is Over <==> (event matches RenewalEvent::Connected(
                Err(_),
            ))),
            match event {
                RenewalEvent::Connected(Err(e)) => r == RenewalAction::Fail(e),
                RenewalEvent::Mapped(Ok(Some(held))) if held@ != old(self).rid() => {
                    r matches RenewalAction::Exists { key } && key@ == entry_key(held@)
                },
                _ => !(r is Fail),
            },
    {
        match event {
            RenewalEvent::Woken => {
                if cancelled {
                    self.phase = RenewalPhase::Over;
                    RenewalAction::Complete
                } else {
                    self.phase = RenewalPhase::Connecting;
                    RenewalAction::Connect
                }
            },
            RenewalEvent::Connected(Ok(())) => {
                self.phase = RenewalPhase::Reference;
                RenewalAction::Expire {
                    key: tunnel_key_for(&self.name),
                    secs: expiry_secs(self.config.tunnel_id_ref_lifetime),
                }
            },
            RenewalEvent::Connected(Err(e)) => {
                self.phase = RenewalPhase::Over;
                RenewalAction::Fail(e)
            },
            RenewalEvent::ReferenceRenewed => {
                self.phase = RenewalPhase::Entry;
                RenewalAction::Expire {
                    key: tunnel_rid_key(self.rid.as_str()),
                    secs: expiry_secs(self.config.tunnel_entry_lifetime),
                }
            },
            RenewalEvent::EntryRenewed(Ok(false)) => {
                self.phase = RenewalPhase::Checking;
                RenewalAction::Exists { key: tunnel_rid_key(self.rid.as_str()) }
            },
            RenewalEvent::Checked(Ok(false)) => {
                self.phase = RenewalPhase::Mapping;
                RenewalAction::Get { key: tunnel_key_for(&self.name) }
            },
            RenewalEvent::Mapped(Ok(Some(held))) => {
                if same_text(held.as_str(), self.rid.as_str()) {
                    self.restore()
                } else {
                    self.phase = RenewalPhase::Rival;
                    RenewalAction::Exists { key: tunnel_rid_key(held.as_str()) }
                }
            },
            RenewalEvent::Mapped(Ok(None)) => self.restore(),
            RenewalEvent::RivalChecked(Ok(false)) => self.restore(),
            RenewalEvent::EntryRenewed(_) => self.next_round(cancelled),
            RenewalEvent::Checked(_) => self.next_round(cancelled),
            RenewalEvent::Mapped(_) => self.next_round(cancelled),
            RenewalEvent::RivalChecked(_) => self.next_round(cancelled),
            RenewalEvent::Restored => self.next_round(cancelled),
        }
    }
}

/// Where the renewal of the entry with this key stands after some events, each with whether
/// renewal was cancelled by then.
pub open spec fn renewal_run<E>(rid: Seq<char>, events: Seq<(RenewalEvent<E>, bool)>) -> Option<
    RenewalPhase,
>
    decreases events.len(),
{
    if events.len() == 0 {
        Some(RenewalPhase::Sleeping)
    } else {
        match renewal_run(rid, events.drop_last()) {
            Some(phase) => if renewal_expects(phase, events.last().0) {
                Some(renewal_phase(rid, phase, events.last().0, events.last().1))
            } else {
                None
            },
            None => None,
        }
    }
}

/// An entry is set again only after the server said that it could not renew it, then that it is not
/// there, and then that the name refers to no entry, to this one, or to another that is not there
/// either. So an entry that took its place meanwhile is left alone.
pub proof fn law_restores_only_missing<E>(rid: Seq<char>, events: Seq<(RenewalEvent<E>, bool)>)
    requires
        renewal_run(rid, events) == Some(RenewalPhase::Restoring),
    ensures
        ({
            let n = events.len() as int;
            let unrenewed = RenewalEvent::<E>::EntryRenewed(Ok(false));
            let missing = RenewalEvent::<E>::Checked(Ok(false));
            ||| {
                &&& n >= 3
                &&& events[n - 3].0 == unrenewed
                &&& events[n - 2].0 == missing
                &&& events[n - 1].0 matches RenewalEvent::Mapped(Ok(held))
                &&& held matches Some(other) ==> other@ == rid
            }
            ||| {
                &&& n >= 4
                &&& events[n - 4].0 == unrenewed
                &&& events[n - 3].0 == missing
                &&& events[n - 2].0 matches RenewalEvent::Mapped(Ok(Some(other)))
                &&& other@ != rid
                &&& events[n - 1].0 == RenewalEvent::<E>::RivalChecked(Ok(false))
            }
        }),
{
    let n = events.len() as int;
    let a = events.drop_last();
    assert(renewal_run(rid, a) is Some);
    assert(a.len() > 0);
    let b = a.drop_last();
    assert(renewal_run(rid, b) is Some);
    assert(a.last() == events[n - 2]);
    assert(b.len() > 0);
    let c = b.drop_last();
    assert(renewal_run(rid, c) is Some);
    assert(b.last() == events[n - 3]);
    if renewal_run(rid, a) == Some(RenewalPhase::Rival) {
        assert(c.len() > 0);
        let d = c.drop_last();
        assert(renewal_run(rid, d) is Some);
        assert(c.last() == events[n - 4]);
    }
}

/// Once renewal is cancelled, no further round is begun, and a sleeping renewal ends.
pub proof fn law_cancelled_renewal_ends<E>(
    rid: Seq<char>,
    phase: RenewalPhase,
    event: RenewalEvent<E>,
)
    requires
        renewal_expects(phase, event),
    ensures
        !(renewal_phase(rid, phase, event, true) is Sleeping),
        phase is Sleeping ==> renewal_phase(rid, phase, event, true) is Over,
{
}

/// A renewal that is not cancelled and whose connection does not fail never ends: whatever the
/// server answers, it goes on. In particular, it sleeps again once the entry was renewed, once the
/// entry was set again, and wherever the server failed to answer about the entry.
pub proof fn law_renewal_goes_on<E>(rid: Seq<char>, phase: RenewalPhase, event: RenewalEvent<E>)
    requires
        renewal_expects(phase, event),
    ensures
        renewal_phase(rid, phase, event, false) is Over <==> (event matches RenewalEvent::Connected(
            Err(_),
        )),
        renewal_phase(rid, phase, event, false) is Sleeping <==> match event {
            RenewalEvent::Woken => false,
            RenewalEvent::Connected(_) => false,
            RenewalEvent::ReferenceRenewed => false,
            RenewalEvent::EntryRenewed(answer) => answer is Err || answer->Ok_0,
            RenewalEvent::Checked(answer) => answer is Err || answer->Ok_0,
            RenewalEvent::Mapped(answer) => answer is Err,
            RenewalEvent::RivalChecked(answer) => answer is Err || answer->Ok_0,
            RenewalEvent::Restored => true,
        },
{
}

/// As long as a renewal is not cancelled and no connection fails, it is not over.
pub proof fn law_renewal_lasts<E>(rid: Seq<char>, events: Seq<(RenewalEvent<E>, bool)>)
    requires
        renewal_run(rid, events) is Some,
        forall|i: int|
            0 <= i < events.len() ==> !(#[trigger] events[i]).1 && !(events[i].0 matches RenewalEvent::Connected(
                Err(_),
            )),
    ensures
        renewal_run(rid, events) != Some(RenewalPhase::Over),
    decreases events.len(),
{
    if events.len() > 0 {
        let init = events.drop_last();
        assert forall|i: int| 0 <= i < init.len() implies !(#[trigger] init[i]).1 && !(
        init[i].0 matches RenewalEvent::Connected(Err(_))) by {
            assert(init[i] == events[i]);
        }
        law_renewal_lasts(rid, init);
        assert(events.last() == events[events.len() - 1]);
    }
}

/// To cancel a renewal interrupts only its sleep. A round that has begun is carried out as it would
/// have been, and the renewal ends where it would have slept again.
pub proof fn law_cancelling_waits_for_the_round<E>(
    rid: Seq<char>,
    phase: RenewalPhase,
    event: RenewalEvent<E>,
)
    requires
        renewal_expects(phase, event),
    ensures
        renewal_phase(rid, phase, event, true) == if phase is Sleeping || renewal_phase(
            rid,
            phase,
            event,
            false,
        ) is Sleeping {
            RenewalPhase::Over
        } else {
            renewal_phase(rid, phase, event, false)
        },
{
}

/// Before a renewal sleeps again, it was woken, had a connection, and had both the reference and
/// the entry renewed, in this order.
pub proof fn law_every_round_renews_both<E>(rid: Seq<char>, events: Seq<(RenewalEvent<E>, bool)>)
    requires
        renewal_run(rid, events) == Some(RenewalPhase::Sleeping),
        events.len() > 0,
    ensures
        exists|k: int|
            {
                &&& 0 <= k <= events.len() - 4
                &&& (#[trigger] events[k]).0 is Woken
                &&& !events[k].1
                &&& events[k + 1].0 matches RenewalEvent::Connected(Ok(_))
                &&& events[k + 2].0 is ReferenceRenewed
                &&& events[k + 3].0 is EntryRenewed
                &&& forall|i: int| k < i < events.len() ==> !((#[trigger] events[i]).0 is Woken)
            },
{
    lemma_round_so_far(rid, events.drop_last());
    let init = events.drop_last();
    let k = choose|k: int| #[trigger] round_begins(init, k) && k + 3 <= init.len();
    assert(round_begins(init, k));
    assert forall|i: int| 0 <= i < init.len() implies init[i] == #[trigger] events[i] by {}
    assert(events.last() == events[events.len() - 1]);
    assert(round_begins(events, k));
    assert(events[k].0 is Woken);
}

/// Whether the events from `k` on are those of one round, as far as it has come.
spec fn round_begins<E>(events: Seq<(RenewalEvent<E>, bool)>, k: int) -> bool {
    let n = events.len();
    &&& 0 <= k < n
    &&& events[k].0 is Woken
    &&& !events[k].1
    &&& k + 1 < n ==> (events[k + 1].0 matches RenewalEvent::Connected(Ok(_)))
    &&& k + 2 < n ==> events[k + 2].0 is ReferenceRenewed
    &&& k + 3 < n ==> events[k + 3].0 is EntryRenewed
    &&& forall|i: int| k < i < n ==> !((#[trigger] events[i]).0 is Woken)
}

/// A renewal that is in a round has come so far step by step.
proof fn lemma_round_so_far<E>(rid: Seq<char>, events: Seq<(RenewalEvent<E>, bool)>)
    requires
        renewal_run(rid, events) is Some,
    ensures
        ({
            let phase = renewal_run(rid, events)->0;
            phase is Sleeping || phase is Over || exists|k: int|
                {
                    &&& #[trigger] round_begins(events, k)
                    &&& phase is Connecting <==> k + 1 == events.len()
                    &&& phase is Reference <==> k + 2 == events.len()
                    &&& phase is Entry <==> k + 3 == events.len()
                }
        }),
    decreases events.len(),
{
    let phase = renewal_run(rid, events)->0;
    if events.len() > 0 && !(phase is Sleeping) && !(phase is Over) {
        let init = events.drop_last();
        lemma_round_so_far(rid, init);
        let before = renewal_run(rid, init)->0;
        let n = events.len();
        assert(events.last() == events[n - 1]);
        assert forall|i: int| 0 <= i < init.len() implies init[i] == #[trigger] events[i] by {}
        if before is Sleeping {
            assert(round_begins(events, n - 1));
        } else {
            let k = choose|k: int|
                {
                    &&& #[trigger] round_begins(init, k)
                    &&& before is Connecting <==> k + 1 == init.len()
                    &&& before is Reference <==> k + 2 == init.len()
                    &&& before is Entry <==> k + 3 == init.len()
                };
            assert(round_begins(init, k));
            assert(round_begins(events, k));
        }
    }
}

/// An entry that the server could not renew and does not have is set again, unless the name refers
/// to another entry that is there.
pub proof fn law_missing_entry_is_restored<E>(
    rid: Seq<char>,
    unrenewed: (RenewalEvent<E>, bool),
    missing: (RenewalEvent<E>, bool),
    mapped: (RenewalEvent<E>, bool),
    rival: (RenewalEvent<E>, bool),
    before: Seq<(RenewalEvent<E>, bool)>,
)
    requires
        renewal_run(rid, before) == Some(RenewalPhase::Entry),
        unrenewed.0 == RenewalEvent::<E>::EntryRenewed(Ok(false)),
        missing.0 == RenewalEvent::<E>::Checked(Ok(false)),
        mapped.0 matches RenewalEvent::Mapped(Ok(_)),
        rival.0 == RenewalEvent::<E>::RivalChecked(Ok(false)),
    ensures
        ({
            let asked = before.push(unrenewed).push(missing).push(mapped);
            if mapped.0 matches RenewalEvent::Mapped(Ok(Some(held))) && held@ != rid {
                renewal_run(rid, asked.push(rival)) == Some(RenewalPhase::Restoring)
            } else {
                renewal_run(rid, asked) == Some(RenewalPhase::Restoring)
            }
        }),
{
    let a = before.push(unrenewed);
    assert(a.drop_last() =~= before);
    let b = a.push(missing);
    assert(b.drop_last() =~= a);
    let c = b.push(mapped);
    assert(c.drop_last() =~= b);
    let d = c.push(rival);
    assert(d.drop_last() =~= c);
    assert(renewal_run(rid, a) == Some(RenewalPhase::Checking));
    assert(renewal_run(rid, b) == Some(RenewalPhase::Mapping));
    assert(renewal_run(rid, c) is Some);
}

/// A renewal sleeps as long as it was configured to, but never less than a second.
pub proof fn law_renewal_sleeps_as_configured<E>(renewal: Renewal, action: RenewalAction<E>)
    requires
        renewal.enters(action),
    ensures
        renewal.phase() is Sleeping <==> action is Sleep,
        action matches RenewalAction::Sleep(span) ==> {
            &&& span.secs >= 1
            &&& renewal.config().renewal_rate.secs >= 1 ==> span == renewal.config().renewal_rate
            &&& renewal.config().renewal_rate.secs == 0 ==> span == (Span { secs: 1, nanos: 0 })
        },
{
}

/// Of all that a renewal renews, sets or reads, only the key of its own entry and the key of the
/// reference of its own name are touched. Each lives as long as a thing of its kind is configured
/// to, and is renewed where the phase says so.
pub proof fn law_renewal_keeps_to_its_keys<E>(renewal: Renewal, action: RenewalAction<E>)
    requires
        renewal.enters(action),
    ensures
        match action {
            RenewalAction::Expire { key, secs } => {
                ||| {
                    &&& renewal.phase() is Reference
                    &&& key@ == "/tunnel/id/"@ + renewal.tunnel_name()
                    &&& secs == expiry(renewal.config().tunnel_id_ref_lifetime)
                }
                ||| {
                    &&& renewal.phase() is Entry
                    &&& key@ == "/tunnel/rid/"@ + renewal.rid()
                    &&& secs == expiry(renewal.config().tunnel_entry_lifetime)
                }
            },
            RenewalAction::SetEntry { key, secs } => {
                &&& renewal.phase() is Restoring
                &&& key@ == "/tunnel/rid/"@ + renewal.rid()
                &&& secs == expiry(renewal.config().tunnel_entry_lifetime)
            },
            RenewalAction::Get { key } => {
                &&& renewal.phase() is Mapping
                &&& key@ == "/tunnel/id/"@ + renewal.tunnel_name()
            },
            RenewalAction::Exists { key } => renewal.phase() is Rival || {
                &&& renewal.phase() is Checking
                &&& key@ == "/tunnel/rid/"@ + renewal.rid()
            },
            RenewalAction::Sleep(_) => renewal.phase() is Sleeping,
            RenewalAction::Connect => renewal.phase() is Connecting,
            RenewalAction::Complete | RenewalAction::Fail(_) => renewal.phase() is Over,
        },
{
}

/// What a registration sets is what its renewal renews and sets again: the same key, with the same
/// lifetime.
pub proof fn law_renewal_renews_the_registered_entry<RE, SE, E>(
    registration: Registration,
    set: RegisterAction<RE, SE>,
    renewal: Renewal,
    renewed: RenewalAction<E>,
)
    requires
        registration.tries_entry(set),
        renewal.config() == registration.config(),
        renewal.rid() == registration.rid(),
        renewal.enters(renewed),
        renewal.phase() is Entry || renewal.phase() is Restoring,
    ensures
        set matches RegisterAction::SetEntry { key, secs } && key@ == "/tunnel/rid/"@
            + registration.rid() && (match renewed {
            RenewalAction::Expire { key: k, secs: s } => k@ == key@ && s == secs,
            RenewalAction::SetEntry { key: k, secs: s } => k@ == key@ && s == secs,
            _ => false,
        }),
{
}

/// A lifetime is told to the server in whole seconds: all those of the span where the server can
/// count them, and never more than the span has.
pub proof fn law_expiry_in_seconds(a: Span, b: Span)
    ensures
        0 <= expiry(a) <= a.secs,
        expiry(a) < a.secs ==> expiry(a) == i64::MAX,
        a.secs <= b.secs ==> expiry(a) <= expiry(b),
{
}

/// As long as a renewal is not over, it waits for one kind of event, whatever its outcome; once it is
/// over, it waits for none.
pub proof fn law_renewal_takes_every_outcome<E>(phase: RenewalPhase, event: RenewalEvent<E>)
    ensures
        renewal_expects(phase, event) <==> match phase {
            RenewalPhase::Sleeping => event is Woken,
            RenewalPhase::Connecting => event is Connected,
            RenewalPhase::Reference => event is ReferenceRenewed,
            RenewalPhase::Entry => event is EntryRenewed,
            RenewalPhase::Checking => event is Checked,
            RenewalPhase::Mapping => event is Mapped,
            RenewalPhase::Rival => event is RivalChecked,
            RenewalPhase::Restoring => event is Restored,
            RenewalPhase::Over => false,
        },
{
}

} // verus!
