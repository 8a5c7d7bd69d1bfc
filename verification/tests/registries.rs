use std::collections::HashMap;
use std::sync::Arc;

use snocat::registry::cache::{
    BothAnswers, CacheIdentifier, LookupStep, WriteThroughCache, WriteThroughCacheError,
};
use snocat::registry::local::{
    InMemoryTunnelRegistry as LocalRegistry, TunnelNamingError, TunnelRegistrationError,
};
use snocat::registry::mapped::{MappedTunnelRegistry, MappedTunnelRegistryError};
use snocat::registry::memory::InMemoryTunnelRegistry;
use snocat::registry::redis::{
    expiry_secs, lookup_entry, tunnel_key_for, tunnel_rid_key, ActiveRegistrations, ReadStep,
    RedisIdentifier, RedisRegistryConfig, RedisRegistryError, RegisterAction, Registration,
    Renewal, RenewalAction, RenewalEvent, Span, MAX_ITERATIONS,
};
use snocat::tunnel::id::TunnelId;
use snocat::tunnel::TunnelName;

fn name(s: &str) -> TunnelName {
    TunnelName::new(s.to_string())
}

#[test]
fn last_registration_wins() {
    let mut registry = InMemoryTunnelRegistry::new();
    assert_eq!(registry.lookup(&name("a")), None);
    let first = registry.register(name("a"), 1);
    let _ = registry.register(name("b"), 2);
    assert_eq!(registry.lookup(&name("a")), Some(&1));
    let _ = registry.register(name("a"), 3);
    assert_eq!(registry.len(), 2);
    assert_eq!(registry.lookup(&name("a")), Some(&3));
    assert_eq!(registry.lookup(&name("b")), Some(&2));
    assert_eq!(registry.deregister_identifier(first), Some(3));
    assert_eq!(registry.lookup(&name("a")), None);
    assert_eq!(registry.deregister(&name("a")), None);
    assert_eq!(registry.deregister(&name("b")), Some(2));
    assert_eq!(registry.len(), 0);
}

#[test]
fn names_belong_to_one_tunnel() {
    let mut registry = LocalRegistry::new_with_metadata_constructor(
        |id: TunnelId, tunnel: Option<&Arc<&str>>| (id.inner(), tunnel.is_some()),
    );
    let (one, two, three) = (TunnelId::new(1), TunnelId::new(2), TunnelId::new(3));
    assert_eq!(registry.register_tunnel(two, Arc::new("two")), Ok((2, true)));
    assert_eq!(registry.register_tunnel_mirror(one, None), Ok((1, false)));
    assert_eq!(
        registry.register_tunnel(one, Arc::new("again")),
        Err(TunnelRegistrationError::IdOccupied(one))
    );
    assert_eq!(registry.keys(), vec![one, two]);
    assert_eq!(registry.max_key(), Some(two));
    assert_eq!(registry.name_tunnel(one, Some(name("n"))), Ok(()));
    assert_eq!(registry.lookup_by_name(&name("n")).unwrap().id, one);
    assert_eq!(registry.name_tunnel(two, Some(name("n"))), Ok(()));
    assert_eq!(registry.lookup_by_name(&name("n")).unwrap().id, two);
    assert_eq!(registry.lookup_by_id(one).unwrap().name, None);
    assert_eq!(
        registry.name_tunnel(three, Some(name("n"))),
        Err(TunnelNamingError::TunnelNotRegistered(three))
    );
    assert!(registry.lookup_by_name(&name("n")).is_none());
    let record = registry.deregister_tunnel(two).unwrap();
    assert_eq!(*record.tunnel.unwrap(), "two");
    assert!(registry.deregister_tunnel(two).is_none());
    assert!(registry.lookup_by_id(two).is_none());
}

type TestCache = WriteThroughCache<fn(&u8) -> u16, fn(u16) -> u8, (), ()>;

fn encode(record: &u8) -> u16 {
    *record as u16 + 1000
}

fn decode(record: u16) -> u8 {
    (record - 1000) as u8
}

#[test]
fn lookups_go_through_the_cache() {
    let cache: TestCache = WriteThroughCache::new(Arc::new(()), Arc::new(()), encode, decode);
    assert!(matches!(
        TestCache::lookup::<u8, (), ()>(Ok(Some(5))),
        LookupStep::Finish(Ok(Some(5)))
    ));
    assert!(matches!(
        TestCache::lookup::<u8, (), ()>(Ok(None)),
        LookupStep::AskTarget
    ));
    assert!(matches!(
        TestCache::lookup::<u8, u8, ()>(Err(1)),
        LookupStep::Finish(Err(WriteThroughCacheError::CacheError(1)))
    ));
    assert!(matches!(
        cache.lookup_target::<u8, u16, (), ()>(Ok(Some(1007))),
        LookupStep::Store(7)
    ));
    assert!(matches!(
        cache.lookup_target::<u8, u16, (), ()>(Ok(None)),
        LookupStep::Finish(Ok(None))
    ));
    assert!(matches!(
        cache.lookup_target::<u8, u16, (), u8>(Err(2)),
        LookupStep::Finish(Err(WriteThroughCacheError::TargetError(2)))
    ));
    assert_eq!(
        TestCache::lookup_stored::<u8, (), (), ()>(7, Ok(())),
        Ok(Some(7))
    );
    assert_eq!(
        TestCache::lookup_stored::<u8, (), u8, ()>(7, Err(3)),
        Err(WriteThroughCacheError::CacheError(3))
    );
    assert_eq!(cache.register::<u8, u16>(&9), 1009);
    assert_eq!(cache.deregister::<u8, u16>(Some(1), Some(1002)), Some(1));
    assert_eq!(cache.deregister::<u8, u16>(None, Some(1002)), Some(2));
    assert_eq!(cache.deregister::<u8, u16>(None, None), None);
}

#[test]
fn both_registries_have_to_answer() {
    let none = BothAnswers::<u8, u16>::none();
    let one = none.target_answered::<(), ()>(Ok(4)).unwrap();
    let both = one.cache_answered::<(), ()>(Ok(3)).unwrap();
    assert_eq!(both.both(), Some((3, 4)));
    let half = BothAnswers::<u8, u16>::none().cache_answered::<(), ()>(Ok(3));
    assert_eq!(half.unwrap().both(), None);
    assert!(matches!(
        BothAnswers::<u8, u16>::none().target_answered::<(), u8>(Err(9)),
        Err(WriteThroughCacheError::TargetError(9))
    ));
    let ident = CacheIdentifier::new('a', 'b');
    assert_eq!((ident.cache_ident, ident.target_ident), ('a', 'b'));
}

type Mapped = MappedTunnelRegistry<(), u32, u64, u16, MappedTunnelRegistryError<u16>>;

#[test]
fn mapped_registries_convert() {
    let mapped = Mapped::new(());
    let () = mapped.inner;
    assert_eq!(Mapped::lookup::<u8, u8>(Ok(Some(5))), Ok(Some(5u32)));
    assert_eq!(Mapped::lookup::<u8, u8>(Ok(None)), Ok(None));
    assert_eq!(
        Mapped::lookup::<u8, u8>(Err(6)),
        Err(MappedTunnelRegistryError::Mapped(6u16))
    );
    assert_eq!(Mapped::register::<u8, u8>(Ok(7)), Ok(7u64));
    assert_eq!(Mapped::accept::<u8, ()>(Ok(8)), Ok(8));
    assert_eq!(
        Mapped::accept::<u8, ()>(Err(())),
        Err(MappedTunnelRegistryError::Downcast)
    );
}

/// What a server holds, as far as these tests ask it.
#[derive(Default)]
struct FakeRedis {
    values: HashMap<String, String>,
}

impl FakeRedis {
    fn set_new(&mut self, key: String, value: &str) -> bool {
        if self.values.contains_key(&key) {
            return false;
        }
        self.values.insert(key, value.to_string());
        true
    }

    fn read(&mut self, step: ReadStep) -> Option<String> {
        match step {
            ReadStep::Get(key) => self.values.get(&key).cloned(),
            ReadStep::GetDel(key) => self.values.remove(&key),
            ReadStep::Missing => None,
        }
    }
}

fn register(redis: &mut FakeRedis, tunnel: &str, record: &str) -> RedisIdentifier {
    let (mut registration, mut action) =
        Registration::register::<(), ()>(RedisRegistryConfig::default(), name(tunnel));
    loop {
        action = match action {
            RegisterAction::SetEntry { key, secs } => {
                assert_eq!(secs, 60);
                let set = redis.set_new(key, record);
                registration.entry_set(set)
            }
            RegisterAction::SetReference { key, rid, secs } => {
                assert_eq!(secs, 600);
                redis.values.insert(key, rid);
                registration.reference_set(Ok(()))
            }
            RegisterAction::Complete(identifier) => return identifier,
            RegisterAction::Fail(e) => panic!("{:?}", e),
        };
    }
}

fn lookup(redis: &mut FakeRedis, tunnel: &str) -> Option<String> {
    let rid = redis.values.get(&tunnel_key_for(&name(tunnel))).cloned();
    redis.read(lookup_entry(rid))
}

#[test]
fn shared_registration_is_found_and_taken_out() {
    let mut redis = FakeRedis::default();
    let mut active = ActiveRegistrations::new();
    let identifier = register(&mut redis, "t", "record");
    active.register_for_renewals(&identifier.rid, 4);
    assert_eq!(identifier.tunnel_name, name("t"));
    assert_eq!(lookup(&mut redis, "t"), Some("record".to_string()));
    assert_eq!(lookup(&mut redis, "u"), None);
    let (renewal, step) = active.deregister_identifier(identifier);
    assert_eq!(renewal, Some(4));
    assert!(matches!(step, ReadStep::GetDel(_)));
    assert_eq!(redis.read(step), Some("record".to_string()));
    assert_eq!(lookup(&mut redis, "t"), None);
}

#[test]
fn entries_of_other_processes_are_only_read() {
    let mut redis = FakeRedis::default();
    let identifier = register(&mut redis, "t", "record");
    let mut elsewhere = ActiveRegistrations::new();
    let rid = identifier.rid.clone();
    let (renewal, step) = elsewhere.deregister(Some(rid));
    assert_eq!(renewal, None);
    assert_eq!(redis.read(step), Some("record".to_string()));
    assert_eq!(lookup(&mut redis, "t"), Some("record".to_string()));
    let (none, missing) = elsewhere.deregister(None);
    assert!(none.is_none() && matches!(missing, ReadStep::Missing));
}

#[test]
fn keys_are_random_and_tried_ten_times() {
    let mut redis = FakeRedis::default();
    let a = register(&mut redis, "t", "1");
    let b = register(&mut redis, "t", "2");
    assert_ne!(a.rid, b.rid);
    assert_eq!(a.rid.len(), 36);
    assert_eq!(a.rid.as_bytes()[14], b'4');
    assert_eq!(lookup(&mut redis, "t"), Some("2".to_string()));
    let (mut registration, mut action) =
        Registration::register::<(), ()>(RedisRegistryConfig::default(), name("t"));
    let mut tried = 0;
    while let RegisterAction::SetEntry { key, .. } = action {
        assert!(key.starts_with("/tunnel/rid/"));
        tried += 1;
        action = registration.entry_set(false);
    }
    assert_eq!(tried, MAX_ITERATIONS);
    assert_eq!(tried, 10);
    assert!(matches!(
        action,
        RegisterAction::Fail(RedisRegistryError::RepeatKeyConflicts { num_attempts: 10 })
    ));
    let (mut registration, _) =
        Registration::register::<u8, ()>(RedisRegistryConfig::default(), name("t"));
    let _: RegisterAction<u8, ()> = registration.entry_set(true);
    assert!(matches!(
        registration.reference_set::<u8, ()>(Err(3)),
        RegisterAction::Fail(RedisRegistryError::Redis(3))
    ));
}

#[test]
fn keys_and_lifetimes() {
    assert_eq!(tunnel_key_for(&name("x")), "/tunnel/id/x");
    assert_eq!(tunnel_rid_key("y"), "/tunnel/rid/y");
    assert_eq!(
        expiry_secs(Span {
            secs: 5,
            nanos: 999_999_999
        }),
        5
    );
    assert_eq!(
        expiry_secs(Span {
            secs: u64::MAX,
            nanos: 0
        }),
        i64::MAX
    );
    let config = RedisRegistryConfig::default();
    assert_eq!(config.tunnel_id_ref_lifetime.secs, 600);
    assert_eq!(config.tunnel_entry_lifetime.secs, 60);
    assert_eq!(config.renewal_rate.secs, 20);
}

fn renewal(rate: Span) -> (Renewal, RenewalAction<u8>) {
    let config = RedisRegistryConfig {
        renewal_rate: rate,
        ..RedisRegistryConfig::default()
    };
    let identifier = RedisIdentifier {
        tunnel_name: name("t"),
        rid: "r".to_string(),
    };
    Renewal::run_renewal(config, identifier, false)
}

/// A renewal that was told that its entry is not there, and now asks what the name refers to.
fn missing_entry() -> Renewal {
    let (mut r, _) = renewal(Span { secs: 20, nanos: 0 });
    let _: RenewalAction<u8> = r.step(RenewalEvent::Woken, false);
    let _: RenewalAction<u8> = r.step(RenewalEvent::Connected(Ok(())), false);
    let _: RenewalAction<u8> = r.step(RenewalEvent::ReferenceRenewed, false);
    let _: RenewalAction<u8> = r.step(RenewalEvent::EntryRenewed(Ok(false)), false);
    assert!(matches!(
        r.step::<u8>(RenewalEvent::Checked(Ok(false)), false),
        RenewalAction::Get { key } if key == "/tunnel/id/t"
    ));
    r
}

/// A lost entry is not set again where the name refers to another entry that is there.
#[test]
fn renewal_leaves_the_name_to_its_new_entry() {
    let mut r = missing_entry();
    assert!(matches!(
        r.step::<u8>(RenewalEvent::Mapped(Ok(Some("other".to_string()))), false),
        RenewalAction::Exists { key } if key == "/tunnel/rid/other"
    ));
    assert!(matches!(
        r.step::<u8>(RenewalEvent::RivalChecked(Ok(true)), false),
        RenewalAction::Sleep(_)
    ));
    let mut r = missing_entry();
    let _: RenewalAction<u8> = r.step(RenewalEvent::Mapped(Ok(Some("other".to_string()))), false);
    assert!(matches!(
        r.step::<u8>(RenewalEvent::RivalChecked(Ok(false)), false),
        RenewalAction::SetEntry { key, secs: 60 } if key == "/tunnel/rid/r"
    ));
    let mut r = missing_entry();
    assert!(matches!(
        r.step::<u8>(RenewalEvent::Mapped(Ok(None)), false),
        RenewalAction::SetEntry { key, secs: 60 } if key == "/tunnel/rid/r"
    ));
    let mut r = missing_entry();
    assert!(matches!(
        r.step::<u8>(RenewalEvent::Mapped(Err(1)), false),
        RenewalAction::Sleep(_)
    ));
    let mut r = missing_entry();
    let _: RenewalAction<u8> = r.step(RenewalEvent::Mapped(Ok(Some("other".to_string()))), false);
    assert!(matches!(
        r.step::<u8>(RenewalEvent::RivalChecked(Err(1)), true),
        RenewalAction::Complete
    ));
}

#[test]
fn renewal_restores_a_lost_entry() {
    let (mut r, action) = renewal(Span { secs: 20, nanos: 5 });
    assert!(matches!(action, RenewalAction::Sleep(Span { secs: 20, nanos: 5 })));
    assert!(matches!(
        r.step::<u8>(RenewalEvent::Woken, false),
        RenewalAction::Connect
    ));
    assert!(matches!(
        r.step::<u8>(RenewalEvent::Connected(Ok(())), false),
        RenewalAction::Expire { key, secs: 600 } if key == "/tunnel/id/t"
    ));
    assert!(matches!(
        r.step::<u8>(RenewalEvent::ReferenceRenewed, false),
        RenewalAction::Expire { key, secs: 60 } if key == "/tunnel/rid/r"
    ));
    assert!(matches!(
        r.step::<u8>(RenewalEvent::EntryRenewed(Ok(false)), false),
        RenewalAction::Exists { key } if key == "/tunnel/rid/r"
    ));
    assert!(matches!(
        r.step::<u8>(RenewalEvent::Checked(Ok(false)), false),
        RenewalAction::Get { key } if key == "/tunnel/id/t"
    ));
    assert!(matches!(
        r.step::<u8>(RenewalEvent::Mapped(Ok(Some("r".to_string()))), false),
        RenewalAction::SetEntry { key, secs: 60 } if key == "/tunnel/rid/r"
    ));
    assert!(matches!(
        r.step::<u8>(RenewalEvent::Restored, false),
        RenewalAction::Sleep(_)
    ));
}

#[test]
fn renewal_ends_when_cancelled_or_unconnected() {
    let (mut r, action) = renewal(Span {
        secs: 0,
        nanos: 999_999_999,
    });
    assert!(matches!(action, RenewalAction::Sleep(Span { secs: 1, nanos: 0 })));
    assert!(matches!(
        r.step::<u8>(RenewalEvent::Woken, true),
        RenewalAction::Complete
    ));
    let (mut r, _) = renewal(Span { secs: 1, nanos: 0 });
    let _: RenewalAction<u8> = r.step(RenewalEvent::Woken, false);
    assert!(matches!(
        r.step::<u8>(RenewalEvent::Connected(Err(9)), false),
        RenewalAction::Fail(9)
    ));
    let (mut r, _) = renewal(Span { secs: 1, nanos: 0 });
    let _: RenewalAction<u8> = r.step(RenewalEvent::Woken, false);
    let _: RenewalAction<u8> = r.step(RenewalEvent::Connected(Ok(())), false);
    let _: RenewalAction<u8> = r.step(RenewalEvent::ReferenceRenewed, false);
    assert!(matches!(
        r.step::<u8>(RenewalEvent::EntryRenewed(Ok(true)), true),
        RenewalAction::Complete
    ));
}
