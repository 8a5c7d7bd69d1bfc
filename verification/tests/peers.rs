use std::collections::HashSet;
use std::sync::Arc;

use snocat::address::RouteAddress;
use snocat::daemon::{
    deregister_identifier, disconnected, register_tunnel, DropAction, WrappedTunnel,
};
use snocat::negotiation::NegotiationError;
use snocat::peers::{PeerRecord, PeerTracker, PeersView};
use snocat::routing::{
    ClientLocalAddress, RouteAction, RouteEvent, RoutePhase, SnocatClientRouter,
    SnocatServerRouter,
};
use snocat::service::RoutingError;
use snocat::tunnel::id::TunnelId;
use snocat::tunnel::{TunnelError, TunnelName};

fn record(id: u64, name: &str, at: u64) -> Arc<PeerRecord> {
    Arc::new(PeerRecord {
        id: TunnelId::new(id),
        name: TunnelName::new(name.to_string()),
        registered_at: (at, 0),
        attributes: Arc::new(vec![]),
    })
}

fn name(s: &str) -> TunnelName {
    TunnelName::new(s.to_string())
}

fn ids(records: Vec<Arc<PeerRecord>>) -> Vec<u64> {
    let mut out: Vec<u64> = records.iter().map(|r| r.id.inner()).collect();
    out.sort();
    out
}

fn tracker() -> PeerTracker {
    let mut peers = PeerTracker::new();
    peers.insert(&record(1, "a", 50));
    peers.insert(&record(2, "b", 40));
    peers.insert(&record(3, "a", 30));
    peers
}

#[test]
fn tunnels_are_found_by_identity_and_name() {
    let mut peers = tracker();
    {
        let view = peers.view();
        assert_eq!(view.get_by_id(&TunnelId::new(2)).unwrap().name, name("b"));
        assert!(view.get_by_id(&TunnelId::new(9)).is_none());
        assert_eq!(ids(view.get_by_name(&name("a"))), vec![1, 3]);
        assert!(view.get_by_name(&name("c")).is_empty());
        assert_eq!(ids(view.all()), vec![1, 2, 3]);
        assert_eq!(
            view.find_by_name_and_predicate(&name("a"), |r| r.registered_at.0 < 40)
                .unwrap()
                .id,
            TunnelId::new(3)
        );
        assert!(view
            .find_by_name_and_predicate(&name("b"), |r| r.registered_at.0 > 40)
            .is_none());
    }
    peers.remove(&record(3, "a", 30));
    assert_eq!(ids(PeersView::new(Some(&peers)).get_by_name(&name("a"))), vec![1]);
    peers.remove(&record(1, "a", 50));
    assert!(peers.view().get_by_name(&name("a")).is_empty());
    assert!(peers.view().get_by_id(&TunnelId::new(1)).is_none());
    assert_eq!(ids(peers.view().all()), vec![2]);
}

#[test]
fn removing_undoes_inserting() {
    let mut peers = tracker();
    let extra = record(4, "c", 1);
    peers.insert(&extra);
    assert_eq!(ids(peers.view().get_by_name(&name("c"))), vec![4]);
    peers.remove(&extra);
    assert_eq!(ids(peers.view().all()), vec![1, 2, 3]);
    assert!(peers.view().get_by_name(&name("c")).is_empty());
}

#[test]
fn clients_route_through_the_newest_tunnel() {
    let peers = tracker();
    let view = peers.view();
    let router = SnocatClientRouter::new(&view);
    let addr = RouteAddress::parse("/x").unwrap();
    let chosen = router
        .route::<()>(&addr, ClientLocalAddress::MostRecentConnection)
        .unwrap();
    assert_eq!(chosen.id, TunnelId::new(3));
    let none = PeerTracker::new();
    let empty = none.view();
    let lost = SnocatClientRouter::new(&empty);
    assert!(matches!(
        lost.route::<()>(&addr, ClientLocalAddress::MostRecentConnection),
        Err(RoutingError::RouteNotFound(a)) if a == addr
    ));
}

#[test]
fn servers_route_by_name_to_the_latest() {
    let peers = tracker();
    let view = peers.view();
    let router = SnocatServerRouter::new(&view);
    let addr = RouteAddress::parse("/x").unwrap();
    assert_eq!(
        router.route::<()>(&addr, &name("a")).unwrap().id,
        TunnelId::new(1)
    );
    assert!(matches!(
        router.route::<()>(&addr, &name("c")),
        Err(RoutingError::RouteNotFound(a)) if a == addr
    ));
}

#[test]
fn links_are_negotiated_before_they_are_used() {
    let mut phase = RoutePhase::OpeningLink;
    assert!(matches!(
        phase.step::<u8>(RouteEvent::LinkOpened(Ok(()))),
        RouteAction::Negotiate
    ));
    assert!(matches!(
        phase.step::<u8>(RouteEvent::Negotiated(Ok(()))),
        RouteAction::Handle
    ));
    let mut phase = RoutePhase::OpeningLink;
    assert!(matches!(
        phase.step::<u8>(RouteEvent::LinkOpened(Err(TunnelError::TimedOut))),
        RouteAction::Fail(RoutingError::LinkOpenFailure(TunnelError::TimedOut))
    ));
    assert_eq!(phase, RoutePhase::Over);
    let mut phase = RoutePhase::Negotiating;
    assert!(matches!(
        phase.step::<u8>(RouteEvent::Negotiated(Err(NegotiationError::Refused))),
        RouteAction::Fail(RoutingError::NegotiationError(NegotiationError::Refused))
    ));
}

#[test]
fn registered_tunnels_are_deregistered_when_let_go() {
    let mut peers = PeerTracker::new();
    let tunnel: WrappedTunnel<&str, u32> =
        WrappedTunnel::new_registration_failure_closing(Arc::new("t"));
    assert_eq!(**tunnel.as_inner(), "t");
    let tunnel = register_tunnel(&mut peers, tunnel, 77, record(5, "n", 0));
    assert!(peers.view().get_by_id(&TunnelId::new(5)).is_some());
    let (inner, action) = tunnel.release();
    assert_eq!(*inner, "t");
    match action {
        DropAction::Deregister {
            identifier,
            record,
            reference,
        } => {
            assert_eq!(identifier, 77);
            assert_eq!(disconnected(&record).id, TunnelId::new(5));
            assert!(peers.view().get_by_id(&TunnelId::new(5)).is_some());
            deregister_identifier(&mut peers, record, reference);
        }
        other => panic!("{:?}", other),
    }
    assert!(peers.view().get_by_id(&TunnelId::new(5)).is_none());
    let unregistered: WrappedTunnel<&str, u32> =
        WrappedTunnel::new_registration_failure_closing(Arc::new("u"));
    assert!(matches!(
        unregistered.release().1,
        DropAction::CloseUnauthenticated
    ));
}

/// The tables do not keep a record alive: it is not found once no one holds it, and neither is
/// anything once the tracker is gone.
#[test]
fn lost_records_are_not_found() {
    let mut peers = PeerTracker::new();
    let first = peers.insert(&record(1, "a", 10));
    let second = peers.insert(&record(2, "a", 20));
    assert!(first != second && peers.has_room());
    peers.lose(second);
    assert!(peers.view().get_by_id(&TunnelId::new(2)).is_none());
    assert_eq!(ids(peers.view().get_by_name(&name("a"))), vec![1]);
    assert_eq!(ids(peers.view().all()), vec![1]);
    assert_eq!(
        peers.view().find_by_comparator(|r| r.id).unwrap().id,
        TunnelId::new(1)
    );
    peers.lose(first);
    assert!(peers.view().find_by_comparator(|r| r.id).is_none());
    // A record that is added again under the same identity is another record.
    peers.insert(&record(2, "a", 30));
    assert_eq!(ids(peers.view().all()), vec![2]);
    let gone = PeersView::new(None);
    assert!(gone.get_by_id(&TunnelId::new(2)).is_none());
    assert!(gone.get_by_name(&name("a")).is_empty());
    assert!(gone.find_by_comparator(|r| r.id).is_none());
    assert!(gone.all().is_empty());
}

/// Records can be ranked by anything that has an order.
#[test]
fn tunnels_are_ranked_by_any_order() {
    let peers = tracker();
    let view = peers.view();
    let by_name = view.find_by_comparator(|r| r.name.raw().to_string()).unwrap();
    assert_eq!(by_name.id, TunnelId::new(2));
    let oldest = view
        .find_by_name_and_comparator(&name("a"), |r| std::cmp::Reverse(r.registered_at))
        .unwrap();
    assert_eq!(oldest.id, TunnelId::new(3));
}

/// Records are the same, and are hashed, by their identity and name.
#[test]
fn records_are_the_same_by_identity_and_name() {
    let mut seen = HashSet::new();
    assert!(seen.insert(record(1, "a", 1)));
    assert!(!seen.insert(record(1, "a", 2)));
    assert!(seen.insert(record(1, "b", 1)));
    assert!(seen.insert(record(2, "a", 1)));
    let copy = PeerRecord::clone(&record(1, "a", 9));
    assert!(copy == *record(1, "a", 1));
    assert_eq!(copy.registered_at, (9, 0));
}
