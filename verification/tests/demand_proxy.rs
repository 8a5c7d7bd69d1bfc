use std::sync::Arc;

use snocat::address::RouteAddress;
use snocat::demand_proxy::{
    accepted, forward, forwarding_failure, listeners_outcome, routing_failure, DemandAction,
    DemandClientAction, DemandClientEvent, DemandClientPhase, DemandEvent, DemandFailure,
    DemandPhase, DemandProxyClient, DemandProxyService,
};
use snocat::negotiation::NegotiationError;
use snocat::net::{IpAddr, Ipv4Addr, Ipv6Addr, SocketAddr};
use snocat::peers::{PeerRecord, PeerTracker};
use snocat::proxy_tcp::{DnsTarget, TcpStreamTarget};
use snocat::service::{
    ClientError, ProtocolInfo, RouteAddressBuilder, RoutingError, Service, ServiceError,
};
use snocat::tunnel::id::TunnelId;
use snocat::tunnel::{TunnelError, TunnelName};

fn ip(a: u8, b: u8, c: u8, d: u8) -> IpAddr {
    IpAddr::V4(Ipv4Addr::new(a, b, c, d))
}

fn any6() -> IpAddr {
    IpAddr::V6(Ipv6Addr::new([0; 8]))
}

#[test]
fn demands_are_built_and_read() {
    let target = TcpStreamTarget::Dns(DnsTarget::Dns4 {
        host: "example.com".to_string(),
        port: 80,
    });
    let addr = DemandProxyClient::build_addr(target).unwrap();
    assert_eq!(addr.to_text(), "/proxyme/0.0.1/example.com/80");
    assert_eq!(
        DemandProxyService::parse_address(&addr),
        Ok((Some("example.com"), 80))
    );
    let six = TcpStreamTarget::SocketAddr(SocketAddr::new(IpAddr::V6(Ipv6Addr::localhost()), 1));
    assert_eq!(
        DemandProxyClient::build_addr(six).unwrap().to_text(),
        "/proxyme/0.0.1/::1/1"
    );
    assert_eq!(
        DemandProxyClient::build_addr(TcpStreamTarget::Port(2)).unwrap().to_text(),
        "/proxyme/0.0.1/127.0.0.1/2"
    );
    assert_eq!(DemandProxyClient::protocol_name(), "proxyme");
    assert_eq!(DemandProxyClient::new("s".to_string()).proxied_subject, "s");
}

#[test]
fn addresses_that_demand() {
    let service = DemandProxyService::new(vec![]);
    let read = |s: &str| {
        let addr = RouteAddress::parse(s).unwrap();
        let accepts = service.accepts(&addr, &TunnelId::new(0));
        let port = DemandProxyService::parse_address(&addr).map(|(h, p)| (h.map(String::from), p));
        assert_eq!(accepts, port.is_ok());
        port
    };
    assert_eq!(read("/proxyme/0.0.1/80"), Ok((None, 80)));
    assert_eq!(read("/proxyme/0.0.1/h/80"), Ok((Some("h".to_string()), 80)));
    assert_eq!(read("/proxyme/0.0.1//80"), Ok((Some("".to_string()), 80)));
    for wrong in [
        "",
        "/proxyme",
        "/proxyme/0.0.1",
        "/proxyme/0.0.2/80",
        "/proxy/0.0.1/80",
        "/proxyme/0.0.1/h",
        "/proxyme/0.0.1/h/80/",
        "/proxyme/0.0.1/h/65536",
    ] {
        assert_eq!(read(wrong), Err(()), "{}", wrong);
    }
}

#[test]
fn unspecified_addresses_are_bound_alone() {
    let keep = |given: Vec<IpAddr>| {
        let mut addrs = given;
        DemandProxyService::handle_dual_stack_addrs(&mut addrs);
        let once = addrs.clone();
        DemandProxyService::handle_dual_stack_addrs(&mut addrs);
        assert_eq!(once, addrs);
        addrs
    };
    assert_eq!(keep(vec![]), vec![]);
    assert_eq!(
        keep(vec![ip(1, 2, 3, 4), ip(5, 6, 7, 8)]),
        vec![ip(1, 2, 3, 4), ip(5, 6, 7, 8)]
    );
    assert_eq!(keep(vec![any6(), ip(0, 0, 0, 0)]), vec![any6()]);
    assert_eq!(
        keep(vec![ip(1, 2, 3, 4), ip(0, 0, 0, 0), any6()]),
        vec![ip(0, 0, 0, 0)]
    );
    let service = DemandProxyService::new(vec![ip(1, 2, 3, 4), IpAddr::V6(Ipv6Addr::localhost())]);
    let texts: Vec<String> = service.addrs_at(9).iter().map(|a| a.to_text()).collect();
    assert_eq!(texts, vec!["1.2.3.4:9", "[::1]:9"]);
}

fn peers() -> PeerTracker {
    let mut peers = PeerTracker::new();
    peers.insert(&Arc::new(PeerRecord {
        id: TunnelId::new(1),
        name: TunnelName::new("peer".to_string()),
        registered_at: (0, 0),
        attributes: Arc::new(vec![]),
    }));
    peers
}

#[test]
fn demand_is_served() {
    let service = DemandProxyService::new(vec![ip(1, 2, 3, 4)]);
    let peers = peers();
    let addr = RouteAddress::parse("/proxyme/0.0.1/h/80").unwrap();
    let mut handling = service
        .handle::<()>(&peers.view(), &addr, &TunnelId::new(1))
        .unwrap();
    assert_eq!(handling.phase, DemandPhase::ReadingSubject);
    assert_eq!(handling.host, Some("h".to_string()));
    assert_eq!(handling.port, 80);
    assert_eq!(handling.tunnel.raw(), "peer");
    assert!(matches!(
        handling.step::<()>(DemandEvent::Subject(true)),
        DemandAction::Allocate
    ));
    let granted = match handling.step::<()>(DemandEvent::Allocated(Some(8080))) {
        DemandAction::Grant(port) => service.addrs_at(port),
        other => panic!("{:?}", other),
    };
    let mut client = DemandClientPhase::Asking;
    assert!(matches!(
        client.step(DemandClientEvent::Written(true)),
        DemandClientAction::ReadGrant
    ));
    assert!(matches!(
        client.step(DemandClientEvent::Answered(Some(Some(granted)))),
        DemandClientAction::AwaitClosure(list) if list[0].to_text() == "1.2.3.4:8080"
    ));
    assert!(matches!(
        handling.step::<()>(DemandEvent::Written(true)),
        DemandAction::Bind(8080)
    ));
    assert!(matches!(
        handling.step::<()>(DemandEvent::Bound(true)),
        DemandAction::Listen
    ));
    assert!(matches!(
        handling.step::<()>(DemandEvent::Listened(Ok(()))),
        DemandAction::Close
    ));
    assert!(matches!(
        handling.step::<()>(DemandEvent::Written(true)),
        DemandAction::Complete
    ));
    assert!(matches!(
        client.step(DemandClientEvent::Closed(true)),
        DemandClientAction::Complete
    ));
}

fn at(phase: DemandPhase) -> snocat::demand_proxy::DemandHandling {
    let service = DemandProxyService::new(vec![]);
    let peers = peers();
    let addr = RouteAddress::parse("/proxyme/0.0.1/80").unwrap();
    let mut handling = service
        .handle::<()>(&peers.view(), &addr, &TunnelId::new(1))
        .unwrap();
    handling.phase = phase;
    handling
}

#[test]
fn demands_that_fail() {
    let service = DemandProxyService::new(vec![]);
    let peers = peers();
    let addr = RouteAddress::parse("/proxyme/0.0.1/80").unwrap();
    let other = RouteAddress::parse("/other").unwrap();
    assert!(matches!(
        service.handle::<()>(&peers.view(), &addr, &TunnelId::new(2)),
        Err(DemandFailure::Address)
    ));
    assert!(matches!(
        service.handle::<()>(&peers.view(), &other, &TunnelId::new(1)),
        Err(DemandFailure::Address)
    ));
    assert!(matches!(
        at(DemandPhase::ReadingSubject).step::<()>(DemandEvent::Subject(false)),
        DemandAction::Fail(DemandFailure::UnexpectedEnd)
    ));
    let mut refusing = at(DemandPhase::Allocating);
    assert!(matches!(
        refusing.step::<()>(DemandEvent::Allocated(None)),
        DemandAction::Refuse
    ));
    assert!(matches!(
        refusing.step::<()>(DemandEvent::Written(true)),
        DemandAction::Fail(DemandFailure::Allocation)
    ));
    for phase in [
        DemandPhase::Granting(1),
        DemandPhase::Refusing,
        DemandPhase::Revoking,
    ] {
        assert!(matches!(
            at(phase).step::<()>(DemandEvent::Written(false)),
            DemandAction::Fail(DemandFailure::IllegalResponse)
        ));
    }
    let mut revoking = at(DemandPhase::Binding(1));
    assert!(matches!(
        revoking.step::<()>(DemandEvent::Bound(false)),
        DemandAction::Refuse
    ));
    assert!(matches!(
        revoking.step::<()>(DemandEvent::Written(true)),
        DemandAction::Fail(DemandFailure::Binding)
    ));
    assert!(matches!(
        at(DemandPhase::Listening).step::<u8>(DemandEvent::Listened(Err(
            ServiceError::InternalError(4)
        ))),
        DemandAction::Fail(DemandFailure::Listening(ServiceError::InternalError(4)))
    ));
    assert!(matches!(
        at(DemandPhase::Closing).step::<()>(DemandEvent::Written(false)),
        DemandAction::Fail(DemandFailure::UnexpectedEnd)
    ));
}

#[test]
fn failures_as_services_report_them() {
    let report = |f: DemandFailure<u8>| f.into_service_error();
    assert!(matches!(
        report(DemandFailure::Address),
        ServiceError::AddressError
    ));
    assert!(matches!(
        report(DemandFailure::UnexpectedEnd),
        ServiceError::UnexpectedEnd
    ));
    assert!(matches!(
        report(DemandFailure::IllegalResponse),
        ServiceError::IllegalResponse
    ));
    assert!(matches!(
        report(DemandFailure::Allocation),
        ServiceError::DependencyFailure
    ));
    assert!(matches!(
        report(DemandFailure::Binding),
        ServiceError::InternalFailure(m) if m == "Binding port for client"
    ));
    assert!(matches!(
        report(DemandFailure::Listening(ServiceError::Refused)),
        ServiceError::Refused
    ));
}

#[test]
fn clients_that_fail() {
    let mut client = DemandClientPhase::Asking;
    assert!(matches!(
        client.step(DemandClientEvent::Written(false)),
        DemandClientAction::Fail(ClientError::IllegalResponse(()))
    ));
    let mut client = DemandClientPhase::AwaitingGrant;
    assert!(matches!(
        client.step(DemandClientEvent::Answered(None)),
        DemandClientAction::Fail(ClientError::IllegalResponse(()))
    ));
    let mut client = DemandClientPhase::AwaitingGrant;
    assert!(matches!(
        client.step(DemandClientEvent::Answered(Some(None))),
        DemandClientAction::Fail(ClientError::Refused)
    ));
    let mut client = DemandClientPhase::Granted;
    assert!(matches!(
        client.step(DemandClientEvent::Closed(false)),
        DemandClientAction::Fail(ClientError::IllegalResponse(()))
    ));
}

#[test]
fn connections_are_carried_on() {
    let addr = forward::<()>(&None, 80, true).unwrap();
    assert_eq!(addr.to_text(), "/proxy-tcp/dns/localhost/tcp/80");
    let addr = forward::<()>(&Some("h".to_string()), 81, true).unwrap();
    assert_eq!(addr.to_text(), "/proxy-tcp/dns/h/tcp/81");
    assert!(matches!(
        forward::<()>(&None, 80, false),
        Err(ServiceError::DependencyFailure)
    ));
    assert!(matches!(accepted::<u8, (), ()>(Ok(3)), Ok(3)));
    assert!(matches!(
        accepted::<u8, (), ()>(Err(())),
        Err(ServiceError::UnexpectedEnd)
    ));
    let addr = || RouteAddress::parse("/a").unwrap();
    for e in [
        RoutingError::RouteNotFound(addr()),
        RoutingError::RouteUnavailable(addr()),
        RoutingError::RouterError(1u8),
        RoutingError::LinkOpenFailure(TunnelError::TimedOut),
    ] {
        assert!(matches!(routing_failure(e), ServiceError::DependencyFailure));
    }
    assert!(matches!(
        routing_failure(RoutingError::<u8>::InvalidAddress),
        ServiceError::AddressError
    ));
    assert!(matches!(
        routing_failure(RoutingError::<u8>::NegotiationError(
            NegotiationError::ProtocolViolation
        )),
        ServiceError::IllegalResponse
    ));
    assert!(matches!(
        forwarding_failure::<u8, ()>(ClientError::InvalidAddress),
        ServiceError::AddressError
    ));
    assert!(matches!(
        forwarding_failure::<u8, ()>(ClientError::Refused),
        ServiceError::Refused
    ));
    assert!(matches!(
        forwarding_failure::<u8, ()>(ClientError::UnexpectedEnd),
        ServiceError::UnexpectedEnd
    ));
    assert!(matches!(
        forwarding_failure::<u8, ()>(ClientError::IllegalResponse(3)),
        ServiceError::IllegalResponse
    ));
    assert!(matches!(
        listeners_outcome::<(), ()>(Err(())),
        Err(ServiceError::DependencyFailure)
    ));
    assert!(matches!(listeners_outcome::<(), ()>(Ok(Ok(()))), Ok(())));
}
