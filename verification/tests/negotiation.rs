use std::sync::Arc;

use snocat::address::RouteAddress;
use snocat::daemon::{
    handle_incoming_request_bistream, request_served, RequestProcessingError, RequestStep,
};
use snocat::negotiation::{
    frame_address, greeting, ClientAction, ClientEvent, HandshakeEvent, NegotiationClient,
    NegotiationError, NegotiationService, ServiceAction, ServiceEvent, PROTOCOL_VERSION,
    SNOCAT_NEGOTIATION_MAGIC,
};
use snocat::proxy_tcp::TcpStreamService;
use snocat::service::{PresetServiceRegistry, RoutingError, ServiceError, ServiceRegistry};
use snocat::tunnel::id::TunnelId;
use snocat::tunnel::TunnelError;

#[derive(Debug, Clone, PartialEq, Eq)]
struct AcceptAll;

struct TestServiceRegistry {
    services: Vec<AcceptAll>,
}

impl ServiceRegistry for TestServiceRegistry {
    type Found = AcceptAll;

    fn find_service(&self, _addr: &RouteAddress, _tunnel: &TunnelId) -> Option<&AcceptAll> {
        self.services.first()
    }
}

fn magic() -> HandshakeEvent {
    let sent = greeting(PROTOCOL_VERSION);
    HandshakeEvent::Magic(Some([sent[0], sent[1], sent[2], sent[3]]))
}

/// Both ends negotiate with each other, and the address arrives.
#[test]
fn negotiate() {
    const TEST_ADDR: &str = "/test/addr";
    let registry = Arc::new(TestServiceRegistry {
        services: vec![AcceptAll],
    });
    let service = NegotiationService::new(registry);
    let client = NegotiationClient::new();

    let mut asking = client.negotiate(RouteAddress::parse(TEST_ADDR).expect("Illegal test address"));
    let mut answering = service.negotiate();

    let events = [
        HandshakeEvent::Sent(true),
        magic(),
        HandshakeEvent::Version(Some(greeting(PROTOCOL_VERSION)[4])),
    ];
    let mut client_action = ClientAction::<()>::Wait;
    let mut service_action = ServiceAction::<()>::Wait;
    for event in events {
        client_action = asking.step(ClientEvent::Handshake(event));
        service_action = answering.step(ServiceEvent::Handshake(event));
    }
    assert!(matches!(client_action, ClientAction::SendAddress));
    assert!(matches!(service_action, ServiceAction::ReadAddress));

    let frame = asking.address_frame();
    let client_action: ClientAction<()> = asking.step(ClientEvent::AddressSent(true));
    assert!(matches!(client_action, ClientAction::ReadVerdict));

    let (service_action, found) =
        service.answer::<()>(&mut answering, Some(frame), &TunnelId::new(0));
    let verdict = match service_action {
        ServiceAction::SendAnswer(byte) => byte,
        other => panic!("{:?}", other),
    };
    let (addr, _service) = found.expect("A service must be found");
    let done: ServiceAction<()> = answering.step(ServiceEvent::AnswerSent(true));
    assert!(matches!(done, ServiceAction::Complete));
    let done: ClientAction<()> = asking.step(ClientEvent::Verdict(Some(verdict)));
    assert!(matches!(done, ClientAction::Complete));
    assert_eq!(&addr.to_text(), TEST_ADDR);
}

#[test]
fn greeting_is_magic_and_version() {
    assert_eq!(greeting(0), vec![0x4e, 0x59, 0x41, 0x4e, 0]);
    assert_eq!(&greeting(3)[..4], &SNOCAT_NEGOTIATION_MAGIC);
    assert_eq!(greeting(3)[4], 3);
}

#[test]
fn client_gives_up_on_each_failure() {
    let start = || NegotiationClient::new().negotiate(RouteAddress::parse("/a").unwrap());
    let ready = || {
        let mut n = start();
        let _: ClientAction<()> = n.step(ClientEvent::Handshake(magic()));
        let _: ClientAction<()> = n.step(ClientEvent::Handshake(HandshakeEvent::Sent(true)));
        n
    };
    let mut n = start();
    assert!(matches!(
        n.step::<()>(ClientEvent::Handshake(HandshakeEvent::Sent(false))),
        ClientAction::Fail(NegotiationError::WriteError)
    ));
    for read in [None, Some([0x4e, 0x59, 0x41, 0x4f])] {
        let mut n = start();
        assert!(matches!(
            n.step::<()>(ClientEvent::Handshake(HandshakeEvent::Magic(read))),
            ClientAction::Fail(NegotiationError::ProtocolViolation)
        ));
    }
    let mut n = ready();
    assert!(matches!(
        n.step::<()>(ClientEvent::Handshake(HandshakeEvent::Version(None))),
        ClientAction::Fail(NegotiationError::ReadError)
    ));
    let mut n = ready();
    assert!(matches!(
        n.step::<()>(ClientEvent::Handshake(HandshakeEvent::Version(Some(1)))),
        ClientAction::Fail(NegotiationError::UnsupportedProtocolVersion)
    ));
    let mut n = ready();
    let _: ClientAction<()> = n.step(ClientEvent::Handshake(HandshakeEvent::Version(Some(0))));
    assert!(matches!(
        n.step::<()>(ClientEvent::AddressSent(false)),
        ClientAction::Fail(NegotiationError::WriteError)
    ));
    for (verdict, refused) in [(None, false), (Some(1u8), true)] {
        let mut n = ready();
        let _: ClientAction<()> = n.step(ClientEvent::Handshake(HandshakeEvent::Version(Some(0))));
        let _: ClientAction<()> = n.step(ClientEvent::AddressSent(true));
        match n.step::<()>(ClientEvent::Verdict(verdict)) {
            ClientAction::Fail(NegotiationError::Refused) => assert!(refused),
            ClientAction::Fail(NegotiationError::ReadError) => assert!(!refused),
            other => panic!("{:?}", other),
        }
    }
}

#[test]
fn service_refuses_what_no_service_accepts() {
    let mut services = PresetServiceRegistry::new();
    services.add_service_blocking(TcpStreamService::new(false));
    let service = NegotiationService::new(Arc::new(services));
    let ready = || {
        let mut n = service.negotiate();
        let _: ServiceAction<()> = n.step(ServiceEvent::Handshake(HandshakeEvent::Sent(true)));
        let _: ServiceAction<()> = n.step(ServiceEvent::Handshake(magic()));
        let action: ServiceAction<()> =
            n.step(ServiceEvent::Handshake(HandshakeEvent::Version(Some(0))));
        assert!(matches!(action, ServiceAction::ReadAddress));
        n
    };
    let mut n = ready();
    let (action, found) =
        service.answer::<()>(&mut n, Some(b"/unknown".to_vec()), &TunnelId::new(1));
    assert!(matches!(action, ServiceAction::SendAnswer(1)));
    assert!(found.is_none());
    assert!(matches!(
        n.step::<()>(ServiceEvent::AnswerSent(true)),
        ServiceAction::Fail(NegotiationError::Refused)
    ));
    let mut n = ready();
    let (action, found) =
        service.answer::<()>(&mut n, Some(b"/proxy-tcp/tcp/1".to_vec()), &TunnelId::new(1));
    assert!(matches!(action, ServiceAction::SendAnswer(0)));
    assert_eq!(found.unwrap().0.to_text(), "/proxy-tcp/tcp/1");
    for frame in [None, Some(vec![0xff]), Some(b"no-slash".to_vec())] {
        let mut n = ready();
        let (action, found) = service.answer::<()>(&mut n, frame, &TunnelId::new(1));
        assert!(matches!(
            action,
            ServiceAction::Fail(NegotiationError::ProtocolViolation)
        ));
        assert!(found.is_none());
    }
}

#[test]
fn frames_hold_addresses_as_text() {
    let addr = frame_address::<()>("/caf\u{e9}".as_bytes()).unwrap();
    assert_eq!(addr.to_text(), "/caf\u{e9}");
    assert_eq!(frame_address::<()>(b"").unwrap().to_text(), "");
    assert!(matches!(
        frame_address::<()>(&[0x2f, 0xc3]),
        Err(NegotiationError::ProtocolViolation)
    ));
}

#[test]
fn failed_negotiations_in_other_words() {
    let as_service = |e: NegotiationError<u8>| e.into_service_error::<u16>();
    assert!(matches!(
        as_service(NegotiationError::ReadError),
        ServiceError::UnexpectedEnd
    ));
    assert!(matches!(
        as_service(NegotiationError::WriteError),
        ServiceError::UnexpectedEnd
    ));
    assert!(matches!(
        as_service(NegotiationError::ProtocolViolation),
        ServiceError::IllegalResponse
    ));
    assert!(matches!(
        as_service(NegotiationError::UnsupportedServiceVersion),
        ServiceError::Refused
    ));
    assert!(matches!(
        as_service(NegotiationError::FatalError(5)),
        ServiceError::InternalError(5u16)
    ));
    assert!(matches!(
        NegotiationError::ApplicationError(5u8).map_err(|n| n + 1),
        NegotiationError::ApplicationError(6)
    ));
    assert!(matches!(
        RoutingError::<u16>::from_negotiation(NegotiationError::FatalError(5u8)),
        RoutingError::NegotiationError(NegotiationError::FatalError(5))
    ));
    assert!(matches!(
        RoutingError::<u16>::from_tunnel(TunnelError::TimedOut),
        RoutingError::LinkOpenFailure(TunnelError::TimedOut)
    ));
}

#[test]
fn only_some_failures_end_the_tunnel() {
    let decide = |e: NegotiationError<u8>| {
        handle_incoming_request_bistream::<(), u8>(Err(e), false)
    };
    assert!(matches!(
        decide(NegotiationError::UnsupportedProtocolVersion),
        RequestStep::Fail(RequestProcessingError::UnsupportedProtocolVersion)
    ));
    assert!(matches!(
        decide(NegotiationError::FatalError(1)),
        RequestStep::Fail(RequestProcessingError::ApplicationError(
            NegotiationError::FatalError(1)
        ))
    ));
    for e in [
        NegotiationError::ReadError,
        NegotiationError::WriteError,
        NegotiationError::ProtocolViolation,
        NegotiationError::Refused,
        NegotiationError::UnsupportedServiceVersion,
        NegotiationError::ApplicationError(1),
    ] {
        assert!(matches!(decide(e), RequestStep::Drop));
    }
    assert!(matches!(
        handle_incoming_request_bistream::<u8, u8>(Ok(7), false),
        RequestStep::HandOver(7)
    ));
    assert!(matches!(
        handle_incoming_request_bistream::<u8, u8>(Ok(7), true),
        RequestStep::Drop
    ));
    assert!(request_served::<u8, u8>(Err(ServiceError::Refused)).is_ok());
}
