use snocat::address::RouteAddress;
use snocat::demand_proxy::DemandProxyClient;
use snocat::service::{
    box_outcome, BoundClient, BoxDispatchClient, BoxStreamDispatchClient, ClientError,
    MappedClient, MappedService, PresetServiceRegistry, ProtocolInfo, Service, ServiceError,
    ServiceRegistry,
};
use snocat::tunnel::id::TunnelId;
use snocat::tunnel::{TunnelIncoming, TunnelSide};

/// Accepts the addresses that start with its segment.
#[derive(Debug, Clone, PartialEq, Eq)]
struct Starting(&'static str, u8);

impl Service for Starting {
    type Error = u8;

    fn accepts(&self, addr: &RouteAddress, _tunnel: &TunnelId) -> bool {
        addr.iter_segments().first() == Some(&self.0)
    }
}

fn route(text: &str) -> RouteAddress {
    RouteAddress::parse(text).unwrap()
}

/// The first service that accepts an address is found, in the order in which they were added.
#[test]
fn first_service_that_accepts_is_found() {
    let tunnel = TunnelId::new(1);
    let mut registry = PresetServiceRegistry::new();
    assert!(registry.find_service(&route("/a"), &tunnel).is_none());
    registry.add_service_blocking(Starting("a", 1));
    registry.add_service_blocking(Starting("b", 2));
    registry.add_service_blocking(Starting("a", 3));
    assert_eq!(
        registry.find_service(&route("/a/x"), &tunnel),
        Some(&Starting("a", 1))
    );
    assert_eq!(
        registry.find_service(&route("/b"), &tunnel),
        Some(&Starting("b", 2))
    );
    assert!(registry.find_service(&route("/c"), &tunnel).is_none());
}

/// A mapped service accepts what the service inside does, and converts its errors.
#[test]
fn mapped_services_convert_their_errors() {
    let tunnel = TunnelId::new(1);
    let service = MappedService::<Starting, u32>::new(Starting("a", 1));
    assert!(service.accepts(&route("/a"), &tunnel));
    assert!(!service.accepts(&route("/b"), &tunnel));
    assert_eq!(service.into_inner(), Starting("a", 1));
    assert!(MappedService::<Starting, u32>::map_outcome::<u8>(Ok(())).is_ok());
    assert!(matches!(
        MappedService::<Starting, u32>::map_outcome(Err(ServiceError::InternalError(7u8))),
        Err(ServiceError::InternalError(7u32))
    ));
    assert!(matches!(
        MappedService::<Starting, u32>::map_outcome::<u8>(Err(ServiceError::Refused)),
        Err(ServiceError::Refused)
    ));
    let traced = ServiceError::<u8>::BacktraceDependencyFailure("here".to_string());
    assert!(matches!(
        MappedService::<Starting, u32>::map_outcome(Err(traced)),
        Err(ServiceError::BacktraceDependencyFailure(trace)) if trace == "here"
    ));
}

/// Outcomes of clients are boxed, mapped, and lead on to the next task.
#[test]
fn outcomes_of_clients_are_passed_on() {
    assert_eq!(*box_outcome::<u8, u8>(Ok(3)).unwrap(), 3);
    assert!(matches!(
        box_outcome::<u8, u8>(Err(ClientError::IllegalResponse(4))),
        Err(ClientError::IllegalResponse(e)) if *e == 4
    ));
    assert!(matches!(
        box_outcome::<u8, u8>(Err(ClientError::UnexpectedEnd)),
        Err(ClientError::UnexpectedEnd)
    ));
    let mapped = MappedClient {
        client: DemandProxyClient::new("".to_owned()),
        f: |outcome: Result<u8, ClientError<()>>| -> Result<u16, ClientError<()>> {
            outcome.map(|v| v as u16 + 256)
        },
    };
    assert!(matches!(mapped.finish(Ok(1)), Ok(257)));
    let bound = BoundClient {
        client: DemandProxyClient::new("".to_owned()),
        f: |outcome: Result<u8, ClientError<()>>| outcome.is_err(),
    };
    assert!(bound.next_task(Err(ClientError::Refused)));
}

/// Whatever is put around a client, it speaks the same protocol.
#[test]
fn clients_keep_their_protocol() {
    assert_eq!(DemandProxyClient::protocol_name(), "proxyme");
    assert_eq!(BoxDispatchClient::<(), DemandProxyClient>::protocol_name(), "proxyme");
    assert_eq!(BoxStreamDispatchClient::<DemandProxyClient>::protocol_name(), "proxyme");
    assert_eq!(MappedClient::<DemandProxyClient, ()>::protocol_name(), "proxyme");
    assert_eq!(BoundClient::<DemandProxyClient, ()>::protocol_name(), "proxyme");
}

/// The source of incoming streams is borrowed, and then taken.
#[test]
fn incoming_streams_are_borrowed_and_taken() {
    let mut incoming = TunnelIncoming {
        id: TunnelId::new(5),
        inner: vec![1u8, 2],
        side: TunnelSide::Listen,
    };
    assert_eq!(incoming.streams_ref().pop(), Some(2));
    assert_eq!(incoming.streams(), vec![1]);
}
