use snocat::address::{RouteAddress, RouteAddressParseError};
use snocat::net::{IpAddr, Ipv4Addr, Ipv6Addr, SocketAddr};
use snocat::numeral::PortParseError;
use snocat::proxy_tcp::{
    DnsTarget, ProxyAction, ProxyEvent, TargetResolutionError, TcpConnectError, TcpStreamClient,
    TcpStreamService, TcpStreamTarget, TcpStreamTargetFormatError, TcpStreamTargetParseError,
};
use snocat::service::{
    ClientError, ProtocolInfo, Request, RouteAddressBuilder, Service, ServiceError,
};
use snocat::tunnel::id::TunnelId;

fn v4(a: u8, b: u8, c: u8, d: u8, port: u16) -> SocketAddr {
    SocketAddr::new(IpAddr::V4(Ipv4Addr::new(a, b, c, d)), port)
}

fn localhost6(port: u16) -> SocketAddr {
    SocketAddr::new(IpAddr::V6(Ipv6Addr::localhost()), port)
}

#[test]
fn test_dns_name_parsing() {
    assert_eq!(
        TcpStreamTarget::try_from(
            &TcpStreamTarget::Dns(DnsTarget::Dns4 {
                host: "127.0.0.1".to_string(),
                port: 0,
            })
            .to_route()
        )
        .unwrap(),
        TcpStreamTarget::Dns(DnsTarget::Dns4 {
            host: "127.0.0.1".to_string(),
            port: 0
        })
    );
    assert_eq!(
        TcpStreamTarget::try_from(
            &TcpStreamTarget::Dns(DnsTarget::Dns4 {
                host: "example.com".to_string(),
                port: 0,
            })
            .to_route()
        )
        .unwrap(),
        TcpStreamTarget::Dns(DnsTarget::Dns4 {
            host: "example.com".to_string(),
            port: 0
        })
    );
    assert_eq!(
        TcpStreamTarget::try_from(
            &(TcpStreamTarget::Dns(DnsTarget::Dns6 {
                host: "example.com".to_string(),
                port: 65535,
            }))
            .to_route()
        )
        .unwrap(),
        (TcpStreamTarget::Dns(DnsTarget::Dns6 {
            host: "example.com".to_string(),
            port: 65535
        }))
    );
    assert_eq!(
        TcpStreamTarget::try_from(
            &(TcpStreamTarget::Dns(DnsTarget::PreferHigher {
                host: "example.com".to_string(),
                port: 443,
            }))
            .to_route()
        )
        .unwrap(),
        (TcpStreamTarget::Dns(DnsTarget::PreferHigher {
            host: "example.com".to_string(),
            port: 443
        }))
    );
    assert_eq!(
        TcpStreamTarget::try_from(
            &(TcpStreamTarget::Dns(DnsTarget::Dns6 {
                host: "::1".to_string(),
                port: 8080,
            }))
            .to_route()
        )
        .unwrap(),
        (TcpStreamTarget::Dns(DnsTarget::Dns6 {
            host: "::1".to_string(),
            port: 8080
        }))
    );
    assert_eq!(
        TcpStreamTarget::try_from(
            &(TcpStreamTarget::Dns(DnsTarget::Dns6 {
                host: "[::1]".to_string(),
                port: 8080,
            }))
            .to_route()
        )
        .unwrap(),
        (TcpStreamTarget::Dns(DnsTarget::Dns6 {
            host: "[::1]".to_string(),
            port: 8080
        }))
    );
}

#[test]
fn target_parsing() {
    assert_eq!(
        TcpStreamTarget::parse("/tcp/2468").unwrap(),
        TcpStreamTarget::SocketAddr(SocketAddr::new(IpAddr::V4(Ipv4Addr::localhost()), 2468))
    );
    assert_eq!(
        TcpStreamTarget::parse("/ip4/127.0.0.1/tcp/2468").unwrap(),
        TcpStreamTarget::SocketAddr(SocketAddr::new(IpAddr::V4(Ipv4Addr::localhost()), 2468))
    );
    assert_eq!(
        TcpStreamTarget::parse("/ip6/::1/tcp/2468").unwrap(),
        TcpStreamTarget::SocketAddr(SocketAddr::new(IpAddr::V6(Ipv6Addr::localhost()), 2468))
    );
    assert_eq!(
        TcpStreamTarget::parse("/dns4/localhost/tcp/2468").unwrap(),
        TcpStreamTarget::Dns(DnsTarget::Dns4 {
            host: "localhost".into(),
            port: 2468
        })
    );
    assert_eq!(
        TcpStreamTarget::parse("/dns6/localhost/tcp/2468").unwrap(),
        TcpStreamTarget::Dns(DnsTarget::Dns6 {
            host: "localhost".into(),
            port: 2468
        })
    );
}

#[test]
fn targets_are_written_as_segments() {
    assert_eq!(TcpStreamTarget::Port(80).to_text(), "/proxy-tcp/tcp/80");
    assert_eq!(
        TcpStreamTarget::SocketAddr(v4(10, 0, 0, 255, 65535)).to_text(),
        "/proxy-tcp/ip4/10.0.0.255/tcp/65535"
    );
    assert_eq!(
        TcpStreamTarget::SocketAddr(localhost6(1)).to_text(),
        "/proxy-tcp/ip6/::1/tcp/1"
    );
    assert_eq!(
        TcpStreamTarget::Dns(DnsTarget::PreferHigher {
            host: "h".to_string(),
            port: 7
        })
        .to_text(),
        "/proxy-tcp/dns/h/tcp/7"
    );
}

#[test]
fn prefix_of_the_protocol_is_optional() {
    for text in ["/tcp/1", "/ip4/1.2.3.4/tcp/5", "/ip6/fe80::1/tcp/6", "/dns/h/tcp/7"] {
        let long = format!("/proxy-tcp{}", text);
        assert_eq!(TcpStreamTarget::parse(text), TcpStreamTarget::parse(&long));
        assert!(TcpStreamTarget::parse(text).is_ok());
    }
}

#[test]
fn addresses_that_name_no_target() {
    let read = |s: &str| TcpStreamTarget::try_from(&RouteAddress::parse(s).unwrap());
    assert_eq!(
        read("/other/tcp/1"),
        Err(TcpStreamTargetFormatError::NoMatchingFormat)
    );
    assert_eq!(
        read("/proxy-tcp"),
        Err(TcpStreamTargetFormatError::TooFewSegments)
    );
    assert_eq!(
        read("/proxy-tcp/tcp/65536"),
        Err(TcpStreamTargetFormatError::InvalidPort {
            inner: PortParseError::Overflow
        })
    );
    assert_eq!(
        read("/proxy-tcp/tcp/x"),
        Err(TcpStreamTargetFormatError::InvalidPort {
            inner: PortParseError::InvalidDigit
        })
    );
    assert_eq!(
        read("/proxy-tcp/tcp/"),
        Err(TcpStreamTargetFormatError::InvalidPort {
            inner: PortParseError::Empty
        })
    );
    assert!(matches!(
        read("/proxy-tcp/ip4/256.0.0.1/tcp/1"),
        Err(TcpStreamTargetFormatError::InvalidIP { .. })
    ));
    assert!(matches!(
        read("/proxy-tcp/ip6/1.2.3.4/tcp/1"),
        Err(TcpStreamTargetFormatError::InvalidIP { .. })
    ));
    assert_eq!(
        TcpStreamTarget::parse("tcp/1"),
        Err(TcpStreamTargetParseError::RouteAddressParseError(
            RouteAddressParseError::InvalidPrefix
        ))
    );
}

#[test]
fn ports_may_have_a_sign_and_leading_zeros() {
    assert_eq!(
        TcpStreamTarget::parse("/tcp/+0080"),
        Ok(TcpStreamTarget::SocketAddr(v4(127, 0, 0, 1, 80)))
    );
}

#[test]
fn host_and_port_of_targets() {
    assert_eq!(
        TcpStreamTarget::Port(5).into_host_and_port(),
        ("127.0.0.1".to_string(), Some(5))
    );
    assert_eq!(
        TcpStreamTarget::SocketAddr(localhost6(6)).into_host_and_port(),
        ("::1".to_string(), Some(6))
    );
    assert_eq!(
        TcpStreamTarget::Dns(DnsTarget::Dns6 {
            host: "h".to_string(),
            port: 7
        })
        .into_host_and_port(),
        ("h".to_string(), Some(7))
    );
}

#[test]
fn names_admit_addresses_of_their_kind() {
    let any = DnsTarget::PreferHigher {
        host: "h".to_string(),
        port: 1,
    };
    let four = DnsTarget::Dns4 {
        host: "h".to_string(),
        port: 1,
    };
    let six = DnsTarget::Dns6 {
        host: "h".to_string(),
        port: 1,
    };
    let a4 = v4(9, 9, 9, 9, 1);
    let a6 = localhost6(1);
    assert!(any.contains(&a4, true) && any.contains(&a6, true));
    assert!(four.contains(&a4, true) && !four.contains(&a6, true));
    assert!(!six.contains(&a4, true) && six.contains(&a6, true));
    assert!(!four.contains(&v4(9, 9, 9, 9, 2), true));
    assert!(four.contains(&v4(9, 9, 9, 9, 2), false));
    let found = TcpStreamService::resolve_dns(&four, vec![a6, a4, v4(9, 9, 9, 9, 2)]);
    assert_eq!(found, vec![a4]);
}

#[test]
fn connections_may_be_limited_to_this_host() {
    let open = TcpStreamService::new(false);
    let local = TcpStreamService::new(true);
    let far = v4(9, 9, 9, 9, 1);
    let near = v4(127, 1, 2, 3, 1);
    assert_eq!(open.connect(vec![]), Err(TcpConnectError::ConnectionFailed));
    assert_eq!(open.connect(vec![far, near]), Ok(vec![far, near]));
    assert_eq!(local.connect(vec![far, near]), Ok(vec![near]));
    assert_eq!(
        local.connect(vec![far]),
        Err(TcpConnectError::NoLoopbackAddressesFound)
    );
}

#[test]
fn service_accepts_what_clients_build() {
    let service = TcpStreamService::new(true);
    let request: Request<(), TcpStreamClient<(), ()>> = match Request::new(
        TcpStreamClient::new((), ()),
        TcpStreamTarget::Port(80),
    ) {
        Ok(r) => r,
        Err(_) => unreachable!(),
    };
    assert_eq!(request.address.to_text(), "/proxy-tcp/tcp/80");
    assert!(service.accepts(&request.address, &TunnelId::new(0)));
    assert!(!service.accepts(&RouteAddress::parse("/tcp/80").unwrap(), &TunnelId::new(0)));
    assert_eq!(TcpStreamService::protocol_name(), "proxy-tcp");
    let built = TcpStreamClient::<(), ()>::build_addr(TcpStreamTarget::Port(1));
    assert_eq!(built.unwrap().to_text(), "/proxy-tcp/tcp/1");
}

#[test]
fn stream_to_a_name_is_handled() {
    let service = TcpStreamService::new(false);
    let addr = RouteAddress::parse("/proxy-tcp/dns4/h/tcp/80").unwrap();
    let (mut handling, action) = service.handle::<()>(&addr);
    assert!(matches!(action, ProxyAction::Lookup(name) if name == "h:80"));
    let action = handling.step::<()>(ProxyEvent::Resolved(Ok(vec![
        localhost6(80),
        v4(9, 9, 9, 9, 80),
    ])));
    assert!(matches!(action, ProxyAction::Connect(list) if list == vec![v4(9, 9, 9, 9, 80)]));
    assert!(matches!(
        handling.step::<()>(ProxyEvent::Connected(true)),
        ProxyAction::Stream
    ));
    assert!(matches!(
        handling.step::<()>(ProxyEvent::Proxied(Ok(()))),
        ProxyAction::Complete
    ));
}

#[test]
fn streams_that_cannot_be_handled() {
    let service = TcpStreamService::new(true);
    let (_, action) = service.handle::<()>(&RouteAddress::parse("/x").unwrap());
    assert!(matches!(
        action,
        ProxyAction::Fail(ServiceError::AddressError)
    ));
    let far = RouteAddress::parse("/proxy-tcp/ip4/9.9.9.9/tcp/1").unwrap();
    let (_, action) = service.handle::<()>(&far);
    assert!(matches!(
        action,
        ProxyAction::Fail(ServiceError::AddressError)
    ));
    let near = RouteAddress::parse("/proxy-tcp/tcp/1").unwrap();
    let (mut handling, action) = service.handle::<u8>(&near);
    assert!(matches!(action, ProxyAction::Connect(list) if list == vec![v4(127, 0, 0, 1, 1)]));
    assert!(matches!(
        handling.step::<u8>(ProxyEvent::Connected(true)),
        ProxyAction::Stream
    ));
    assert!(matches!(
        handling.step::<u8>(ProxyEvent::Proxied(Err(3))),
        ProxyAction::Fail(ServiceError::InternalError(3))
    ));
    let named = RouteAddress::parse("/proxy-tcp/dns/h/tcp/1").unwrap();
    let (mut handling, _) = service.handle::<()>(&named);
    assert!(matches!(
        handling.step::<()>(ProxyEvent::Resolved(Err(TargetResolutionError::IOError(
            "no such name".to_string()
        )))),
        ProxyAction::Fail(ServiceError::AddressError)
    ));
    let (mut handling, _) = service.handle::<()>(&named);
    assert!(matches!(
        handling.step::<()>(ProxyEvent::Resolved(Ok(vec![]))),
        ProxyAction::Fail(ServiceError::DependencyFailure)
    ));
    let (mut handling, _) = service.handle::<()>(&near);
    assert!(matches!(
        handling.step::<()>(ProxyEvent::Connected(false)),
        ProxyAction::Fail(ServiceError::DependencyFailure)
    ));
}

#[test]
fn client_hands_back_the_counts() {
    assert!(matches!(
        TcpStreamClient::<(), ()>::finish::<()>(Ok((3, 4))),
        Ok((3, 4))
    ));
    assert!(matches!(
        TcpStreamClient::<(), ()>::finish::<u8>(Err(9)),
        Err(ClientError::IllegalResponse(9))
    ));
}
