use snocat::authentication::simple_ack::{
    answer, check_ack, fits_answer, helo_message, AckAction, AckEvent,
    SimpleAckAuthenticationHandler,
};
use snocat::authentication::{
    link_accepted, link_opened, perform_authentication, AuthenticationError,
    AuthenticationHandlingError, DelegatedAuthenticationHandler, EstablishAction,
    MappedAuthenticationHandler, NoOpAuthenticationHandler, RemoteAuthenticationError, TunnelInfo,
};
use snocat::net::{IpAddr, Ipv4Addr, SocketAddr};
use snocat::tunnel::{
    TunnelAddressInfo, TunnelError, TunnelIncomingType, TunnelName, TunnelSide,
};

fn info(side: TunnelSide) -> TunnelInfo {
    TunnelInfo {
        side,
        addr: TunnelAddressInfo::Unidentified,
    }
}

fn message(text: &[u8]) -> [u8; 64] {
    let mut m = [0u8; 64];
    m[..text.len()].copy_from_slice(text);
    m
}

#[test]
fn run_auth() {
    assert_eq!(
        perform_authentication(TunnelSide::Listen),
        EstablishAction::OpenLink
    );
    assert_eq!(
        perform_authentication(TunnelSide::Connect),
        EstablishAction::AcceptLink
    );
    let auth_server = SimpleAckAuthenticationHandler::new();
    let auth_client = SimpleAckAuthenticationHandler::new();
    let (mut server, first) = auth_server.authenticate(info(TunnelSide::Listen));
    let (mut client, waiting) = auth_client.authenticate(info(TunnelSide::Connect));
    assert!(matches!(waiting, AckAction::Receive));
    let helo = match first {
        AckAction::Send(m) => m,
        other => panic!("{:?}", other),
    };
    assert!(matches!(
        server.authenticate_listen_side(AckEvent::Sent(true)),
        AckAction::Receive
    ));
    let reply = match client.authenticate_connecting_side(AckEvent::Received(Some(helo))) {
        AckAction::Send(m) => m,
        other => panic!("{:?}", other),
    };
    let client_res = match client.authenticate_connecting_side(AckEvent::Sent(true)) {
        AckAction::Complete(name) => name,
        other => panic!("{:?}", other),
    };
    let server_res = match server.authenticate_listen_side(AckEvent::Received(Some(reply))) {
        AckAction::Complete(name) => name,
        other => panic!("{:?}", other),
    };
    assert_eq!(client_res, TunnelName::new("Unidentified".to_string()));
    assert_eq!(server_res, TunnelName::new("Unidentified".to_string()));
}

#[test]
fn messages_of_the_exchange() {
    assert_eq!(helo_message(), message(b"HELO"));
    assert_eq!(answer(&message(b"HELO")).unwrap(), message(b"HELO/HELO"));
    assert_eq!(answer(&message(b"")).unwrap(), message(b"/"));
    let word = [b'x'; 31];
    let mut twice = Vec::new();
    twice.extend_from_slice(&word);
    twice.push(b'/');
    twice.extend_from_slice(&word);
    assert_eq!(answer(&message(&word)).unwrap(), message(&twice));
    assert!(fits_answer(&message(&word)));
    assert!(!fits_answer(&message(&[b'x'; 32])));
    assert!(!fits_answer(&[b'x'; 64]));
    assert_eq!(
        answer(&message(&[0xc3])),
        Err(RemoteAuthenticationError::ProtocolViolation(
            "Received string was not valid UTF8".to_string()
        ))
    );
}

#[test]
fn acknowledgements_are_checked() {
    assert_eq!(check_ack(&message(b"HELO/HELO")), Ok(()));
    assert_eq!(check_ack(&message(b"HELO/HELO\0more")), Ok(()));
    let wrong = Err(RemoteAuthenticationError::ProtocolViolation(
        "Invalid client ack".to_string(),
    ));
    assert_eq!(check_ack(&message(b"HELO/HELO!")), wrong);
    assert_eq!(check_ack(&message(b"HELO")), wrong);
    assert_eq!(
        check_ack(&message(b"HELO/HELO\0\xff")),
        Err(RemoteAuthenticationError::ProtocolViolation(
            "Received string was not valid UTF8".to_string()
        ))
    );
}

#[test]
fn exchanges_break_off() {
    let handler = SimpleAckAuthenticationHandler::new();
    let text = |action: AckAction| match action {
        AckAction::Fail(RemoteAuthenticationError::ProtocolViolation(m)) => m,
        other => panic!("{:?}", other),
    };
    let (mut e, _) = handler.authenticate(info(TunnelSide::Listen));
    assert_eq!(
        text(e.authenticate_listen_side(AckEvent::Sent(false))),
        "Write refused"
    );
    let (mut e, _) = handler.authenticate(info(TunnelSide::Connect));
    assert_eq!(
        text(e.authenticate_connecting_side(AckEvent::Received(None))),
        "Read unavailable"
    );
}

#[test]
fn links_for_authentication() {
    let reason = |e: TunnelError| match link_opened::<(), ()>(Err(e)) {
        Err(AuthenticationError::Remote(r)) => r,
        other => panic!("{:?}", other),
    };
    assert_eq!(
        reason(TunnelError::ApplicationClosed),
        RemoteAuthenticationError::LinkClosedLocally
    );
    assert_eq!(
        reason(TunnelError::LocallyClosed),
        RemoteAuthenticationError::LinkClosedLocally
    );
    assert_eq!(
        reason(TunnelError::ConnectionClosed),
        RemoteAuthenticationError::LinkClosedRemotely
    );
    assert_eq!(
        reason(TunnelError::TimedOut),
        RemoteAuthenticationError::TimedOut
    );
    assert_eq!(
        reason(TunnelError::TransportError),
        RemoteAuthenticationError::TransportError
    );
    assert!(matches!(link_opened::<u8, ()>(Ok(4)), Ok(4)));
    assert!(matches!(
        link_accepted::<u8, ()>(Some(Ok(Some(TunnelIncomingType::BiStream(4))))),
        Ok(4)
    ));
    for incoming in [None, Some(Ok(None)), Some(Err(TunnelError::TimedOut))] {
        assert!(matches!(
            link_accepted::<u8, ()>(incoming),
            Err(AuthenticationError::Remote(
                RemoteAuthenticationError::IncomingStreamsClosed
            ))
        ));
    }
}

#[test]
fn tunnels_are_named_after_their_address() {
    let known = TunnelInfo {
        side: TunnelSide::Listen,
        addr: TunnelAddressInfo::Socket(SocketAddr::new(
            IpAddr::V4(Ipv4Addr::new(1, 2, 3, 4)),
            5,
        )),
    };
    assert_eq!(
        NoOpAuthenticationHandler::new().authenticate(&known).raw(),
        "1.2.3.4:5"
    );
    assert_eq!(
        DelegatedAuthenticationHandler::new()
            .authenticate_channel(&info(TunnelSide::Connect))
            .raw(),
        "Unidentified"
    );
}

#[test]
fn nested_results_are_the_same_results() {
    let results: Vec<Result<u8, AuthenticationError<u8>>> = vec![
        Ok(1),
        Err(AuthenticationError::Remote(RemoteAuthenticationError::Refused)),
        Err(AuthenticationError::Handling(
            AuthenticationHandlingError::ApplicationError(2),
        )),
    ];
    for res in results {
        let text = format!("{:?}", res);
        let again = AuthenticationError::from_nested_result(AuthenticationError::to_nested_result(res));
        assert_eq!(format!("{:?}", again), text);
    }
    let mapped = MappedAuthenticationHandler {
        inner: (),
        f: |e: u8| e as u16 + 300,
    };
    assert!(matches!(
        mapped.finish::<(), u8, u16>(Err(AuthenticationError::Handling(
            AuthenticationHandlingError::DependencyFailure("db".to_string(), 1)
        ))),
        Err(AuthenticationError::Handling(
            AuthenticationHandlingError::DependencyFailure(_, 301)
        ))
    ));
}
