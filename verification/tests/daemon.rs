use snocat::authentication::{
    AuthenticationError, AuthenticationHandlingError, RemoteAuthenticationError,
};
use snocat::daemon::{
    authenticate_tunnel, handle_incoming_request, lifecycle_message, run, tunnel_lifecycle,
    unregistered_close_reason, IncomingStep, LifeAction, LifeEvent, LifePhase,
    RequestProcessingError, TunnelLifecycleError,
};
use snocat::tunnel::{TunnelCloseReason, TunnelError, TunnelIncomingType, TunnelName};

type Event = LifeEvent<String, String, String>;
type Action = LifeAction<String, String, String>;
type Failure = TunnelLifecycleError<String, String, String>;

fn drive(events: Vec<Event>) -> (LifePhase, Action) {
    let mut phase = LifePhase::Connected;
    let mut action = LifeAction::TellConnected;
    for event in events {
        (phase, action) = tunnel_lifecycle(phase, event);
    }
    (phase, action)
}

fn trusted() -> Event {
    LifeEvent::Authenticated(Ok(Ok(TunnelName::new("n".to_string()))))
}

#[test]
fn tunnels_live_to_their_end() {
    let (phase, action) = drive(vec![LifeEvent::Told]);
    assert_eq!(phase, LifePhase::Authenticating);
    assert!(matches!(action, LifeAction::Authenticate));
    let (_, action) = drive(vec![LifeEvent::Told, trusted()]);
    assert!(matches!(action, LifeAction::ConstructRecord(n) if n.raw() == "n"));
    let (_, action) = drive(vec![LifeEvent::Told, trusted(), LifeEvent::Constructed(Ok(()))]);
    assert!(matches!(action, LifeAction::Register));
    let (phase, action) = drive(vec![
        LifeEvent::Told,
        trusted(),
        LifeEvent::Constructed(Ok(())),
        LifeEvent::Registered(Ok(())),
        LifeEvent::Reported(true),
        LifeEvent::Told,
        LifeEvent::Opened(true),
    ]);
    assert_eq!(phase, LifePhase::Serving);
    assert!(matches!(action, LifeAction::Serve));
    let (phase, action) = tunnel_lifecycle::<String, String, String>(
        phase,
        LifeEvent::Served(Ok(())),
    );
    assert_eq!(phase, LifePhase::Over);
    assert!(matches!(action, LifeAction::Finish(Ok(()))));
}

#[test]
fn tunnels_that_are_not_trusted_end() {
    let (phase, action) = drive(vec![
        LifeEvent::Told,
        LifeEvent::Authenticated(Ok(Err(AuthenticationError::Remote(
            RemoteAuthenticationError::Refused,
        )))),
    ]);
    assert_eq!(phase, LifePhase::Over);
    assert!(matches!(
        action,
        LifeAction::Finish(Err(TunnelLifecycleError::AuthenticationRefused))
    ));
    let (_, action) = drive(vec![
        LifeEvent::Told,
        trusted(),
        LifeEvent::Constructed(Ok(())),
        LifeEvent::Registered(Err("full".to_string())),
    ]);
    assert!(matches!(
        action,
        LifeAction::Finish(Err(TunnelLifecycleError::RegistrationError(m))) if m == "full"
    ));
    let lost: Result<u8, Failure> = authenticate_tunnel(Err("lost".to_string()));
    assert!(matches!(
        lost,
        Err(TunnelLifecycleError::AuthenticationHandlingError(
            AuthenticationHandlingError::JoinError(m)
        )) if m == "lost"
    ));
    let named: Result<u8, Failure> = authenticate_tunnel(Ok(Ok(3)));
    assert!(matches!(named, Ok(3)));
}

#[test]
fn tunnels_are_closed_with_a_reason() {
    assert_eq!(
        run(&Ok(())),
        TunnelCloseReason::GracefulExit {
            remote_initiated: false
        }
    );
    assert_eq!(
        run(&Err(TunnelLifecycleError::AuthenticationRefused)),
        TunnelCloseReason::AuthenticationFailure {
            remote_responsible: None
        }
    );
    let failed: Failure = TunnelLifecycleError::ApplicationError("boom".to_string());
    assert_eq!(
        lifecycle_message(&failed),
        "Application error encountered in tunnel lifecycle: boom"
    );
    assert_eq!(
        run(&Err(failed)),
        TunnelCloseReason::ApplicationErrorMessage(
            "Application error encountered in tunnel lifecycle: boom".to_string()
        )
    );
    assert_eq!(
        unregistered_close_reason(),
        TunnelCloseReason::AuthenticationFailure {
            remote_responsible: None
        }
    );
}

#[test]
fn incoming_streams_are_taken() {
    assert!(matches!(
        handle_incoming_request::<u8, ()>(Ok(Some(TunnelIncomingType::BiStream(3)))),
        IncomingStep::Handle(3)
    ));
    assert!(matches!(
        handle_incoming_request::<u8, ()>(Ok(None)),
        IncomingStep::Drain
    ));
    assert!(matches!(
        handle_incoming_request::<u8, ()>(Err(TunnelError::TimedOut)),
        IncomingStep::Fail(RequestProcessingError::TunnelError(TunnelError::TimedOut))
    ));
    assert!(matches!(
        Failure::from_requests(RequestProcessingError::ApplicationError("a".to_string())),
        TunnelLifecycleError::ApplicationError(_)
    ));
    assert!(matches!(
        Failure::from_requests(RequestProcessingError::UnsupportedProtocolVersion),
        TunnelLifecycleError::RequestProcessingError(
            RequestProcessingError::UnsupportedProtocolVersion
        )
    ));
}
