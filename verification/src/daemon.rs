//! The life of a tunnel in the daemon: it is authenticated, registered, served until it closes, and
//! deregistered.

use std::sync::Arc;

use vstd::prelude::*;
use vstd::string::StringExecFns;

use crate::authentication::{
    AuthenticationAttributes, AuthenticationError, AuthenticationHandlingError,
};
use crate::negotiation::NegotiationError;
use crate::peers::{PeerRecord, PeerTracker};
use crate::service::ServiceError;
use crate::tunnel::id::TunnelId;
use crate::tunnel::{
    error_text, says_at_end, TunnelCloseReason, TunnelError, TunnelIncomingType, TunnelName,
};

verus! {

/// How the serving of a tunnel's requests can fail.
#[derive(Debug)]
pub enum RequestProcessingError<ApplicationError> {
    /// The other end speaks a version of the negotiation that is not known here.
    UnsupportedProtocolVersion,
    /// The tunnel failed.
    TunnelError(TunnelError),
    /// The application failed, and the tunnel cannot go on.
    ApplicationError(ApplicationError),
}

/// How the life of a tunnel can end early.
#[derive(Debug)]
pub enum TunnelLifecycleError<ApplicationError, AuthHandlingError, RegistryError> {
    /// The tunnel could not be registered.
    RegistrationError(RegistryError),
    /// Its requests could not be served.
    RequestProcessingError(RequestProcessingError<ApplicationError>),
    /// The other end was not trusted.
    AuthenticationRefused,
    /// Authentication failed on this end.
    AuthenticationHandlingError(AuthenticationHandlingError<AuthHandlingError>),
    /// The application failed.
    ApplicationError(ApplicationError),
}

impl<AE, AuthE, RE> TunnelLifecycleError<AE, AuthE, RE> {
    /// What failed requests mean to the tunnel.
    pub fn from_requests(e: RequestProcessingError<AE>) -> (r: Self)
        ensures
            r == match e {
                RequestProcessingError::ApplicationError(a) => {
                    TunnelLifecycleError::<AE, AuthE, RE>::ApplicationError(a)
                },
                _ => TunnelLifecycleError::RequestProcessingError(e),
            },
    {
        match e {
            RequestProcessingError::ApplicationError(a) => {
                TunnelLifecycleError::ApplicationError(a)
            },
            other => TunnelLifecycleError::RequestProcessingError(other),
        }
    }
}

/// The message of failed requests.
pub open spec fn request_error_text(e: RequestProcessingError<String>) -> Seq<char> {
    match e {
        RequestProcessingError::UnsupportedProtocolVersion => "Protocol version mismatch"@,
        RequestProcessingError::TunnelError(t) => "Tunnel error encountered: "@ + error_text(t),
        RequestProcessingError::ApplicationError(_) => "Fatal application error"@,
    }
}

/// The message of a failure to authenticate on this end.
pub open spec fn handling_error_text(e: AuthenticationHandlingError<String>) -> Seq<char> {
    match e {
        AuthenticationHandlingError::DependencyFailure(m, inner) => {
            "Authentication dependency failure: "@ + m@ + " - "@ + inner@
        },
        AuthenticationHandlingError::ApplicationError(inner) => inner@,
        AuthenticationHandlingError::JoinError(m) => m@,
    }
}

/// The message of a life that ended early. What the application reports is given as the text that
/// its error is debugged with, and what a handler of authentication reports as the text that its
/// error is displayed with.
pub open spec fn lifecycle_error_text(e: TunnelLifecycleError<String, String, String>) -> Seq<
    char,
> {
    match e {
        TunnelLifecycleError::RegistrationError(_) => "Tunnel registration error"@,
        TunnelLifecycleError::RequestProcessingError(r) => {
            "Request Processing Error: "@ + request_error_text(r)
        },
        TunnelLifecycleError::AuthenticationRefused => {
            "Authentication refused to remote by either breach of protocol or invalid/inadequate credentials"@
        },
        TunnelLifecycleError::AuthenticationHandlingError(h) => {
            "Authentication Handling Error: "@ + handling_error_text(h)
        },
        TunnelLifecycleError::ApplicationError(a) => {
            "Application error encountered in tunnel lifecycle: "@ + a@
        },
    }
}

/// The message of a life that ended early, where the error of an application is already in the form
/// in which it is debugged.
pub fn lifecycle_message(e: &TunnelLifecycleError<String, String, String>) -> (r: String)
    ensures
        r@ == lifecycle_error_text(*e),
{
    let mut out = String::new();
    match e {
        TunnelLifecycleError::RegistrationError(_) => {
            out.append("Tunnel registration error");
        },
        TunnelLifecycleError::RequestProcessingError(r) => {
            out.append("Request Processing Error: ");
            match r {
                RequestProcessingError::UnsupportedProtocolVersion => {
                    out.append("Protocol version mismatch");
                },
                RequestProcessingError::TunnelError(t) => {
                    out.append("Tunnel error encountered: ");
                    out.append(t.message());
                },
                RequestProcessingError::ApplicationError(_) => {
                    out.append("Fatal application error");
                },
            }
        },
        TunnelLifecycleError::AuthenticationRefused => {
            out.append(
                "Authentication refused to remote by either breach of protocol or invalid/inadequate credentials",
            );
        },
        TunnelLifecycleError::AuthenticationHandlingError(h) => {
            out.append("Authentication Handling Error: ");
            match h {
                AuthenticationHandlingError::DependencyFailure(m, inner) => {
                    out.append("Authentication dependency failure: ");
                    out.append(m.as_str());
                    out.append(" - ");
                    out.append(inner.as_str());
                },
                AuthenticationHandlingError::ApplicationError(inner) => {
                    out.append(inner.as_str());
                },
                AuthenticationHandlingError::JoinError(m) => {
                    out.append(m.as_str());
                },
            }
        },
        TunnelLifecycleError::ApplicationError(a) => {
            out.append("Application error encountered in tunnel lifecycle: ");
            out.append(a.as_str());
        },
    }
    assert(out@ =~= lifecycle_error_text(*e));
    out
}

/// The message of a life that ended early ends in what was reported, wherever something was: the
/// message of the tunnel error, the text of the application, or that of the handler.
pub proof fn law_lifecycle_message_carries_the_cause(
    e: TunnelLifecycleError<String, String, String>,
)
    ensures
        match e {
            TunnelLifecycleError::RequestProcessingError(
                RequestProcessingError::TunnelError(t),
            ) => says_at_end(lifecycle_error_text(e), ": "@ + error_text(t)),
            TunnelLifecycleError::ApplicationError(a) => says_at_end(
                lifecycle_error_text(e),
                ": "@ + a@,
            ),
            TunnelLifecycleError::AuthenticationHandlingError(
                AuthenticationHandlingError::ApplicationError(inner),
            ) => says_at_end(lifecycle_error_text(e), ": "@ + inner@),
            TunnelLifecycleError::AuthenticationHandlingError(
                AuthenticationHandlingError::JoinError(m),
            ) => says_at_end(lifecycle_error_text(e), ": "@ + m@),
            TunnelLifecycleError::AuthenticationHandlingError(
                AuthenticationHandlingError::DependencyFailure(m, inner),
            ) => says_at_end(lifecycle_error_text(e), ": "@ + m@ + " - "@ + inner@),
            _ => true,
        },
{
    let text = lifecycle_error_text(e);
    reveal_strlit("Tunnel error encountered: ");
    reveal_strlit("Request Processing Error: ");
    reveal_strlit("Authentication Handling Error: ");
    reveal_strlit("Authentication dependency failure: ");
    reveal_strlit("Application error encountered in tunnel lifecycle: ");
    reveal_strlit(": ");
    match e {
        TunnelLifecycleError::RequestProcessingError(RequestProcessingError::TunnelError(t)) => {
            let end = ": "@ + error_text(t);
            assert(text.skip(text.len() - end.len()) =~= end);
        },
        TunnelLifecycleError::ApplicationError(a) => {
            let end = ": "@ + a@;
            assert(text.skip(text.len() - end.len()) =~= end);
        },
        TunnelLifecycleError::AuthenticationHandlingError(
            AuthenticationHandlingError::ApplicationError(inner),
        ) => {
            let end = ": "@ + inner@;
            assert(text.skip(text.len() - end.len()) =~= end);
        },
        TunnelLifecycleError::AuthenticationHandlingError(
            AuthenticationHandlingError::JoinError(m),
        ) => {
            let end = ": "@ + m@;
            assert(text.skip(text.len() - end.len()) =~= end);
        },
        TunnelLifecycleError::AuthenticationHandlingError(
            AuthenticationHandlingError::DependencyFailure(m, inner),
        ) => {
            let end = ": "@ + m@ + " - "@ + inner@;
            assert(text.skip(text.len() - end.len()) =~= end);
        },
        _ => {},
    }
}

/// The message of a life that ended early begins with the part that failed, and says no more where
/// nothing was reported.
pub proof fn law_lifecycle_message_names_the_part(
    e: TunnelLifecycleError<String, String, String>,
)
    ensures
        ({
            let text = lifecycle_error_text(e);
            match e {
                TunnelLifecycleError::RegistrationError(_) => text == "Tunnel registration error"@,
                TunnelLifecycleError::AuthenticationRefused => text
                    == "Authentication refused to remote by either breach of protocol or invalid/inadequate credentials"@,
                TunnelLifecycleError::RequestProcessingError(
                    RequestProcessingError::UnsupportedProtocolVersion,
                ) => text == "Request Processing Error: "@ + "Protocol version mismatch"@,
                TunnelLifecycleError::RequestProcessingError(
                    RequestProcessingError::ApplicationError(_),
                ) => text == "Request Processing Error: "@ + "Fatal application error"@,
                TunnelLifecycleError::RequestProcessingError(
                    RequestProcessingError::TunnelError(t),
                ) => text.take(26) == "Request Processing Error: "@ && text.skip(26)
                    == "Tunnel error encountered: "@ + error_text(t),
                TunnelLifecycleError::AuthenticationHandlingError(_) => text.take(31)
                    == "Authentication Handling Error: "@,
                TunnelLifecycleError::ApplicationError(a) => text
                    == "Application error encountered in tunnel lifecycle: "@ + a@,
            }
        }),
{
    let text = lifecycle_error_text(e);
    reveal_strlit("Request Processing Error: ");
    reveal_strlit("Authentication Handling Error: ");
    match e {
        TunnelLifecycleError::RequestProcessingError(RequestProcessingError::TunnelError(t)) => {
            assert(text.take(26) =~= "Request Processing Error: "@);
            assert(text.skip(26) =~= "Tunnel error encountered: "@ + error_text(t));
        },
        TunnelLifecycleError::AuthenticationHandlingError(_) => {
            assert(text.take(31) =~= "Authentication Handling Error: "@);
        },
        _ => {},
    }
}

/// Decides with which reason a tunnel is closed at the end of its life, if it is still there.
pub fn run(outcome: &Result<(), TunnelLifecycleError<String, String, String>>) -> (r:
    TunnelCloseReason)
    ensures
        match outcome {
            Ok(_) => r == (TunnelCloseReason::GracefulExit { remote_initiated: false }),
            Err(TunnelLifecycleError::AuthenticationRefused) => r
                == (TunnelCloseReason::AuthenticationFailure { remote_responsible: None }),
            Err(e) => r matches TunnelCloseReason::ApplicationErrorMessage(m) && m@
                == lifecycle_error_text(*e),
        },
{
    match outcome {
        Ok(()) => TunnelCloseReason::GracefulExit { remote_initiated: false },
        Err(TunnelLifecycleError::AuthenticationRefused) => {
            TunnelCloseReason::AuthenticationFailure { remote_responsible: None }
        },
        Err(e) => TunnelCloseReason::ApplicationErrorMessage(lifecycle_message(e)),
    }
}

/// What the outcome of authentication means to the tunnel. `outcome` is absent where the task in
/// which the handler ran was lost, with the message in its place.
pub fn authenticate_tunnel<T, AE, AuthE, RE>(
    outcome: Result<Result<T, AuthenticationError<AuthE>>, String>,
) -> (r: Result<T, TunnelLifecycleError<AE, AuthE, RE>>)
    ensures
        r == match outcome {
            Ok(Ok(v)) => Ok::<T, TunnelLifecycleError<AE, AuthE, RE>>(v),
            Ok(Err(AuthenticationError::Handling(h))) => Err(
                TunnelLifecycleError::AuthenticationHandlingError(h),
            ),
            Ok(Err(AuthenticationError::Remote(_))) => Err(
                TunnelLifecycleError::AuthenticationRefused,
            ),
            Err(m) => Err(
                TunnelLifecycleError::AuthenticationHandlingError(
                    AuthenticationHandlingError::JoinError(m),
                ),
            ),
        },
{
    match outcome {
        Ok(Ok(v)) => Ok(v),
        Ok(Err(AuthenticationError::Handling(h))) => Err(
            TunnelLifecycleError::AuthenticationHandlingError(h),
        ),
        Ok(Err(AuthenticationError::Remote(_))) => Err(TunnelLifecycleError::AuthenticationRefused),
        Err(m) => Err(
            TunnelLifecycleError::AuthenticationHandlingError(
                AuthenticationHandlingError::JoinError(m),
            ),
        ),
    }
}

/// A tunnel came to the daemon.
#[derive(Debug, Clone, Copy, PartialEq, Eq, Structural)]
pub struct TunnelConnectedEvent {
    pub id: TunnelId,
}

/// A tunnel was authenticated and registered.
#[derive(Debug, Clone)]
pub struct TunnelAuthenticatedEvent {
    pub id: TunnelId,
    pub name: TunnelName,
    pub attributes: Arc<AuthenticationAttributes>,
}

/// A tunnel is gone.
#[derive(Debug, Clone, Copy, PartialEq, Eq, Structural)]
pub struct TunnelDisconnectedEvent {
    pub id: TunnelId,
}

/// What has to be done when a tunnel is let go.
#[derive(Debug)]
pub enum DropAction<Ident> {
    /// It was never registered: close it as not authenticated.
    CloseUnauthenticated,
    /// Take it out of the tables and of the registry.
    Deregister {
        identifier: Ident,
        record: Arc<PeerRecord>,
        /// The number by which the tables refer to the record, which is held here.
        reference: u64,
    },
}

/// A tunnel together with what has to be done when it is let go.
#[derive(Debug)]
pub struct WrappedTunnel<TTunnel, Ident> {
    tunnel: Arc<TTunnel>,
    on_drop: DropAction<Ident>,
}

impl<TTunnel, Ident> WrappedTunnel<TTunnel, Ident> {
    pub closed spec fn inner(&self) -> Arc<TTunnel> {
        self.tunnel
    }

    pub closed spec fn action(&self) -> DropAction<Ident> {
        self.on_drop
    }

    /// A tunnel that is registered.
    pub fn new_deregistering(
        tunnel: Arc<TTunnel>,
        identifier: Ident,
        record: Arc<PeerRecord>,
        reference: u64,
    ) -> (r: Self)
        ensures
            r.inner() == tunnel,
            r.action() == (DropAction::Deregister { identifier, record, reference }),
    {
        WrappedTunnel { tunnel, on_drop: DropAction::Deregister { identifier, record, reference } }
    }

    /// A tunnel that is not registered yet.
    pub fn new_registration_failure_closing(tunnel: Arc<TTunnel>) -> (r: Self)
        ensures
            r.inner() == tunnel,
            r.action() == DropAction::<Ident>::CloseUnauthenticated,
    {
        WrappedTunnel { tunnel, on_drop: DropAction::CloseUnauthenticated }
    }

    /// The tunnel, with nothing to be done any more.
    pub fn extract_inner(self) -> (r: Arc<TTunnel>)
        ensures
            r == self.inner(),
    {
        self.tunnel
    }

    pub fn as_inner(&self) -> (r: &Arc<TTunnel>)
        ensures
            *r == self.inner(),
    {
        &self.tunnel
    }

    /// Lets the tunnel go: the tunnel, and what has to be done.
    pub fn release(self) -> (r: (Arc<TTunnel>, DropAction<Ident>))
        ensures
            r == (self.inner(), self.action()),
    {
        (self.tunnel, self.on_drop)
    }
}

/// The reason with which a tunnel that was never registered is closed.
pub fn unregistered_close_reason() -> (r: TunnelCloseReason)
    ensures
        r == (TunnelCloseReason::AuthenticationFailure { remote_responsible: None }),
{
    TunnelCloseReason::AuthenticationFailure { remote_responsible: None }
}

/// The event that is sent before a tunnel is taken out of the tables.
pub fn disconnected(record: &PeerRecord) -> (r: TunnelDisconnectedEvent)
    ensures
        r == (TunnelDisconnectedEvent { id: record.id }),
{
    TunnelDisconnectedEvent { id: record.id }
}

/// Takes a tunnel out of the tables once the event was sent, and lets its record go. What is left
/// is to deregister its identifier.
pub fn deregister_identifier(peers: &mut PeerTracker, record: Arc<PeerRecord>, reference: u64)
    ensures
        old(peers).well_formed() ==> final(peers).well_formed(),
        final(peers).next() == old(peers).next(),
        final(peers).tables() == old(peers).tables().without(*record).lost(reference),
{
    peers.remove(&record);
    peers.lose(reference);
}

/// How far the life of a tunnel has come.
#[derive(Debug, Clone, Copy, PartialEq, Eq, Structural)]
pub enum LifePhase {
    /// That it connected is being told.
    Connected,
    Authenticating,
    /// Its record is being made.
    Constructing,
    /// The registry is being told of it.
    Registering,
    /// It is being told that it is authenticated.
    Reporting,
    /// That it is authenticated is being told.
    Announcing,
    /// Its incoming streams are being taken.
    Opening,
    /// Its requests are served.
    Serving,
    Over,
}

/// What happened in the life of a tunnel.
#[derive(Debug)]
pub enum LifeEvent<AE, AuthE, RE> {
    /// The event was sent; whether anyone listens is of no interest.
    Told,
    /// Authentication ended; the task in which it ran may have been lost.
    Authenticated(Result<Result<TunnelName, AuthenticationError<AuthE>>, String>),
    /// The record was made, or could not be.
    Constructed(Result<(), RE>),
    /// The registry took the record, or did not, and the tables hold the tunnel if it did.
    Registered(Result<(), RE>),
    /// The tunnel took the report, or was closed or authenticated already.
    Reported(bool),
    /// There are incoming streams, or there are none because the tunnel is closed.
    Opened(bool),
    /// No more requests come, or they could not be served.
    Served(Result<(), RequestProcessingError<AE>>),
}

/// What is to be done next in the life of a tunnel.
#[derive(Debug)]
pub enum LifeAction<AE, AuthE, RE> {
    /// Send a `TunnelConnectedEvent`.
    TellConnected,
    Authenticate,
    /// Make the record of the tunnel under this name.
    ConstructRecord(TunnelName),
    /// Register the record, and add the tunnel to the tables.
    Register,
    /// Tell the tunnel that it is authenticated.
    Report,
    /// Send a `TunnelAuthenticatedEvent`.
    TellAuthenticated,
    /// Take the incoming streams of the tunnel.
    OpenDownlink,
    /// Serve the requests that come.
    Serve,
    /// The life is over.
    Finish(Result<(), TunnelLifecycleError<AE, AuthE, RE>>),
}

/// The life of a tunnel, as a function of what happens. An event that the phase does not wait for
/// has no meaning.
pub open spec fn life_step<AE, AuthE, RE>(
    phase: LifePhase,
    event: LifeEvent<AE, AuthE, RE>,
) -> Option<(LifePhase, LifeAction<AE, AuthE, RE>)> {
    match (phase, event) {
        (LifePhase::Connected, LifeEvent::Told) => Some(
            (LifePhase::Authenticating, LifeAction::Authenticate),
        ),
        (LifePhase::Authenticating, LifeEvent::Authenticated(outcome)) => Some(
            match outcome {
                Ok(Ok(name)) => (LifePhase::Constructing, LifeAction::ConstructRecord(name)),
                Ok(Err(AuthenticationError::Remote(_))) => (
                    LifePhase::Over,
                    LifeAction::Finish(Err(TunnelLifecycleError::AuthenticationRefused)),
                ),
                Ok(Err(AuthenticationError::Handling(h))) => (
                    LifePhase::Over,
                    LifeAction::Finish(Err(TunnelLifecycleError::AuthenticationHandlingError(h))),
                ),
                Err(m) => (
                    LifePhase::Over,
                    LifeAction::Finish(
                        Err(
                            TunnelLifecycleError::AuthenticationHandlingError(
                                AuthenticationHandlingError::JoinError(m),
                            ),
                        ),
                    ),
                ),
            },
        ),
        (LifePhase::Constructing, LifeEvent::Constructed(outcome)) => Some(
            match outcome {
                Ok(_) => (LifePhase::Registering, LifeAction::Register),
                Err(e) => (
                    LifePhase::Over,
                    LifeAction::Finish(Err(TunnelLifecycleError::RegistrationError(e))),
                ),
            },
        ),
        (LifePhase::Registering, LifeEvent::Registered(outcome)) => Some(
            match outcome {
                Ok(_) => (LifePhase::Reporting, LifeAction::Report),
                Err(e) => (
                    LifePhase::Over,
                    LifeAction::Finish(Err(TunnelLifecycleError::RegistrationError(e))),
                ),
            },
        ),
        (LifePhase::Reporting, LifeEvent::Reported(taken)) => Some(
            if taken {
                (LifePhase::Announcing, LifeAction::TellAuthenticated)
            } else {
                (LifePhase::Opening, LifeAction::OpenDownlink)
            },
        ),
        (LifePhase::Announcing, LifeEvent::Told) => Some(
            (LifePhase::Opening, LifeAction::OpenDownlink),
        ),
        (LifePhase::Opening, LifeEvent::Opened(there)) => Some(
            if there {
                (LifePhase::Serving, LifeAction::Serve)
            } else {
                (
                    LifePhase::Over,
                    LifeAction::Finish(
                        Err(
                            TunnelLifecycleError::RequestProcessingError(
                                RequestProcessingError::TunnelError(TunnelError::ConnectionClosed),
                            ),
                        ),
                    ),
                )
            },
        ),
        (LifePhase::Serving, LifeEvent::Served(outcome)) => Some(
            (
                LifePhase::Over,
                LifeAction::Finish(
                    match outcome {
                        Ok(_) => Ok(()),
                        Err(RequestProcessingError::ApplicationError(a)) => Err(
                            TunnelLifecycleError::ApplicationError(a),
                        ),
                        Err(e) => Err(TunnelLifecycleError::RequestProcessingError(e)),
                    },
                ),
            ),
        ),
        _ => None,
    }
}

/// Takes the life of a tunnel one event further. It begins in the phase `Connected`, with the
/// action `TellConnected`.
pub fn tunnel_lifecycle<AE, AuthE, RE>(phase: LifePhase, event: LifeEvent<AE, AuthE, RE>) -> (r: (
    LifePhase,
    LifeAction<AE, AuthE, RE>,
))
    requires
        life_step(phase, event) is Some,
    ensures
        life_step(phase, event) == Some(r),
{
    match event {
        LifeEvent::Told => match phase {
            LifePhase::Connected => (LifePhase::Authenticating, LifeAction::Authenticate),
            _ => (LifePhase::Opening, LifeAction::OpenDownlink),
        },
        LifeEvent::Authenticated(outcome) => match authenticate_tunnel(outcome) {
            Ok(name) => (LifePhase::Constructing, LifeAction::ConstructRecord(name)),
            Err(e) => (LifePhase::Over, LifeAction::Finish(Err(e))),
        },
        LifeEvent::Constructed(outcome) => match outcome {
            Ok(()) => (LifePhase::Registering, LifeAction::Register),
            Err(e) => (
                LifePhase::Over,
                LifeAction::Finish(Err(TunnelLifecycleError::RegistrationError(e))),
            ),
        },
        LifeEvent::Registered(outcome) => match outcome {
            Ok(()) => (LifePhase::Reporting, LifeAction::Report),
            Err(e) => (
                LifePhase::Over,
                LifeAction::Finish(Err(TunnelLifecycleError::RegistrationError(e))),
            ),
        },
        LifeEvent::Reported(taken) => {
            if taken {
                (LifePhase::Announcing, LifeAction::TellAuthenticated)
            } else {
                (LifePhase::Opening, LifeAction::OpenDownlink)
            }
        },
        LifeEvent::Opened(there) => {
            if there {
                (LifePhase::Serving, LifeAction::Serve)
            } else {
                (
                    LifePhase::Over,
                    LifeAction::Finish(
                        Err(
                            TunnelLifecycleError::RequestProcessingError(
                                RequestProcessingError::TunnelError(TunnelError::ConnectionClosed),
                            ),
                        ),
                    ),
                )
            }
        },
        LifeEvent::Served(outcome) => (
            LifePhase::Over,
            LifeAction::Finish(
                match outcome {
                    Ok(()) => Ok(()),
                    Err(e) => Err(TunnelLifecycleError::from_requests(e)),
                },
            ),
        ),
    }
}

/// Where the life of a tunnel stands after some events.
pub open spec fn life_run<AE, AuthE, RE>(events: Seq<LifeEvent<AE, AuthE, RE>>) -> Option<
    (LifePhase, LifeAction<AE, AuthE, RE>),
>
    decreases events.len(),
{
    if events.len() == 0 {
        Some((LifePhase::Connected, LifeAction::TellConnected))
    } else {
        match life_run(events.drop_last()) {
            Some((phase, _)) => life_step(phase, events.last()),
            None => None,
        }
    }
}

/// The phase in which the life of a tunnel is after some events.
pub open spec fn phase_after<AE, AuthE, RE>(events: Seq<LifeEvent<AE, AuthE, RE>>) -> LifePhase {
    match life_run(events) {
        Some((phase, _)) => phase,
        None => LifePhase::Over,
    }
}

/// Whether a phase comes after the tunnel was authenticated.
pub open spec fn is_authenticated(phase: LifePhase) -> bool {
    phase is Constructing || phase is Registering || is_registered(phase)
}

/// Whether a phase comes after the tunnel was registered.
pub open spec fn is_registered(phase: LifePhase) -> bool {
    phase is Reporting || phase is Announcing || phase is Opening || phase is Serving
}

/// No request is served on a tunnel that was not both authenticated and registered before.
pub proof fn law_served_only_when_trusted<AE, AuthE, RE>(events: Seq<LifeEvent<AE, AuthE, RE>>)
    requires
        life_run(events) is Some,
    ensures
        is_authenticated(phase_after(events)) ==> exists|i: int|
            0 <= i < events.len() && (#[trigger] events[i]) matches LifeEvent::Authenticated(
                Ok(Ok(_)),
            ),
        is_registered(phase_after(events)) ==> exists|i: int|
            0 <= i < events.len() && (#[trigger] events[i]) matches LifeEvent::Registered(Ok(_)),
    decreases events.len(),
{
    if events.len() > 0 {
        let init = events.drop_last();
        law_served_only_when_trusted(init);
        let before = phase_after(init);
        let n = events.len() - 1;
        assert(events[n] == events.last());
        if is_authenticated(before) {
            let i = choose|i: int|
                0 <= i < init.len() && (#[trigger] init[i]) matches LifeEvent::Authenticated(
                    Ok(Ok(_)),
                );
            assert(events[i] == init[i]);
        }
        if is_registered(before) {
            let i = choose|i: int|
                0 <= i < init.len() && (#[trigger] init[i]) matches LifeEvent::Registered(Ok(_));
            assert(events[i] == init[i]);
        }
    }
}

/// What is to be done in the life of a tunnel after some events.
pub open spec fn life_answer<AE, AuthE, RE>(events: Seq<LifeEvent<AE, AuthE, RE>>) -> Option<
    LifeAction<AE, AuthE, RE>,
> {
    match life_run(events) {
        Some((_, action)) => Some(action),
        None => None,
    }
}

/// How many events come before the incoming streams are taken, given what the tunnel made of the
/// report that it is authenticated.
pub open spec fn events_before_opening(report_taken: bool) -> int {
    if report_taken {
        6
    } else {
        5
    }
}

/// Whether every one of the events says that what was to be done was done.
pub open spec fn all_went_well<AE, AuthE, RE>(events: Seq<LifeEvent<AE, AuthE, RE>>) -> bool {
    let opening = events_before_opening(events[4] == LifeEvent::<AE, AuthE, RE>::Reported(true));
    &&& events.len() > 0 ==> events[0] is Told
    &&& events.len() > 1 ==> (events[1] matches LifeEvent::Authenticated(Ok(Ok(_))))
    &&& events.len() > 2 ==> (events[2] matches LifeEvent::Constructed(Ok(_)))
    &&& events.len() > 3 ==> (events[3] matches LifeEvent::Registered(Ok(_)))
    &&& events.len() > 4 ==> events[4] is Reported
    &&& events.len() > 5 && opening == 6 ==> events[5] is Told
    &&& events.len() > opening ==> events[opening] == LifeEvent::<AE, AuthE, RE>::Opened(true)
    &&& events.len() <= opening + 1
}

/// What an event that reports a failure makes a life end with.
pub open spec fn ends_life_with<AE, AuthE, RE>(
    event: LifeEvent<AE, AuthE, RE>,
    error: TunnelLifecycleError<AE, AuthE, RE>,
) -> bool {
    match event {
        LifeEvent::Told => false,
        LifeEvent::Authenticated(Err(lost)) => error
            == TunnelLifecycleError::<AE, AuthE, RE>::AuthenticationHandlingError(
            AuthenticationHandlingError::JoinError(lost),
        ),
        LifeEvent::Authenticated(Ok(Err(AuthenticationError::Remote(_)))) => {
            error is AuthenticationRefused
        },
        LifeEvent::Authenticated(Ok(Err(AuthenticationError::Handling(h)))) => error
            == TunnelLifecycleError::<AE, AuthE, RE>::AuthenticationHandlingError(h),
        LifeEvent::Authenticated(Ok(Ok(_))) => false,
        LifeEvent::Constructed(Err(e)) | LifeEvent::Registered(Err(e)) => error
            == TunnelLifecycleError::<AE, AuthE, RE>::RegistrationError(e),
        LifeEvent::Constructed(Ok(_)) | LifeEvent::Registered(Ok(_)) => false,
        LifeEvent::Reported(_) => false,
        LifeEvent::Opened(there) => !there && error
            == TunnelLifecycleError::<AE, AuthE, RE>::RequestProcessingError(
            RequestProcessingError::TunnelError(TunnelError::ConnectionClosed),
        ),
        LifeEvent::Served(Err(RequestProcessingError::ApplicationError(a))) => error
            == TunnelLifecycleError::<AE, AuthE, RE>::ApplicationError(a),
        LifeEvent::Served(Err(e)) => error == TunnelLifecycleError::<
            AE,
            AuthE,
            RE,
        >::RequestProcessingError(e),
        LifeEvent::Served(Ok(_)) => false,
    }
}

/// The phase of a life tells how many events it has seen, and that they went well.
proof fn lemma_life_run<AE, AuthE, RE>(events: Seq<LifeEvent<AE, AuthE, RE>>)
    ensures
        ({
            let n = events.len();
            let taken = events[4] == LifeEvent::<AE, AuthE, RE>::Reported(true);
            let opening = events_before_opening(taken);
            let phase = if n == 0 {
                LifePhase::Connected
            } else if n == 1 {
                LifePhase::Authenticating
            } else if n == 2 {
                LifePhase::Constructing
            } else if n == 3 {
                LifePhase::Registering
            } else if n == 4 {
                LifePhase::Reporting
            } else if n == 5 && taken {
                LifePhase::Announcing
            } else if n == opening {
                LifePhase::Opening
            } else {
                LifePhase::Serving
            };
            &&& all_went_well(events) <==> life_run(events) is Some && !(phase_after(
                events,
            ) is Over)
            &&& all_went_well(events) ==> phase_after(events) == phase
            &&& life_run(events) is Some && n > 0 ==> all_went_well(events.drop_last())
        }),
    decreases events.len(),
{
    if events.len() > 0 {
        let init = events.drop_last();
        lemma_life_run(init);
        assert(events.last() == events[events.len() - 1]);
        assert forall|i: int| 0 <= i < init.len() implies #[trigger] init[i] == events[i] by {}
    }
}

/// A life ends well exactly when the tunnel was authenticated and registered, its streams were
/// taken, and then all its requests were served. The last event is that they were.
pub proof fn law_life_ends_well<AE, AuthE, RE>(events: Seq<LifeEvent<AE, AuthE, RE>>)
    ensures
        life_answer(events) == Some(LifeAction::<AE, AuthE, RE>::Finish(Ok(()))) <==> {
            &&& events.len() == events_before_opening(
                events[4] == LifeEvent::<AE, AuthE, RE>::Reported(true),
            ) + 2
            &&& all_went_well(events.drop_last())
            &&& events.last() matches LifeEvent::Served(Ok(_))
        },
        life_answer(events) == Some(LifeAction::<AE, AuthE, RE>::Finish(Ok(()))) <==> {
            &&& events.len() > 0
            &&& phase_after(events.drop_last()) is Serving
            &&& events.last() matches LifeEvent::Served(Ok(_))
        },
{
    if events.len() > 0 {
        let init = events.drop_last();
        lemma_life_run(init);
        assert(events.last() == events[events.len() - 1]);
        assert forall|i: int| 0 <= i < init.len() implies #[trigger] init[i] == events[i] by {}
    }
}

/// A life ends with an error exactly when its last event reports a failure in what was to be done,
/// and the error carries that failure.
pub proof fn law_life_fails_as_reported<AE, AuthE, RE>(
    events: Seq<LifeEvent<AE, AuthE, RE>>,
    error: TunnelLifecycleError<AE, AuthE, RE>,
)
    ensures
        life_answer(events) == Some(LifeAction::Finish(Err(error))) <==> {
            let n = events.len();
            let opening = events_before_opening(
                events[4] == LifeEvent::<AE, AuthE, RE>::Reported(true),
            );
            &&& n > 0
            &&& all_went_well(events.drop_last())
            &&& n == 2 <==> events.last() is Authenticated
            &&& n == 3 <==> events.last() is Constructed
            &&& n == 4 <==> events.last() is Registered
            &&& n == opening + 1 <==> events.last() is Opened
            &&& n == opening + 2 <==> events.last() is Served
            &&& ends_life_with(events.last(), error)
        },
{
    if events.len() > 0 {
        let init = events.drop_last();
        lemma_life_run(init);
        assert(events.last() == events[events.len() - 1]);
        assert forall|i: int| 0 <= i < init.len() implies #[trigger] init[i] == events[i] by {}
    }
}

/// What is to be done in a life comes in one order: the tunnel is authenticated, its record is made
/// under the name that it was authenticated by, the registry is told, the tunnel is told, that it
/// was is told if it took that, its streams are taken, and its requests are served.
pub proof fn law_life_in_order<AE, AuthE, RE>(events: Seq<LifeEvent<AE, AuthE, RE>>)
    requires
        all_went_well(events),
    ensures
        ({
            let n = events.len();
            let taken = events[4] == LifeEvent::<AE, AuthE, RE>::Reported(true);
            &&& life_answer(events) matches Some(action)
            &&& n == 0 <==> action is TellConnected
            &&& n == 1 <==> action is Authenticate
            &&& n == 2 <==> action is ConstructRecord
            &&& action matches LifeAction::ConstructRecord(name) ==> events[1] == LifeEvent::<
                AE,
                AuthE,
                RE,
            >::Authenticated(Ok(Ok(name)))
            &&& n == 3 <==> action is Register
            &&& n == 4 <==> action is Report
            &&& n == 5 && taken <==> action is TellAuthenticated
            &&& n > 4 && n == events_before_opening(taken) <==> action is OpenDownlink
            &&& n > 5 && n > events_before_opening(taken) <==> action is Serve
        }),
{
    lemma_life_run(events);
    if events.len() > 0 {
        let init = events.drop_last();
        lemma_life_run(init);
        assert(events.last() == events[events.len() - 1]);
        assert forall|i: int| 0 <= i < init.len() implies #[trigger] init[i] == events[i] by {}
    }
}

/// As long as a life is not over, it takes every outcome of what it waits for, good or bad.
pub proof fn law_life_takes_every_outcome<AE, AuthE, RE>(
    phase: LifePhase,
    event: LifeEvent<AE, AuthE, RE>,
)
    ensures
        life_step(phase, event) is Some <==> match phase {
            LifePhase::Connected => event is Told,
            LifePhase::Authenticating => event is Authenticated,
            LifePhase::Constructing => event is Constructed,
            LifePhase::Registering => event is Registered,
            LifePhase::Reporting => event is Reported,
            LifePhase::Announcing => event is Told,
            LifePhase::Opening => event is Opened,
            LifePhase::Serving => event is Served,
            LifePhase::Over => false,
        },
{
}

/// How many phases come before this one at most.
pub open spec fn phase_rank(phase: LifePhase) -> int {
    match phase {
        LifePhase::Connected => 0,
        LifePhase::Authenticating => 1,
        LifePhase::Constructing => 2,
        LifePhase::Registering => 3,
        LifePhase::Reporting => 4,
        LifePhase::Announcing => 5,
        LifePhase::Opening => 6,
        LifePhase::Serving => 7,
        LifePhase::Over => 8,
    }
}

/// The life of a tunnel never goes back, and never stays where it is.
proof fn lemma_life_goes_on<AE, AuthE, RE>(
    events: Seq<LifeEvent<AE, AuthE, RE>>,
    i: int,
    j: int,
)
    requires
        life_run(events) is Some,
        0 <= i <= j <= events.len(),
    ensures
        life_run(events.take(i)) is Some,
        life_run(events.take(j)) is Some,
        i < j ==> phase_rank(phase_after(events.take(i))) < phase_rank(
            phase_after(events.take(j)),
        ),
    decreases events.len(),
{
    assert(events.take(events.len() as int) =~= events);
    if events.len() > 0 {
        let init = events.drop_last();
        if j < events.len() {
            lemma_life_goes_on(init, i, j);
            assert(init.take(i) =~= events.take(i));
            assert(init.take(j) =~= events.take(j));
        } else if i < j {
            lemma_life_goes_on(init, i, init.len() as int);
            assert(init.take(i) =~= events.take(i));
            assert(init.take(init.len() as int) =~= init);
        }
    }
}

/// Whether, after the first `n` events, it is to be told that the tunnel is authenticated.
pub open spec fn tells_authenticated<AE, AuthE, RE>(
    events: Seq<LifeEvent<AE, AuthE, RE>>,
    n: int,
) -> bool {
    life_run(events.take(n)) matches Some((_, LifeAction::TellAuthenticated))
}

/// That a tunnel is authenticated is told at most once in its life, and only after the tunnel took
/// the report.
pub proof fn law_announced_only_when_reported<AE, AuthE, RE>(
    events: Seq<LifeEvent<AE, AuthE, RE>>,
)
    requires
        life_run(events) is Some,
    ensures
        forall|n: int|
            0 <= n <= events.len() && #[trigger] tells_authenticated(events, n) ==> n > 0
                && phase_after(events.take(n - 1)) is Reporting && events[n - 1] == LifeEvent::<
                AE,
                AuthE,
                RE,
            >::Reported(true),
        forall|n: int, m: int|
            0 <= n <= events.len() && 0 <= m <= events.len() && #[trigger] tells_authenticated(
                events,
                n,
            ) && #[trigger] tells_authenticated(events, m) ==> n == m,
{
    assert forall|n: int|
        0 <= n <= events.len() && #[trigger] tells_authenticated(events, n) implies n > 0
        && phase_after(events.take(n - 1)) is Reporting && phase_after(
        events.take(n),
    ) is Announcing && events[n - 1] == LifeEvent::<AE, AuthE, RE>::Reported(true) by {
        assert(events.take(n).drop_last() =~= events.take(n - 1));
    }
    assert forall|n: int, m: int|
        0 <= n <= events.len() && 0 <= m <= events.len() && #[trigger] tells_authenticated(
            events,
            n,
        ) && #[trigger] tells_authenticated(events, m) implies n == m by {
        if n < m {
            lemma_life_goes_on(events, n, m);
        } else if m < n {
            lemma_life_goes_on(events, m, n);
        }
    }
}

/// What is to be done after one answer of the source of incoming streams.
#[derive(Debug)]
pub enum IncomingStep<S, AE> {
    /// Negotiate on this stream, beside those that are served already.
    Handle(S),
    /// No more streams come: wait for those that are served.
    Drain,
    Fail(RequestProcessingError<AE>),
}

/// Decides what to do with one answer of the source of incoming streams.
pub fn handle_incoming_request<S, AE>(
    next: Result<Option<TunnelIncomingType<S>>, TunnelError>,
) -> (r: IncomingStep<S, AE>)
    ensures
        r == match next {
            Ok(Some(TunnelIncomingType::BiStream(s))) => IncomingStep::<S, AE>::Handle(s),
            Ok(None) => IncomingStep::Drain,
            Err(e) => IncomingStep::Fail(RequestProcessingError::TunnelError(e)),
        },
{
    match next {
        Ok(Some(TunnelIncomingType::BiStream(s))) => IncomingStep::Handle(s),
        Ok(None) => IncomingStep::Drain,
        Err(e) => IncomingStep::Fail(RequestProcessingError::TunnelError(e)),
    }
}

/// What is to be done with a stream after negotiation.
#[derive(Debug)]
pub enum RequestStep<L, AE> {
    /// Nothing: the stream is dropped, and the tunnel goes on.
    Drop,
    /// Hand the stream to its service.
    HandOver(L),
    /// The tunnel cannot go on.
    Fail(RequestProcessingError<NegotiationError<AE>>),
}

/// Decides what to do with a stream after negotiation. Only a version that is not known here, or a
/// fatal error of the application, ends the tunnel. A stream that was agreed on while the daemon
/// shuts down is dropped.
pub fn handle_incoming_request_bistream<L, AE>(
    negotiated: Result<L, NegotiationError<AE>>,
    shutting_down: bool,
) -> (r: RequestStep<L, AE>)
    ensures
        r == match negotiated {
            Ok(link) => if shutting_down {
                RequestStep::<L, AE>::Drop
            } else {
                RequestStep::HandOver(link)
            },
            Err(NegotiationError::UnsupportedProtocolVersion) => RequestStep::Fail(
                RequestProcessingError::UnsupportedProtocolVersion,
            ),
            Err(NegotiationError::FatalError(e)) => RequestStep::Fail(
                RequestProcessingError::ApplicationError(NegotiationError::FatalError(e)),
            ),
            Err(_) => RequestStep::Drop,
        },
{
    match negotiated {
        Err(NegotiationError::UnsupportedProtocolVersion) => RequestStep::Fail(
            RequestProcessingError::UnsupportedProtocolVersion,
        ),
        Err(NegotiationError::ProtocolViolation) => RequestStep::Drop,
        Err(NegotiationError::ReadError) => RequestStep::Drop,
        Err(NegotiationError::WriteError) => RequestStep::Drop,
        Err(NegotiationError::Refused) => RequestStep::Drop,
        Err(NegotiationError::UnsupportedServiceVersion) => RequestStep::Drop,
        Err(NegotiationError::ApplicationError(_)) => RequestStep::Drop,
        Err(NegotiationError::FatalError(e)) => RequestStep::Fail(
            RequestProcessingError::ApplicationError(NegotiationError::FatalError(e)),
        ),
        Ok(link) => {
            if shutting_down {
                RequestStep::Drop
            } else {
                RequestStep::HandOver(link)
            }
        },
    }
}

/// What the outcome of a service means to the tunnel: no error of a service ends it.
pub fn request_served<E, AE>(outcome: Result<(), ServiceError<E>>) -> (r: Result<
    (),
    RequestProcessingError<AE>,
>)
    ensures
        r == Ok::<(), RequestProcessingError<AE>>(()),
{
    match outcome {
        Err(_) => Ok(()),
        Ok(()) => Ok(()),
    }
}

/// Adds a tunnel to the tables once the registry has taken its record, and arms its deregistration.
pub fn register_tunnel<TTunnel, Ident>(
    peers: &mut PeerTracker,
    tunnel: WrappedTunnel<TTunnel, Ident>,
    identifier: Ident,
    record: Arc<PeerRecord>,
) -> (r: WrappedTunnel<TTunnel, Ident>)
    requires
        old(peers).well_formed(),
        old(peers).next() < u64::MAX,
    ensures
        final(peers).well_formed(),
        final(peers).next() == old(peers).next() + 1,
        final(peers).tables() == old(peers).tables().with(record, old(peers).next()),
        final(peers).state() == old(peers).state().with(*record),
        r.inner() == tunnel.inner(),
        r.action() == (DropAction::Deregister { identifier, record, reference: old(peers).next() }),
{
    let reference = peers.insert(&record);
    WrappedTunnel::new_deregistering(tunnel.extract_inner(), identifier, record, reference)
}

} // verus!
