//! Requests that are routed through the tunnels of a registry.

use std::sync::Arc;

use vstd::prelude::*;

use crate::address::RouteAddress;
use crate::negotiation::NegotiationError;
use crate::service::ClientError;
use crate::tunnel::TunnelError;

verus! {

/// Why a request was not answered.
#[derive(Debug)]
pub enum RequestHandlingError<Q, A> {
    /// No route leads to where the request goes.
    RouteNotFound(Q),
    /// A route leads there, and cannot be used.
    RouteUnavailable(Q),
    /// The client of the protocol failed.
    ProtocolClientError(ClientError<A>),
    /// The protocol could not be agreed on.
    NegotiationError(NegotiationError<A>),
}

/// Why no link was found for a request.
#[derive(Debug)]
pub enum LinkError<E> {
    /// No tunnel matches the address.
    NoMatchingTunnel,
    /// The tunnel gave no link.
    LinkOpenFailure(TunnelError),
    /// The registry of tunnels failed.
    TunnelRegistryError(E),
}

/// Routes requests, and speaks for them.
pub struct RequestClientHandler<TTunnelRegistry, TServiceRegistry, TRouter> {
    pub tunnel_registry: Arc<TTunnelRegistry>,
    pub service_registry: Arc<TServiceRegistry>,
    pub router: Arc<TRouter>,
}

/// How far a request has come.
#[derive(Debug)]
pub enum RequestPhase<Q> {
    /// A link is being looked for.
    Routing(Q),
    /// The protocol is being agreed on, for this address.
    Negotiating(Q, RouteAddress),
    /// The client speaks.
    Speaking,
    Over,
}

/// What happened outside.
#[derive(Debug)]
pub enum RequestEvent<E, A, R> {
    /// A link to this address was found, or none.
    Routed(Result<RouteAddress, LinkError<E>>),
    /// The protocol was agreed on, or not.
    Negotiated(Result<(), NegotiationError<A>>),
    /// The client is done.
    Answered(Result<R, ClientError<A>>),
}

/// What is to be done next.
#[derive(Debug)]
pub enum RequestAction<Q, A, R> {
    /// Agree on the protocol at this address.
    Negotiate(RouteAddress),
    /// Let the client of this request speak at this address.
    Speak(Q, RouteAddress),
    Complete(R),
    Fail(RequestHandlingError<Q, A>),
}

/// What becomes of a request when something happens, or nothing if that cannot happen then.
pub open spec fn request_step<Q, E, A, R>(
    phase: RequestPhase<Q>,
    event: RequestEvent<E, A, R>,
) -> Option<(RequestPhase<Q>, RequestAction<Q, A, R>)> {
    match (phase, event) {
        (RequestPhase::Routing(request), RequestEvent::Routed(Ok(address))) => Some(
            (RequestPhase::Negotiating(request, address), RequestAction::Negotiate(address)),
        ),
        (
            RequestPhase::Routing(request),
            RequestEvent::Routed(Err(LinkError::NoMatchingTunnel)),
        ) => Some(
            (
                RequestPhase::Over,
                RequestAction::Fail(RequestHandlingError::RouteNotFound(request)),
            ),
        ),
        (RequestPhase::Routing(request), RequestEvent::Routed(Err(_))) => Some(
            (
                RequestPhase::Over,
                RequestAction::Fail(RequestHandlingError::RouteUnavailable(request)),
            ),
        ),
        (RequestPhase::Negotiating(request, address), RequestEvent::Negotiated(Ok(_))) => Some(
            (RequestPhase::Speaking, RequestAction::Speak(request, address)),
        ),
        (RequestPhase::Negotiating(_, _), RequestEvent::Negotiated(Err(e))) => Some(
            (
                RequestPhase::Over,
                RequestAction::Fail(RequestHandlingError::NegotiationError(e)),
            ),
        ),
        (RequestPhase::Speaking, RequestEvent::Answered(Ok(response))) => Some(
            (RequestPhase::Over, RequestAction::Complete(response)),
        ),
        (RequestPhase::Speaking, RequestEvent::Answered(Err(e))) => Some(
            (
                RequestPhase::Over,
                RequestAction::Fail(RequestHandlingError::ProtocolClientError(e)),
            ),
        ),
        _ => None,
    }
}

impl<TTunnelRegistry, TServiceRegistry, TRouter> RequestClientHandler<
    TTunnelRegistry,
    TServiceRegistry,
    TRouter,
> {
    pub fn new(
        tunnel_registry: Arc<TTunnelRegistry>,
        service_registry: Arc<TServiceRegistry>,
        router: Arc<TRouter>,
    ) -> (r: Self)
        ensures
            r.tunnel_registry == tunnel_registry,
            r.service_registry == service_registry,
            r.router == router,
    {
        RequestClientHandler { tunnel_registry, service_registry, router }
    }

    /// Starts a request that has to be routed.
    pub fn handle_dynamic<Q>(&self, request: Q) -> (r: RequestPhase<Q>)
        ensures
            r == RequestPhase::Routing(request),
    {
        RequestPhase::Routing(request)
    }

    /// Starts a request whose link is known.
    pub fn handle_dynamic_direct<Q>(&self, request: Q, direct_address: RouteAddress) -> (r:
        RequestPhase<Q>)
        ensures
            r == RequestPhase::Negotiating(request, direct_address),
    {
        RequestPhase::Negotiating(request, direct_address)
    }
}

impl<Q> RequestPhase<Q> {
    /// Takes a request one event further.
    pub fn step<E, A, R>(self, event: RequestEvent<E, A, R>) -> (r: (
        RequestPhase<Q>,
        RequestAction<Q, A, R>,
    ))
        requires
            request_step(self, event) is Some,
        ensures
            request_step(self, event) == Some(r),
    {
        match (self, event) {
            (RequestPhase::Routing(request), RequestEvent::Routed(Ok(address))) => {
                let to = address.clone();
                (RequestPhase::Negotiating(request, address), RequestAction::Negotiate(to))
            },
            (RequestPhase::Routing(request), RequestEvent::Routed(Err(e))) => {
                let failure = match e {
                    LinkError::NoMatchingTunnel => RequestHandlingError::RouteNotFound(request),
                    LinkError::LinkOpenFailure(_) => RequestHandlingError::RouteUnavailable(
                        request,
                    ),
                    LinkError::TunnelRegistryError(_) => RequestHandlingError::RouteUnavailable(
                        request,
                    ),
                };
                (RequestPhase::Over, RequestAction::Fail(failure))
            },
            (RequestPhase::Negotiating(request, address), RequestEvent::Negotiated(Ok(_))) => (
                RequestPhase::Speaking,
                RequestAction::Speak(request, address),
            ),
            (RequestPhase::Negotiating(_, _), RequestEvent::Negotiated(Err(e))) => (
                RequestPhase::Over,
                RequestAction::Fail(RequestHandlingError::NegotiationError(e)),
            ),
            (RequestPhase::Speaking, RequestEvent::Answered(Ok(response))) => (
                RequestPhase::Over,
                RequestAction::Complete(response),
            ),
            (RequestPhase::Speaking, RequestEvent::Answered(Err(e))) => (
                RequestPhase::Over,
                RequestAction::Fail(RequestHandlingError::ProtocolClientError(e)),
            ),
            _ => vstd::pervasive::unreached(),
        }
    }
}

/// A client speaks only where the protocol was agreed on, at the address that the link leads to, and
/// only what it answers is handed back.
pub proof fn law_speaks_only_when_agreed<Q, E, A, R>(
    phase: RequestPhase<Q>,
    event: RequestEvent<E, A, R>,
)
    ensures
        match request_step(phase, event) {
            Some((_, RequestAction::Speak(request, address))) => {
                &&& phase == RequestPhase::Negotiating(request, address)
                &&& event matches RequestEvent::Negotiated(Ok(_))
            },
            Some((_, RequestAction::Complete(response))) => {
                &&& phase is Speaking
                &&& event == RequestEvent::<E, A, R>::Answered(Ok(response))
            },
            _ => true,
        },
{
}

/// Where a request that began in this phase stands after some events, and what the last of them
/// leads to.
pub open spec fn request_run<Q, E, A, R>(
    start: RequestPhase<Q>,
    events: Seq<RequestEvent<E, A, R>>,
) -> Option<(RequestPhase<Q>, Option<RequestAction<Q, A, R>>)>
    decreases events.len(),
{
    if events.len() == 0 {
        Some((start, None))
    } else {
        match request_run(start, events.drop_last()) {
            Some((phase, _)) => match request_step(phase, events.last()) {
                Some((next, action)) => Some((next, Some(action))),
                None => None,
            },
            None => None,
        }
    }
}

/// Whether the first events say that a link to `address` was found and that the protocol was agreed
/// on, as far as there are so many of them.
pub open spec fn links_to<E, A, R>(
    events: Seq<RequestEvent<E, A, R>>,
    address: RouteAddress,
) -> bool {
    &&& events.len() > 0 ==> events[0] == RequestEvent::<E, A, R>::Routed(Ok(address))
    &&& events.len() > 1 ==> (events[1] matches RequestEvent::Negotiated(Ok(_)))
}

/// The phase of a request tells which events it has seen.
proof fn lemma_request_phase<Q, E, A, R>(
    request: Q,
    events: Seq<RequestEvent<E, A, R>>,
    address: RouteAddress,
)
    ensures
        ({
            let run = request_run(RequestPhase::Routing(request), events);
            &&& run matches Some((RequestPhase::Routing(q), _)) ==> events.len() == 0 && q
                == request
            &&& run matches Some((RequestPhase::Negotiating(q, a), _)) ==> events.len() == 1
                && links_to(events, a) && q == request
            &&& run matches Some((RequestPhase::Speaking, _)) ==> events.len() == 2 && (
            events[0] matches RequestEvent::Routed(Ok(a)) && links_to(events, a))
            &&& events.len() == 1 && links_to(events, address) ==> (run matches Some((phase, _))
                && phase == RequestPhase::Negotiating(request, address))
            &&& events.len() == 2 && links_to(events, address) ==> (run matches Some(
                (RequestPhase::Speaking, _),
            ))
        }),
    decreases events.len(),
{
    if events.len() > 0 {
        let init = events.drop_last();
        let there = match events[0] {
            RequestEvent::Routed(Ok(a)) => a,
            _ => address,
        };
        lemma_request_phase(request, init, there);
        lemma_request_phase(request, init, address);
        assert(events.last() == events[events.len() - 1]);
        assert forall|i: int| 0 <= i < init.len() implies init[i] == #[trigger] events[i] by {}
    }
}

/// A request is negotiated for at the address that its link leads to, speaks for itself there once
/// that was agreed on, and is answered with what its client was answered; each exactly then.
pub proof fn law_request_goes_on_exactly<Q, E, A, R>(
    request: Q,
    events: Seq<RequestEvent<E, A, R>>,
    address: RouteAddress,
    response: R,
)
    ensures
        ({
            let run = request_run(RequestPhase::Routing(request), events);
            &&& (run matches Some((_, Some(RequestAction::Negotiate(a)))) && a == address)
                <==> events.len() == 1 && events[0] == RequestEvent::<E, A, R>::Routed(Ok(address))
            &&& (run matches Some((_, Some(RequestAction::Speak(q, a)))) && q == request && a
                == address) <==> events.len() == 2 && links_to(events, address)
            &&& run matches Some((_, Some(RequestAction::Speak(q, _)))) ==> q == request
            &&& (run matches Some((_, Some(RequestAction::Complete(r)))) && r == response)
                <==> events.len() == 3 && (events[0] matches RequestEvent::Routed(Ok(_))) && (
            events[1] matches RequestEvent::Negotiated(Ok(_))) && events[2] == RequestEvent::<
                E,
                A,
                R,
            >::Answered(Ok(response))
        }),
{
    if events.len() > 0 {
        let init = events.drop_last();
        let there = match events[0] {
            RequestEvent::Routed(Ok(a)) => a,
            _ => address,
        };
        lemma_request_phase(request, init, there);
        lemma_request_phase(request, init, address);
        assert(events.last() == events[events.len() - 1]);
        assert forall|i: int| 0 <= i < init.len() implies init[i] == #[trigger] events[i] by {}
    }
}

/// A request fails exactly when something failed on its way, and with what failed: no route leads
/// to where it goes, the route cannot be used, the protocol was not agreed on, or its client failed.
/// Where it could not be routed, the request itself is handed back.
pub proof fn law_request_fails_exactly<Q, E, A, R>(
    request: Q,
    events: Seq<RequestEvent<E, A, R>>,
)
    requires
        events.len() > 0,
        request_run(RequestPhase::Routing(request), events) is Some,
    ensures
        ({
            let n = events.len();
            let last = events.last();
            let linked = events[0] matches RequestEvent::Routed(Ok(_));
            let agreed = linked && (events[1] matches RequestEvent::Negotiated(Ok(_)));
            match request_run(RequestPhase::Routing(request), events) {
                Some((phase, Some(RequestAction::Fail(e)))) => phase is Over && match e {
                    RequestHandlingError::RouteNotFound(q) => {
                        &&& n == 1
                        &&& q == request
                        &&& last matches RequestEvent::Routed(Err(LinkError::NoMatchingTunnel))
                    },
                    RequestHandlingError::RouteUnavailable(q) => {
                        &&& n == 1
                        &&& q == request
                        &&& {
                            ||| last matches RequestEvent::Routed(
                                Err(LinkError::LinkOpenFailure(_)),
                            )
                            ||| last matches RequestEvent::Routed(
                                Err(LinkError::TunnelRegistryError(_)),
                            )
                        }
                    },
                    RequestHandlingError::NegotiationError(x) => n == 2 && linked && last
                        == RequestEvent::<E, A, R>::Negotiated(Err(x)),
                    RequestHandlingError::ProtocolClientError(x) => n == 3 && agreed && last
                        == RequestEvent::<E, A, R>::Answered(Err(x)),
                },
                _ => {
                    &&& !(last matches RequestEvent::Routed(Err(_)))
                    &&& !(last matches RequestEvent::Negotiated(Err(_)))
                    &&& !(last matches RequestEvent::Answered(Err(_)))
                },
            }
        }),
{
    let init = events.drop_last();
    let there = match events[0] {
        RequestEvent::Routed(Ok(a)) => a,
        _ => arbitrary(),
    };
    lemma_request_phase(request, init, there);
    assert(events.last() == events[events.len() - 1]);
    assert forall|i: int| 0 <= i < init.len() implies init[i] == #[trigger] events[i] by {}
}

/// A request whose link is known goes on as one does for which a link to that address was found.
pub proof fn law_direct_request_goes_on_alike<Q, E, A, R>(
    request: Q,
    address: RouteAddress,
    event: RequestEvent<E, A, R>,
    routed: RequestEvent<E, A, R>,
)
    requires
        routed == RequestEvent::<E, A, R>::Routed(Ok(address)),
    ensures
        request_step(RequestPhase::Routing(request), routed) matches Some((phase, _))
            && request_step(phase, event) == request_step(
            RequestPhase::Negotiating(request, address),
            event,
        ),
{
}

/// As long as a request is not over, it takes every outcome of what it waits for, good or bad.
pub proof fn law_request_takes_every_outcome<Q, E, A, R>(
    phase: RequestPhase<Q>,
    event: RequestEvent<E, A, R>,
)
    ensures
        request_step(phase, event) is Some <==> match phase {
            RequestPhase::Routing(_) => event is Routed,
            RequestPhase::Negotiating(_, _) => event is Negotiated,
            RequestPhase::Speaking => event is Answered,
            RequestPhase::Over => false,
        },
{
}

} // verus!
