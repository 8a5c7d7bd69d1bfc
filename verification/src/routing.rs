//! How a request finds its tunnel, and what has to happen before its client can speak there.

use std::sync::Arc;

use vstd::prelude::*;

use crate::address::RouteAddress;
use crate::negotiation::NegotiationError;
use crate::peers::{PeerRecord, PeersView};
use crate::service::RoutingError;
use crate::tunnel::{TunnelError, TunnelName};

verus! {

/// How far a request has come on its tunnel.
#[derive(Debug, Clone, Copy, PartialEq, Eq, Structural)]
pub enum RoutePhase {
    OpeningLink,
    Negotiating,
    Over,
}

/// What happened outside.
#[derive(Debug)]
pub enum RouteEvent<E> {
    /// The tunnel gave a link, or none.
    LinkOpened(Result<(), TunnelError>),
    /// The protocol was agreed on, or not.
    Negotiated(Result<(), NegotiationError<E>>),
}

/// What is to be done next.
#[derive(Debug)]
pub enum RouteAction<E> {
    /// Agree on the protocol at the address of the request.
    Negotiate,
    /// Hand the link to the client of the request.
    Handle,
    Fail(RoutingError<E>),
}

/// What becomes of a request when something happens, or nothing if that cannot happen then.
pub open spec fn route_step<E>(phase: RoutePhase, event: RouteEvent<E>) -> Option<
    (RoutePhase, RouteAction<E>),
> {
    match (phase, event) {
        (RoutePhase::OpeningLink, RouteEvent::LinkOpened(Ok(_))) => Some(
            (RoutePhase::Negotiating, RouteAction::Negotiate),
        ),
        (RoutePhase::OpeningLink, RouteEvent::LinkOpened(Err(e))) => Some(
            (RoutePhase::Over, RouteAction::Fail(RoutingError::LinkOpenFailure(e))),
        ),
        (RoutePhase::Negotiating, RouteEvent::Negotiated(Ok(_))) => Some(
            (RoutePhase::Over, RouteAction::Handle),
        ),
        (RoutePhase::Negotiating, RouteEvent::Negotiated(Err(e))) => Some(
            (RoutePhase::Over, RouteAction::Fail(RoutingError::NegotiationError(e))),
        ),
        _ => None,
    }
}

impl RoutePhase {
    /// Takes a request one event further.
    pub fn step<E>(&mut self, event: RouteEvent<E>) -> (r: RouteAction<E>)
        requires
            route_step(*old(self), event) is Some,
        ensures
            route_step(*old(self), event) == Some((*final(self), r)),
    {
        match event {
            RouteEvent::LinkOpened(Ok(_)) => {
                *self = RoutePhase::Negotiating;
                RouteAction::Negotiate
            },
            RouteEvent::LinkOpened(Err(e)) => {
                *self = RoutePhase::Over;
                RouteAction::Fail(RoutingError::LinkOpenFailure(e))
            },
            RouteEvent::Negotiated(Ok(_)) => {
                *self = RoutePhase::Over;
                RouteAction::Handle
            },
            RouteEvent::Negotiated(Err(e)) => {
                *self = RoutePhase::Over;
                RouteAction::Fail(RoutingError::NegotiationError(e))
            },
        }
    }
}

/// The link goes to a client only after the tunnel gave it and the protocol was agreed on.
pub proof fn law_handled_only_when_agreed<E>(first: RouteEvent<E>, second: RouteEvent<E>)
    ensures
        ({
            let opened = route_step(RoutePhase::OpeningLink, first);
            &&& !(opened matches Some((_, RouteAction::Handle)))
            &&& match opened {
                Some((phase, _)) => (route_step(phase, second) matches Some(
                    (_, RouteAction::Handle),
                )) <==> (first matches RouteEvent::LinkOpened(Ok(_))) && (
                second matches RouteEvent::Negotiated(Ok(_))),
                None => true,
            }
        }),
{
}

/// A request fails exactly when its tunnel gave no link, or gave one on which the protocol was not
/// agreed on, and with what was reported then.
pub proof fn law_route_fails_as_reported<E>(
    first: RouteEvent<E>,
    second: RouteEvent<E>,
    link: TunnelError,
    disagreement: NegotiationError<E>,
)
    ensures
        ({
            let opened = route_step(RoutePhase::OpeningLink, first);
            &&& (opened matches Some((_, RouteAction::Negotiate))) <==> (
            first matches RouteEvent::LinkOpened(Ok(_)))
            &&& (opened matches Some((_, RouteAction::Fail(e))) && e == RoutingError::<
                E,
            >::LinkOpenFailure(link)) <==> first == RouteEvent::<E>::LinkOpened(Err(link))
            &&& opened matches Some((_, RouteAction::Fail(e))) ==> e is LinkOpenFailure
            &&& opened matches Some((phase, _)) ==> {
                let negotiated = route_step(phase, second);
                &&& (negotiated matches Some((_, RouteAction::Fail(e))) && e == RoutingError::<
                    E,
                >::NegotiationError(disagreement)) <==> (first matches RouteEvent::LinkOpened(
                    Ok(_),
                )) && second == RouteEvent::Negotiated(Err(disagreement))
                &&& negotiated matches Some((_, RouteAction::Fail(e))) ==> e is NegotiationError
                &&& !(negotiated matches Some((_, RouteAction::Negotiate)))
            }
        }),
{
}

/// As long as a request is not over, it takes every outcome of what it waits for, good or bad.
pub proof fn law_route_takes_every_outcome<E>(phase: RoutePhase, event: RouteEvent<E>)
    ensures
        route_step(phase, event) is Some <==> match phase {
            RoutePhase::OpeningLink => event is LinkOpened,
            RoutePhase::Negotiating => event is Negotiated,
            RoutePhase::Over => false,
        },
{
}

/// Ranks tunnels by their identity. Identities grow, so the highest is that of the newest tunnel.
fn rank_by_id(record: &PeerRecord) -> (r: u64)
    ensures
        r == record.id.id,
{
    record.id.id
}

/// Ranks tunnels by when they were registered.
fn rank_by_registration(record: &PeerRecord) -> (r: u64)
    ensures
        r == record.registered_at.0,
{
    record.registered_at.0
}

/// Where a client sends requests.
#[derive(Debug, Clone, Copy, PartialEq, Eq, Hash, Structural)]
pub enum ClientLocalAddress {
    /// Through the newest tunnel.
    MostRecentConnection,
}

/// Sends requests through the newest of all tunnels.
pub struct SnocatClientRouter<'a> {
    pub peers: &'a PeersView<'a>,
}

impl<'a> SnocatClientRouter<'a> {
    pub fn new(peers: &'a PeersView<'a>) -> (r: Self)
        ensures
            r.peers == peers,
    {
        SnocatClientRouter { peers }
    }

    /// The tunnel for a request.
    pub fn route<E>(&self, addr: &RouteAddress, local_address: ClientLocalAddress) -> (r: Result<
        Arc<PeerRecord>,
        RoutingError<E>,
    >)
        ensures
            ({
                let peers = self.peers.state().by_id;
                match r {
                    Ok(record) => {
                        &&& peers.contains_value(*record)
                        &&& forall|k: u64| #[trigger]
                            peers.contains_key(k) ==> peers[k].id.id <= record.id.id
                    },
                    Err(e) => {
                        &&& peers.dom() == Set::<u64>::empty()
                        &&& e matches RoutingError::RouteNotFound(a) && a@ == addr@
                    },
                }
            }),
    {
        match local_address {
            ClientLocalAddress::MostRecentConnection => {},
        }
        broadcast use vstd::laws_cmp::group_laws_cmp;

        match self.peers.find_by_comparator(rank_by_id) {
            Some(record) => Ok(record),
            None => Err(RoutingError::RouteNotFound(addr.clone())),
        }
    }
}

/// Sends requests through the newest tunnel of a name.
pub struct SnocatServerRouter<'a> {
    pub active_tunnels: &'a PeersView<'a>,
}

impl<'a> SnocatServerRouter<'a> {
    pub fn new(active_tunnels: &'a PeersView<'a>) -> (r: Self)
        ensures
            r.active_tunnels == active_tunnels,
    {
        SnocatServerRouter { active_tunnels }
    }

    /// The tunnel for a request.
    pub fn route<E>(&self, addr: &RouteAddress, local_address: &TunnelName) -> (r: Result<
        Arc<PeerRecord>,
        RoutingError<E>,
    >)
        ensures
            ({
                let peers = self.active_tunnels.state().named(local_address@);
                match r {
                    Ok(record) => {
                        &&& peers.contains_value(*record)
                        &&& forall|k: u64| #[trigger]
                            peers.contains_key(k) ==> peers[k].registered_at.0
                                <= record.registered_at.0
                    },
                    Err(e) => {
                        &&& peers.dom() == Set::<u64>::empty()
                        &&& e matches RoutingError::RouteNotFound(a) && a@ == addr@
                    },
                }
            }),
    {
        broadcast use vstd::laws_cmp::group_laws_cmp;

        match self.active_tunnels.find_by_name_and_comparator(local_address, rank_by_registration) {
            Some(record) => Ok(record),
            None => Err(RoutingError::RouteNotFound(addr.clone())),
        }
    }
}

} // verus!
