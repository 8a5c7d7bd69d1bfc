//! What a client asks of its server once it is connected.

use vstd::prelude::*;

use crate::demand_proxy::{demand_route, DemandProxyAddressError, DemandProxyClient};
use crate::net::{ip_text, SocketAddr};
use crate::proxy_tcp::{DnsTarget, TcpStreamTarget};
use crate::service::{ClientError, Request, RoutingError};

verus! {

/// Numbers the connections of a client.
#[derive(Debug)]
pub struct ConnectionIds {
    current_connection_id: u32,
}

impl ConnectionIds {
    /// The number of the next connection.
    pub closed spec fn next(&self) -> u32 {
        self.current_connection_id
    }

    pub fn new() -> (r: ConnectionIds)
        ensures
            r.next() == 0,
    {
        ConnectionIds { current_connection_id: 0 }
    }

    /// Numbers a connection. The largest number is never given.
    pub fn add_new_connection(&mut self) -> (r: u32)
        requires
            old(self).next() < u32::MAX,
        ensures
            r == old(self).next(),
            final(self).next() == old(self).next() + 1,
    {
        let connection_id = self.current_connection_id;
        self.current_connection_id = connection_id + 1;
        connection_id
    }
}

/// The target of which the server is told to listen for: the host of this address, by its notation,
/// at its port.
pub fn demanded_target(proxy_target: &SocketAddr) -> (r: TcpStreamTarget)
    ensures
        r matches TcpStreamTarget::Dns(DnsTarget::Dns4 { host, port }) && host@ == ip_text(
            proxy_target.spec_ip(),
        ) && port == proxy_target.spec_port(),
{
    TcpStreamTarget::Dns(
        DnsTarget::Dns4 { host: proxy_target.ip().to_text(), port: proxy_target.port() },
    )
}

/// How far the watch over the port at the server has come.
#[derive(Debug, Clone, Copy, PartialEq, Eq, Structural)]
pub enum WatchPhase {
    /// The tunnel is given time to be set up.
    Settling,
    /// The demand is being routed.
    Routing,
    /// The server is being asked.
    Asking,
    /// The server listens, until it ends or this end is shut down.
    Watching,
    Over,
}

/// Why the watch failed.
#[derive(Debug)]
pub enum WatchError<E> {
    /// The demand has no address.
    Address(DemandProxyAddressError),
    /// The demand did not reach the server.
    Routing(RoutingError<E>),
    /// The server did not grant the demand, or broke it off.
    Client(ClientError<()>),
    /// The watch itself broke down.
    Panicked,
    /// The watch could not be waited for.
    Join(String),
}

/// What happened outside.
#[derive(Debug)]
pub enum WatchEvent<E> {
    /// The time is over.
    Settled,
    /// The demand reached the server, or not.
    Routed(Result<(), RoutingError<E>>),
    /// The server answered.
    Granted(Result<(), ClientError<()>>),
    /// The server ended.
    Closed(Result<(), ClientError<()>>),
    /// This end is being shut down.
    Shutdown,
}

/// What is to be done next.
#[derive(Debug)]
pub enum WatchAction<E> {
    /// Route the demand through the newest tunnel.
    Route,
    /// Let the client of the demand speak.
    Ask,
    /// Wait for the server to end, or for this end to be shut down.
    Watch,
    Finish(Result<(), WatchError<E>>),
}

/// What the watch does when something happens, or nothing if that cannot happen then.
pub open spec fn watch_step<E>(phase: WatchPhase, event: WatchEvent<E>) -> Option<
    (WatchPhase, WatchAction<E>),
> {
    match (phase, event) {
        (WatchPhase::Settling, WatchEvent::Settled) => Some(
            (WatchPhase::Routing, WatchAction::Route),
        ),
        (WatchPhase::Routing, WatchEvent::Routed(Ok(_))) => Some(
            (WatchPhase::Asking, WatchAction::Ask),
        ),
        (WatchPhase::Routing, WatchEvent::Routed(Err(e))) => Some(
            (WatchPhase::Over, WatchAction::Finish(Err(WatchError::Routing(e)))),
        ),
        (WatchPhase::Asking, WatchEvent::Granted(Ok(_))) => Some(
            (WatchPhase::Watching, WatchAction::Watch),
        ),
        (WatchPhase::Asking, WatchEvent::Granted(Err(e))) => Some(
            (WatchPhase::Over, WatchAction::Finish(Err(WatchError::Client(e)))),
        ),
        (WatchPhase::Watching, WatchEvent::Closed(Ok(_))) => Some(
            (WatchPhase::Over, WatchAction::Finish(Ok(()))),
        ),
        (WatchPhase::Watching, WatchEvent::Closed(Err(e))) => Some(
            (WatchPhase::Over, WatchAction::Finish(Err(WatchError::Client(e)))),
        ),
        (WatchPhase::Watching, WatchEvent::Shutdown) => Some(
            (WatchPhase::Over, WatchAction::Finish(Ok(()))),
        ),
        _ => None,
    }
}

/// How long the tunnel is given to be set up, in seconds.
pub const SETTLING_SECONDS: u64 = 5;

impl WatchPhase {
    /// Starts the watch over a port for `proxy_target`: the demand that is to be made.
    pub fn begin<TStream>(proxy_target: &SocketAddr) -> (r: Result<
        Request<TStream, DemandProxyClient>,
        DemandProxyAddressError,
    >)
        ensures
            match r {
                Ok(request) => {
                    &&& request.address@ == demand_route(
                        ip_text(proxy_target.spec_ip()),
                        proxy_target.spec_port(),
                    )
                    &&& request.protocol_client.proxied_subject@ == ""@
                },
                Err(_) => false,
            },
    {
        let client = DemandProxyClient::new("".to_owned());
        Request::new(client, demanded_target(proxy_target))
    }

    /// Takes the watch one event further.
    pub fn step<E>(&mut self, event: WatchEvent<E>) -> (r: WatchAction<E>)
        requires
            watch_step(*old(self), event) is Some,
        ensures
            watch_step(*old(self), event) == Some((*final(self), r)),
    {
        match event {
            WatchEvent::Settled => {
                *self = WatchPhase::Routing;
                WatchAction::Route
            },
            WatchEvent::Routed(Ok(_)) => {
                *self = WatchPhase::Asking;
                WatchAction::Ask
            },
            WatchEvent::Routed(Err(e)) => {
                *self = WatchPhase::Over;
                WatchAction::Finish(Err(WatchError::Routing(e)))
            },
            WatchEvent::Granted(Ok(_)) => {
                *self = WatchPhase::Watching;
                WatchAction::Watch
            },
            WatchEvent::Granted(Err(e)) => {
                *self = WatchPhase::Over;
                WatchAction::Finish(Err(WatchError::Client(e)))
            },
            WatchEvent::Closed(Ok(_)) | WatchEvent::Shutdown => {
                *self = WatchPhase::Over;
                WatchAction::Finish(Ok(()))
            },
            WatchEvent::Closed(Err(e)) => {
                *self = WatchPhase::Over;
                WatchAction::Finish(Err(WatchError::Client(e)))
            },
        }
    }
}

/// Where a watch stands after some events. It begins by giving the tunnel time.
pub open spec fn watch_run<E>(events: Seq<WatchEvent<E>>) -> Option<
    (WatchPhase, Option<WatchAction<E>>),
>
    decreases events.len(),
{
    if events.len() == 0 {
        Some((WatchPhase::Settling, None))
    } else {
        match watch_run(events.drop_last()) {
            Some((phase, _)) => match watch_step(phase, events.last()) {
                Some((next, action)) => Some((next, Some(action))),
                None => None,
            },
            None => None,
        }
    }
}

/// What a watch is told to do by the last of some events.
pub open spec fn watch_answer<E>(events: Seq<WatchEvent<E>>) -> Option<WatchAction<E>> {
    match watch_run(events) {
        Some((_, action)) => action,
        None => None,
    }
}

/// Whether the first events say that the tunnel was given its time, that the demand then reached the
/// server, and that the server then granted it, as far as there are so many of them.
pub open spec fn went_well<E>(events: Seq<WatchEvent<E>>) -> bool {
    &&& events.len() > 0 ==> events[0] is Settled
    &&& events.len() > 1 ==> (events[1] matches WatchEvent::Routed(Ok(_)))
    &&& events.len() > 2 ==> (events[2] matches WatchEvent::Granted(Ok(_)))
}

/// The failure that an event reports, if any.
pub open spec fn reported_failure<E>(event: WatchEvent<E>) -> Option<WatchError<E>> {
    match event {
        WatchEvent::Routed(Err(e)) => Some(WatchError::Routing(e)),
        WatchEvent::Granted(Err(e)) => Some(WatchError::Client(e)),
        WatchEvent::Closed(Err(e)) => Some(WatchError::Client(e)),
        _ => None,
    }
}

/// After some events that have a meaning, all but the last went well, and there are no more than
/// four of them.
proof fn lemma_watch_run<E>(events: Seq<WatchEvent<E>>)
    ensures
        watch_run(events) matches Some((phase, _)) ==> {
            &&& events.len() <= 4
            &&& events.len() > 0 ==> went_well(events.drop_last())
            &&& phase is Settling <==> events.len() == 0
            &&& phase is Routing ==> events.len() == 1
            &&& phase is Asking ==> events.len() == 2
            &&& phase is Watching ==> events.len() == 3
            &&& !(phase is Over) ==> went_well(events)
        },
        events.len() <= 3 && went_well(events) ==> (watch_run(events) matches Some((phase, _))
            && phase == if events.len() == 0 {
            WatchPhase::Settling
        } else if events.len() == 1 {
            WatchPhase::Routing
        } else if events.len() == 2 {
            WatchPhase::Asking
        } else {
            WatchPhase::Watching
        }),
    decreases events.len(),
{
    if events.len() > 0 {
        let init = events.drop_last();
        lemma_watch_run(init);
        assert(events.last() == events[events.len() - 1]);
        assert forall|i: int| 0 <= i < init.len() implies #[trigger] init[i] == events[i] by {}
    }
}

/// A watch ends well exactly when the demand reached the server, was granted, and then the server
/// ended well or this end was shut down.
pub proof fn law_watch_ends_well<E>(events: Seq<WatchEvent<E>>)
    ensures
        watch_answer(events) == Some(WatchAction::<E>::Finish(Ok(()))) <==> {
            &&& events.len() == 4
            &&& events[0] is Settled
            &&& (events[1] matches WatchEvent::Routed(Ok(_)))
            &&& (events[2] matches WatchEvent::Granted(Ok(_)))
            &&& (events[3] matches WatchEvent::Closed(Ok(_))) || events[3] is Shutdown
        },
{
    if events.len() > 0 {
        let init = events.drop_last();
        lemma_watch_run(init);
        assert(events.last() == events[events.len() - 1]);
        assert forall|i: int| 0 <= i < init.len() implies #[trigger] init[i] == events[i] by {}
    }
}

/// A watch fails exactly when something in it failed, and with that failure: the demand did not
/// reach the server, or reached it and was not granted, or was granted and broken off.
pub proof fn law_watch_fails_as_reported<E>(events: Seq<WatchEvent<E>>, failure: WatchError<E>)
    ensures
        watch_answer(events) == Some(WatchAction::Finish(Err(failure))) <==> {
            &&& 2 <= events.len() <= 4
            &&& events[0] is Settled
            &&& events.len() > 2 ==> (events[1] matches WatchEvent::Routed(Ok(_)))
            &&& events.len() > 3 ==> (events[2] matches WatchEvent::Granted(Ok(_)))
            &&& events.len() == 2 ==> events.last() is Routed
            &&& events.len() == 3 ==> events.last() is Granted
            &&& events.len() == 4 ==> events.last() is Closed
            &&& reported_failure(events.last()) == Some(failure)
        },
{
    if events.len() > 0 {
        let init = events.drop_last();
        lemma_watch_run(init);
        assert(events.last() == events[events.len() - 1]);
        assert forall|i: int| 0 <= i < init.len() implies #[trigger] init[i] == events[i] by {}
    }
}

/// A watch first routes the demand, then asks, and then waits, each as soon as what comes before it
/// went well, and never again.
pub proof fn law_watch_in_order<E>(events: Seq<WatchEvent<E>>)
    ensures
        watch_answer(events) == Some(WatchAction::<E>::Route) <==> {
            &&& events.len() == 1
            &&& events[0] is Settled
        },
        watch_answer(events) == Some(WatchAction::<E>::Ask) <==> {
            &&& events.len() == 2
            &&& events[0] is Settled
            &&& (events[1] matches WatchEvent::Routed(Ok(_)))
        },
        watch_answer(events) == Some(WatchAction::<E>::Watch) <==> {
            &&& events.len() == 3
            &&& events[0] is Settled
            &&& (events[1] matches WatchEvent::Routed(Ok(_)))
            &&& (events[2] matches WatchEvent::Granted(Ok(_)))
        },
{
    if events.len() > 0 {
        let init = events.drop_last();
        lemma_watch_run(init);
        assert(events.last() == events[events.len() - 1]);
        assert forall|i: int| 0 <= i < init.len() implies #[trigger] init[i] == events[i] by {}
    }
}

/// As long as a watch is not over, it takes every outcome of what it waits for, good or bad; only the
/// watch over a port that is listened on can be shut down.
pub proof fn law_watch_takes_every_outcome<E>(phase: WatchPhase, event: WatchEvent<E>)
    ensures
        watch_step(phase, event) is Some <==> match phase {
            WatchPhase::Settling => event is Settled,
            WatchPhase::Routing => event is Routed,
            WatchPhase::Asking => event is Granted,
            WatchPhase::Watching => event is Closed || event is Shutdown,
            WatchPhase::Over => false,
        },
{
}

/// How a task that was waited for did not run to its end.
#[derive(Debug)]
pub enum JoinFailure {
    /// It broke down.
    Panic,
    /// It was stopped, as this text says.
    Stopped(String),
}

/// The result of the watch, given how waiting for it ended.
pub fn watch_outcome<E>(joined: Result<Result<(), WatchError<E>>, JoinFailure>) -> (r: Result<
    (),
    WatchError<E>,
>)
    ensures
        match joined {
            Ok(outcome) => r == outcome,
            Err(JoinFailure::Panic) => r matches Err(WatchError::Panicked),
            Err(JoinFailure::Stopped(text)) => r == Err::<(), WatchError<E>>(
                WatchError::Join(text),
            ),
        },
{
    match joined {
        Ok(outcome) => outcome,
        Err(JoinFailure::Panic) => Err(WatchError::Panicked),
        Err(JoinFailure::Stopped(text)) => Err(WatchError::Join(text)),
    }
}

} // verus!
