//! Where tunnels come from: endpoints that listen, and connections that were made.

use vstd::prelude::*;

use crate::ext::poll::Poll;
use crate::tunnel::TunnelSide;

verus! {

/// What an endpoint that listens gives, given what its connections gave: each connection, marked as
/// one that was listened for, with what is to be kept with it.
pub fn listened<C, B, F: Fn(&C) -> B>(polled: Poll<Option<C>>, baggage_constructor: F) -> (r: Poll<
    Option<(C, TunnelSide, B)>,
>)
    requires
        polled matches Poll::Ready(Some(c)) ==> baggage_constructor.requires((&c,)),
    ensures
        match polled {
            Poll::Ready(Some(connection)) => r matches Poll::Ready(Some((c, side, baggage))) && c
                == connection && side is Listen && baggage_constructor.ensures(
                (&connection,),
                baggage,
            ),
            Poll::Ready(None) => r matches Poll::Ready(None),
            Poll::Pending => r is Pending,
        },
{
    match polled {
        Poll::Ready(Some(connection)) => {
            let baggage = baggage_constructor(&connection);
            Poll::Ready(Some((connection, TunnelSide::Listen, baggage)))
        },
        Poll::Ready(None) => Poll::Ready(None),
        Poll::Pending => Poll::Pending,
    }
}

/// A stream that has an identity.
#[derive(Debug)]
pub struct NamedBoxedStream<Id, S> {
    pub id: Id,
    pub stream: S,
}

impl<Id, S> NamedBoxedStream<Id, S> {
    pub fn new(id: Id, stream: S) -> (r: Self)
        ensures
            r.id == id,
            r.stream == stream,
    {
        NamedBoxedStream { id, stream }
    }
}

/// How the attempt to get hold of a set of streams went.
#[derive(Debug, Clone, Copy, PartialEq, Eq, Structural)]
pub enum LockAttempt {
    Locked,
    /// Someone else holds it just now.
    WouldBlock,
    /// Someone broke down while holding it.
    Poisoned,
}

/// What to do when the streams are asked for their next item.
#[derive(Debug, Clone, Copy, PartialEq, Eq, Structural)]
pub enum SetPoll {
    /// Ask the streams.
    AskStreams,
    /// Ask to be asked again, and give nothing now: to wait could block the one who holds the set.
    WakeAndWait,
    /// Break down too.
    Panic,
}

/// What follows from an attempt to get hold of the set.
pub fn poll_set(attempt: LockAttempt) -> (r: SetPoll)
    ensures
        match attempt {
            LockAttempt::Locked => r is AskStreams,
            LockAttempt::WouldBlock => r is WakeAndWait,
            LockAttempt::Poisoned => r is Panic,
        },
{
    match attempt {
        LockAttempt::Locked => SetPoll::AskStreams,
        LockAttempt::WouldBlock => SetPoll::WakeAndWait,
        LockAttempt::Poisoned => SetPoll::Panic,
    }
}

} // verus!
