//! The identities of tunnels, and how fresh tunnels get theirs.

use std::cmp::Ordering;

use vstd::prelude::*;
use vstd::std_specs::cmp::PartialOrdSpec;

use crate::ext::poll::Poll;
use crate::tunnel::{has_id, IntoTunnel};

verus! {

/// Names a tunnel within one process.
#[derive(Debug, Clone, Copy, PartialEq, Eq, Ord, Hash, Structural)]
pub struct TunnelId {
    pub id: u64,
}

impl TunnelId {
    pub fn new(inner: u64) -> (r: TunnelId)
        ensures
            r == (TunnelId { id: inner }),
    {
        TunnelId { id: inner }
    }

    pub fn inner(&self) -> (r: u64)
        ensures
            r == self.id,
    {
        self.id
    }
}

impl PartialOrd for TunnelId {
    fn partial_cmp(&self, other: &TunnelId) -> (r: Option<Ordering>) {
        if self.id < other.id {
            Some(Ordering::Less)
        } else if self.id == other.id {
            Some(Ordering::Equal)
        } else {
            Some(Ordering::Greater)
        }
    }
}

impl vstd::std_specs::cmp::PartialOrdSpecImpl for TunnelId {
    open spec fn obeys_partial_cmp_spec() -> bool {
        true
    }

    open spec fn partial_cmp_spec(&self, other: &TunnelId) -> Option<Ordering> {
        if self.id < other.id {
            Some(Ordering::Less)
        } else if self.id == other.id {
            Some(Ordering::Equal)
        } else {
            Some(Ordering::Greater)
        }
    }
}

/// Identities are the same, and are in order, as their numbers are.
pub proof fn law_ids_are_numbers(x: u64, y: u64)
    ensures
        (TunnelId { id: x }) == (TunnelId { id: y }) <==> x == y,
        (TunnelId { id: x }).partial_cmp_spec(&(TunnelId { id: y })) == Some(Ordering::Less) <==> x
            < y,
        (TunnelId { id: x }).partial_cmp_spec(&(TunnelId { id: y })) == Some(Ordering::Equal)
            <==> x == y,
        (TunnelId { id: x }).partial_cmp_spec(&(TunnelId { id: y })) == Some(Ordering::Greater)
            <==> x > y,
{
}

impl From<u64> for TunnelId {
    fn from(inner: u64) -> (r: TunnelId) {
        TunnelId::new(inner)
    }
}

impl vstd::std_specs::convert::FromSpecImpl<u64> for TunnelId {
    open spec fn obeys_from_spec() -> bool {
        true
    }

    open spec fn from_spec(inner: u64) -> TunnelId {
        TunnelId { id: inner }
    }
}

impl From<TunnelId> for u64 {
    fn from(tunnel_id: TunnelId) -> (r: u64) {
        tunnel_id.inner()
    }
}

impl vstd::std_specs::convert::FromSpecImpl<TunnelId> for u64 {
    open spec fn obeys_from_spec() -> bool {
        true
    }

    open spec fn from_spec(tunnel_id: TunnelId) -> u64 {
        tunnel_id.id
    }
}

/// A source of identities.
pub trait TunnelIdGenerator: Sized {
    /// Whether a source in the state `before` can give `id`, and is in the state `after` then.
    spec fn gives(before: Self, id: TunnelId, after: Self) -> bool;

    fn next(&mut self) -> (r: TunnelId)
        ensures
            Self::gives(*old(self), r, *final(self)),
    ;
}

/// Gives one number after another, and starts again at zero after the largest one.
#[derive(Debug)]
pub struct MonotonicAtomicGenerator {
    next: u64,
}

/// The identity that is given `n` places after `start`.
pub open spec fn nth_id(start: u64, n: nat) -> u64 {
    ((start + n) % 0x1_0000_0000_0000_0000) as u64
}

impl MonotonicAtomicGenerator {
    /// The number that is given next.
    pub closed spec fn value(&self) -> u64 {
        self.next
    }

    pub fn new(next: u64) -> (r: Self)
        ensures
            r.value() == next,
    {
        MonotonicAtomicGenerator { next }
    }

    pub fn next(&mut self) -> (r: TunnelId)
        ensures
            r == (TunnelId { id: old(self).value() }),
            final(self).value() == nth_id(old(self).value(), 1),
    {
        let id: u64 = self.next;
        self.next = id.wrapping_add(1);
        TunnelId::new(id)
    }
}

impl TunnelIdGenerator for MonotonicAtomicGenerator {
    open spec fn gives(before: Self, id: TunnelId, after: Self) -> bool {
        &&& id == (TunnelId { id: before.value() })
        &&& after.value() == nth_id(before.value(), 1)
    }

    fn next(&mut self) -> TunnelId {
        MonotonicAtomicGenerator::next(self)
    }
}

/// A generator gives the number that it stands at and goes on to the next, so that two identities that
/// are given one after the other differ by one, but for the largest number, which zero follows.
pub proof fn law_ids_are_consecutive(
    start: MonotonicAtomicGenerator,
    first: TunnelId,
    between: MonotonicAtomicGenerator,
    second: TunnelId,
    end: MonotonicAtomicGenerator,
)
    requires
        MonotonicAtomicGenerator::gives(start, first, between),
        MonotonicAtomicGenerator::gives(between, second, end),
    ensures
        first.id == start.value(),
        first.id < u64::MAX ==> second.id == first.id + 1,
        first.id == u64::MAX ==> second.id == 0,
{
}

/// Giving one more identity after `n` leads to the place after `n + 1`.
pub proof fn law_ids_in_order(start: u64, n: nat)
    ensures
        nth_id(start, 0) == start,
        nth_id(nth_id(start, n), 1) == nth_id(start, n + 1),
{
}

/// No identity is given twice before all of them have been given.
pub proof fn law_ids_differ(start: u64, n: nat, m: nat)
    requires
        n < m < 0x1_0000_0000_0000_0000,
    ensures
        nth_id(start, n) != nth_id(start, m),
{
}

/// Identities grow until the largest one has been given.
pub proof fn law_ids_grow(start: u64, n: nat, m: nat)
    requires
        n < m,
        start + m <= u64::MAX,
    ensures
        nth_id(start, n) < nth_id(start, m),
{
}

/// A stream of what becomes tunnels, which gives each an identity. It is spent once its source is.
#[derive(Debug)]
pub enum ConstructedTunnelStream<S, G> {
    Active { source: S, generator: G },
    Ended,
}

impl<S, G: TunnelIdGenerator> ConstructedTunnelStream<S, G> {
    /// Starts to give identities to what `source` yields.
    pub fn construct_tunnels(generator: G, source: S) -> (r: Self)
        ensures
            r == (ConstructedTunnelStream::Active { source, generator }),
    {
        ConstructedTunnelStream::Active { source, generator }
    }

    /// Takes what the source gave when it was asked, and hands on what this stream gives. A spent
    /// stream has no source to ask, and gives `Ready(None)` forever.
    pub fn poll_next<P: IntoTunnel>(&mut self, polled: Poll<Option<P>>) -> (r: Poll<
        Option<P::Tunnel>,
    >)
        ensures
            *old(self) is Ended ==> r == Poll::<Option<P::Tunnel>>::Ready(None) && *final(self)
                == *old(self),
            *old(self) is Active ==> match polled {
                Poll::Ready(None) => {
                    &&& r == Poll::<Option<P::Tunnel>>::Ready(None)
                    &&& *final(self) is Ended
                },
                Poll::Ready(Some(item)) => {
                    &&& r matches Poll::Ready(Some(tunnel))
                    &&& *final(self) is Active
                    &&& final(self)->source == old(self)->source
                    &&& exists|id: TunnelId| #[trigger]
                        G::gives(old(self)->generator, id, final(self)->generator) && call_ensures(
                            P::into_tunnel,
                            (item, id),
                            tunnel,
                        ) && has_id(tunnel, id)
                },
                Poll::Pending => {
                    &&& r == Poll::<Option<P::Tunnel>>::Pending
                    &&& *final(self) == *old(self)
                },
            },
    {
        if self.is_terminated() {
            return Poll::Ready(None);
        }
        match polled {
            Poll::Ready(None) => {
                *self = ConstructedTunnelStream::Ended;
                Poll::Ready(None)
            },
            Poll::Ready(Some(item)) => {
                let ghost before = *self;
                let ghost mut given = TunnelId { id: 0 };
                let r = match self {
                    ConstructedTunnelStream::Active { source: _, generator } => {
                        let id = generator.next();
                        proof {
                            given = id;
                        }
                        let tunnel = item.into_tunnel(id);
                        Poll::Ready(Some(tunnel))
                    },
                    ConstructedTunnelStream::Ended => Poll::Ready(None),
                };
                assert(G::gives(before->generator, given, self->generator));
                r
            },
            Poll::Pending => Poll::Pending,
        }
    }

    /// Whether the stream is spent.
    pub fn is_terminated(&self) -> (r: bool)
        ensures
            r == (self is Ended),
    {
        match self {
            ConstructedTunnelStream::Active { .. } => false,
            ConstructedTunnelStream::Ended => true,
        }
    }
}

/// A stream of what becomes tunnels, or fails to. It is spent once its source is, or after the
/// first failure.
#[derive(Debug)]
pub enum ConstructedTunnelTryStream<S, G> {
    Active { source: S, generator: G },
    Ended { failed: bool },
}

impl<S, G: TunnelIdGenerator> ConstructedTunnelTryStream<S, G> {
    /// Starts to give identities to what `source` yields.
    pub fn try_construct_tunnels(generator: G, source: S) -> (r: Self)
        ensures
            r == (ConstructedTunnelTryStream::Active { source, generator }),
    {
        ConstructedTunnelTryStream::Active { source, generator }
    }

    /// Takes what the source gave when it was asked, and hands on what this stream gives. A spent
    /// stream has no source to ask, and gives `Ready(None)` forever.
    pub fn poll_next<P: IntoTunnel, E>(&mut self, polled: Poll<Option<Result<P, E>>>) -> (r: Poll<
        Option<Result<P::Tunnel, E>>,
    >)
        ensures
            *old(self) is Ended ==> r == Poll::<Option<Result<P::Tunnel, E>>>::Ready(None)
                && *final(self) == *old(self),
            *old(self) is Active ==> match polled {
                Poll::Ready(None) => {
                    &&& r == Poll::<Option<Result<P::Tunnel, E>>>::Ready(None)
                    &&& *final(self) == (ConstructedTunnelTryStream::<S, G>::Ended { failed: false })
                },
                Poll::Ready(Some(Err(e))) => {
                    &&& r == Poll::<Option<Result<P::Tunnel, E>>>::Ready(Some(Err(e)))
                    &&& *final(self) == (ConstructedTunnelTryStream::<S, G>::Ended { failed: true })
                },
                Poll::Ready(Some(Ok(item))) => {
                    &&& r matches Poll::Ready(Some(Ok(tunnel)))
                    &&& *final(self) is Active
                    &&& final(self)->source == old(self)->source
                    &&& exists|id: TunnelId| #[trigger]
                        G::gives(old(self)->generator, id, final(self)->generator) && call_ensures(
                            P::into_tunnel,
                            (item, id),
                            tunnel,
                        ) && has_id(tunnel, id)
                },
                Poll::Pending => {
                    &&& r == Poll::<Option<Result<P::Tunnel, E>>>::Pending
                    &&& *final(self) == *old(self)
                },
            },
    {
        if self.is_terminated() {
            return Poll::Ready(None);
        }
        match polled {
            Poll::Ready(None) => {
                *self = ConstructedTunnelTryStream::Ended { failed: false };
                Poll::Ready(None)
            },
            Poll::Ready(Some(Err(e))) => {
                *self = ConstructedTunnelTryStream::Ended { failed: true };
                Poll::Ready(Some(Err(e)))
            },
            Poll::Ready(Some(Ok(item))) => {
                let ghost before = *self;
                let ghost mut given = TunnelId { id: 0 };
                let r = match self {
                    ConstructedTunnelTryStream::Active { source: _, generator } => {
                        let id = generator.next();
                        proof {
                            given = id;
                        }
                        let tunnel = item.into_tunnel(id);
                        Poll::Ready(Some(Ok(tunnel)))
                    },
                    ConstructedTunnelTryStream::Ended { .. } => Poll::Ready(None),
                };
                assert(G::gives(before->generator, given, self->generator));
                r
            },
            Poll::Pending => Poll::Pending,
        }
    }

    /// Whether the stream is spent.
    pub fn is_terminated(&self) -> (r: bool)
        ensures
            r == (self is Ended),
    {
        match self {
            ConstructedTunnelTryStream::Active { .. } => false,
            ConstructedTunnelTryStream::Ended { .. } => true,
        }
    }
}

} // verus!
