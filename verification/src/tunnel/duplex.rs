//! Two tunnels within one process, each of which leads to the other.

use vstd::prelude::*;

use crate::tunnel::id::TunnelId;
use crate::tunnel::{Sided, TunnelError, TunnelIncoming, TunnelSide, WithTunnelId};

verus! {

/// One end of a pair of tunnels: `channel_to_remote` carries the streams that this end opens, and
/// `incoming` those that the other end does.
#[derive(Debug)]
pub struct DuplexTunnel<Up, Down, B> {
    pub id: TunnelId,
    pub channel_to_remote: Up,
    pub side: TunnelSide,
    pub incoming: TunnelIncoming<Down>,
    pub baggage: B,
}

impl<Up, Down, B> WithTunnelId for DuplexTunnel<Up, Down, B> {
    fn id(&self) -> (r: &TunnelId)
        ensures
            *r == self.id,
    {
        &self.id
    }
}

impl<Up, Down, B> Sided for DuplexTunnel<Up, Down, B> {
    fn side(&self) -> (r: TunnelSide)
        ensures
            r == self.side,
    {
        self.side
    }
}

impl<Up, Down, B> DuplexTunnel<Up, Down, B> {
    /// The end of `id` on `side`, which sends through `up` and receives from `down`.
    pub fn duplex_for(id: TunnelId, up: Up, down: Down, side: TunnelSide, baggage: B) -> (r: Self)
        ensures
            r.id == id,
            r.side == side,
            r.channel_to_remote == up,
            r.incoming == (TunnelIncoming { id, inner: down, side }),
            r.baggage == baggage,
    {
        DuplexTunnel {
            id,
            channel_to_remote: up,
            side,
            incoming: TunnelIncoming { id, inner: down, side },
            baggage,
        }
    }

    /// What opening a link gives, once its far end was handed to the other tunnel, or could not be
    /// because that tunnel is gone.
    pub fn open_link<S>(handed_over: bool, local: S) -> (r: Result<S, TunnelError>)
        ensures
            r == if handed_over {
                Ok::<S, TunnelError>(local)
            } else {
                Err(TunnelError::ConnectionClosed)
            },
    {
        if handed_over {
            Ok(local)
        } else {
            Err(TunnelError::ConnectionClosed)
        }
    }
}

/// Two tunnels, each of which leads to the other.
#[derive(Debug)]
pub struct EntangledTunnels<Up, Down, BL, BC> {
    pub listener: DuplexTunnel<Up, Down, BL>,
    pub connector: DuplexTunnel<Up, Down, BC>,
}

impl<Up, Down, BL, BC> EntangledTunnels<Up, Down, BL, BC> {
    /// The listening end and the connecting end.
    pub fn into_pair(self) -> (r: (DuplexTunnel<Up, Down, BL>, DuplexTunnel<Up, Down, BC>))
        ensures
            r == (self.listener, self.connector),
    {
        (self.listener, self.connector)
    }
}

/// Joins two channels, each given by its sending and its receiving end, into two tunnels: what one
/// tunnel sends, the other receives.
pub fn channel_with_baggage<Up, Down, BL, BC>(
    left: (Up, Down),
    right: (Up, Down),
    listener_baggage: BL,
    connector_baggage: BC,
) -> (r: EntangledTunnels<Up, Down, BL, BC>)
    ensures
        r.listener.id == (TunnelId { id: 0 }),
        r.listener.side == TunnelSide::Listen,
        r.listener.baggage == listener_baggage,
        r.connector.id == (TunnelId { id: 1 }),
        r.connector.side == TunnelSide::Connect,
        r.connector.baggage == connector_baggage,
        (r.listener.channel_to_remote, r.connector.incoming.inner) == left,
        (r.connector.channel_to_remote, r.listener.incoming.inner) == right,
        r.listener.incoming.id == r.listener.id,
        r.listener.incoming.side == r.listener.side,
        r.connector.incoming.id == r.connector.id,
        r.connector.incoming.side == r.connector.side,
{
    let (left_up, right_down) = left;
    let (right_up, left_down) = right;
    EntangledTunnels {
        listener: DuplexTunnel::duplex_for(
            TunnelId::new(0),
            left_up,
            left_down,
            TunnelSide::Listen,
            listener_baggage,
        ),
        connector: DuplexTunnel::duplex_for(
            TunnelId::new(1),
            right_up,
            right_down,
            TunnelSide::Connect,
            connector_baggage,
        ),
    }
}

/// Joins two channels into two tunnels without baggage.
pub fn channel<Up, Down>(left: (Up, Down), right: (Up, Down)) -> (r: EntangledTunnels<
    Up,
    Down,
    (),
    (),
>)
    ensures
        r.listener.id == (TunnelId { id: 0 }),
        r.listener.side == TunnelSide::Listen,
        r.connector.id == (TunnelId { id: 1 }),
        r.connector.side == TunnelSide::Connect,
        (r.listener.channel_to_remote, r.connector.incoming.inner) == left,
        (r.connector.channel_to_remote, r.listener.incoming.inner) == right,
        r.listener.incoming.id == r.listener.id,
        r.listener.incoming.side == r.listener.side,
        r.connector.incoming.id == r.connector.id,
        r.connector.incoming.side == r.connector.side,
{
    channel_with_baggage(left, right, (), ())
}

} // verus!
