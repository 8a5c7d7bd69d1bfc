//! Tunnels: their names, sides and ends, and what closes them.

use std::rc::Rc;
use std::sync::Arc;

use vstd::prelude::*;
use vstd::std_specs::cmp::PartialEqSpec;
use vstd::string::StringExecFns;

use crate::net::{socket_text, SocketAddr};
use crate::numeral::{decimal, law_port_round_trip, numeral, port_of, PortParseError};
use crate::text::same_text;
use crate::tunnel::id::TunnelId;

pub mod control;
pub mod duplex;
pub mod id;

verus! {

/// The name of a tunnel, by which it is found in a registry.
#[derive(Debug, Eq, PartialOrd, Ord, Hash)]
pub struct TunnelName {
    name: Arc<String>,
}

impl View for TunnelName {
    type V = Seq<char>;

    closed spec fn view(&self) -> Seq<char> {
        self.name@
    }
}

impl Clone for TunnelName {
    fn clone(&self) -> (r: TunnelName)
        ensures
            r == *self,
            r@ == self@,
    {
        TunnelName { name: self.name.clone() }
    }
}

impl PartialEq for TunnelName {
    fn eq(&self, other: &TunnelName) -> (r: bool) {
        same_text(self.raw(), other.raw())
    }
}

impl vstd::std_specs::cmp::PartialEqSpecImpl for TunnelName {
    open spec fn obeys_eq_spec() -> bool {
        true
    }

    open spec fn eq_spec(&self, other: &TunnelName) -> bool {
        self@ == other@
    }
}

/// Names are the same exactly when their texts are.
pub proof fn law_names_are_texts(s: TunnelName, t: TunnelName)
    ensures
        s.eq_spec(&t) <==> s@ == t@,
{
}

impl TunnelName {
    pub fn new(t: String) -> (r: TunnelName)
        ensures
            r@ == t@,
    {
        TunnelName { name: Arc::new(t) }
    }

    /// The text of the name.
    pub fn raw(&self) -> (r: &str)
        ensures
            r@ == self@,
    {
        self.name.as_str()
    }

    /// The text of the name, in a string of its own.
    pub fn into_string(self) -> (r: String)
        ensures
            r@ == self@,
    {
        self.name.as_str().to_owned()
    }
}

/// How the use of a tunnel can fail.
#[derive(Debug, Clone, Copy, PartialEq, Eq, Structural)]
pub enum TunnelError {
    /// The remote closed the connection.
    ConnectionClosed,
    /// The application closed the connection.
    ApplicationClosed,
    /// The connection timed out.
    TimedOut,
    /// The transport failed.
    TransportError,
    /// The connection was closed on this side.
    LocallyClosed,
}

/// The message of a tunnel error.
pub open spec fn error_text(e: TunnelError) -> Seq<char> {
    match e {
        TunnelError::ConnectionClosed => "Connection closed"@,
        TunnelError::ApplicationClosed => "Connection closed by application"@,
        TunnelError::TimedOut => "Connection timed out"@,
        TunnelError::TransportError => "Transport error encountered"@,
        TunnelError::LocallyClosed => "Connection closed locally"@,
    }
}

/// Each kind of tunnel error has a message of its own.
pub proof fn law_error_texts_differ(a: TunnelError, b: TunnelError)
    ensures
        error_text(a) == error_text(b) <==> a == b,
        error_text(TunnelError::ConnectionClosed) == "Connection closed"@,
        error_text(TunnelError::ApplicationClosed) == "Connection closed"@ + " by application"@,
        error_text(TunnelError::LocallyClosed) == "Connection closed"@ + " locally"@,
        error_text(TunnelError::TimedOut) == "Connection timed out"@,
        error_text(TunnelError::TransportError) == "Transport error encountered"@,
{
    reveal_strlit("Connection closed");
    reveal_strlit("Connection closed by application");
    reveal_strlit("Connection timed out");
    reveal_strlit("Transport error encountered");
    reveal_strlit("Connection closed locally");
    reveal_strlit(" by application");
    reveal_strlit(" locally");
    assert("Connection closed by application"@ =~= "Connection closed"@ + " by application"@);
    assert("Connection closed locally"@ =~= "Connection closed"@ + " locally"@);
    assert(error_text(a).len() == match a {
        TunnelError::ConnectionClosed => 17nat,
        TunnelError::ApplicationClosed => 32,
        TunnelError::TimedOut => 20,
        TunnelError::TransportError => 27,
        TunnelError::LocallyClosed => 25,
    });
    assert(error_text(b).len() == match b {
        TunnelError::ConnectionClosed => 17nat,
        TunnelError::ApplicationClosed => 32,
        TunnelError::TimedOut => 20,
        TunnelError::TransportError => 27,
        TunnelError::LocallyClosed => 25,
    });
}

/// Why a transport connection was lost, in the words of the transport.
#[derive(Debug, Clone, Copy, PartialEq, Eq, Structural)]
pub enum ConnectionLoss {
    VersionMismatch,
    TransportError,
    ConnectionClosed,
    ApplicationClosed,
    Reset,
    TimedOut,
    LocallyClosed,
}

impl TunnelError {
    /// What a lost connection means to those who use the tunnel.
    pub fn from_connection(loss: ConnectionLoss) -> (r: TunnelError)
        ensures
            r == match loss {
                ConnectionLoss::VersionMismatch => TunnelError::TransportError,
                ConnectionLoss::TransportError => TunnelError::TransportError,
                ConnectionLoss::ConnectionClosed => TunnelError::ConnectionClosed,
                ConnectionLoss::ApplicationClosed => TunnelError::ApplicationClosed,
                ConnectionLoss::Reset => TunnelError::TransportError,
                ConnectionLoss::TimedOut => TunnelError::TimedOut,
                ConnectionLoss::LocallyClosed => TunnelError::LocallyClosed,
            },
    {
        match loss {
            ConnectionLoss::VersionMismatch => TunnelError::TransportError,
            ConnectionLoss::TransportError => TunnelError::TransportError,
            ConnectionLoss::ConnectionClosed => TunnelError::ConnectionClosed,
            ConnectionLoss::ApplicationClosed => TunnelError::ApplicationClosed,
            ConnectionLoss::Reset => TunnelError::TransportError,
            ConnectionLoss::TimedOut => TunnelError::TimedOut,
            ConnectionLoss::LocallyClosed => TunnelError::LocallyClosed,
        }
    }

    /// The message of the error.
    pub fn message(&self) -> (r: &'static str)
        ensures
            r@ == error_text(*self),
    {
        match self {
            TunnelError::ConnectionClosed => "Connection closed",
            TunnelError::ApplicationClosed => "Connection closed by application",
            TunnelError::TimedOut => "Connection timed out",
            TunnelError::TransportError => "Transport error encountered",
            TunnelError::LocallyClosed => "Connection closed locally",
        }
    }
}

/// Which end of a tunnel this is.
#[derive(Debug, Clone, Copy, PartialEq, Eq, Structural)]
pub enum TunnelSide {
    /// The end that made the connection.
    Connect,
    /// The end that the connection was made to.
    Listen,
}

/// Where the other end of a tunnel is.
#[derive(Debug, Clone, Copy, PartialEq, Eq)]
pub enum TunnelAddressInfo {
    Unidentified,
    Socket(SocketAddr),
    Port(u16),
}

/// The text of an address, which serves as a name where a tunnel is given no other.
pub open spec fn address_info_text(addr: TunnelAddressInfo) -> Seq<char> {
    match addr {
        TunnelAddressInfo::Unidentified => "Unidentified"@,
        TunnelAddressInfo::Socket(s) => socket_text(s),
        TunnelAddressInfo::Port(port) => numeral(port as int, 10),
    }
}

/// The text of a port reads as that port.
pub proof fn law_port_text_names_the_port(port: u16)
    ensures
        port_of(address_info_text(TunnelAddressInfo::Port(port))) == Ok::<int, PortParseError>(
            port as int,
        ),
{
    law_port_round_trip(port);
}

impl TunnelAddressInfo {
    pub fn to_string(&self) -> (r: String)
        ensures
            r@ == address_info_text(*self),
    {
        match self {
            TunnelAddressInfo::Unidentified => "Unidentified".to_owned(),
            TunnelAddressInfo::Socket(s) => s.to_text(),
            TunnelAddressInfo::Port(port) => decimal(*port as u64),
        }
    }
}

/// Why a tunnel was closed.
#[derive(Debug, PartialEq, Eq)]
pub enum TunnelCloseReason {
    /// One end left in good order; `remote_initiated` says which.
    GracefulExit { remote_initiated: bool },
    /// Authentication failed; `remote_responsible` says at which end, where that is known.
    AuthenticationFailure { remote_responsible: Option<bool> },
    Error(TunnelError),
    /// An error of the application, by its message.
    ApplicationError(String),
    /// A message of the application.
    ApplicationErrorMessage(String),
    /// No reason was given.
    Unspecified,
}

/// The message of a close reason.
pub open spec fn close_reason_text(reason: TunnelCloseReason) -> Seq<char> {
    match reason {
        TunnelCloseReason::GracefulExit { remote_initiated } => {
            "Tunnel closed gracefully - initiator: "@ + if remote_initiated {
                "remote"@
            } else {
                "local"@
            }
        },
        TunnelCloseReason::AuthenticationFailure { remote_responsible } => {
            "Tunnel failed authentication - responsibility: "@ + match remote_responsible {
                Some(true) => "remote"@,
                Some(false) => "local"@,
                None => "unknown"@,
            }
        },
        TunnelCloseReason::Error(e) => "Tunnel closed due to error: "@ + error_text(e),
        TunnelCloseReason::ApplicationError(m) => "Tunnel closed due to application error: "@ + m@,
        TunnelCloseReason::ApplicationErrorMessage(m) => {
            "Tunnel closed due to application error message: "@ + m@
        },
        TunnelCloseReason::Unspecified => "Tunnel closed without indication of reason"@,
    }
}

/// The message of a close reason ends in what the reason holds: which end left, which end is
/// responsible, the message of the error, or what the application said.
pub proof fn law_close_reason_says_what_it_holds(reason: TunnelCloseReason)
    ensures
        match reason {
            TunnelCloseReason::GracefulExit { remote_initiated } => says_at_end(
                close_reason_text(reason),
                if remote_initiated {
                    ": remote"@
                } else {
                    ": local"@
                },
            ),
            TunnelCloseReason::AuthenticationFailure { remote_responsible } => says_at_end(
                close_reason_text(reason),
                if remote_responsible == Some(true) {
                    ": remote"@
                } else if remote_responsible == Some(false) {
                    ": local"@
                } else {
                    ": unknown"@
                },
            ),
            TunnelCloseReason::Error(e) => says_at_end(
                close_reason_text(reason),
                ": "@ + error_text(e),
            ),
            TunnelCloseReason::ApplicationError(m) => says_at_end(
                close_reason_text(reason),
                " error: "@ + m@,
            ),
            TunnelCloseReason::ApplicationErrorMessage(m) => says_at_end(
                close_reason_text(reason),
                " message: "@ + m@,
            ),
            TunnelCloseReason::Unspecified => says_at_end(
                close_reason_text(reason),
                "without indication of reason"@,
            ),
        },
{
    let text = close_reason_text(reason);
    reveal_strlit("Tunnel closed gracefully - initiator: ");
    reveal_strlit("Tunnel failed authentication - responsibility: ");
    reveal_strlit("Tunnel closed due to error: ");
    reveal_strlit("Tunnel closed due to application error: ");
    reveal_strlit("Tunnel closed due to application error message: ");
    reveal_strlit("Tunnel closed without indication of reason");
    reveal_strlit("remote");
    reveal_strlit("local");
    reveal_strlit("unknown");
    reveal_strlit(": remote");
    reveal_strlit(": local");
    reveal_strlit(": unknown");
    reveal_strlit(": ");
    reveal_strlit(" error: ");
    reveal_strlit(" message: ");
    reveal_strlit("without indication of reason");
    match reason {
        TunnelCloseReason::GracefulExit { remote_initiated } => {
            if remote_initiated {
                assert(text.skip(text.len() - 8) =~= ": remote"@);
            } else {
                assert(text.skip(text.len() - 7) =~= ": local"@);
            }
        },
        TunnelCloseReason::AuthenticationFailure { remote_responsible } => {
            if remote_responsible == Some(true) {
                assert(text.skip(text.len() - 8) =~= ": remote"@);
            } else if remote_responsible == Some(false) {
                assert(text.skip(text.len() - 7) =~= ": local"@);
            } else {
                assert(text.skip(text.len() - 9) =~= ": unknown"@);
            }
        },
        TunnelCloseReason::Error(e) => {
            let end = ": "@ + error_text(e);
            assert(text.skip(text.len() - end.len()) =~= end);
        },
        TunnelCloseReason::ApplicationError(m) => {
            let end = " error: "@ + m@;
            assert(text.skip(text.len() - end.len()) =~= end);
        },
        TunnelCloseReason::ApplicationErrorMessage(m) => {
            let end = " message: "@ + m@;
            assert(text.skip(text.len() - end.len()) =~= end);
        },
        TunnelCloseReason::Unspecified => {
            let end = "without indication of reason"@;
            assert(text.skip(text.len() - end.len()) =~= end);
        },
    }
}

/// Whether a text ends in another.
pub open spec fn says_at_end(text: Seq<char>, end: Seq<char>) -> bool {
    end.len() <= text.len() && text.skip(text.len() - end.len()) == end
}

impl TunnelCloseReason {
    /// Whether no reason was given.
    pub fn is_unspecified(&self) -> (r: bool)
        ensures
            r == (self is Unspecified),
    {
        match self {
            TunnelCloseReason::Unspecified => true,
            _ => false,
        }
    }

    /// Whether one end left in good order.
    pub fn is_graceful_exit(&self) -> (r: bool)
        ensures
            r == (self is GracefulExit),
    {
        match self {
            TunnelCloseReason::GracefulExit { .. } => true,
            _ => false,
        }
    }

    /// The message of the reason.
    pub fn to_text(&self) -> (r: String)
        ensures
            r@ == close_reason_text(*self),
    {
        let mut out = String::new();
        match self {
            TunnelCloseReason::GracefulExit { remote_initiated } => {
                out.append("Tunnel closed gracefully - initiator: ");
                if *remote_initiated {
                    out.append("remote");
                } else {
                    out.append("local");
                }
            },
            TunnelCloseReason::AuthenticationFailure { remote_responsible } => {
                out.append("Tunnel failed authentication - responsibility: ");
                match remote_responsible {
                    Some(remote) => {
                        if *remote {
                            out.append("remote");
                        } else {
                            out.append("local");
                        }
                    },
                    None => {
                        out.append("unknown");
                    },
                }
            },
            TunnelCloseReason::Error(e) => {
                out.append("Tunnel closed due to error: ");
                out.append(e.message());
            },
            TunnelCloseReason::ApplicationError(m) => {
                out.append("Tunnel closed due to application error: ");
                out.append(m.as_str());
            },
            TunnelCloseReason::ApplicationErrorMessage(m) => {
                out.append("Tunnel closed due to application error message: ");
                out.append(m.as_str());
            },
            TunnelCloseReason::Unspecified => {
                out.append("Tunnel closed without indication of reason");
            },
        }
        assert(out@ =~= close_reason_text(*self));
        out
    }
}

/// What carries the identity of a tunnel, which stays the same for as long as the tunnel lives.
pub trait WithTunnelId {
    fn id(&self) -> &TunnelId;
}

/// What knows which end of a tunnel it is.
pub trait Sided {
    fn side(&self) -> TunnelSide;
}

impl<T: WithTunnelId> WithTunnelId for Box<T> {
    fn id(&self) -> (r: &TunnelId)
        ensures
            call_ensures(T::id, (&**self,), r),
    {
        (**self).id()
    }
}

impl<T: WithTunnelId> WithTunnelId for Rc<T> {
    fn id(&self) -> (r: &TunnelId)
        ensures
            call_ensures(T::id, (&**self,), r),
    {
        (**self).id()
    }
}

impl<T: WithTunnelId> WithTunnelId for Arc<T> {
    fn id(&self) -> (r: &TunnelId)
        ensures
            call_ensures(T::id, (&**self,), r),
    {
        (**self).id()
    }
}

impl<T: Sided> Sided for Box<T> {
    fn side(&self) -> (r: TunnelSide)
        ensures
            call_ensures(T::side, (&**self,), r),
    {
        (**self).side()
    }
}

impl<T: Sided> Sided for Arc<T> {
    fn side(&self) -> (r: TunnelSide)
        ensures
            call_ensures(T::side, (&**self,), r),
    {
        (**self).side()
    }
}

/// Whether the identity of a tunnel is this one: it can tell no other.
pub open spec fn has_id<T: WithTunnelId>(tunnel: T, tunnel_id: TunnelId) -> bool {
    forall|id: &TunnelId| call_ensures(T::id, (&tunnel,), id) ==> *id == tunnel_id
}

/// What becomes a tunnel once it is given an identity, which the tunnel then has for good.
pub trait IntoTunnel {
    type Tunnel: WithTunnelId;

    fn into_tunnel(self, tunnel_id: TunnelId) -> (r: Self::Tunnel) where Self: Sized
        ensures
            has_id(r, tunnel_id),
    ;
}

impl<Params: IntoTunnel> IntoTunnel for Box<Params> {
    type Tunnel = Params::Tunnel;

    fn into_tunnel(self, tunnel_id: TunnelId) -> (r: Self::Tunnel)
        ensures
            call_ensures(Params::into_tunnel, (*self, tunnel_id), r),
    {
        (*self).into_tunnel(tunnel_id)
    }
}

/// Becomes a box of the tunnel.
#[derive(Debug, Clone, Copy, Hash, PartialEq, Eq)]
pub struct IntoBoxedTunnel<Params>(pub Params);

/// Becomes a counted reference to the tunnel, for one thread.
#[derive(Debug, Clone, Copy, Hash, PartialEq, Eq)]
pub struct IntoRcTunnel<Params>(pub Params);

/// Becomes a counted reference to the tunnel, for many threads.
#[derive(Debug, Clone, Copy, Hash, PartialEq, Eq)]
pub struct IntoArcTunnel<Params>(pub Params);

impl<Params> IntoBoxedTunnel<Params> {
    pub fn into_inner(self) -> (r: Params)
        ensures
            r == self.0,
    {
        self.0
    }
}

impl<Params> IntoRcTunnel<Params> {
    pub fn into_inner(self) -> (r: Params)
        ensures
            r == self.0,
    {
        self.0
    }
}

impl<Params> IntoArcTunnel<Params> {
    pub fn into_inner(self) -> (r: Params)
        ensures
            r == self.0,
    {
        self.0
    }
}

impl<Params: IntoTunnel> IntoTunnel for IntoBoxedTunnel<Params> {
    type Tunnel = Box<Params::Tunnel>;

    fn into_tunnel(self, tunnel_id: TunnelId) -> (r: Self::Tunnel)
        ensures
            call_ensures(Params::into_tunnel, (self.0, tunnel_id), *r),
    {
        Box::new(self.into_inner().into_tunnel(tunnel_id))
    }
}

impl<Params: IntoTunnel> IntoTunnel for IntoRcTunnel<Params> {
    type Tunnel = Rc<Params::Tunnel>;

    fn into_tunnel(self, tunnel_id: TunnelId) -> (r: Self::Tunnel)
        ensures
            call_ensures(Params::into_tunnel, (self.0, tunnel_id), *r),
    {
        Rc::new(self.into_inner().into_tunnel(tunnel_id))
    }
}

impl<Params: IntoTunnel> IntoTunnel for IntoArcTunnel<Params> {
    type Tunnel = Arc<Params::Tunnel>;

    fn into_tunnel(self, tunnel_id: TunnelId) -> (r: Self::Tunnel)
        ensures
            call_ensures(Params::into_tunnel, (self.0, tunnel_id), *r),
    {
        Arc::new(self.into_inner().into_tunnel(tunnel_id))
    }
}

/// What the other end of a tunnel can open.
#[derive(Debug)]
pub enum TunnelIncomingType<S> {
    /// A stream that goes both ways.
    BiStream(S),
}

/// The streams that the other end of a tunnel opens.
#[derive(Debug)]
pub struct TunnelIncoming<I> {
    pub id: TunnelId,
    pub inner: I,
    pub side: TunnelSide,
}

impl<I> TunnelIncoming<I> {
    /// The source of the streams.
    pub fn streams(self) -> (r: I)
        ensures
            r == self.inner,
    {
        self.inner
    }

    /// The source of the streams, for as long as it is borrowed.
    pub fn streams_ref(&mut self) -> (r: &mut I)
        ensures
            *r == old(self).inner,
            final(self).inner == *final(r),
            final(self).id == old(self).id,
            final(self).side == old(self).side,
    {
        &mut self.inner
    }
}

impl<I> WithTunnelId for TunnelIncoming<I> {
    fn id(&self) -> (r: &TunnelId)
        ensures
            *r == self.id,
    {
        &self.id
    }
}

impl<I> Sided for TunnelIncoming<I> {
    fn side(&self) -> (r: TunnelSide)
        ensures
            r == self.side,
    {
        self.side
    }
}

} // verus!
