//! How the two ends of a fresh stream agree on the service that will handle it.
//!
//! Both ends greet with four fixed bytes and a version, at the same time. The end that opened the
//! stream then sends an address in a frame; the other end looks for a service, and answers with
//! one byte: zero if it found one.

use std::sync::Arc;

use vstd::prelude::*;
use vstd::utf8::{
    decode_utf8, decode_utf8_encode_utf8, encode_utf8, encode_utf8_decode_utf8,
    encode_utf8_valid_utf8, valid_utf8,
};

use crate::address::{is_route, RouteAddress};
use crate::service::{ServiceError, ServiceRegistry};
use crate::text::utf8_text;
use crate::tunnel::id::TunnelId;

verus! {

/// How a negotiation can fail.
#[derive(Debug)]
pub enum NegotiationError<ApplicationError> {
    /// The stream could not be read.
    ReadError,
    /// The stream could not be written.
    WriteError,
    /// The remote broke the protocol.
    ProtocolViolation,
    /// The protocol was refused.
    Refused,
    /// The remote speaks a version of the negotiation that is not known here.
    UnsupportedProtocolVersion,
    /// The remote speaks a version of the service that is not known here.
    UnsupportedServiceVersion,
    /// What runs above the negotiation failed.
    ApplicationError(ApplicationError),
    /// What runs above the negotiation failed, and the tunnel cannot go on.
    FatalError(ApplicationError),
}

/// Whether `r` is `e` with what the application reported replaced as `f` says.
pub open spec fn maps_error<A, B>(
    e: NegotiationError<A>,
    r: NegotiationError<B>,
    f: spec_fn(A, B) -> bool,
) -> bool {
    match e {
        NegotiationError::ReadError => r is ReadError,
        NegotiationError::WriteError => r is WriteError,
        NegotiationError::ProtocolViolation => r is ProtocolViolation,
        NegotiationError::Refused => r is Refused,
        NegotiationError::UnsupportedProtocolVersion => r is UnsupportedProtocolVersion,
        NegotiationError::UnsupportedServiceVersion => r is UnsupportedServiceVersion,
        NegotiationError::ApplicationError(a) => r matches NegotiationError::ApplicationError(b)
            && f(a, b),
        NegotiationError::FatalError(a) => r matches NegotiationError::FatalError(b) && f(a, b),
    }
}

/// To replace what the application reported leaves the kind of an error as it is.
pub proof fn law_mapping_keeps_the_kind<A, B>(
    e: NegotiationError<A>,
    r: NegotiationError<B>,
    f: spec_fn(A, B) -> bool,
)
    requires
        maps_error(e, r, f),
    ensures
        r is ReadError <==> e is ReadError,
        r is WriteError <==> e is WriteError,
        r is ProtocolViolation <==> e is ProtocolViolation,
        r is Refused <==> e is Refused,
        r is UnsupportedProtocolVersion <==> e is UnsupportedProtocolVersion,
        r is UnsupportedServiceVersion <==> e is UnsupportedServiceVersion,
        r matches NegotiationError::ApplicationError(b) ==> (
        e matches NegotiationError::ApplicationError(a) && f(a, b)),
        r matches NegotiationError::FatalError(b) ==> (e matches NegotiationError::FatalError(a)
            && f(a, b)),
{
}

impl<ApplicationError> NegotiationError<ApplicationError> {
    /// The error with `f` applied to what the application reported.
    pub fn map_err<TErr, F: FnOnce(ApplicationError) -> TErr>(self, f: F) -> (r: NegotiationError<
        TErr,
    >)
        requires
            self matches NegotiationError::ApplicationError(e) ==> f.requires((e,)),
            self matches NegotiationError::FatalError(e) ==> f.requires((e,)),
        ensures
            maps_error(self, r, |a: ApplicationError, b: TErr| f.ensures((a,), b)),
    {
        match self {
            NegotiationError::ReadError => NegotiationError::ReadError,
            NegotiationError::WriteError => NegotiationError::WriteError,
            NegotiationError::ProtocolViolation => NegotiationError::ProtocolViolation,
            NegotiationError::Refused => NegotiationError::Refused,
            NegotiationError::UnsupportedProtocolVersion => {
                NegotiationError::UnsupportedProtocolVersion
            },
            NegotiationError::UnsupportedServiceVersion => {
                NegotiationError::UnsupportedServiceVersion
            },
            NegotiationError::ApplicationError(e) => NegotiationError::ApplicationError(f(e)),
            NegotiationError::FatalError(e) => NegotiationError::FatalError(f(e)),
        }
    }

    /// The error with what the application reported converted.
    pub fn err_into<TNewErr: From<ApplicationError>>(self) -> (r: NegotiationError<TNewErr>)
        ensures
            maps_error(
                self,
                r,
                |a: ApplicationError, b: TNewErr|
                    call_ensures(<TNewErr as From<ApplicationError>>::from, (a,), b),
            ),
    {
        match self {
            NegotiationError::ReadError => NegotiationError::ReadError,
            NegotiationError::WriteError => NegotiationError::WriteError,
            NegotiationError::ProtocolViolation => NegotiationError::ProtocolViolation,
            NegotiationError::Refused => NegotiationError::Refused,
            NegotiationError::UnsupportedProtocolVersion => {
                NegotiationError::UnsupportedProtocolVersion
            },
            NegotiationError::UnsupportedServiceVersion => {
                NegotiationError::UnsupportedServiceVersion
            },
            NegotiationError::ApplicationError(e) => NegotiationError::ApplicationError(
                <TNewErr as From<ApplicationError>>::from(e),
            ),
            NegotiationError::FatalError(e) => NegotiationError::FatalError(
                <TNewErr as From<ApplicationError>>::from(e),
            ),
        }
    }

    /// What a failed negotiation means to a service that started it.
    pub fn into_service_error<OutError: From<ApplicationError>>(self) -> (r: ServiceError<OutError>)
        ensures
            match self {
                NegotiationError::ReadError => r is UnexpectedEnd,
                NegotiationError::WriteError => r is UnexpectedEnd,
                NegotiationError::ProtocolViolation => r is IllegalResponse,
                NegotiationError::Refused => r is Refused,
                NegotiationError::UnsupportedProtocolVersion => r is Refused,
                NegotiationError::UnsupportedServiceVersion => r is Refused,
                NegotiationError::ApplicationError(e) => r matches ServiceError::InternalError(o)
                    && call_ensures(<OutError as From<ApplicationError>>::from, (e,), o),
                NegotiationError::FatalError(e) => r matches ServiceError::InternalError(o)
                    && call_ensures(<OutError as From<ApplicationError>>::from, (e,), o),
            },
    {
        match self {
            NegotiationError::ReadError => ServiceError::UnexpectedEnd,
            NegotiationError::WriteError => ServiceError::UnexpectedEnd,
            NegotiationError::ProtocolViolation => ServiceError::IllegalResponse,
            NegotiationError::Refused => ServiceError::Refused,
            NegotiationError::UnsupportedProtocolVersion => ServiceError::Refused,
            NegotiationError::UnsupportedServiceVersion => ServiceError::Refused,
            NegotiationError::ApplicationError(e) => ServiceError::InternalError(
                <OutError as From<ApplicationError>>::from(e),
            ),
            NegotiationError::FatalError(e) => ServiceError::InternalError(
                <OutError as From<ApplicationError>>::from(e),
            ),
        }
    }
}

/// The four bytes that mark a stream of this protocol: `NYAN`.
pub const SNOCAT_NEGOTIATION_MAGIC: [u8; 4] = [0x4e, 0x59, 0x41, 0x4e];

/// The version of the negotiation that both ends speak.
pub const PROTOCOL_VERSION: u8 = 0;

/// The longest frame in which an address is read.
pub const MAX_ADDRESS_FRAME: usize = 2048;

/// What an end sends first: the magic bytes and its version.
pub open spec fn greeting_bytes(version: u8) -> Seq<u8> {
    seq![0x4eu8, 0x59, 0x41, 0x4e, version]
}

/// Whether these are the magic bytes.
pub open spec fn is_magic(bytes: [u8; 4]) -> bool {
    bytes@ == seq![0x4eu8, 0x59, 0x41, 0x4e]
}

/// What an end sends first, in the version that it speaks.
pub fn greeting(version: u8) -> (r: Vec<u8>)
    ensures
        r@ == greeting_bytes(version),
{
    let mut out: Vec<u8> = Vec::new();
    let mut i: usize = 0;
    while i < 4
        invariant
            i <= 4,
            out@ == SNOCAT_NEGOTIATION_MAGIC@.take(i as int),
        decreases 4 - i,
    {
        out.push(SNOCAT_NEGOTIATION_MAGIC[i]);
        i += 1;
    }
    out.push(version);
    assert(out@ =~= greeting_bytes(version));
    out
}

/// How far the greeting has come.
#[derive(Debug, Clone, Copy, PartialEq, Eq, Structural)]
pub enum HandshakeState {
    /// The greeting goes out while the magic bytes of the remote are awaited.
    Greeting { sent: bool, seen: bool },
    /// The version of the remote is awaited.
    Version,
    /// The greeting is over.
    Over,
}

/// What happened on the stream during the greeting.
#[derive(Debug, Clone, Copy)]
pub enum HandshakeEvent {
    /// The greeting was sent, or could not be.
    Sent(bool),
    /// Four bytes were read, or could not be.
    Magic(Option<[u8; 4]>),
    /// The version byte was read, or could not be.
    Version(Option<u8>),
}

/// What is to be done next during the greeting.
#[derive(Debug)]
pub enum HandshakeAction<AE> {
    /// Nothing until the other half of the greeting is done.
    Wait,
    /// Read the version of the remote.
    ReadVersion,
    /// The remote speaks this version.
    Done(u8),
    /// The greeting failed.
    Fail(NegotiationError<AE>),
}

/// The greeting, as a function of what happens. An event that the state does not wait for has no
/// meaning.
pub open spec fn handshake_step<AE>(state: HandshakeState, event: HandshakeEvent) -> Option<
    (HandshakeState, HandshakeAction<AE>),
> {
    match (state, event) {
        (HandshakeState::Greeting { sent: false, seen }, HandshakeEvent::Sent(ok)) => Some(
            if !ok {
                (HandshakeState::Over, HandshakeAction::Fail(NegotiationError::WriteError))
            } else if seen {
                (HandshakeState::Version, HandshakeAction::ReadVersion)
            } else {
                (HandshakeState::Greeting { sent: true, seen }, HandshakeAction::Wait)
            },
        ),
        (HandshakeState::Greeting { sent, seen: false }, HandshakeEvent::Magic(read)) => Some(
            if !(read matches Some(bytes) && is_magic(bytes)) {
                (HandshakeState::Over, HandshakeAction::Fail(NegotiationError::ProtocolViolation))
            } else if sent {
                (HandshakeState::Version, HandshakeAction::ReadVersion)
            } else {
                (HandshakeState::Greeting { sent, seen: true }, HandshakeAction::Wait)
            },
        ),
        (HandshakeState::Version, HandshakeEvent::Version(read)) => Some(
            match read {
                Some(version) => (HandshakeState::Over, HandshakeAction::Done(version)),
                None => (HandshakeState::Over, HandshakeAction::Fail(NegotiationError::ReadError)),
            },
        ),
        _ => None,
    }
}

/// Takes the greeting one event further.
pub fn protocol_magic<AE>(state: HandshakeState, event: HandshakeEvent) -> (r: (
    HandshakeState,
    HandshakeAction<AE>,
))
    requires
        handshake_step::<AE>(state, event) is Some,
    ensures
        handshake_step::<AE>(state, event) == Some(r),
{
    match (state, event) {
        (HandshakeState::Greeting { sent: _, seen }, HandshakeEvent::Sent(ok)) => {
            if !ok {
                (HandshakeState::Over, HandshakeAction::Fail(NegotiationError::WriteError))
            } else if seen {
                (HandshakeState::Version, HandshakeAction::ReadVersion)
            } else {
                (HandshakeState::Greeting { sent: true, seen }, HandshakeAction::Wait)
            }
        },
        (HandshakeState::Greeting { sent, seen: _ }, HandshakeEvent::Magic(read)) => {
            let matched: bool = match read {
                Some(b) => {
                    assert(is_magic(b) <==> b@ =~= seq![0x4eu8, 0x59, 0x41, 0x4e]);
                    b[0] == SNOCAT_NEGOTIATION_MAGIC[0] && b[1] == SNOCAT_NEGOTIATION_MAGIC[1]
                        && b[2] == SNOCAT_NEGOTIATION_MAGIC[2] && b[3]
                        == SNOCAT_NEGOTIATION_MAGIC[3]
                },
                None => false,
            };
            if !matched {
                (HandshakeState::Over, HandshakeAction::Fail(NegotiationError::ProtocolViolation))
            } else if sent {
                (HandshakeState::Version, HandshakeAction::ReadVersion)
            } else {
                (HandshakeState::Greeting { sent, seen: true }, HandshakeAction::Wait)
            }
        },
        (_, HandshakeEvent::Version(read)) => match read {
            Some(version) => (HandshakeState::Over, HandshakeAction::Done(version)),
            None => (HandshakeState::Over, HandshakeAction::Fail(NegotiationError::ReadError)),
        },
        (_, _) => (HandshakeState::Over, HandshakeAction::Wait),
    }
}

/// How far the end that opened the stream has come.
#[derive(Debug, Clone, Copy, PartialEq, Eq, Structural)]
pub enum ClientPhase {
    Handshake(HandshakeState),
    /// The address goes out.
    Address,
    /// The answer is awaited.
    Verdict,
    Over,
}

/// What happened on the stream.
#[derive(Debug, Clone, Copy)]
pub enum ClientEvent {
    Handshake(HandshakeEvent),
    /// The frame with the address was sent, or could not be.
    AddressSent(bool),
    /// The answer was read, or could not be.
    Verdict(Option<u8>),
}

/// What the end that opened the stream is to do next.
#[derive(Debug)]
pub enum ClientAction<AE> {
    Wait,
    ReadVersion,
    /// Send the bytes of the address in a frame.
    SendAddress,
    /// Read the answer.
    ReadVerdict,
    /// A service on the other end handles the stream from here on.
    Complete,
    Fail(NegotiationError<AE>),
}

/// The negotiation of the end that opened the stream, as a function of what happens.
pub open spec fn client_step<AE>(phase: ClientPhase, event: ClientEvent) -> Option<
    (ClientPhase, ClientAction<AE>),
> {
    match (phase, event) {
        (ClientPhase::Handshake(state), ClientEvent::Handshake(e)) => match handshake_step::<AE>(
            state,
            e,
        ) {
            None => None,
            Some((next, HandshakeAction::Wait)) => Some(
                (ClientPhase::Handshake(next), ClientAction::Wait),
            ),
            Some((next, HandshakeAction::ReadVersion)) => Some(
                (ClientPhase::Handshake(next), ClientAction::ReadVersion),
            ),
            Some((_, HandshakeAction::Done(version))) => Some(
                if version > PROTOCOL_VERSION {
                    (
                        ClientPhase::Over,
                        ClientAction::Fail(NegotiationError::UnsupportedProtocolVersion),
                    )
                } else {
                    (ClientPhase::Address, ClientAction::SendAddress)
                },
            ),
            Some((_, HandshakeAction::Fail(e))) => Some((ClientPhase::Over, ClientAction::Fail(e))),
        },
        (ClientPhase::Address, ClientEvent::AddressSent(ok)) => Some(
            if ok {
                (ClientPhase::Verdict, ClientAction::ReadVerdict)
            } else {
                (ClientPhase::Over, ClientAction::Fail(NegotiationError::WriteError))
            },
        ),
        (ClientPhase::Verdict, ClientEvent::Verdict(read)) => Some(
            match read {
                None => (ClientPhase::Over, ClientAction::Fail(NegotiationError::ReadError)),
                Some(answer) => if answer > 0 {
                    (ClientPhase::Over, ClientAction::Fail(NegotiationError::Refused))
                } else {
                    (ClientPhase::Over, ClientAction::Complete)
                },
            },
        ),
        _ => None,
    }
}

/// Where the end that opened the stream stands after some events, and what it is to do.
pub open spec fn client_run<AE>(events: Seq<ClientEvent>) -> Option<(ClientPhase, ClientAction<AE>)>
    decreases events.len(),
{
    if events.len() == 0 {
        Some(
            (
                ClientPhase::Handshake(HandshakeState::Greeting { sent: false, seen: false }),
                ClientAction::Wait,
            ),
        )
    } else {
        match client_run::<AE>(events.drop_last()) {
            Some((phase, _)) => client_step(phase, events.last()),
            None => None,
        }
    }
}

/// The end that opens streams.
#[derive(Debug, Clone, Copy)]
pub struct NegotiationClient {}

/// A negotiation of the end that opened the stream.
pub struct ClientNegotiation {
    address: RouteAddress,
    phase: ClientPhase,
}

impl NegotiationClient {
    pub fn new() -> (r: Self)
        ensures
            r == (NegotiationClient {  }),
    {
        NegotiationClient {  }
    }

    /// Starts to ask for the service at `addr`. The caller sends `greeting(PROTOCOL_VERSION)` and
    /// reads four bytes, in any order or at the same time.
    pub fn negotiate(self, addr: RouteAddress) -> (r: ClientNegotiation)
        ensures
            r.address() == addr@,
            r.phase() == ClientPhase::Handshake(
                (HandshakeState::Greeting { sent: false, seen: false }),
            ),
    {
        ClientNegotiation {
            address: addr,
            phase: ClientPhase::Handshake(HandshakeState::Greeting { sent: false, seen: false }),
        }
    }
}

impl ClientNegotiation {
    /// The address that is asked for.
    pub closed spec fn address(&self) -> Seq<char> {
        self.address@
    }

    /// How far the negotiation has come.
    pub closed spec fn phase(&self) -> ClientPhase {
        self.phase
    }

    /// The bytes of the frame that asks for the address.
    pub fn address_frame(&self) -> (r: Vec<u8>)
        ensures
            r@ == encode_utf8(self.address()),
    {
        self.address.clone().into_bytes()
    }

    /// Takes the negotiation one event further.
    pub fn step<AE>(&mut self, event: ClientEvent) -> (r: ClientAction<AE>)
        requires
            client_step::<AE>(old(self).phase(), event) is Some,
        ensures
            client_step::<AE>(old(self).phase(), event) == Some((final(self).phase(), r)),
            final(self).address() == old(self).address(),
    {
        match (self.phase, event) {
            (ClientPhase::Handshake(state), ClientEvent::Handshake(e)) => {
                let (next, action) = protocol_magic::<AE>(state, e);
                match action {
                    HandshakeAction::Wait => {
                        self.phase = ClientPhase::Handshake(next);
                        ClientAction::Wait
                    },
                    HandshakeAction::ReadVersion => {
                        self.phase = ClientPhase::Handshake(next);
                        ClientAction::ReadVersion
                    },
                    HandshakeAction::Done(version) => {
                        if version > PROTOCOL_VERSION {
                            self.phase = ClientPhase::Over;
                            ClientAction::Fail(NegotiationError::UnsupportedProtocolVersion)
                        } else {
                            self.phase = ClientPhase::Address;
                            ClientAction::SendAddress
                        }
                    },
                    HandshakeAction::Fail(e) => {
                        self.phase = ClientPhase::Over;
                        ClientAction::Fail(e)
                    },
                }
            },
            (_, ClientEvent::AddressSent(ok)) => {
                if ok {
                    self.phase = ClientPhase::Verdict;
                    ClientAction::ReadVerdict
                } else {
                    self.phase = ClientPhase::Over;
                    ClientAction::Fail(NegotiationError::WriteError)
                }
            },
            (_, ClientEvent::Verdict(read)) => {
                self.phase = ClientPhase::Over;
                match read {
                    None => ClientAction::Fail(NegotiationError::ReadError),
                    Some(answer) => {
                        if answer > 0 {
                            ClientAction::Fail(NegotiationError::Refused)
                        } else {
                            ClientAction::Complete
                        }
                    },
                }
            },
            (_, _) => ClientAction::Wait,
        }
    }
}

/// How far the end that was opened to has come.
#[derive(Debug, Clone, Copy, PartialEq, Eq, Structural)]
pub enum ServicePhase {
    Handshake(HandshakeState),
    /// The frame with the address is awaited.
    Address,
    /// A service is looked for.
    Lookup,
    /// The answer goes out.
    Answer { found: bool },
    Over,
}

/// What happened on the stream, or in the registry of services.
#[derive(Debug, Clone, Copy)]
pub enum ServiceEvent {
    Handshake(HandshakeEvent),
    /// A frame was read and `frame_address` could read it, or either failed.
    Address(bool),
    /// A service was found for the address, or none was.
    Found(bool),
    /// The answer was sent, or could not be.
    AnswerSent(bool),
}

/// What the end that was opened to is to do next.
#[derive(Debug)]
pub enum ServiceAction<AE> {
    Wait,
    ReadVersion,
    /// Read a frame of at most `MAX_ADDRESS_FRAME` bytes, and the address in it.
    ReadAddress,
    /// Look for a service that accepts the address.
    FindService,
    /// Send this answer.
    SendAnswer(u8),
    /// The service that was found handles the stream from here on.
    Complete,
    Fail(NegotiationError<AE>),
}

/// The answer to a request: zero if a service was found.
pub open spec fn answer_byte(found: bool) -> u8 {
    if found {
        0
    } else {
        1
    }
}

/// The negotiation of the end that was opened to, as a function of what happens.
pub open spec fn service_step<AE>(phase: ServicePhase, event: ServiceEvent) -> Option<
    (ServicePhase, ServiceAction<AE>),
> {
    match (phase, event) {
        (ServicePhase::Handshake(state), ServiceEvent::Handshake(e)) => match handshake_step::<AE>(
            state,
            e,
        ) {
            None => None,
            Some((next, HandshakeAction::Wait)) => Some(
                (ServicePhase::Handshake(next), ServiceAction::Wait),
            ),
            Some((next, HandshakeAction::ReadVersion)) => Some(
                (ServicePhase::Handshake(next), ServiceAction::ReadVersion),
            ),
            Some((_, HandshakeAction::Done(version))) => Some(
                if version > PROTOCOL_VERSION {
                    (
                        ServicePhase::Over,
                        ServiceAction::Fail(NegotiationError::UnsupportedProtocolVersion),
                    )
                } else {
                    (ServicePhase::Address, ServiceAction::ReadAddress)
                },
            ),
            Some((_, HandshakeAction::Fail(e))) => Some(
                (ServicePhase::Over, ServiceAction::Fail(e)),
            ),
        },
        (ServicePhase::Address, ServiceEvent::Address(ok)) => Some(
            if ok {
                (ServicePhase::Lookup, ServiceAction::FindService)
            } else {
                (ServicePhase::Over, ServiceAction::Fail(NegotiationError::ProtocolViolation))
            },
        ),
        (ServicePhase::Lookup, ServiceEvent::Found(found)) => Some(
            (ServicePhase::Answer { found }, ServiceAction::SendAnswer(answer_byte(found))),
        ),
        (ServicePhase::Answer { found }, ServiceEvent::AnswerSent(ok)) => Some(
            if !ok {
                (ServicePhase::Over, ServiceAction::Fail(NegotiationError::WriteError))
            } else if found {
                (ServicePhase::Over, ServiceAction::Complete)
            } else {
                (ServicePhase::Over, ServiceAction::Fail(NegotiationError::Refused))
            },
        ),
        _ => None,
    }
}

/// Where the end that was opened to stands after some events, and what it is to do.
pub open spec fn service_run<AE>(events: Seq<ServiceEvent>) -> Option<
    (ServicePhase, ServiceAction<AE>),
>
    decreases events.len(),
{
    if events.len() == 0 {
        Some(
            (
                ServicePhase::Handshake(HandshakeState::Greeting { sent: false, seen: false }),
                ServiceAction::Wait,
            ),
        )
    } else {
        match service_run::<AE>(events.drop_last()) {
            Some((phase, _)) => service_step(phase, events.last()),
            None => None,
        }
    }
}

/// The address in a frame: text in UTF-8 that is a route address.
pub open spec fn address_in_frame(frame: Seq<u8>) -> Option<Seq<char>> {
    if valid_utf8(frame) && is_route(decode_utf8(frame)) {
        Some(decode_utf8(frame))
    } else {
        None
    }
}

/// Reads the address in a frame.
pub fn frame_address<AE>(frame: &[u8]) -> (r: Result<RouteAddress, NegotiationError<AE>>)
    ensures
        match r {
            Ok(addr) => address_in_frame(frame@) == Some(addr@),
            Err(e) => address_in_frame(frame@) is None && e is ProtocolViolation,
        },
{
    match utf8_text(frame) {
        None => Err(NegotiationError::ProtocolViolation),
        Some(text) => match RouteAddress::parse(text.as_str()) {
            Ok(addr) => Ok(addr),
            Err(_) => Err(NegotiationError::ProtocolViolation),
        },
    }
}

/// Whether a registry can answer `found` when it is asked for an address on a tunnel.
pub open spec fn finds<R: ServiceRegistry>(
    registry: R,
    addr: RouteAddress,
    tunnel: TunnelId,
    found: Option<&R::Found>,
) -> bool {
    call_ensures(R::find_service, (&registry, &addr, &tunnel), found)
}

/// The end that streams are opened to, with the services that it offers.
pub struct NegotiationService<R> {
    service_registry: Arc<R>,
}

/// A negotiation of the end that was opened to.
pub struct ServiceNegotiation {
    phase: ServicePhase,
}

impl<R: ServiceRegistry> NegotiationService<R> {
    /// The services on offer.
    pub closed spec fn registry(&self) -> R {
        *self.service_registry
    }

    pub fn new(service_registry: Arc<R>) -> (r: Self)
        ensures
            r.registry() == *service_registry,
    {
        NegotiationService { service_registry }
    }

    /// Starts to answer on a stream. The caller sends `greeting(PROTOCOL_VERSION)` and reads four
    /// bytes, in any order or at the same time.
    pub fn negotiate(&self) -> (r: ServiceNegotiation)
        ensures
            r.phase() == ServicePhase::Handshake(
                (HandshakeState::Greeting { sent: false, seen: false }),
            ),
    {
        ServiceNegotiation {
            phase: ServicePhase::Handshake(HandshakeState::Greeting { sent: false, seen: false }),
        }
    }

    /// Decides on the frame in which the remote asks for an address, or on its absence, and hands
    /// back the address and the service that was found for it.
    pub fn answer<AE>(
        &self,
        negotiation: &mut ServiceNegotiation,
        frame: Option<Vec<u8>>,
        tunnel: &TunnelId,
    ) -> (r: (ServiceAction<AE>, Option<(RouteAddress, &R::Found)>))
        requires
            old(negotiation).phase() == ServicePhase::Address,
        ensures
            match frame_request(frame) {
                None => {
                    &&& r.0 == ServiceAction::<AE>::Fail(NegotiationError::ProtocolViolation)
                    &&& r.1 is None
                    &&& final(negotiation).phase() == ServicePhase::Over
                },
                Some(addr) => exists|a: RouteAddress, found: Option<&R::Found>|
                    a@ == addr && #[trigger] finds(self.registry(), a, *tunnel, found) && r.0
                        == ServiceAction::<AE>::SendAnswer(answer_byte(found is Some))
                        && final(negotiation).phase() == (ServicePhase::Answer {
                        found: found is Some,
                    }) && match (r.1, found) {
                        (Some((b, s)), Some(t)) => b@ == addr && *s == *t,
                        (None, None) => true,
                        _ => false,
                    },
            },
    {
        let address = match frame {
            None => Err(NegotiationError::<AE>::ProtocolViolation),
            Some(bytes) => frame_address::<AE>(bytes.as_slice()),
        };
        match address {
            Err(_) => (negotiation.step(ServiceEvent::Address(false)), None),
            Ok(addr) => {
                let _: ServiceAction<AE> = negotiation.step(ServiceEvent::Address(true));
                let found = self.service_registry.find_service(&addr, tunnel);
                assert(finds(self.registry(), addr, *tunnel, found));
                match found {
                    None => (negotiation.step(ServiceEvent::Found(false)), None),
                    Some(service) => (
                        negotiation.step(ServiceEvent::Found(true)),
                        Some((addr, service)),
                    ),
                }
            },
        }
    }
}

/// The address that a frame, if one was read, asks for.
pub open spec fn frame_request(frame: Option<Vec<u8>>) -> Option<Seq<char>> {
    match frame {
        Some(bytes) => address_in_frame(bytes@),
        None => None,
    }
}

impl ServiceNegotiation {
    /// How far the negotiation has come.
    pub closed spec fn phase(&self) -> ServicePhase {
        self.phase
    }

    /// Takes the negotiation one event further.
    pub fn step<AE>(&mut self, event: ServiceEvent) -> (r: ServiceAction<AE>)
        requires
            service_step::<AE>(old(self).phase(), event) is Some,
        ensures
            service_step::<AE>(old(self).phase(), event) == Some((final(self).phase(), r)),
    {
        match (self.phase, event) {
            (ServicePhase::Handshake(state), ServiceEvent::Handshake(e)) => {
                let (next, action) = protocol_magic::<AE>(state, e);
                match action {
                    HandshakeAction::Wait => {
                        self.phase = ServicePhase::Handshake(next);
                        ServiceAction::Wait
                    },
                    HandshakeAction::ReadVersion => {
                        self.phase = ServicePhase::Handshake(next);
                        ServiceAction::ReadVersion
                    },
                    HandshakeAction::Done(version) => {
                        if version > PROTOCOL_VERSION {
                            self.phase = ServicePhase::Over;
                            ServiceAction::Fail(NegotiationError::UnsupportedProtocolVersion)
                        } else {
                            self.phase = ServicePhase::Address;
                            ServiceAction::ReadAddress
                        }
                    },
                    HandshakeAction::Fail(e) => {
                        self.phase = ServicePhase::Over;
                        ServiceAction::Fail(e)
                    },
                }
            },
            (_, ServiceEvent::Address(ok)) => {
                if ok {
                    self.phase = ServicePhase::Lookup;
                    ServiceAction::FindService
                } else {
                    self.phase = ServicePhase::Over;
                    ServiceAction::Fail(NegotiationError::ProtocolViolation)
                }
            },
            (_, ServiceEvent::Found(found)) => {
                self.phase = ServicePhase::Answer { found };
                ServiceAction::SendAnswer(
                    if found {
                        0
                    } else {
                        1
                    },
                )
            },
            (ServicePhase::Answer { found }, ServiceEvent::AnswerSent(ok)) => {
                self.phase = ServicePhase::Over;
                if !ok {
                    ServiceAction::Fail(NegotiationError::WriteError)
                } else if found {
                    ServiceAction::Complete
                } else {
                    ServiceAction::Fail(NegotiationError::Refused)
                }
            },
            (_, _) => ServiceAction::Wait,
        }
    }
}

/// The two halves of a greeting with this version, in either order.
pub open spec fn greeting_events(version: u8, sent_first: bool, magic: [u8; 4]) -> Seq<
    HandshakeEvent,
> {
    if sent_first {
        seq![
            HandshakeEvent::Sent(true),
            HandshakeEvent::Magic(Some(magic)),
            HandshakeEvent::Version(Some(version)),
        ]
    } else {
        seq![
            HandshakeEvent::Magic(Some(magic)),
            HandshakeEvent::Sent(true),
            HandshakeEvent::Version(Some(version)),
        ]
    }
}

/// The address that one end sends is the address that the other end reads.
pub proof fn law_address_arrives(address: Seq<char>)
    requires
        is_route(address),
    ensures
        address_in_frame(encode_utf8(address)) == Some(address),
{
    encode_utf8_valid_utf8(address);
    encode_utf8_decode_utf8(address);
}

/// Two ends that greet each other with `greeting(PROTOCOL_VERSION)` over a stream that loses
/// nothing come to the same end: both complete if a service is found for the address, and both
/// fail as refused if none is. It does not matter which half of the greeting is done first.
pub proof fn law_negotiation_agrees<AE>(
    magic: [u8; 4],
    client_sent_first: bool,
    service_sent_first: bool,
    found: bool,
)
    requires
        magic@ == greeting_bytes(PROTOCOL_VERSION).take(4),
    ensures
        ({
            let version = greeting_bytes(PROTOCOL_VERSION)[4];
            let g = greeting_events(version, client_sent_first, magic);
            let h = greeting_events(version, service_sent_first, magic);
            let client_events = seq![
                ClientEvent::Handshake(g[0]),
                ClientEvent::Handshake(g[1]),
                ClientEvent::Handshake(g[2]),
                ClientEvent::AddressSent(true),
                ClientEvent::Verdict(Some(answer_byte(found))),
            ];
            let service_events = seq![
                ServiceEvent::Handshake(h[0]),
                ServiceEvent::Handshake(h[1]),
                ServiceEvent::Handshake(h[2]),
                ServiceEvent::Address(true),
                ServiceEvent::Found(found),
                ServiceEvent::AnswerSent(true),
            ];
            &&& client_run::<AE>(client_events.take(3)) == Some(
                (ClientPhase::Address, ClientAction::<AE>::SendAddress),
            )
            &&& service_run::<AE>(service_events.take(5)) == Some(
                (ServicePhase::Answer { found }, ServiceAction::<AE>::SendAnswer(answer_byte(found))),
            )
            &&& client_run::<AE>(client_events) == Some(
                (
                    ClientPhase::Over,
                    if found {
                        ClientAction::<AE>::Complete
                    } else {
                        ClientAction::<AE>::Fail(NegotiationError::Refused)
                    },
                ),
            )
            &&& service_run::<AE>(service_events) == Some(
                (
                    ServicePhase::Over,
                    if found {
                        ServiceAction::<AE>::Complete
                    } else {
                        ServiceAction::<AE>::Fail(NegotiationError::Refused)
                    },
                ),
            )
        }),
{
    let version = greeting_bytes(PROTOCOL_VERSION)[4];
    let g = greeting_events(version, client_sent_first, magic);
    let h = greeting_events(version, service_sent_first, magic);
    let c = seq![
        ClientEvent::Handshake(g[0]),
        ClientEvent::Handshake(g[1]),
        ClientEvent::Handshake(g[2]),
        ClientEvent::AddressSent(true),
        ClientEvent::Verdict(Some(answer_byte(found))),
    ];
    let s = seq![
        ServiceEvent::Handshake(h[0]),
        ServiceEvent::Handshake(h[1]),
        ServiceEvent::Handshake(h[2]),
        ServiceEvent::Address(true),
        ServiceEvent::Found(found),
        ServiceEvent::AnswerSent(true),
    ];
    assert(greeting_bytes(PROTOCOL_VERSION).take(4) =~= seq![0x4eu8, 0x59, 0x41, 0x4e]);
    assert(c.take(1).drop_last() =~= c.take(0));
    assert(c.take(2).drop_last() =~= c.take(1));
    assert(c.take(3).drop_last() =~= c.take(2));
    assert(c.take(4).drop_last() =~= c.take(3));
    assert(c.drop_last() =~= c.take(4));
    assert(client_run::<AE>(c.take(0)) is Some);
    assert(client_run::<AE>(c.take(1)) is Some);
    assert(client_run::<AE>(c.take(2)) is Some);
    assert(client_run::<AE>(c.take(3)) is Some);
    assert(client_run::<AE>(c.take(4)) is Some);
    assert(s.take(1).drop_last() =~= s.take(0));
    assert(s.take(2).drop_last() =~= s.take(1));
    assert(s.take(3).drop_last() =~= s.take(2));
    assert(s.take(4).drop_last() =~= s.take(3));
    assert(s.take(5).drop_last() =~= s.take(4));
    assert(s.drop_last() =~= s.take(5));
    assert(service_run::<AE>(s.take(0)) is Some);
    assert(service_run::<AE>(s.take(1)) is Some);
    assert(service_run::<AE>(s.take(2)) is Some);
    assert(service_run::<AE>(s.take(3)) is Some);
    assert(service_run::<AE>(s.take(4)) is Some);
    assert(service_run::<AE>(s.take(5)) is Some);
}

/// Whether the magic bytes were read in this event.
pub open spec fn shows_magic(event: ClientEvent) -> bool {
    event matches ClientEvent::Handshake(HandshakeEvent::Magic(Some(magic))) && is_magic(magic)
}

/// Whether the own greeting was sent in this event.
pub open spec fn shows_sent(event: ClientEvent) -> bool {
    event == ClientEvent::Handshake(HandshakeEvent::Sent(true))
}

/// A client completes only after the whole exchange: the greeting went both ways with the magic
/// bytes and a version that is known, the address was sent, and the answer was zero.
pub proof fn law_client_completes_only_when_accepted<AE>(events: Seq<ClientEvent>)
    requires
        client_run::<AE>(events) matches Some((_, ClientAction::Complete)),
    ensures
        events.len() == 5,
        events.last() == ClientEvent::Verdict(Some(0u8)),
        events[3] == ClientEvent::AddressSent(true),
        events[2] matches ClientEvent::Handshake(HandshakeEvent::Version(Some(version))) && version
            <= PROTOCOL_VERSION,
        exists|i: int| 0 <= i < 2 && shows_magic(#[trigger] events[i]),
        exists|i: int| 0 <= i < 2 && shows_sent(#[trigger] events[i]),
{
    let e4 = events.drop_last();
    let e3 = e4.drop_last();
    let e2 = e3.drop_last();
    let e1 = e2.drop_last();
    let e0 = e1.drop_last();
    reveal_with_fuel(client_run, 7);
    assert(client_run::<AE>(e4) matches Some((ClientPhase::Verdict, _)));
    assert(e4.len() > 0);
    assert(client_run::<AE>(e3) matches Some((ClientPhase::Address, _)));
    assert(e3.len() > 0);
    assert(client_run::<AE>(e2) matches Some(
        (ClientPhase::Handshake(HandshakeState::Version), _),
    ));
    assert(e2.len() > 0);
    assert(client_run::<AE>(e1) matches Some(
        (ClientPhase::Handshake(HandshakeState::Greeting { sent, seen }), _),
    ) && sent != seen);
    assert(e1.len() > 0);
    assert(client_run::<AE>(e0) matches Some(
        (ClientPhase::Handshake(HandshakeState::Greeting { sent: false, seen: false }), _),
    ));
    if e0.len() > 0 {
        assert(client_run::<AE>(e0.drop_last()) is Some);
        assert(false);
    }
    assert(events[2] == e3.last());
    assert(events[1] == e2.last());
    assert(events[0] == e1.last());
}

/// Whether an event says that the four bytes `NYAN` were read.
pub open spec fn shows_nyan(event: HandshakeEvent) -> bool {
    &&& event matches HandshakeEvent::Magic(Some(bytes))
    &&& bytes@[0] == 0x4e
    &&& bytes@[1] == 0x59
    &&& bytes@[2] == 0x41
    &&& bytes@[3] == 0x4e
}

/// Whether two events say that the own greeting was sent, and that the magic bytes of the remote
/// were read, in either order.
pub open spec fn greets(first: HandshakeEvent, second: HandshakeEvent) -> bool {
    ||| first == HandshakeEvent::Sent(true) && shows_nyan(second)
    ||| shows_nyan(first) && second == HandshakeEvent::Sent(true)
}

/// Whether an event at which only one half of the greeting can have been done breaks it off for
/// want of writing.
pub open spec fn cannot_greet(before: Seq<HandshakeEvent>, last: HandshakeEvent) -> bool {
    &&& last == HandshakeEvent::Sent(false)
    &&& before.len() == 0 || before.len() == 1 && shows_nyan(before[0])
}

/// Whether an event at which only one half of the greeting can have been done shows that the remote
/// does not speak this protocol.
pub open spec fn is_stranger(before: Seq<HandshakeEvent>, last: HandshakeEvent) -> bool {
    &&& last is Magic
    &&& !shows_nyan(last)
    &&& before.len() == 0 || before.len() == 1 && before[0] == HandshakeEvent::Sent(true)
}

/// The events of a greeting in those of the end that opened the stream.
pub open spec fn client_greeting(events: Seq<ClientEvent>) -> Seq<HandshakeEvent> {
    Seq::new(
        events.len(),
        |i: int|
            match events[i] {
                ClientEvent::Handshake(e) => e,
                _ => HandshakeEvent::Version(None),
            },
    )
}

/// Whether the two ends greeted each other, as the end that opened the stream saw it in its first
/// two events.
pub open spec fn client_greeted(events: Seq<ClientEvent>) -> bool {
    &&& events.len() >= 2
    &&& greets(client_greeting(events)[0], client_greeting(events)[1])
}

/// Whether the end that opened the stream saw, in its first three events, a greeting and then the
/// version that is spoken here.
pub open spec fn client_understood(events: Seq<ClientEvent>) -> bool {
    &&& events.len() >= 3
    &&& client_greeted(events)
    &&& events[2] == ClientEvent::Handshake(HandshakeEvent::Version(Some(0)))
}

/// The phase of the end that opened the stream tells what it has seen.
proof fn lemma_client_phase<AE>(events: Seq<ClientEvent>)
    ensures
        client_run::<AE>(events) matches Some((phase, _)) ==> {
            &&& phase matches ClientPhase::Handshake(HandshakeState::Greeting { sent, seen }) ==> {
                &&& !sent && !seen ==> events.len() == 0
                &&& sent && !seen ==> events.len() == 1 && events[0] == ClientEvent::Handshake(
                    HandshakeEvent::Sent(true),
                )
                &&& !sent && seen ==> events.len() == 1 && shows_nyan(client_greeting(events)[0])
                &&& !(sent && seen)
            }
            &&& phase == ClientPhase::Handshake(HandshakeState::Version) ==> events.len() == 2
                && client_greeted(events)
            &&& phase != ClientPhase::Handshake(HandshakeState::Over)
            &&& phase is Address ==> events.len() == 3 && client_understood(events)
            &&& phase is Verdict ==> events.len() == 4 && client_understood(events) && events[3]
                == ClientEvent::AddressSent(true)
        },
        events.len() == 1 && events[0] == ClientEvent::Handshake(HandshakeEvent::Sent(true)) ==> (
        client_run::<AE>(events) matches Some(
            (ClientPhase::Handshake(HandshakeState::Greeting { sent: true, seen: false }), _),
        )),
        events.len() == 1 && shows_nyan(client_greeting(events)[0]) ==> (client_run::<AE>(
            events,
        ) matches Some(
            (ClientPhase::Handshake(HandshakeState::Greeting { sent: false, seen: true }), _),
        )),
        events.len() == 2 && client_greeted(events) ==> (client_run::<AE>(events) matches Some(
            (ClientPhase::Handshake(HandshakeState::Version), _),
        )),
        events.len() == 3 && client_understood(events) ==> (client_run::<AE>(events) matches Some(
            (ClientPhase::Address, _),
        )),
        events.len() == 4 && client_understood(events) && events[3] == ClientEvent::AddressSent(
            true,
        ) ==> (client_run::<AE>(events) matches Some((ClientPhase::Verdict, _))),
    decreases events.len(),
{
    if events.len() > 0 {
        let init = events.drop_last();
        lemma_client_phase::<AE>(init);
        assert(events.last() == events[events.len() - 1]);
        assert forall|i: int| 0 <= i < init.len() implies init[i] == #[trigger] events[i] && client_greeting(
            init,
        )[i] == client_greeting(events)[i] by {}
        if let ClientEvent::Handshake(HandshakeEvent::Magic(Some(bytes))) = events.last() {
            assert(is_magic(bytes) <==> shows_nyan(HandshakeEvent::Magic(Some(bytes)))) by {
                assert(is_magic(bytes) <==> bytes@ =~= seq![0x4eu8, 0x59, 0x41, 0x4e]);
            }
        }
    }
}

/// The end that opened the stream sends the address exactly after both ends greeted each other in
/// the version that is spoken here, waits for the answer exactly after the address was sent, and
/// completes exactly after the answer was zero.
pub proof fn law_client_goes_on_exactly<AE>(events: Seq<ClientEvent>)
    ensures
        (client_run::<AE>(events) matches Some((_, ClientAction::ReadVersion))) <==> events.len()
            == 2 && client_greeted(events),
        (client_run::<AE>(events) matches Some((_, ClientAction::SendAddress))) <==> events.len()
            == 3 && client_understood(events),
        (client_run::<AE>(events) matches Some((_, ClientAction::ReadVerdict))) <==> events.len()
            == 4 && client_understood(events) && events[3] == ClientEvent::AddressSent(true),
        (client_run::<AE>(events) matches Some((_, ClientAction::Complete))) <==> events.len() == 5
            && client_understood(events) && events[3] == ClientEvent::AddressSent(true) && events[4]
            == ClientEvent::Verdict(Some(0)),
{
    if events.len() > 0 {
        let init = events.drop_last();
        lemma_client_phase::<AE>(init);
        lemma_client_phase::<AE>(events);
        assert(events.last() == events[events.len() - 1]);
        assert forall|i: int| 0 <= i < init.len() implies init[i] == #[trigger] events[i] && client_greeting(
            init,
        )[i] == client_greeting(events)[i] by {}
    }
}

/// The end that opened the stream fails exactly when something failed, and says what: it could not
/// write, it could not read, the remote is none of this protocol, it speaks a later version, or it
/// refused.
pub proof fn law_client_fails_exactly<AE>(events: Seq<ClientEvent>)
    requires
        events.len() > 0,
    ensures
        ({
            let n = events.len();
            let before = client_greeting(events.drop_last());
            let last = events.last();
            let answered = n == 5 && client_understood(events) && events[3]
                == ClientEvent::AddressSent(true) && last is Verdict;
            match client_run::<AE>(events) {
                Some((_, ClientAction::Fail(e))) => match e {
                    NegotiationError::WriteError => {
                        ||| last matches ClientEvent::Handshake(h) && cannot_greet(before, h)
                        ||| n == 4 && client_understood(events) && last
                            == ClientEvent::AddressSent(false)
                    },
                    NegotiationError::ProtocolViolation => last matches ClientEvent::Handshake(h)
                        && is_stranger(before, h),
                    NegotiationError::ReadError => {
                        ||| n == 3 && client_greeted(events) && last == ClientEvent::Handshake(
                            HandshakeEvent::Version(None),
                        )
                        ||| answered && last == ClientEvent::Verdict(None)
                    },
                    NegotiationError::UnsupportedProtocolVersion => {
                        &&& n == 3 && client_greeted(events)
                        &&& last matches ClientEvent::Handshake(
                            HandshakeEvent::Version(Some(version)),
                        )
                        &&& version > 0
                    },
                    NegotiationError::Refused => {
                        &&& answered
                        &&& last matches ClientEvent::Verdict(Some(answer))
                        &&& answer > 0
                    },
                    _ => false,
                },
                Some(_) => {
                    &&& !(last matches ClientEvent::Handshake(h) && (cannot_greet(before, h)
                        || is_stranger(before, h)))
                    &&& last != ClientEvent::AddressSent(false)
                    &&& last matches ClientEvent::Verdict(v) ==> v == Some(0u8)
                    &&& last matches ClientEvent::Handshake(HandshakeEvent::Version(v)) ==> v
                        == Some(0u8)
                },
                None => {
                    &&& !(last matches ClientEvent::Handshake(h) && (cannot_greet(before, h)
                        || is_stranger(before, h)))
                    &&& !(n == 3 && client_greeted(events) && (last matches ClientEvent::Handshake(
                        HandshakeEvent::Version(_),
                    )))
                    &&& !(n == 4 && client_understood(events) && last is AddressSent)
                    &&& !answered
                },
            }
        }),
{
    let init = events.drop_last();
    lemma_client_phase::<AE>(init);
    assert(events.last() == events[events.len() - 1]);
    assert forall|i: int| 0 <= i < init.len() implies init[i] == #[trigger] events[i] && client_greeting(
        init,
    )[i] == client_greeting(events)[i] by {}
    if init.len() == 1 {
        assert(client_greeting(init)[0] == HandshakeEvent::Sent(true) ==> init[0]
            == ClientEvent::Handshake(HandshakeEvent::Sent(true)));
    }
    if let ClientEvent::Handshake(HandshakeEvent::Magic(Some(bytes))) = events.last() {
        assert(is_magic(bytes) <==> shows_nyan(HandshakeEvent::Magic(Some(bytes)))) by {
            assert(is_magic(bytes) <==> bytes@ =~= seq![0x4eu8, 0x59, 0x41, 0x4e]);
        }
    }
}

/// The events of a greeting in those of the end that was opened to.
pub open spec fn service_greeting(events: Seq<ServiceEvent>) -> Seq<HandshakeEvent> {
    Seq::new(
        events.len(),
        |i: int|
            match events[i] {
                ServiceEvent::Handshake(e) => e,
                _ => HandshakeEvent::Version(None),
            },
    )
}

/// Whether the two ends greeted each other, as the end that was opened to saw it in its first two
/// events.
pub open spec fn service_greeted(events: Seq<ServiceEvent>) -> bool {
    &&& events.len() >= 2
    &&& greets(service_greeting(events)[0], service_greeting(events)[1])
}

/// Whether the end that was opened to saw, in its first three events, a greeting and then the
/// version that is spoken here.
pub open spec fn service_understood(events: Seq<ServiceEvent>) -> bool {
    &&& events.len() >= 3
    &&& service_greeted(events)
    &&& events[2] == ServiceEvent::Handshake(HandshakeEvent::Version(Some(0)))
}

/// Whether the end that was opened to understood the remote, read an address, and then looked for
/// a service with this outcome.
pub open spec fn service_looked(events: Seq<ServiceEvent>, found: bool) -> bool {
    &&& events.len() >= 5
    &&& service_understood(events)
    &&& events[3] == ServiceEvent::Address(true)
    &&& events[4] == ServiceEvent::Found(found)
}

/// The phase of the end that was opened to tells what it has seen.
proof fn lemma_service_phase<AE>(events: Seq<ServiceEvent>)
    ensures
        service_run::<AE>(events) matches Some((phase, _)) ==> {
            &&& phase matches ServicePhase::Handshake(HandshakeState::Greeting { sent, seen }) ==> {
                &&& !sent && !seen ==> events.len() == 0
                &&& sent && !seen ==> events.len() == 1 && events[0] == ServiceEvent::Handshake(
                    HandshakeEvent::Sent(true),
                )
                &&& !sent && seen ==> events.len() == 1 && shows_nyan(service_greeting(events)[0])
                &&& !(sent && seen)
            }
            &&& phase == ServicePhase::Handshake(HandshakeState::Version) ==> events.len() == 2
                && service_greeted(events)
            &&& phase != ServicePhase::Handshake(HandshakeState::Over)
            &&& phase is Address ==> events.len() == 3 && service_understood(events)
            &&& phase is Lookup ==> events.len() == 4 && service_understood(events) && events[3]
                == ServiceEvent::Address(true)
            &&& phase matches ServicePhase::Answer { found } ==> events.len() == 5
                && service_looked(events, found)
        },
        events.len() == 1 && events[0] == ServiceEvent::Handshake(HandshakeEvent::Sent(true)) ==> (
        service_run::<AE>(events) matches Some(
            (ServicePhase::Handshake(HandshakeState::Greeting { sent: true, seen: false }), _),
        )),
        events.len() == 1 && shows_nyan(service_greeting(events)[0]) ==> (service_run::<AE>(
            events,
        ) matches Some(
            (ServicePhase::Handshake(HandshakeState::Greeting { sent: false, seen: true }), _),
        )),
        events.len() == 2 && service_greeted(events) ==> (service_run::<AE>(events) matches Some(
            (ServicePhase::Handshake(HandshakeState::Version), _),
        )),
        events.len() == 3 && service_understood(events) ==> (service_run::<AE>(
            events,
        ) matches Some((ServicePhase::Address, _))),
        events.len() == 4 && service_understood(events) && events[3] == ServiceEvent::Address(true)
            ==> (service_run::<AE>(events) matches Some((ServicePhase::Lookup, _))),
        forall|found: bool|
            events.len() == 5 && #[trigger] service_looked(events, found) ==> (service_run::<AE>(
                events,
            ) matches Some((ServicePhase::Answer { found: f }, _)) && f == found),
    decreases events.len(),
{
    if events.len() > 0 {
        let init = events.drop_last();
        lemma_service_phase::<AE>(init);
        assert(events.last() == events[events.len() - 1]);
        assert forall|i: int| 0 <= i < init.len() implies init[i] == #[trigger] events[i]
            && service_greeting(init)[i] == service_greeting(events)[i] by {}
        if let ServiceEvent::Handshake(HandshakeEvent::Magic(Some(bytes))) = events.last() {
            assert(is_magic(bytes) <==> shows_nyan(HandshakeEvent::Magic(Some(bytes)))) by {
                assert(is_magic(bytes) <==> bytes@ =~= seq![0x4eu8, 0x59, 0x41, 0x4e]);
            }
        }
    }
}

/// The end that was opened to reads the address exactly after both ends greeted each other in the
/// version that is spoken here, looks for a service exactly after it read one, answers with zero
/// exactly if a service was found and with one exactly if none was, and completes exactly after a
/// zero was sent.
pub proof fn law_service_goes_on_exactly<AE>(events: Seq<ServiceEvent>)
    ensures
        (service_run::<AE>(events) matches Some((_, ServiceAction::ReadVersion))) <==> events.len()
            == 2 && service_greeted(events),
        (service_run::<AE>(events) matches Some((_, ServiceAction::ReadAddress))) <==> events.len()
            == 3 && service_understood(events),
        (service_run::<AE>(events) matches Some((_, ServiceAction::FindService))) <==> events.len()
            == 4 && service_understood(events) && events[3] == ServiceEvent::Address(true),
        (service_run::<AE>(events) matches Some((_, ServiceAction::SendAnswer(answer))) && answer
            == 0) <==> events.len() == 5 && service_looked(events, true),
        (service_run::<AE>(events) matches Some((_, ServiceAction::SendAnswer(answer))) && answer
            == 1) <==> events.len() == 5 && service_looked(events, false),
        service_run::<AE>(events) matches Some((_, ServiceAction::SendAnswer(answer))) ==> answer
            <= 1,
        (service_run::<AE>(events) matches Some((_, ServiceAction::Complete))) <==> events.len()
            == 6 && service_looked(events, true) && events[5] == ServiceEvent::AnswerSent(true),
{
    if events.len() > 0 {
        let init = events.drop_last();
        lemma_service_phase::<AE>(init);
        lemma_service_phase::<AE>(events);
        assert(events.last() == events[events.len() - 1]);
        assert forall|i: int| 0 <= i < init.len() implies init[i] == #[trigger] events[i]
            && service_greeting(init)[i] == service_greeting(events)[i] by {}
        assert(service_looked(init, true) ==> init[4] == events[4]);
        assert(service_looked(init, false) ==> init[4] == events[4]);
        assert(events.len() == 6 ==> (service_looked(init, true) <==> service_looked(events, true)));
    }
}

/// The end that was opened to fails exactly when something failed, and says what: it could not
/// write, it could not read, the remote is none of this protocol or sent no address, it speaks a
/// later version, or no service was found for it.
pub proof fn law_service_fails_exactly<AE>(events: Seq<ServiceEvent>)
    requires
        events.len() > 0,
    ensures
        ({
            let n = events.len();
            let before = service_greeting(events.drop_last());
            let last = events.last();
            let answered = n == 6 && last is AnswerSent;
            match service_run::<AE>(events) {
                Some((_, ServiceAction::Fail(e))) => match e {
                    NegotiationError::WriteError => {
                        ||| last matches ServiceEvent::Handshake(h) && cannot_greet(before, h)
                        ||| answered && last == ServiceEvent::AnswerSent(false)
                    },
                    NegotiationError::ProtocolViolation => {
                        ||| last matches ServiceEvent::Handshake(h) && is_stranger(before, h)
                        ||| n == 4 && service_understood(events) && last == ServiceEvent::Address(
                            false,
                        )
                    },
                    NegotiationError::ReadError => n == 3 && service_greeted(events) && last
                        == ServiceEvent::Handshake(HandshakeEvent::Version(None)),
                    NegotiationError::UnsupportedProtocolVersion => {
                        &&& n == 3 && service_greeted(events)
                        &&& last matches ServiceEvent::Handshake(
                            HandshakeEvent::Version(Some(version)),
                        )
                        &&& version > 0
                    },
                    NegotiationError::Refused => answered && service_looked(events, false) && last
                        == ServiceEvent::AnswerSent(true),
                    _ => false,
                },
                Some(_) => {
                    &&& !(last matches ServiceEvent::Handshake(h) && (cannot_greet(before, h)
                        || is_stranger(before, h)))
                    &&& last != ServiceEvent::Address(false)
                    &&& last is AnswerSent ==> last == ServiceEvent::AnswerSent(true)
                        && service_looked(events, true)
                    &&& last matches ServiceEvent::Handshake(HandshakeEvent::Version(v)) ==> v
                        == Some(0u8)
                },
                None => {
                    &&& !(last matches ServiceEvent::Handshake(h) && (cannot_greet(before, h)
                        || is_stranger(before, h)))
                    &&& !(n == 3 && service_greeted(events) && (
                    last matches ServiceEvent::Handshake(HandshakeEvent::Version(_))))
                    &&& !(n == 4 && service_understood(events) && last is Address)
                    &&& !(answered && (service_looked(events, true) || service_looked(
                        events,
                        false,
                    )))
                },
            }
        }),
{
    let init = events.drop_last();
    lemma_service_phase::<AE>(init);
    assert(events.last() == events[events.len() - 1]);
    assert forall|i: int| 0 <= i < init.len() implies init[i] == #[trigger] events[i]
        && service_greeting(init)[i] == service_greeting(events)[i] by {}
    if init.len() == 1 {
        assert(service_greeting(init)[0] == HandshakeEvent::Sent(true) ==> init[0]
            == ServiceEvent::Handshake(HandshakeEvent::Sent(true)));
    }
    assert(init.len() == 5 ==> (service_looked(init, true) <==> service_looked(events, true)));
    assert(init.len() == 5 ==> (service_looked(init, false) <==> service_looked(events, false)));
    if let ServiceEvent::Handshake(HandshakeEvent::Magic(Some(bytes))) = events.last() {
        assert(is_magic(bytes) <==> shows_nyan(HandshakeEvent::Magic(Some(bytes)))) by {
            assert(is_magic(bytes) <==> bytes@ =~= seq![0x4eu8, 0x59, 0x41, 0x4e]);
        }
    }
}

/// What one end sends first is what the other end takes for the greeting of this protocol.
pub proof fn law_greeting_is_recognised(version: u8, magic: [u8; 4])
    ensures
        greeting_bytes(version).len() == 5,
        greeting_bytes(version)[4] == version,
        magic@ == greeting_bytes(version).take(4) <==> shows_nyan(
            HandshakeEvent::Magic(Some(magic)),
        ),
{
    let sent = greeting_bytes(version).take(4);
    if shows_nyan(HandshakeEvent::Magic(Some(magic))) {
        assert(magic@ =~= sent);
    }
}

/// An address is read from a frame only if the frame holds its UTF-8, and two frames in which the
/// same address is read are the same.
pub proof fn law_frame_holds_its_address(frame: Seq<u8>)
    ensures
        address_in_frame(frame) matches Some(address) ==> is_route(address) && encode_utf8(address)
            == frame,
        address_in_frame(frame) is None <==> !valid_utf8(frame) || !is_route(decode_utf8(frame)),
{
    if valid_utf8(frame) {
        decode_utf8_encode_utf8(frame);
    }
}

} // verus!
