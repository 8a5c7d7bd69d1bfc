//! Services, the clients that speak to them, and how each can fail.

use std::marker::PhantomData;

use vstd::prelude::*;

use crate::address::RouteAddress;
use crate::negotiation::NegotiationError;
use crate::tunnel::id::TunnelId;
use crate::tunnel::TunnelError;

verus! {

/// How the handling of a request by a service can fail.
#[derive(Debug)]
pub enum ServiceError<InternalError> {
    /// The address was refused by the client.
    Refused,
    /// The stream with the remote ended early.
    UnexpectedEnd,
    /// The remote sent what it may not send.
    IllegalResponse,
    /// The remote client gave an address that the service cannot use.
    AddressError,
    /// Something that the service depends on failed.
    DependencyFailure,
    /// Something that the service depends on failed, and where it did is known.
    BacktraceDependencyFailure(String),
    /// The service itself failed.
    InternalError(InternalError),
    /// The service itself failed with no more than a message.
    InternalFailure(String),
}

impl<InternalError> ServiceError<InternalError> {
    /// The error with `f` applied to what the service itself reported.
    pub fn map_internal<TNewError, F: Fn(InternalError) -> TNewError>(self, f: F) -> (r:
        ServiceError<TNewError>)
        requires
            self matches ServiceError::InternalError(e) ==> f.requires((e,)),
        ensures
            match self {
                ServiceError::Refused => r is Refused,
                ServiceError::UnexpectedEnd => r is UnexpectedEnd,
                ServiceError::IllegalResponse => r is IllegalResponse,
                ServiceError::AddressError => r is AddressError,
                ServiceError::DependencyFailure => r is DependencyFailure,
                ServiceError::BacktraceDependencyFailure(trace) => r
                    == ServiceError::<TNewError>::BacktraceDependencyFailure(trace),
                ServiceError::InternalError(e) => r matches ServiceError::InternalError(o)
                    && f.ensures((e,), o),
                ServiceError::InternalFailure(m) => r == ServiceError::<TNewError>::InternalFailure(
                    m,
                ),
            },
    {
        match self {
            ServiceError::Refused => ServiceError::Refused,
            ServiceError::UnexpectedEnd => ServiceError::UnexpectedEnd,
            ServiceError::IllegalResponse => ServiceError::IllegalResponse,
            ServiceError::AddressError => ServiceError::AddressError,
            ServiceError::DependencyFailure => ServiceError::DependencyFailure,
            ServiceError::BacktraceDependencyFailure(trace) => {
                ServiceError::BacktraceDependencyFailure(trace)
            },
            ServiceError::InternalError(e) => ServiceError::InternalError(f(e)),
            ServiceError::InternalFailure(m) => ServiceError::InternalFailure(m),
        }
    }

    /// The error with what the service itself reported converted.
    pub fn err_into<TNewError: From<InternalError>>(self) -> (r: ServiceError<TNewError>)
        ensures
            match self {
                ServiceError::Refused => r is Refused,
                ServiceError::UnexpectedEnd => r is UnexpectedEnd,
                ServiceError::IllegalResponse => r is IllegalResponse,
                ServiceError::AddressError => r is AddressError,
                ServiceError::DependencyFailure => r is DependencyFailure,
                ServiceError::BacktraceDependencyFailure(trace) => r
                    == ServiceError::<TNewError>::BacktraceDependencyFailure(trace),
                ServiceError::InternalError(e) => r matches ServiceError::InternalError(o)
                    && call_ensures(<TNewError as From<InternalError>>::from, (e,), o),
                ServiceError::InternalFailure(m) => r == ServiceError::<TNewError>::InternalFailure(
                    m,
                ),
            },
    {
        match self {
            ServiceError::Refused => ServiceError::Refused,
            ServiceError::UnexpectedEnd => ServiceError::UnexpectedEnd,
            ServiceError::IllegalResponse => ServiceError::IllegalResponse,
            ServiceError::AddressError => ServiceError::AddressError,
            ServiceError::DependencyFailure => ServiceError::DependencyFailure,
            ServiceError::BacktraceDependencyFailure(trace) => {
                ServiceError::BacktraceDependencyFailure(trace)
            },
            ServiceError::InternalError(e) => ServiceError::InternalError(
                <TNewError as From<InternalError>>::from(e),
            ),
            ServiceError::InternalFailure(m) => ServiceError::InternalFailure(m),
        }
    }
}

/// How a request can fail on the side that made it.
#[derive(Debug)]
pub enum ClientError<ApplicationError> {
    /// The address given to the client is not one that it can use.
    InvalidAddress,
    /// The address was refused.
    Refused,
    /// The stream with the remote ended early.
    UnexpectedEnd,
    /// The remote sent what it may not send.
    IllegalResponse(ApplicationError),
}

impl<ApplicationError> ClientError<ApplicationError> {
    /// The error with `f` applied to what the client itself reported.
    pub fn map_err<TErr, F: FnOnce(ApplicationError) -> TErr>(self, f: F) -> (r: ClientError<TErr>)
        requires
            self matches ClientError::IllegalResponse(e) ==> f.requires((e,)),
        ensures
            match self {
                ClientError::InvalidAddress => r is InvalidAddress,
                ClientError::Refused => r is Refused,
                ClientError::UnexpectedEnd => r is UnexpectedEnd,
                ClientError::IllegalResponse(e) => r matches ClientError::IllegalResponse(o)
                    && f.ensures((e,), o),
            },
    {
        match self {
            ClientError::InvalidAddress => ClientError::InvalidAddress,
            ClientError::Refused => ClientError::Refused,
            ClientError::UnexpectedEnd => ClientError::UnexpectedEnd,
            ClientError::IllegalResponse(e) => ClientError::IllegalResponse(f(e)),
        }
    }
}

/// The name by which a protocol is found in an address.
pub trait ProtocolInfo {
    fn protocol_name() -> &'static str where Self: Sized;
}

/// A protocol whose addresses are built from parameters of its own.
pub trait RouteAddressBuilder: ProtocolInfo {
    type Params;

    type BuildError;

    fn build_addr(args: Self::Params) -> Result<RouteAddress, Self::BuildError> where Self: Sized;
}

/// What a client of a protocol hands back when its stream is done.
pub trait Client<TStream>: ProtocolInfo {
    type Response;

    type Error;
}

/// A client that can build the addresses it is used with.
pub trait AddressBuilderClient<TStream>: Client<TStream> + RouteAddressBuilder {

}

/// A request: where it goes, and the client that speaks there.
pub struct Request<TStream, TClient> {
    pub address: RouteAddress,
    pub protocol_client: TClient,
    pub phantom_stream: PhantomData<TStream>,
}

impl<TStream, TClient: RouteAddressBuilder> Request<TStream, TClient> {
    /// Makes a request to the address that the client builds from the parameters. Because the
    /// address comes from the client, only a client that builds a wrong one can ask for it.
    pub fn new(protocol_client: TClient, address_parameters: TClient::Params) -> (r: Result<
        Self,
        TClient::BuildError,
    >)
        requires
            call_requires(TClient::build_addr, (address_parameters,)),
        ensures
            match r {
                Ok(request) => request.protocol_client == protocol_client && call_ensures(
                    TClient::build_addr,
                    (address_parameters,),
                    Ok(request.address),
                ),
                Err(e) => call_ensures(TClient::build_addr, (address_parameters,), Err(e)),
            },
    {
        match TClient::build_addr(address_parameters) {
            Ok(address) => Ok(Request { address, protocol_client, phantom_stream: PhantomData }),
            Err(e) => Err(e),
        }
    }
}

/// A client whose outcome is handed out in boxes, so that clients of different protocols can be
/// kept together.
pub struct BoxDispatchClient<TStream, TInnerClient> {
    pub client: TInnerClient,
    pub stream: PhantomData<TStream>,
}

impl<TStream, TInnerClient> BoxDispatchClient<TStream, TInnerClient> {
    pub fn new(client: TInnerClient) -> (r: Self)
        ensures
            r.client == client,
    {
        BoxDispatchClient { client, stream: PhantomData }
    }
}

impl<TStream, TInnerClient: ProtocolInfo> ProtocolInfo for BoxDispatchClient<
    TStream,
    TInnerClient,
> {
    fn protocol_name() -> (r: &'static str)
        ensures
            call_ensures(TInnerClient::protocol_name, (), r),
    {
        TInnerClient::protocol_name()
    }
}

/// A client of boxed streams whose outcome is handed out in boxes.
pub struct BoxStreamDispatchClient<TInnerClient> {
    pub client: TInnerClient,
}

impl<TInnerClient> BoxStreamDispatchClient<TInnerClient> {
    pub fn new(client: TInnerClient) -> (r: Self)
        ensures
            r.client == client,
    {
        BoxStreamDispatchClient { client }
    }
}

impl<TInnerClient: ProtocolInfo> ProtocolInfo for BoxStreamDispatchClient<TInnerClient> {
    fn protocol_name() -> (r: &'static str)
        ensures
            call_ensures(TInnerClient::protocol_name, (), r),
    {
        TInnerClient::protocol_name()
    }
}

/// Puts the outcome of a client into boxes.
pub fn box_outcome<R, E>(outcome: Result<R, ClientError<E>>) -> (r: Result<
    Box<R>,
    ClientError<Box<E>>,
>)
    ensures
        match outcome {
            Ok(v) => r == Ok::<Box<R>, ClientError<Box<E>>>(Box::new(v)),
            Err(ClientError::InvalidAddress) => r matches Err(ClientError::InvalidAddress),
            Err(ClientError::Refused) => r matches Err(ClientError::Refused),
            Err(ClientError::UnexpectedEnd) => r matches Err(ClientError::UnexpectedEnd),
            Err(ClientError::IllegalResponse(e)) => r matches Err(ClientError::IllegalResponse(b))
                && *b == e,
        },
{
    match outcome {
        Ok(v) => Ok(Box::new(v)),
        Err(ClientError::InvalidAddress) => Err(ClientError::InvalidAddress),
        Err(ClientError::Refused) => Err(ClientError::Refused),
        Err(ClientError::UnexpectedEnd) => Err(ClientError::UnexpectedEnd),
        Err(ClientError::IllegalResponse(e)) => Err(ClientError::IllegalResponse(Box::new(e))),
    }
}

/// A client whose outcome is replaced by a function of it.
pub struct MappedClient<TClient, F> {
    pub client: TClient,
    pub f: F,
}

impl<TClient: ProtocolInfo, F> ProtocolInfo for MappedClient<TClient, F> {
    fn protocol_name() -> (r: &'static str)
        ensures
            call_ensures(TClient::protocol_name, (), r),
    {
        TClient::protocol_name()
    }
}

impl<TClient, F> MappedClient<TClient, F> {
    /// The outcome of this client, given the outcome of the client inside it.
    pub fn finish<R, E, R2, E2>(self, outcome: Result<R, ClientError<E>>) -> (r: Result<
        R2,
        ClientError<E2>,
    >) where F: FnOnce(Result<R, ClientError<E>>) -> Result<R2, ClientError<E2>>
        requires
            self.f.requires((outcome,)),
        ensures
            self.f.ensures((outcome,), r),
    {
        (self.f)(outcome)
    }
}

/// A client whose outcome starts a further task, whose result is the outcome.
pub struct BoundClient<TClient, F> {
    pub client: TClient,
    pub f: F,
}

impl<TClient: ProtocolInfo, F> ProtocolInfo for BoundClient<TClient, F> {
    fn protocol_name() -> (r: &'static str)
        ensures
            call_ensures(TClient::protocol_name, (), r),
    {
        TClient::protocol_name()
    }
}

impl<TClient, F> BoundClient<TClient, F> {
    /// The task that the outcome of the client inside starts.
    pub fn next_task<R, E, T>(self, outcome: Result<R, ClientError<E>>) -> (r: T) where
        F: FnOnce(Result<R, ClientError<E>>) -> T,

        requires
            self.f.requires((outcome,)),
        ensures
            self.f.ensures((outcome,), r),
    {
        (self.f)(outcome)
    }
}

/// What handles the streams that remote clients open to an address.
pub trait Service {
    /// What the service reports when it fails by itself.
    type Error;

    /// Whether the service handles this address on this tunnel.
    fn accepts(&self, addr: &RouteAddress, tunnel: &TunnelId) -> bool;
}

/// Where the service for an address is found.
pub trait ServiceRegistry {
    type Found;

    /// The service that handles this address on this tunnel, if there is one.
    fn find_service(&self, addr: &RouteAddress, tunnel: &TunnelId) -> Option<&Self::Found>;
}

/// Whether a service can answer `accepted` when it is asked for an address on a tunnel.
pub open spec fn answers<S: Service>(
    service: S,
    addr: RouteAddress,
    tunnel: TunnelId,
    accepted: bool,
) -> bool {
    call_ensures(S::accepts, (&service, &addr, &tunnel), accepted)
}

/// Whether `services[i]` is the first of them to accept the address: it does, and none in front of
/// it does.
pub open spec fn first_accepting<S: Service>(
    services: Seq<S>,
    addr: RouteAddress,
    tunnel: TunnelId,
    i: int,
) -> bool {
    &&& 0 <= i < services.len()
    &&& answers(services[i], addr, tunnel, true)
    &&& forall|j: int| 0 <= j < i ==> answers(#[trigger] services[j], addr, tunnel, false)
}

/// A service that is the first to accept an address stays so when others are added behind it, and
/// none in front of it accepts the address.
pub proof fn law_first_accepting_stays<S: Service>(
    services: Seq<S>,
    addr: RouteAddress,
    tunnel: TunnelId,
    i: int,
    added: S,
)
    requires
        first_accepting(services, addr, tunnel, i),
    ensures
        first_accepting(services.push(added), addr, tunnel, i),
        answers(services[i], addr, tunnel, true),
        forall|j: int| 0 <= j < i ==> answers(#[trigger] services[j], addr, tunnel, false),
{
    let longer = services.push(added);
    assert forall|j: int| 0 <= j < i implies answers(#[trigger] longer[j], addr, tunnel, false) by {
        assert(longer[j] == services[j]);
    }
}

/// A service that accepts an address, behind others of which none does, is the first to accept it.
pub proof fn law_first_accepting_is_the_first<S: Service>(
    services: Seq<S>,
    addr: RouteAddress,
    tunnel: TunnelId,
    i: int,
)
    requires
        0 <= i < services.len(),
        answers(services[i], addr, tunnel, true),
        forall|j: int| 0 <= j < i ==> answers(#[trigger] services[j], addr, tunnel, false),
    ensures
        first_accepting(services, addr, tunnel, i),
{
}

/// A registry of services that are asked in the order in which they were added.
pub struct PresetServiceRegistry<S> {
    services: Vec<S>,
}

impl<S> View for PresetServiceRegistry<S> {
    type V = Seq<S>;

    closed spec fn view(&self) -> Seq<S> {
        self.services@
    }
}

impl<S> PresetServiceRegistry<S> {
    /// A registry without services.
    pub fn new() -> (r: Self)
        ensures
            r@ == Seq::<S>::empty(),
    {
        PresetServiceRegistry { services: Vec::new() }
    }

    /// Adds a service behind those that are there.
    pub fn add_service_blocking(&mut self, service: S)
        ensures
            final(self)@ == old(self)@.push(service),
    {
        self.services.push(service);
    }
}

impl<S: Service> ServiceRegistry for PresetServiceRegistry<S> {
    type Found = S;

    fn find_service(&self, addr: &RouteAddress, tunnel: &TunnelId) -> (r: Option<&S>)
        ensures
            match r {
                Some(service) => exists|i: int|
                    #[trigger] first_accepting(self@, *addr, *tunnel, i) && self@[i] == *service,
                None => forall|i: int|
                    0 <= i < self@.len() ==> answers(#[trigger] self@[i], *addr, *tunnel, false),
            },
    {
        let mut i: usize = 0;
        while i < self.services.len()
            invariant
                i <= self.services.len(),
                self@ == self.services@,
                forall|j: int| 0 <= j < i ==> answers(#[trigger] self@[j], *addr, *tunnel, false),
            decreases self.services.len() - i,
        {
            if self.services[i].accepts(addr, tunnel) {
                assert(first_accepting(self@, *addr, *tunnel, i as int));
                return Some(&self.services[i]);
            }
            i += 1;
        }
        None
    }
}

/// A service whose own errors are converted to another type.
pub struct MappedService<S, E> {
    inner_service: S,
    error_phantom: PhantomData<E>,
}

impl<S, E> MappedService<S, E> {
    /// The service inside.
    pub closed spec fn inner(self) -> S {
        self.inner_service
    }

    pub fn new(inner_service: S) -> (r: Self)
        ensures
            r.inner() == inner_service,
    {
        MappedService { inner_service, error_phantom: PhantomData }
    }

    pub fn into_inner(self) -> (r: S)
        ensures
            r == self.inner(),
    {
        self.inner_service
    }

    /// The outcome of this service, given the outcome of the service inside.
    pub fn map_outcome<I>(outcome: Result<(), ServiceError<I>>) -> (r: Result<
        (),
        ServiceError<E>,
    >) where E: From<I>
        ensures
            match outcome {
                Ok(u) => r == Ok::<(), ServiceError<E>>(u),
                Err(e) => r matches Err(o) && call_ensures(
                    ServiceError::<I>::err_into::<E>,
                    (e,),
                    o,
                ),
            },
    {
        match outcome {
            Ok(u) => Ok(u),
            Err(e) => Err(e.err_into()),
        }
    }
}

impl<S: Service, E> Service for MappedService<S, E> {
    type Error = E;

    /// A mapped service handles what the service inside handles.
    fn accepts(&self, addr: &RouteAddress, tunnel: &TunnelId) -> (r: bool)
        ensures
            answers(self.inner(), *addr, *tunnel, r),
    {
        self.inner_service.accepts(addr, tunnel)
    }
}

/// How a request can fail before it reaches a service.
#[derive(Debug)]
pub enum RoutingError<RouterError> {
    /// No tunnel leads to the address.
    RouteNotFound(RouteAddress),
    /// A tunnel leads to the address, and is not available.
    RouteUnavailable(RouteAddress),
    /// The address is not one that the router can read.
    InvalidAddress,
    /// The tunnel gave no link.
    LinkOpenFailure(TunnelError),
    /// The protocol could not be agreed on.
    NegotiationError(NegotiationError<RouterError>),
    /// The router itself failed.
    RouterError(RouterError),
}

impl<RouterError> RoutingError<RouterError> {
    /// A failed negotiation as a failed routing.
    pub fn from_negotiation<T>(e: NegotiationError<T>) -> (r: Self) where RouterError: From<T>
        ensures
            r matches RoutingError::NegotiationError(o) && call_ensures(
                NegotiationError::<T>::err_into::<RouterError>,
                (e,),
                o,
            ),
    {
        RoutingError::NegotiationError(e.err_into())
    }

    /// A tunnel that gave no link as a failed routing.
    pub fn from_tunnel(e: TunnelError) -> (r: Self)
        ensures
            r == RoutingError::<RouterError>::LinkOpenFailure(e),
    {
        RoutingError::LinkOpenFailure(e)
    }
}

} // verus!
