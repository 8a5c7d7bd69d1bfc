//! How the two ends of a fresh tunnel come to trust each other.

use std::marker::PhantomData;

use vstd::prelude::*;

use crate::tunnel::{
    address_info_text, TunnelAddressInfo, TunnelError, TunnelIncomingType, TunnelName, TunnelSide,
};

pub mod simple_ack;

verus! {

/// What a handler knows of the tunnel that it authenticates.
#[derive(Debug, Clone, Copy, PartialEq, Eq)]
pub struct TunnelInfo {
    pub side: TunnelSide,
    pub addr: TunnelAddressInfo,
}

/// What a handler learned of the other end, as values under keys.
pub type AuthenticationAttributes = Vec<(String, Vec<u8>)>;

/// How authentication can fail on this end.
#[derive(Debug)]
pub enum AuthenticationHandlingError<TInner> {
    /// Something that the handler depends on failed; the text says what.
    DependencyFailure(String, TInner),
    /// The handler itself failed.
    ApplicationError(TInner),
    /// The task in which the handler ran was lost.
    JoinError(String),
}

impl<TInner> AuthenticationHandlingError<TInner> {
    /// The error with `f` applied to what the handler reported.
    pub fn map_err<TNew, F: FnOnce(TInner) -> TNew>(self, f: F) -> (r: AuthenticationHandlingError<
        TNew,
    >)
        requires
            self matches AuthenticationHandlingError::DependencyFailure(_, e) ==> f.requires((e,)),
            self matches AuthenticationHandlingError::ApplicationError(e) ==> f.requires((e,)),
        ensures
            maps_handling(self, r, |a: TInner, b: TNew| f.ensures((a,), b)),
    {
        match self {
            AuthenticationHandlingError::DependencyFailure(message, e) => {
                AuthenticationHandlingError::DependencyFailure(message, f(e))
            },
            AuthenticationHandlingError::ApplicationError(e) => {
                AuthenticationHandlingError::ApplicationError(f(e))
            },
            AuthenticationHandlingError::JoinError(m) => AuthenticationHandlingError::JoinError(m),
        }
    }

    /// The error with what the handler reported converted.
    pub fn err_into<TNew: From<TInner>>(self) -> (r: AuthenticationHandlingError<TNew>)
        ensures
            maps_handling(
                self,
                r,
                |a: TInner, b: TNew| call_ensures(<TNew as From<TInner>>::from, (a,), b),
            ),
    {
        match self {
            AuthenticationHandlingError::DependencyFailure(message, e) => {
                AuthenticationHandlingError::DependencyFailure(
                    message,
                    <TNew as From<TInner>>::from(e),
                )
            },
            AuthenticationHandlingError::ApplicationError(e) => {
                AuthenticationHandlingError::ApplicationError(<TNew as From<TInner>>::from(e))
            },
            AuthenticationHandlingError::JoinError(m) => AuthenticationHandlingError::JoinError(m),
        }
    }
}

/// Whether `r` is `e` with what the handler reported replaced as `f` says.
pub open spec fn maps_handling<A, B>(
    e: AuthenticationHandlingError<A>,
    r: AuthenticationHandlingError<B>,
    f: spec_fn(A, B) -> bool,
) -> bool {
    match e {
        AuthenticationHandlingError::DependencyFailure(m, a) => {
            r matches AuthenticationHandlingError::DependencyFailure(n, b) && m == n && f(a, b)
        },
        AuthenticationHandlingError::ApplicationError(a) => {
            r matches AuthenticationHandlingError::ApplicationError(b) && f(a, b)
        },
        AuthenticationHandlingError::JoinError(m) => {
            r matches AuthenticationHandlingError::JoinError(n) && m == n
        },
    }
}

/// To replace what a handler reported leaves the kind of an error and its message as they are.
pub proof fn law_handling_keeps_its_kind<A, B>(
    e: AuthenticationHandlingError<A>,
    r: AuthenticationHandlingError<B>,
    f: spec_fn(A, B) -> bool,
)
    requires
        maps_handling(e, r, f),
    ensures
        match r {
            AuthenticationHandlingError::DependencyFailure(m, b) => {
                e matches AuthenticationHandlingError::DependencyFailure(n, a) && m == n && f(a, b)
            },
            AuthenticationHandlingError::ApplicationError(b) => {
                e matches AuthenticationHandlingError::ApplicationError(a) && f(a, b)
            },
            AuthenticationHandlingError::JoinError(m) => {
                e matches AuthenticationHandlingError::JoinError(n) && m == n
            },
        },
{
}

/// Why the other end was not authenticated.
#[derive(Debug, PartialEq, Eq)]
pub enum RemoteAuthenticationError {
    /// It followed the protocol, and was refused.
    Refused,
    /// The link was closed on this end.
    LinkClosedLocally,
    /// The other end takes no more links.
    LinkClosedRemotely,
    /// The other end opens no more links.
    IncomingStreamsClosed,
    /// It took too long.
    TimedOut,
    /// The transport failed.
    TransportError,
    /// It broke the protocol; the text says how.
    ProtocolViolation(String),
}

/// How authentication can fail.
#[derive(Debug)]
pub enum AuthenticationError<TInner> {
    /// On this end.
    Handling(AuthenticationHandlingError<TInner>),
    /// On the other end.
    Remote(RemoteAuthenticationError),
}

/// A result in which failures of this end stand outside, and failures of the other end inside.
pub open spec fn nested<T, TInner>(res: Result<T, AuthenticationError<TInner>>) -> Result<
    Result<T, RemoteAuthenticationError>,
    AuthenticationHandlingError<TInner>,
> {
    match res {
        Ok(v) => Ok(Ok(v)),
        Err(AuthenticationError::Handling(e)) => Err(e),
        Err(AuthenticationError::Remote(e)) => Ok(Err(e)),
    }
}

/// A result in which all failures stand at one place.
pub open spec fn unnested<T, TInner>(
    res: Result<Result<T, RemoteAuthenticationError>, AuthenticationHandlingError<TInner>>,
) -> Result<T, AuthenticationError<TInner>> {
    match res {
        Ok(Ok(v)) => Ok(v),
        Err(e) => Err(AuthenticationError::Handling(e)),
        Ok(Err(e)) => Err(AuthenticationError::Remote(e)),
    }
}

/// Nesting a result and undoing that changes nothing, in either order.
pub proof fn law_nesting_inverse<T, TInner>(
    flat: Result<T, AuthenticationError<TInner>>,
    deep: Result<Result<T, RemoteAuthenticationError>, AuthenticationHandlingError<TInner>>,
)
    ensures
        unnested(nested(flat)) == flat,
        nested(unnested(deep)) == deep,
{
}

/// A nested result fails outside exactly where this end failed, and inside exactly where the other
/// end did; and undoing that, what stood outside is of this end and what stood inside of the other.
pub proof fn law_nesting_parts_the_ends<T, TInner>(
    flat: Result<T, AuthenticationError<TInner>>,
    deep: Result<Result<T, RemoteAuthenticationError>, AuthenticationHandlingError<TInner>>,
)
    ensures
        match nested(flat) {
            Ok(Ok(v)) => flat == Ok::<T, AuthenticationError<TInner>>(v),
            Ok(Err(e)) => flat == Err::<T, AuthenticationError<TInner>>(
                AuthenticationError::Remote(e),
            ),
            Err(e) => flat == Err::<T, AuthenticationError<TInner>>(
                AuthenticationError::Handling(e),
            ),
        },
        match unnested(deep) {
            Ok(v) => deep matches Ok(Ok(w)) && v == w,
            Err(AuthenticationError::Remote(e)) => deep matches Ok(Err(d)) && d == e,
            Err(AuthenticationError::Handling(e)) => deep matches Err(d) && d == e,
        },
{
}

impl<TInner> AuthenticationError<TInner> {
    /// Puts failures of this end outside, and failures of the other end inside.
    pub fn to_nested_result<T>(res: Result<T, Self>) -> (r: Result<
        Result<T, RemoteAuthenticationError>,
        AuthenticationHandlingError<TInner>,
    >)
        ensures
            r == nested(res),
    {
        match res {
            Ok(v) => Ok(Ok(v)),
            Err(AuthenticationError::Handling(e)) => Err(e),
            Err(AuthenticationError::Remote(e)) => Ok(Err(e)),
        }
    }

    /// Puts all failures at one place.
    pub fn from_nested_result<T>(
        res: Result<Result<T, RemoteAuthenticationError>, AuthenticationHandlingError<TInner>>,
    ) -> (r: Result<T, Self>)
        ensures
            r == unnested(res),
    {
        match res {
            Ok(Ok(v)) => Ok(v),
            Err(e) => Err(AuthenticationError::Handling(e)),
            Ok(Err(e)) => Err(AuthenticationError::Remote(e)),
        }
    }

    /// The error with `f` applied to what the handler reported.
    pub fn map_err<TNew, F: FnOnce(TInner) -> TNew>(self, f: F) -> (r: AuthenticationError<TNew>)
        requires
            self matches AuthenticationError::Handling(
                AuthenticationHandlingError::DependencyFailure(_, e),
            ) ==> f.requires((e,)),
            self matches AuthenticationError::Handling(
                AuthenticationHandlingError::ApplicationError(e),
            ) ==> f.requires((e,)),
        ensures
            match self {
                AuthenticationError::Handling(h) => r matches AuthenticationError::Handling(o)
                    && maps_handling(h, o, |a: TInner, b: TNew| f.ensures((a,), b)),
                AuthenticationError::Remote(e) => r == AuthenticationError::<TNew>::Remote(e),
            },
    {
        match self {
            AuthenticationError::Handling(h) => AuthenticationError::Handling(h.map_err(f)),
            AuthenticationError::Remote(e) => AuthenticationError::Remote(e),
        }
    }

    /// The error with what the handler reported converted.
    pub fn err_into<TNew: From<TInner>>(self) -> (r: AuthenticationError<TNew>)
        ensures
            match self {
                AuthenticationError::Handling(h) => r matches AuthenticationError::Handling(o)
                    && maps_handling(
                    h,
                    o,
                    |a: TInner, b: TNew| call_ensures(<TNew as From<TInner>>::from, (a,), b),
                ),
                AuthenticationError::Remote(e) => r == AuthenticationError::<TNew>::Remote(e),
            },
    {
        match self {
            AuthenticationError::Handling(h) => AuthenticationError::Handling(h.err_into()),
            AuthenticationError::Remote(e) => AuthenticationError::Remote(e),
        }
    }
}

/// A handler whose own errors are replaced by a function of them.
#[derive(Clone, Copy)]
pub struct MappedAuthenticationHandler<F, TInner> {
    pub inner: TInner,
    pub f: F,
}

impl<F, TInner> MappedAuthenticationHandler<F, TInner> {
    /// The outcome of this handler, given the outcome of the handler inside it.
    pub fn finish<T, E, O>(&self, outcome: Result<T, AuthenticationError<E>>) -> (r: Result<
        T,
        AuthenticationError<O>,
    >) where F: Fn(E) -> O
        requires
            outcome matches Err(
                AuthenticationError::Handling(AuthenticationHandlingError::DependencyFailure(_, e)),
            ) ==> self.f.requires((e,)),
            outcome matches Err(
                AuthenticationError::Handling(AuthenticationHandlingError::ApplicationError(e)),
            ) ==> self.f.requires((e,)),
        ensures
            match outcome {
                Ok(v) => r == Ok::<T, AuthenticationError<O>>(v),
                Err(AuthenticationError::Remote(e)) => r == Err::<T, AuthenticationError<O>>(
                    AuthenticationError::Remote(e),
                ),
                Err(AuthenticationError::Handling(h)) => r matches Err(
                    AuthenticationError::Handling(o),
                ) && maps_handling(h, o, |a: E, b: O| self.f.ensures((a,), b)),
            },
    {
        match outcome {
            Ok(v) => Ok(v),
            Err(e) => Err(e.map_err(&self.f)),
        }
    }
}

/// A handler whose own errors are converted.
pub struct MappedErrIntoAuthenticationHandler<TInner, TOutput> {
    pub inner: TInner,
    pub phantom_output: PhantomData<TOutput>,
}

impl<TInner, TOutput> MappedErrIntoAuthenticationHandler<TInner, TOutput> {
    /// The outcome of this handler, given the outcome of the handler inside it.
    pub fn finish<T, E>(outcome: Result<T, AuthenticationError<E>>) -> (r: Result<
        T,
        AuthenticationError<TOutput>,
    >) where TOutput: From<E>
        ensures
            match outcome {
                Ok(v) => r == Ok::<T, AuthenticationError<TOutput>>(v),
                Err(e) => r matches Err(o) && call_ensures(
                    AuthenticationError::<E>::err_into::<TOutput>,
                    (e,),
                    o,
                ),
            },
    {
        match outcome {
            Ok(v) => Ok(v),
            Err(e) => Err(e.err_into()),
        }
    }
}

/// How the link for authentication comes about.
#[derive(Debug, Clone, Copy, PartialEq, Eq, Structural)]
pub enum EstablishAction {
    /// Open a link.
    OpenLink,
    /// Take the first link that the other end opens.
    AcceptLink,
}

/// Decides how the link for authentication comes about: the end that listens opens it.
pub fn perform_authentication(side: TunnelSide) -> (r: EstablishAction)
    ensures
        r == match side {
            TunnelSide::Listen => EstablishAction::OpenLink,
            TunnelSide::Connect => EstablishAction::AcceptLink,
        },
{
    match side {
        TunnelSide::Listen => EstablishAction::OpenLink,
        TunnelSide::Connect => EstablishAction::AcceptLink,
    }
}

/// Why the other end was not authenticated, where no link could be opened.
pub open spec fn open_failure(e: TunnelError) -> RemoteAuthenticationError {
    match e {
        TunnelError::ApplicationClosed => RemoteAuthenticationError::LinkClosedLocally,
        TunnelError::LocallyClosed => RemoteAuthenticationError::LinkClosedLocally,
        TunnelError::ConnectionClosed => RemoteAuthenticationError::LinkClosedRemotely,
        TunnelError::TimedOut => RemoteAuthenticationError::TimedOut,
        TunnelError::TransportError => RemoteAuthenticationError::TransportError,
    }
}

/// A link that could not be opened never counts as a refusal or as a breach of protocol. It counts
/// as closed on this end exactly where this end closed it, and as closed on the other end exactly
/// where the connection was closed.
pub proof fn law_open_failure_tells_the_end(e: TunnelError)
    ensures
        open_failure(e) is LinkClosedLocally <==> e is ApplicationClosed || e is LocallyClosed,
        open_failure(e) is LinkClosedRemotely <==> e is ConnectionClosed,
        open_failure(e) is TimedOut <==> e is TimedOut,
        open_failure(e) is TransportError <==> e is TransportError,
{
}

/// The link for authentication, where it was to be opened.
pub fn link_opened<S, E>(link: Result<S, TunnelError>) -> (r: Result<S, AuthenticationError<E>>)
    ensures
        match link {
            Ok(s) => r == Ok::<S, AuthenticationError<E>>(s),
            Err(e) => r == Err::<S, AuthenticationError<E>>(
                AuthenticationError::Remote(open_failure(e)),
            ),
        },
{
    match link {
        Ok(s) => Ok(s),
        Err(e) => Err(
            AuthenticationError::Remote(
                match e {
                    TunnelError::ApplicationClosed => RemoteAuthenticationError::LinkClosedLocally,
                    TunnelError::LocallyClosed => RemoteAuthenticationError::LinkClosedLocally,
                    TunnelError::ConnectionClosed => RemoteAuthenticationError::LinkClosedRemotely,
                    TunnelError::TimedOut => RemoteAuthenticationError::TimedOut,
                    TunnelError::TransportError => RemoteAuthenticationError::TransportError,
                },
            ),
        ),
    }
}

/// The link for authentication, where it was to be taken. `incoming` is absent where the tunnel
/// takes no links, and holds nothing where no link came.
pub fn link_accepted<S, E>(
    incoming: Option<Result<Option<TunnelIncomingType<S>>, TunnelError>>,
) -> (r: Result<S, AuthenticationError<E>>)
    ensures
        match incoming {
            Some(Ok(Some(TunnelIncomingType::BiStream(s)))) => r == Ok::<
                S,
                AuthenticationError<E>,
            >(s),
            _ => r == Err::<S, AuthenticationError<E>>(
                AuthenticationError::Remote(RemoteAuthenticationError::IncomingStreamsClosed),
            ),
        },
{
    match incoming {
        Some(Ok(Some(TunnelIncomingType::BiStream(s)))) => Ok(s),
        _ => Err(AuthenticationError::Remote(RemoteAuthenticationError::IncomingStreamsClosed)),
    }
}

/// The name of a tunnel that is known only by its address.
pub fn name_of_address(info: &TunnelInfo) -> (r: TunnelName)
    ensures
        r@ == address_info_text(info.addr),
{
    TunnelName::new(info.addr.to_string())
}

/// A handler that trusts everyone.
#[derive(Debug, Clone, Copy)]
pub struct NoOpAuthenticationHandler {}

impl NoOpAuthenticationHandler {
    pub fn new() -> (r: NoOpAuthenticationHandler)
        ensures
            r == (NoOpAuthenticationHandler {  }),
    {
        NoOpAuthenticationHandler {  }
    }

    /// Names a tunnel after its address.
    pub fn authenticate(&self, tunnel_info: &TunnelInfo) -> (r: TunnelName)
        ensures
            r@ == address_info_text(tunnel_info.addr),
    {
        name_of_address(tunnel_info)
    }
}

/// A handler that leaves it to others to trust the other end.
#[derive(Debug, Clone, Copy)]
pub struct DelegatedAuthenticationHandler {}

impl DelegatedAuthenticationHandler {
    pub fn new() -> (r: DelegatedAuthenticationHandler)
        ensures
            r == (DelegatedAuthenticationHandler {  }),
    {
        DelegatedAuthenticationHandler {  }
    }

    /// Names a tunnel after its address.
    pub fn authenticate_channel(&self, tunnel_info: &TunnelInfo) -> (r: TunnelName)
        ensures
            r@ == address_info_text(tunnel_info.addr),
    {
        name_of_address(tunnel_info)
    }
}

} // verus!
