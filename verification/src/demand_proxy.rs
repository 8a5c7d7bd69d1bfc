//! The service that listens on ports of its own host for a remote that asks for it, and carries
//! what arrives there through the tunnel of the remote.

use vstd::prelude::*;

use crate::address::{
    law_segments_of_route, route_of, route_segments, RouteAddress, RouteAddressParseError,
};
use crate::negotiation::NegotiationError;
use crate::net::{
    ip_text, ipv4_of, ipv4_text, ipv6_of, law_ipv4_round_trip, law_ipv6_round_trip,
    lemma_ipv4_text_excludes, IpAddr, Ipv4Addr, SocketAddr,
};
use crate::numeral::{
    decimal, law_port_numbers, law_port_round_trip, numeral, parse_port, port_of, PortParseError,
};
use crate::peers::PeersView;
use crate::proxy_tcp::{
    lemma_port_segment, target_route, DnsClass, DnsTarget, TargetView, TcpStreamTarget,
};
use crate::service::{
    ClientError, ProtocolInfo, RouteAddressBuilder, RoutingError, Service, ServiceError,
};
use crate::text::{same_text, texts};
use crate::tunnel::id::TunnelId;
use crate::tunnel::TunnelName;

verus! {

/// The longest frame in which the subject of a demand is read.
pub const MAX_SUBJECT_FRAME: usize = 256;

/// What a demand asks for: the host that the remote is to connect to, if it is named, and the port.
pub struct DemandView {
    pub host: Option<Seq<char>>,
    pub port: u16,
}

/// The address of a demand for a port of a host.
pub open spec fn demand_route(host: Seq<char>, port: u16) -> Seq<char> {
    route_of(seq!["proxyme"@, "0.0.1"@, host, numeral(port as int, 10)])
}

/// What the segments of an address demand: behind the name and the version of the protocol stands
/// a port, or a host and a port, and nothing more.
pub open spec fn demand_of(segments: Seq<Seq<char>>) -> Option<DemandView> {
    if (segments.len() == 3 || segments.len() == 4) && segments[0] == "proxyme"@ && segments[1]
        == "0.0.1"@ {
        match port_of(segments.last()) {
            Ok(port) => Some(
                DemandView {
                    host: if segments.len() == 4 {
                        Some(segments[2])
                    } else {
                        None
                    },
                    port: port as u16,
                },
            ),
            Err(_) => None,
        }
    } else {
        None
    }
}

/// A service reads from the address of a demand the host and the port that the client put there.
pub proof fn law_demand_round_trip(host: Seq<char>, port: u16)
    requires
        !host.contains('/'),
    ensures
        demand_of(route_segments(demand_route(host, port))) == Some(
            DemandView { host: Some(host), port },
        ),
{
    let parts = seq!["proxyme"@, "0.0.1"@, host, numeral(port as int, 10)];
    reveal_strlit("proxyme");
    reveal_strlit("0.0.1");
    lemma_port_segment(port);
    law_port_round_trip(port);
    assert forall|i: int| 0 <= i < parts.len() implies !(#[trigger] parts[i]).contains('/') by {}
    law_segments_of_route(parts);
}

/// An address demands something exactly when it is made of the name and the version of the
/// protocol, at most a host, and a port; and it demands what these segments say.
pub proof fn law_demand_says_what_it_asks(segments: Seq<Seq<char>>)
    ensures
        demand_of(segments) is Some <==> {
            &&& segments.len() == 3 || segments.len() == 4
            &&& segments[0] == "proxyme"@
            &&& segments[1] == "0.0.1"@
            &&& port_of(segments[segments.len() - 1]) is Ok
        },
        demand_of(segments) matches Some(demand) ==> {
            &&& port_of(segments[segments.len() - 1]) == Ok::<int, PortParseError>(
                demand.port as int,
            )
            &&& segments.len() == 3 ==> demand.host is None
            &&& segments.len() == 4 ==> demand.host == Some(segments[2])
        },
{
    if segments.len() > 0 {
        law_port_numbers(segments[segments.len() - 1]);
    }
}

/// Why the address of a demand could not be built.
#[derive(Debug, Clone, Copy, PartialEq, Eq)]
pub enum DemandProxyAddressError {
    /// The target has no port: services that are found by name are not supported.
    RFC6763NotSupported,
    /// What was built is not an address.
    UnparseableOutput(RouteAddressParseError),
}

/// The client of the service.
#[derive(Debug, Clone)]
pub struct DemandProxyClient {
    /// What the ports are asked for, as the service is told.
    pub proxied_subject: String,
}

impl DemandProxyClient {
    pub fn new(proxied_subject: String) -> (r: Self)
        ensures
            r.proxied_subject == proxied_subject,
    {
        DemandProxyClient { proxied_subject }
    }
}

impl ProtocolInfo for DemandProxyClient {
    fn protocol_name() -> (r: &'static str)
        ensures
            r@ == "proxyme"@,
    {
        "proxyme"
    }
}

/// The host of a target, as the service is told of it.
pub open spec fn demanded_host(target: TcpStreamTarget) -> Seq<char> {
    match target {
        TcpStreamTarget::Port(_) => ipv4_text(Ipv4Addr { a: 127, b: 0, c: 0, d: 1 }),
        TcpStreamTarget::SocketAddr(s) => ip_text(s.spec_ip()),
        TcpStreamTarget::Dns(d) => d.host_text(),
    }
}

/// The port of a target.
pub open spec fn demanded_port(target: TcpStreamTarget) -> u16 {
    match target {
        TcpStreamTarget::Port(p) => p,
        TcpStreamTarget::SocketAddr(s) => s.spec_port(),
        TcpStreamTarget::Dns(d) => d.port_number(),
    }
}

/// The host that a client asks for is that of the target: reading it as an address gives the
/// address of the target, and a name is asked for as it is.
pub proof fn law_demanded_host_is_the_target(target: TcpStreamTarget)
    ensures
        match target {
            TcpStreamTarget::Port(p) => {
                &&& ipv4_of(demanded_host(target)) == Some(Ipv4Addr { a: 127, b: 0, c: 0, d: 1 })
                &&& demanded_port(target) == p
            },
            TcpStreamTarget::SocketAddr(SocketAddr::V4 { ip, port }) => {
                &&& ipv4_of(demanded_host(target)) == Some(ip)
                &&& demanded_port(target) == port
            },
            TcpStreamTarget::SocketAddr(SocketAddr::V6 { ip, port, flowinfo: _, scope_id: _ }) => {
                &&& ipv6_of(demanded_host(target)) == Some(ip.segments@)
                &&& demanded_port(target) == port
            },
            TcpStreamTarget::Dns(DnsTarget::PreferHigher { host, port })
            | TcpStreamTarget::Dns(DnsTarget::Dns4 { host, port })
            | TcpStreamTarget::Dns(DnsTarget::Dns6 { host, port }) => {
                &&& demanded_host(target) == host@
                &&& demanded_port(target) == port
            },
        },
{
    match target {
        TcpStreamTarget::Port(_) => {
            law_ipv4_round_trip(Ipv4Addr { a: 127, b: 0, c: 0, d: 1 });
        },
        TcpStreamTarget::SocketAddr(SocketAddr::V4 { ip, port }) => {
            law_ipv4_round_trip(ip);
        },
        TcpStreamTarget::SocketAddr(SocketAddr::V6 { ip, port, flowinfo, scope_id }) => {
            law_ipv6_round_trip(ip.segments@);
        },
        TcpStreamTarget::Dns(_) => {},
    }
}

impl RouteAddressBuilder for DemandProxyClient {
    type Params = TcpStreamTarget;

    type BuildError = DemandProxyAddressError;

    /// The address of a demand for a target. Every target has a port, so it can always be built.
    fn build_addr(args: TcpStreamTarget) -> (r: Result<RouteAddress, DemandProxyAddressError>)
        ensures
            r matches Ok(addr) && addr@ == demand_route(demanded_host(args), demanded_port(args)),
    {
        let (host, port) = args.into_host_and_port();
        match port {
            None => Err(DemandProxyAddressError::RFC6763NotSupported),
            Some(port) => {
                let number = decimal(port as u64);
                let mut segments: Vec<&str> = Vec::new();
                segments.push(Self::protocol_name());
                segments.push("0.0.1");
                segments.push(host.as_str());
                segments.push(number.as_str());
                assert(texts(segments@) =~= seq![
                    "proxyme"@,
                    "0.0.1"@,
                    host@,
                    numeral(port as int, 10),
                ]);
                Ok(RouteAddress::from_segments(&segments))
            },
        }
    }
}

/// The addresses that are bound of those that were given: where one of them stands for every
/// interface it would take the ports of the others, so only the first such is kept.
pub open spec fn dual_stack(addrs: Seq<IpAddr>) -> Seq<IpAddr> {
    match first_unspecified(addrs, 0) {
        Some(addr) => seq![addr],
        None => addrs,
    }
}

/// The first of `addrs`, from number `i` on, that stands for every interface.
pub open spec fn first_unspecified(addrs: Seq<IpAddr>, i: int) -> Option<IpAddr>
    decreases addrs.len() - i,
{
    if i >= addrs.len() {
        None
    } else if addrs[i].spec_is_unspecified() {
        Some(addrs[i])
    } else {
        first_unspecified(addrs, i + 1)
    }
}

/// No address that is found stands behind another that stands for every interface.
proof fn lemma_first_unspecified(addrs: Seq<IpAddr>, from: int)
    requires
        0 <= from <= addrs.len(),
    ensures
        match first_unspecified(addrs, from) {
            Some(addr) => addr.spec_is_unspecified() && exists|i: int|
                from <= i < addrs.len() && addr == #[trigger] addrs[i] && forall|j: int|
                    from <= j < i ==> !(#[trigger] addrs[j]).spec_is_unspecified(),
            None => forall|i: int|
                from <= i < addrs.len() ==> !(#[trigger] addrs[i]).spec_is_unspecified(),
        },
    decreases addrs.len() - from,
{
    if from < addrs.len() {
        lemma_first_unspecified(addrs, from + 1);
        if addrs[from].spec_is_unspecified() {
            assert(addrs[from] == addrs[from]);
        } else if let Some(addr) = first_unspecified(addrs, from + 1) {
            let i = choose|i: int|
                from + 1 <= i < addrs.len() && addr == #[trigger] addrs[i] && forall|j: int|
                    from + 1 <= j < i ==> !(#[trigger] addrs[j]).spec_is_unspecified();
            assert(addr == addrs[i]);
        }
    }
}

/// An address that stands for every interface is bound alone, every address that is bound was
/// given, and nothing more is left out of what is bound already.
pub proof fn law_dual_stack(addrs: Seq<IpAddr>)
    ensures
        forall|i: int|
            0 <= i < dual_stack(addrs).len() && (
            #[trigger] dual_stack(addrs)[i]).spec_is_unspecified() ==> dual_stack(addrs).len() == 1,
        forall|i: int|
            0 <= i < dual_stack(addrs).len() ==> addrs.contains(#[trigger] dual_stack(addrs)[i]),
        addrs.len() > 0 ==> dual_stack(addrs).len() > 0,
        dual_stack(dual_stack(addrs)) == dual_stack(addrs),
{
    lemma_first_unspecified(addrs, 0);
    if let Some(addr) = first_unspecified(addrs, 0) {
        let one = seq![addr];
        assert(one[0].spec_is_unspecified());
        assert(first_unspecified(one, 0) == Some(addr));
    }
}

/// Where one of the addresses stands for every interface, the first such is bound and no other; and
/// where none does, all of them are bound as they were given.
pub proof fn law_first_unspecified_is_bound(addrs: Seq<IpAddr>, i: int)
    requires
        0 <= i <= addrs.len(),
        forall|j: int| 0 <= j < i ==> !(#[trigger] addrs[j]).spec_is_unspecified(),
        i < addrs.len() ==> addrs[i].spec_is_unspecified(),
    ensures
        dual_stack(addrs) == if i < addrs.len() {
            seq![addrs[i]]
        } else {
            addrs
        },
{
    lemma_first_unspecified(addrs, 0);
    if let Some(addr) = first_unspecified(addrs, 0) {
        let k = choose|k: int|
            0 <= k < addrs.len() && addr == #[trigger] addrs[k] && forall|j: int|
                0 <= j < k ==> !(#[trigger] addrs[j]).spec_is_unspecified();
        assert(addrs[k].spec_is_unspecified());
        assert(k == i);
    }
}

/// The socket address of an address at a port.
pub open spec fn at_port(ip: IpAddr, port: u16) -> SocketAddr {
    match ip {
        IpAddr::V4(ip) => SocketAddr::V4 { ip, port },
        IpAddr::V6(ip) => SocketAddr::V6 { ip, port, flowinfo: 0, scope_id: 0 },
    }
}

/// The socket address of an address at a port has that address and that port.
pub proof fn law_at_port(ip: IpAddr, port: u16)
    ensures
        at_port(ip, port).spec_ip() == ip,
        at_port(ip, port).spec_port() == port,
        at_port(ip, port) matches SocketAddr::V6 { ip: _, port: _, flowinfo, scope_id } ==> flowinfo
            == 0 && scope_id == 0,
{
}

/// The service.
#[derive(Debug)]
pub struct DemandProxyService {
    bind_addrs: Vec<IpAddr>,
}

impl DemandProxyService {
    /// The addresses on which ports are bound.
    pub closed spec fn bound_on(&self) -> Seq<IpAddr> {
        self.bind_addrs@
    }

    /// A service that binds ports on these addresses.
    pub fn new(bind_addrs: Vec<IpAddr>) -> (r: Self)
        ensures
            r.bound_on() == dual_stack(bind_addrs@),
    {
        let mut addrs = bind_addrs;
        Self::handle_dual_stack_addrs(&mut addrs);
        DemandProxyService { bind_addrs: addrs }
    }

    /// Leaves out the addresses whose ports another one of them takes.
    pub fn handle_dual_stack_addrs(bind_addrs: &mut Vec<IpAddr>)
        ensures
            final(bind_addrs)@ == dual_stack(old(bind_addrs)@),
    {
        let ghost given = bind_addrs@;
        let mut i: usize = 0;
        while i < bind_addrs.len()
            invariant
                i <= bind_addrs.len(),
                bind_addrs@ == given,
                given == old(bind_addrs)@,
                first_unspecified(given, 0) == first_unspecified(given, i as int),
            decreases bind_addrs.len() - i,
        {
            if bind_addrs[i].is_unspecified() {
                let unspecified = bind_addrs[i];
                bind_addrs.clear();
                bind_addrs.push(unspecified);
                assert(bind_addrs@ =~= seq![unspecified]);
                return ;
            }
            i += 1;
        }
    }

    /// What an address demands.
    pub fn parse_address(addr: &RouteAddress) -> (r: Result<(Option<&str>, u16), ()>)
        ensures
            match (r, demand_of(route_segments(addr@))) {
                (Ok((Some(host), port)), Some(d)) => d.host == Some(host@) && d.port == port,
                (Ok((None, port)), Some(d)) => d.host is None && d.port == port,
                (Err(_), None) => true,
                _ => false,
            },
    {
        let segments = addr.iter_segments();
        let ghost parts = route_segments(addr@);
        assert(texts(segments@).len() == segments@.len());
        let n = segments.len();
        if n != 3 && n != 4 {
            return Err(());
        }
        assert(parts[0] == segments@[0]@ && parts[1] == segments@[1]@);
        assert(parts.last() == segments@[n - 1]@);
        if !same_text(segments[0], "proxyme") || !same_text(segments[1], "0.0.1") {
            return Err(());
        }
        match parse_port(segments[n - 1]) {
            Err(_) => Err(()),
            Ok(port) => {
                if n == 4 {
                    assert(parts[2] == segments@[2]@);
                    Ok((Some(segments[2]), port))
                } else {
                    Ok((None, port))
                }
            },
        }
    }

    /// The addresses on which a port is bound, as the client is told of them.
    pub fn addrs_at(&self, port: u16) -> (r: Vec<SocketAddr>)
        ensures
            r@ == self.bound_on().map_values(|ip: IpAddr| at_port(ip, port)),
    {
        let mut out: Vec<SocketAddr> = Vec::new();
        let mut i: usize = 0;
        while i < self.bind_addrs.len()
            invariant
                i <= self.bind_addrs.len(),
                out.len() == i,
                forall|j: int|
                    0 <= j < i ==> #[trigger] out@[j] == at_port(self.bind_addrs@[j], port),
            decreases self.bind_addrs.len() - i,
        {
            out.push(SocketAddr::new(self.bind_addrs[i], port));
            i += 1;
        }
        assert(out@ =~= self.bound_on().map_values(|ip: IpAddr| at_port(ip, port)));
        out
    }
}

/// Whether an address demands something.
pub open spec fn demands(addr: Seq<char>) -> bool {
    demand_of(route_segments(addr)) is Some
}

impl Service for DemandProxyService {
    type Error = String;

    fn accepts(&self, addr: &RouteAddress, tunnel: &TunnelId) -> (r: bool)
        ensures
            r == demands(addr@),
    {
        match Self::parse_address(addr) {
            Ok(_) => true,
            Err(_) => false,
        }
    }
}

/// The host that a client asks for holds no slash, unless the target is a name with one.
proof fn lemma_demanded_host(target: TcpStreamTarget)
    requires
        target matches TcpStreamTarget::Dns(d) ==> !d.host_text().contains('/'),
    ensures
        !demanded_host(target).contains('/'),
{
    match target {
        TcpStreamTarget::Port(_) => {
            lemma_ipv4_text_excludes(Ipv4Addr { a: 127, b: 0, c: 0, d: 1 });
        },
        TcpStreamTarget::SocketAddr(SocketAddr::V4 { ip, port }) => {
            lemma_ipv4_text_excludes(ip);
        },
        TcpStreamTarget::SocketAddr(SocketAddr::V6 { ip, port, flowinfo, scope_id }) => {
            law_ipv6_round_trip(ip.segments@);
        },
        TcpStreamTarget::Dns(_) => {},
    }
}

/// The service accepts every address that a client builds for a target whose name has no slash.
pub proof fn law_demand_service_accepts_clients(target: TcpStreamTarget)
    requires
        target matches TcpStreamTarget::Dns(d) ==> !d.host_text().contains('/'),
    ensures
        demands(demand_route(demanded_host(target), demanded_port(target))),
{
    lemma_demanded_host(target);
    law_demand_round_trip(demanded_host(target), demanded_port(target));
}

/// The service accepts exactly the addresses that are made of its name, its version, at most a host,
/// and a port.
pub proof fn law_demand_service_accepts_only_demands(addr: Seq<char>)
    ensures
        ({
            let segments = route_segments(addr);
            demands(addr) <==> {
                &&& segments.len() == 3 || segments.len() == 4
                &&& segments[0] == "proxyme"@
                &&& segments[1] == "0.0.1"@
                &&& port_of(segments[segments.len() - 1]) is Ok
            }
        }),
{
    law_demand_says_what_it_asks(route_segments(addr));
}

/// Why a demand was not served to its end.
#[derive(Debug)]
pub enum DemandFailure<E> {
    /// The remote is not known, or its address demands nothing.
    Address,
    /// The stream ended before the subject was read, or before its end was announced.
    UnexpectedEnd,
    /// The answer could not be written.
    IllegalResponse,
    /// No port was left.
    Allocation,
    /// The port could not be bound.
    Binding,
    /// What arrived at the port could not be carried on.
    Listening(ServiceError<E>),
}

impl<E> DemandFailure<E> {
    /// The failure, as services report it.
    pub fn into_service_error(self) -> (r: ServiceError<E>)
        ensures
            match self {
                DemandFailure::Address => r is AddressError,
                DemandFailure::UnexpectedEnd => r is UnexpectedEnd,
                DemandFailure::IllegalResponse => r is IllegalResponse,
                DemandFailure::Allocation => r is DependencyFailure,
                DemandFailure::Binding => r matches ServiceError::InternalFailure(m) && m@
                    == "Binding port for client"@,
                DemandFailure::Listening(e) => r == e,
            },
    {
        match self {
            DemandFailure::Address => ServiceError::AddressError,
            DemandFailure::UnexpectedEnd => ServiceError::UnexpectedEnd,
            DemandFailure::IllegalResponse => ServiceError::IllegalResponse,
            DemandFailure::Allocation => ServiceError::DependencyFailure,
            DemandFailure::Binding => ServiceError::InternalFailure(
                "Binding port for client".to_owned(),
            ),
            DemandFailure::Listening(e) => e,
        }
    }
}

/// How far a demand has been served.
#[derive(Debug, Clone, Copy, PartialEq, Eq, Structural)]
pub enum DemandPhase {
    ReadingSubject,
    Allocating,
    /// The client is being told of this port.
    Granting(u16),
    /// The client is being told that there is no port.
    Refusing,
    /// This port is being bound.
    Binding(u16),
    /// The client is being told that its port could not be bound.
    Revoking,
    /// What arrives at the port is carried on, until the client is done.
    Listening,
    /// The client is being told that nothing more is carried on.
    Closing,
    Over,
}

/// What happened outside.
#[derive(Debug)]
pub enum DemandEvent<E> {
    /// The subject was read, or could not be.
    Subject(bool),
    /// A port was allocated, or none was left.
    Allocated(Option<u16>),
    /// What was to be written was written, or could not be.
    Written(bool),
    /// Every address was bound, or one could not be.
    Bound(bool),
    /// The client is done, and the listeners have ended with this result.
    Listened(Result<(), ServiceError<E>>),
}

/// What is to be done next.
#[derive(Debug)]
pub enum DemandAction<E> {
    /// Read the subject.
    ReadSubject,
    /// Allocate a port.
    Allocate,
    /// Tell the client the addresses at this port.
    Grant(u16),
    /// Tell the client that it gets no port.
    Refuse,
    /// Bind the addresses at this port, one after the other.
    Bind(u16),
    /// Carry on what arrives, until the client ends or breaks the stream.
    Listen,
    /// Release the port and tell the client that the end is reached.
    Close,
    /// The demand was served.
    Complete,
    Fail(DemandFailure<E>),
}

/// What the service does when something happens, or nothing if that cannot happen then.
pub open spec fn demand_step<E>(phase: DemandPhase, event: DemandEvent<E>) -> Option<
    (DemandPhase, DemandAction<E>),
> {
    match (phase, event) {
        (DemandPhase::ReadingSubject, DemandEvent::Subject(true)) => Some(
            (DemandPhase::Allocating, DemandAction::Allocate),
        ),
        (DemandPhase::ReadingSubject, DemandEvent::Subject(false)) => Some(
            (DemandPhase::Over, DemandAction::Fail(DemandFailure::UnexpectedEnd)),
        ),
        (DemandPhase::Allocating, DemandEvent::Allocated(Some(port))) => Some(
            (DemandPhase::Granting(port), DemandAction::Grant(port)),
        ),
        (DemandPhase::Allocating, DemandEvent::Allocated(None)) => Some(
            (DemandPhase::Refusing, DemandAction::Refuse),
        ),
        (DemandPhase::Granting(port), DemandEvent::Written(true)) => Some(
            (DemandPhase::Binding(port), DemandAction::Bind(port)),
        ),
        (DemandPhase::Refusing, DemandEvent::Written(true)) => Some(
            (DemandPhase::Over, DemandAction::Fail(DemandFailure::Allocation)),
        ),
        (DemandPhase::Revoking, DemandEvent::Written(true)) => Some(
            (DemandPhase::Over, DemandAction::Fail(DemandFailure::Binding)),
        ),
        (DemandPhase::Closing, DemandEvent::Written(true)) => Some(
            (DemandPhase::Over, DemandAction::Complete),
        ),
        (DemandPhase::Granting(_), DemandEvent::Written(false)) => Some(
            (DemandPhase::Over, DemandAction::Fail(DemandFailure::IllegalResponse)),
        ),
        (DemandPhase::Refusing, DemandEvent::Written(false)) => Some(
            (DemandPhase::Over, DemandAction::Fail(DemandFailure::IllegalResponse)),
        ),
        (DemandPhase::Revoking, DemandEvent::Written(false)) => Some(
            (DemandPhase::Over, DemandAction::Fail(DemandFailure::IllegalResponse)),
        ),
        (DemandPhase::Closing, DemandEvent::Written(false)) => Some(
            (DemandPhase::Over, DemandAction::Fail(DemandFailure::UnexpectedEnd)),
        ),
        (DemandPhase::Binding(_), DemandEvent::Bound(true)) => Some(
            (DemandPhase::Listening, DemandAction::Listen),
        ),
        (DemandPhase::Binding(_), DemandEvent::Bound(false)) => Some(
            (DemandPhase::Revoking, DemandAction::Refuse),
        ),
        (DemandPhase::Listening, DemandEvent::Listened(Ok(_))) => Some(
            (DemandPhase::Closing, DemandAction::Close),
        ),
        (DemandPhase::Listening, DemandEvent::Listened(Err(e))) => Some(
            (DemandPhase::Over, DemandAction::Fail(DemandFailure::Listening(e))),
        ),
        _ => None,
    }
}

/// Where these events bring a demand, and what is to be done then.
pub open spec fn demand_run<E>(events: Seq<DemandEvent<E>>) -> Option<
    (DemandPhase, DemandAction<E>),
>
    decreases events.len(),
{
    if events.len() == 0 {
        Some((DemandPhase::ReadingSubject, DemandAction::ReadSubject))
    } else {
        match demand_run(events.drop_last()) {
            Some((phase, _)) => demand_step(phase, events.last()),
            None => None,
        }
    }
}

/// The serving of one demand.
pub struct DemandHandling {
    /// The host that the remote is to connect to, if the demand names one.
    pub host: Option<String>,
    /// The port that the remote is to connect to.
    pub port: u16,
    /// The tunnel through which what arrives is carried.
    pub tunnel: TunnelName,
    pub phase: DemandPhase,
}

impl DemandHandling {
    /// Takes the serving one event further.
    pub fn step<E>(&mut self, event: DemandEvent<E>) -> (r: DemandAction<E>)
        requires
            demand_step(old(self).phase, event) is Some,
        ensures
            demand_step(old(self).phase, event) == Some((final(self).phase, r)),
            final(self).host == old(self).host,
            final(self).port == old(self).port,
            final(self).tunnel == old(self).tunnel,
    {
        let (phase, action) = match event {
            DemandEvent::Subject(true) => (DemandPhase::Allocating, DemandAction::Allocate),
            DemandEvent::Subject(false) => (
                DemandPhase::Over,
                DemandAction::Fail(DemandFailure::UnexpectedEnd),
            ),
            DemandEvent::Allocated(Some(port)) => (
                DemandPhase::Granting(port),
                DemandAction::Grant(port),
            ),
            DemandEvent::Allocated(None) => (DemandPhase::Refusing, DemandAction::Refuse),
            DemandEvent::Bound(true) => (DemandPhase::Listening, DemandAction::Listen),
            DemandEvent::Bound(false) => (DemandPhase::Revoking, DemandAction::Refuse),
            DemandEvent::Listened(Ok(_)) => (DemandPhase::Closing, DemandAction::Close),
            DemandEvent::Listened(Err(e)) => (
                DemandPhase::Over,
                DemandAction::Fail(DemandFailure::Listening(e)),
            ),
            DemandEvent::Written(written) => match (self.phase, written) {
                (DemandPhase::Granting(port), true) => (
                    DemandPhase::Binding(port),
                    DemandAction::Bind(port),
                ),
                (DemandPhase::Refusing, true) => (
                    DemandPhase::Over,
                    DemandAction::Fail(DemandFailure::Allocation),
                ),
                (DemandPhase::Revoking, true) => (
                    DemandPhase::Over,
                    DemandAction::Fail(DemandFailure::Binding),
                ),
                (DemandPhase::Closing, true) => (DemandPhase::Over, DemandAction::Complete),
                (DemandPhase::Closing, false) => (
                    DemandPhase::Over,
                    DemandAction::Fail(DemandFailure::UnexpectedEnd),
                ),
                _ => (DemandPhase::Over, DemandAction::Fail(DemandFailure::IllegalResponse)),
            },
        };
        self.phase = phase;
        action
    }
}

impl DemandProxyService {
    /// Starts to serve the demand of a tunnel. Only a tunnel that is known by a name, through which
    /// it can be found again, may demand.
    pub fn handle<E>(&self, peers: &PeersView<'_>, addr: &RouteAddress, tunnel: &TunnelId) -> (r:
        Result<DemandHandling, DemandFailure<E>>)
        ensures
            ({
                let known = peers.state().by_id.contains_key(tunnel.id);
                match (r, demand_of(route_segments(addr@))) {
                    (Ok(handling), Some(demand)) => {
                        &&& known
                        &&& handling.phase is ReadingSubject
                        &&& handling.tunnel == peers.state().by_id[tunnel.id].name
                        &&& handling.port == demand.port
                        &&& match (handling.host, demand.host) {
                            (Some(h), Some(d)) => h@ == d,
                            (None, None) => true,
                            _ => false,
                        }
                    },
                    (Ok(_), None) => false,
                    (Err(e), demand) => (!known || demand is None) && e is Address,
                }
            }),
    {
        let tunnel = match peers.get_by_id(tunnel) {
            Some(record) => record.name.clone(),
            None => {
                return Err(DemandFailure::Address);
            },
        };
        match Self::parse_address(addr) {
            Err(_) => Err(DemandFailure::Address),
            Ok((host, port)) => {
                let host = match host {
                    Some(h) => Some(h.to_owned()),
                    None => None,
                };
                Ok(DemandHandling { host, port, tunnel, phase: DemandPhase::ReadingSubject })
            },
        }
    }
}

/// The events of a demand that is served: the subject is read, a port is allocated and granted, it
/// is bound, what arrives is carried on to its end, and the end is announced.
pub open spec fn served_events<E>(port: u16) -> Seq<DemandEvent<E>> {
    seq![
        DemandEvent::Subject(true),
        DemandEvent::Allocated(Some(port)),
        DemandEvent::Written(true),
        DemandEvent::Bound(true),
        DemandEvent::Listened(Ok(())),
        DemandEvent::Written(true),
    ]
}

/// Where a demand stands tells which events it went through: the first so many of those of a
/// demand that is served, and then at most a refusal.
proof fn lemma_demand_history<E>(events: Seq<DemandEvent<E>>)
    ensures
        match demand_run(events) {
            Some((DemandPhase::ReadingSubject, _)) => events.len() == 0,
            Some((DemandPhase::Allocating, _)) => events == served_events::<E>(0).take(1),
            Some((DemandPhase::Granting(port), _)) => events == served_events::<E>(port).take(2),
            Some((DemandPhase::Binding(port), _)) => events == served_events::<E>(port).take(3),
            Some((DemandPhase::Listening, _)) => exists|port: u16|
                events == (#[trigger] served_events::<E>(port)).take(4),
            Some((DemandPhase::Closing, _)) => exists|port: u16|
                events == (#[trigger] served_events::<E>(port)).take(5),
            Some((DemandPhase::Over, DemandAction::Complete)) => exists|port: u16|
                events == #[trigger] served_events::<E>(port),
            _ => true,
        },
    decreases events.len(),
{
    if events.len() > 0 && demand_run(events) is Some {
        let before = events.drop_last();
        lemma_demand_history(before);
        let (phase, action) = demand_run(before)->0;
        assert(events =~= before.push(events.last()));
        match phase {
            DemandPhase::ReadingSubject => {
                assert(events[0] == events.last());
                assert(events.last() == DemandEvent::<E>::Subject(true) ==> events
                    =~= served_events::<E>(0).take(1));
            },
            DemandPhase::Allocating => {
                if let DemandEvent::Allocated(Some(port)) = events.last() {
                    assert(events =~= served_events::<E>(port).take(2));
                }
            },
            DemandPhase::Granting(port) => {
                if events.last() == DemandEvent::<E>::Written(true) {
                    assert(events =~= served_events::<E>(port).take(3));
                }
            },
            DemandPhase::Binding(port) => {
                if events.last() == DemandEvent::<E>::Bound(true) {
                    assert(events =~= served_events::<E>(port).take(4));
                }
            },
            DemandPhase::Listening => {
                let port = choose|port: u16|
                    before == (#[trigger] served_events::<E>(port)).take(4);
                if let DemandEvent::Listened(Ok(done)) = events.last() {
                    assert(done == ());
                    assert(events =~= served_events::<E>(port).take(5));
                }
            },
            DemandPhase::Closing => {
                let port = choose|port: u16|
                    before == (#[trigger] served_events::<E>(port)).take(5);
                if events.last() == DemandEvent::<E>::Written(true) {
                    assert(events =~= served_events::<E>(port));
                }
            },
            _ => {},
        }
    }
}

/// A demand is reported as served exactly when every step of it went well.
pub proof fn law_demand_completes<E>(events: Seq<DemandEvent<E>>)
    ensures
        (demand_run(events) matches Some((_, DemandAction::Complete))) <==> exists|port: u16|
            events == #[trigger] served_events::<E>(port),
{
    if demand_run(events) matches Some((_, DemandAction::Complete)) {
        lemma_demand_history(events);
        assert(events.len() > 0);
        let (phase, _) = demand_run(events.drop_last())->0;
        assert(demand_step(phase, events.last()) == demand_run(events));
    }
    if exists|port: u16| events == #[trigger] served_events::<E>(port) {
        let port = choose|port: u16| events == #[trigger] served_events::<E>(port);
        let all = served_events::<E>(port);
        reveal_with_fuel(demand_run, 7);
        assert(all.drop_last() =~= all.take(5));
        assert(all.take(5).drop_last() =~= all.take(4));
        assert(all.take(4).drop_last() =~= all.take(3));
        assert(all.take(3).drop_last() =~= all.take(2));
        assert(all.take(2).drop_last() =~= all.take(1));
        assert(all.take(1).drop_last() =~= Seq::<DemandEvent<E>>::empty());
    }
}

/// Whether every event says that what was to be done for a demand was done.
pub open spec fn serves_well<E>(events: Seq<DemandEvent<E>>) -> bool {
    &&& events.len() > 0 ==> events[0] == DemandEvent::<E>::Subject(true)
    &&& events.len() > 1 ==> (events[1] matches DemandEvent::Allocated(Some(_)))
    &&& events.len() > 2 ==> events[2] == DemandEvent::<E>::Written(true)
    &&& events.len() > 3 ==> events[3] == DemandEvent::<E>::Bound(true)
    &&& events.len() > 4 ==> (events[4] matches DemandEvent::Listened(Ok(_)))
    &&& events.len() > 5 ==> events[5] == DemandEvent::<E>::Written(true)
    &&& events.len() <= 6
}

/// Whether the last event says that no port was left for a demand.
pub open spec fn finds_no_port<E>(events: Seq<DemandEvent<E>>) -> bool {
    &&& events.len() == 2
    &&& serves_well(events.take(1))
    &&& events[1] == DemandEvent::<E>::Allocated(None)
}

/// Whether the last event says that the port of a demand could not be bound.
pub open spec fn cannot_bind<E>(events: Seq<DemandEvent<E>>) -> bool {
    &&& events.len() == 4
    &&& serves_well(events.take(3))
    &&& events[3] == DemandEvent::<E>::Bound(false)
}

/// The phase of a demand tells which events it has seen.
proof fn lemma_demand_phase<E>(events: Seq<DemandEvent<E>>)
    ensures
        demand_run(events) matches Some((phase, _)) ==> {
            &&& phase is ReadingSubject ==> events.len() == 0
            &&& phase is Allocating ==> events.len() == 1 && serves_well(events)
            &&& phase matches DemandPhase::Granting(port) ==> events.len() == 2 && serves_well(
                events,
            ) && events[1] == DemandEvent::<E>::Allocated(Some(port))
            &&& phase is Refusing ==> finds_no_port(events)
            &&& phase matches DemandPhase::Binding(port) ==> events.len() == 3 && serves_well(
                events,
            ) && events[1] == DemandEvent::<E>::Allocated(Some(port))
            &&& phase is Revoking ==> cannot_bind(events)
            &&& phase is Listening ==> events.len() == 4 && serves_well(events)
            &&& phase is Closing ==> events.len() == 5 && serves_well(events)
        },
        serves_well(events) ==> (demand_run(events) matches Some((phase, _)) && {
            &&& events.len() < 6 ==> !(phase is Over)
            &&& !(phase is Refusing)
            &&& !(phase is Revoking)
        }),
        finds_no_port(events) ==> (demand_run(events) matches Some((DemandPhase::Refusing, _))),
        cannot_bind(events) ==> (demand_run(events) matches Some((DemandPhase::Revoking, _))),
    decreases events.len(),
{
    if events.len() > 0 {
        let init = events.drop_last();
        lemma_demand_phase(init);
        assert(events.last() == events[events.len() - 1]);
        assert forall|i: int| 0 <= i < init.len() implies init[i] == #[trigger] events[i] by {}
        if events.len() == 2 {
            assert(events.take(1) =~= init);
        }
        if events.len() == 4 {
            assert(events.take(3) =~= init);
        }
    }
}

/// A demand goes on exactly as each step of it went: its port is granted and bound once it was
/// allocated, and the client is refused where none was left or it could not be bound.
pub proof fn law_demand_goes_on_exactly<E>(events: Seq<DemandEvent<E>>, port: u16)
    ensures
        (demand_run(events) matches Some((_, DemandAction::Allocate))) <==> events.len() == 1
            && serves_well(events),
        (demand_run(events) matches Some((_, DemandAction::Grant(p))) && p == port)
            <==> events.len() == 2 && serves_well(events) && events[1] == DemandEvent::<
            E,
        >::Allocated(Some(port)),
        (demand_run(events) matches Some((_, DemandAction::Bind(p))) && p == port)
            <==> events.len() == 3 && serves_well(events) && events[1] == DemandEvent::<
            E,
        >::Allocated(Some(port)),
        (demand_run(events) matches Some((_, DemandAction::Listen))) <==> events.len() == 4
            && serves_well(events),
        (demand_run(events) matches Some((_, DemandAction::Close))) <==> events.len() == 5
            && serves_well(events),
        (demand_run(events) matches Some((_, DemandAction::Complete))) <==> events.len() == 6
            && serves_well(events),
        (demand_run(events) matches Some((_, DemandAction::Refuse))) <==> finds_no_port(events)
            || cannot_bind(events),
{
    lemma_demand_phase(events);
    if events.len() > 0 {
        let init = events.drop_last();
        lemma_demand_phase(init);
        assert(events.last() == events[events.len() - 1]);
        assert forall|i: int| 0 <= i < init.len() implies init[i] == #[trigger] events[i] by {}
        if events.len() == 2 {
            assert(events.take(1) =~= init);
        }
        if events.len() == 4 {
            assert(events.take(3) =~= init);
        }
    }
}

/// A demand fails exactly when a step of it failed, and with what failed: a client that was refused
/// is told before that, and what the listeners failed with is passed on.
pub proof fn law_demand_fails_exactly<E>(events: Seq<DemandEvent<E>>)
    requires
        events.len() > 0,
        demand_run(events) is Some,
    ensures
        ({
            let n = events.len();
            let before = events.drop_last();
            let last = events.last();
            match demand_run(events) {
                Some((_, DemandAction::Fail(e))) => match e {
                    DemandFailure::Address => false,
                    DemandFailure::UnexpectedEnd => {
                        ||| n == 1 && last == DemandEvent::<E>::Subject(false)
                        ||| n == 6 && serves_well(before) && last == DemandEvent::<E>::Written(
                            false,
                        )
                    },
                    DemandFailure::IllegalResponse => {
                        &&& last == DemandEvent::<E>::Written(false)
                        &&& (n == 3 && serves_well(before)) || finds_no_port(before) || cannot_bind(
                            before,
                        )
                    },
                    DemandFailure::Allocation => finds_no_port(before) && last == DemandEvent::<
                        E,
                    >::Written(true),
                    DemandFailure::Binding => cannot_bind(before) && last == DemandEvent::<
                        E,
                    >::Written(true),
                    DemandFailure::Listening(e) => n == 5 && serves_well(before) && last
                        == DemandEvent::Listened(Err(e)),
                },
                _ => {
                    &&& last != DemandEvent::<E>::Subject(false)
                    &&& last != DemandEvent::<E>::Written(false)
                    &&& !(last matches DemandEvent::Listened(Err(_)))
                    &&& !finds_no_port(before)
                    &&& !cannot_bind(before)
                },
            }
        }),
{
    let init = events.drop_last();
    lemma_demand_phase(init);
    assert(events.last() == events[events.len() - 1]);
    assert forall|i: int| 0 <= i < init.len() implies init[i] == #[trigger] events[i] by {}
}

/// As long as a demand is not over, it takes every outcome of what it waits for, good or bad: the
/// reading of the subject, the allocation, each writing, the binding and the listening.
pub proof fn law_demand_takes_every_outcome<E>(phase: DemandPhase, event: DemandEvent<E>)
    ensures
        demand_step(phase, event) is Some <==> match phase {
            DemandPhase::ReadingSubject => event is Subject,
            DemandPhase::Allocating => event is Allocated,
            DemandPhase::Granting(_) => event is Written,
            DemandPhase::Refusing => event is Written,
            DemandPhase::Binding(_) => event is Bound,
            DemandPhase::Revoking => event is Written,
            DemandPhase::Listening => event is Listened,
            DemandPhase::Closing => event is Written,
            DemandPhase::Over => false,
        },
{
}

/// How far a client has come.
#[derive(Debug, Clone, Copy, PartialEq, Eq, Structural)]
pub enum DemandClientPhase {
    /// The subject is being written.
    Asking,
    /// The answer is being read.
    AwaitingGrant,
    /// The service listens, until it announces the end.
    Granted,
    Over,
}

/// What happened outside.
#[derive(Debug)]
pub enum DemandClientEvent {
    /// The subject was written, or could not be.
    Written(bool),
    /// The answer was read, or could not be: the addresses that are bound, or none.
    Answered(Option<Option<Vec<SocketAddr>>>),
    /// The end was announced, or the stream broke.
    Closed(bool),
}

/// What is to be done next.
#[derive(Debug)]
pub enum DemandClientAction {
    /// Read the answer.
    ReadGrant,
    /// Hand out the addresses that are bound, and read on for the end.
    AwaitClosure(Vec<SocketAddr>),
    /// The service is done.
    Complete,
    Fail(ClientError<()>),
}

/// What the client does when something happens, or nothing if that cannot happen then.
pub open spec fn demand_client_step(phase: DemandClientPhase, event: DemandClientEvent) -> Option<
    (DemandClientPhase, DemandClientAction),
> {
    match (phase, event) {
        (DemandClientPhase::Asking, DemandClientEvent::Written(true)) => Some(
            (DemandClientPhase::AwaitingGrant, DemandClientAction::ReadGrant),
        ),
        (DemandClientPhase::Asking, DemandClientEvent::Written(false)) => Some(
            (
                DemandClientPhase::Over,
                DemandClientAction::Fail(ClientError::IllegalResponse(())),
            ),
        ),
        (DemandClientPhase::AwaitingGrant, DemandClientEvent::Answered(Some(Some(addrs)))) => Some(
            (DemandClientPhase::Granted, DemandClientAction::AwaitClosure(addrs)),
        ),
        (DemandClientPhase::AwaitingGrant, DemandClientEvent::Answered(Some(None))) => Some(
            (DemandClientPhase::Over, DemandClientAction::Fail(ClientError::Refused)),
        ),
        (DemandClientPhase::AwaitingGrant, DemandClientEvent::Answered(None)) => Some(
            (
                DemandClientPhase::Over,
                DemandClientAction::Fail(ClientError::IllegalResponse(())),
            ),
        ),
        (DemandClientPhase::Granted, DemandClientEvent::Closed(true)) => Some(
            (DemandClientPhase::Over, DemandClientAction::Complete),
        ),
        (DemandClientPhase::Granted, DemandClientEvent::Closed(false)) => Some(
            (
                DemandClientPhase::Over,
                DemandClientAction::Fail(ClientError::IllegalResponse(())),
            ),
        ),
        _ => None,
    }
}

impl DemandClientPhase {
    /// Takes the client one event further.
    pub fn step(&mut self, event: DemandClientEvent) -> (r: DemandClientAction)
        requires
            demand_client_step(*old(self), event) is Some,
        ensures
            demand_client_step(*old(self), event) == Some((*final(self), r)),
    {
        match event {
            DemandClientEvent::Written(true) => {
                *self = DemandClientPhase::AwaitingGrant;
                DemandClientAction::ReadGrant
            },
            DemandClientEvent::Answered(Some(Some(addrs))) => {
                *self = DemandClientPhase::Granted;
                DemandClientAction::AwaitClosure(addrs)
            },
            DemandClientEvent::Answered(Some(None)) => {
                *self = DemandClientPhase::Over;
                DemandClientAction::Fail(ClientError::Refused)
            },
            DemandClientEvent::Closed(true) => {
                *self = DemandClientPhase::Over;
                DemandClientAction::Complete
            },
            _ => {
                *self = DemandClientPhase::Over;
                DemandClientAction::Fail(ClientError::IllegalResponse(()))
            },
        }
    }
}

/// Where a client stands after some events, and what the last of them makes it do.
pub open spec fn demand_client_run(events: Seq<DemandClientEvent>) -> Option<
    (DemandClientPhase, Option<DemandClientAction>),
>
    decreases events.len(),
{
    if events.len() == 0 {
        Some((DemandClientPhase::Asking, None))
    } else {
        match demand_client_run(events.drop_last()) {
            Some((phase, _)) => match demand_client_step(phase, events.last()) {
                Some((next, action)) => Some((next, Some(action))),
                None => None,
            },
            None => None,
        }
    }
}

/// Whether the first events of a client say that it asked and was granted addresses, as far as
/// there are so many of them.
pub open spec fn was_granted(events: Seq<DemandClientEvent>) -> bool {
    &&& events.len() > 0 ==> events[0] == DemandClientEvent::Written(true)
    &&& events.len() > 1 ==> (events[1] matches DemandClientEvent::Answered(Some(Some(_))))
}

/// The phase of a client tells which events it has seen.
proof fn lemma_demand_client_phase(events: Seq<DemandClientEvent>)
    ensures
        demand_client_run(events) matches Some((phase, _)) ==> {
            &&& phase is Asking ==> events.len() == 0
            &&& phase is AwaitingGrant ==> events.len() == 1 && was_granted(events)
            &&& phase is Granted ==> events.len() == 2 && was_granted(events)
        },
        events.len() <= 2 && was_granted(events) ==> (demand_client_run(events) matches Some(
            (phase, _),
        ) && !(phase is Over)),
    decreases events.len(),
{
    if events.len() > 0 {
        let init = events.drop_last();
        lemma_demand_client_phase(init);
        assert(events.last() == events[events.len() - 1]);
        assert forall|i: int| 0 <= i < init.len() implies init[i] == #[trigger] events[i] by {}
    }
}

/// A client hands out the addresses that the service granted, exactly when it granted some, and is
/// done exactly when the service then announced its end.
pub proof fn law_demand_client_goes_on_exactly(
    events: Seq<DemandClientEvent>,
    addrs: Vec<SocketAddr>,
)
    ensures
        (demand_client_run(events) matches Some((_, Some(DemandClientAction::ReadGrant))))
            <==> events.len() == 1 && events[0] == DemandClientEvent::Written(true),
        (demand_client_run(events) matches Some((_, Some(DemandClientAction::AwaitClosure(a))))
            && a == addrs) <==> events.len() == 2 && events[0] == DemandClientEvent::Written(true)
            && events[1] == DemandClientEvent::Answered(Some(Some(addrs))),
        (demand_client_run(events) matches Some((_, Some(DemandClientAction::Complete))))
            <==> events.len() == 3 && was_granted(events) && events[2]
            == DemandClientEvent::Closed(true),
{
    if events.len() > 0 {
        let init = events.drop_last();
        lemma_demand_client_phase(init);
        assert(events.last() == events[events.len() - 1]);
        assert forall|i: int| 0 <= i < init.len() implies init[i] == #[trigger] events[i] by {}
    }
}

/// A client is refused exactly when the service answered with no addresses, and sees an illegal
/// response exactly when it could not write, could not read the answer, or was not told of the end.
pub proof fn law_demand_client_fails_exactly(events: Seq<DemandClientEvent>)
    ensures
        (demand_client_run(events) matches Some(
            (_, Some(DemandClientAction::Fail(ClientError::Refused))),
        )) <==> events.len() == 2 && events[0] == DemandClientEvent::Written(true) && events[1]
            == DemandClientEvent::Answered(Some(None)),
        (demand_client_run(events) matches Some(
            (_, Some(DemandClientAction::Fail(ClientError::IllegalResponse(_)))),
        )) <==> {
            ||| events.len() == 1 && events[0] == DemandClientEvent::Written(false)
            ||| events.len() == 2 && events[0] == DemandClientEvent::Written(true) && events[1]
                == DemandClientEvent::Answered(None)
            ||| events.len() == 3 && was_granted(events) && events[2] == DemandClientEvent::Closed(
                false,
            )
        },
        demand_client_run(events) matches Some((_, Some(DemandClientAction::Fail(e)))) ==> e is Refused
            || e is IllegalResponse,
{
    if events.len() > 0 {
        let init = events.drop_last();
        lemma_demand_client_phase(init);
        assert(events.last() == events[events.len() - 1]);
        assert forall|i: int| 0 <= i < init.len() implies init[i] == #[trigger] events[i] by {}
    }
}

/// What the service tells the client when it takes this action, if it tells anything.
pub open spec fn answer_to_client<E>(
    service: DemandProxyService,
    action: DemandAction<E>,
    answer: Option<Vec<SocketAddr>>,
) -> bool {
    match (action, answer) {
        (DemandAction::Grant(port), Some(addrs)) => addrs@ == service.bound_on().map_values(
            |ip: IpAddr| at_port(ip, port),
        ),
        (DemandAction::Refuse, None) => true,
        _ => false,
    }
}

/// A client that waits for the answer is refused exactly when the service has no port for it, and
/// else is handed the addresses at the port that the service goes on to bind.
pub proof fn law_client_gets_the_port<E>(
    service: DemandProxyService,
    allocated: Option<u16>,
    answer: Option<Vec<SocketAddr>>,
)
    requires
        match demand_step::<E>(DemandPhase::Allocating, DemandEvent::Allocated(allocated)) {
            Some((_, action)) => answer_to_client(service, action, answer),
            None => false,
        },
    ensures
        match (
            allocated,
            demand_client_step(
                DemandClientPhase::AwaitingGrant,
                DemandClientEvent::Answered(Some(answer)),
            ),
        ) {
            (Some(port), Some((_, DemandClientAction::AwaitClosure(addrs)))) => addrs@
                == service.bound_on().map_values(|ip: IpAddr| at_port(ip, port))
                && demand_step::<E>(DemandPhase::Granting(port), DemandEvent::Written(true))
                == Some((DemandPhase::Binding(port), DemandAction::<E>::Bind(port))),
            (None, Some((_, DemandClientAction::Fail(e)))) => e is Refused,
            _ => false,
        },
{
}

/// What a listener makes of the next connection: one that cannot be accepted ends it.
pub fn accepted<S, I, E>(connection: Result<S, I>) -> (r: Result<S, ServiceError<E>>)
    ensures
        match connection {
            Ok(s) => r == Ok::<S, ServiceError<E>>(s),
            Err(_) => r matches Err(ServiceError::UnexpectedEnd),
        },
{
    match connection {
        Ok(s) => Ok(s),
        Err(_) => Err(ServiceError::UnexpectedEnd),
    }
}

/// Where a connection that arrived at a bound port is carried on to: the host that the demand
/// names, or else the remote itself, at the port of the demand. Without a router nothing is
/// carried on.
pub fn forward<E>(host: &Option<String>, port: u16, router_alive: bool) -> (r: Result<
    RouteAddress,
    ServiceError<E>,
>)
    ensures
        match r {
            Ok(addr) => router_alive && addr@ == target_route(
                TargetView::Dns {
                    class: DnsClass::Any,
                    host: match *host {
                        Some(h) => h@,
                        None => "localhost"@,
                    },
                    port,
                },
            ),
            Err(e) => !router_alive && e is DependencyFailure,
        },
{
    let host = match host {
        Some(h) => h.clone(),
        None => "localhost".to_owned(),
    };
    let target = TcpStreamTarget::Dns(DnsTarget::PreferHigher { host, port });
    let addr = target.to_route();
    if router_alive {
        Ok(addr)
    } else {
        Err(ServiceError::DependencyFailure)
    }
}

/// What a connection that could not be routed means to the service.
pub fn routing_failure<E>(e: RoutingError<E>) -> (r: ServiceError<E>)
    ensures
        match e {
            RoutingError::RouteNotFound(_) => r is DependencyFailure,
            RoutingError::RouteUnavailable(_) => r is DependencyFailure,
            RoutingError::RouterError(_) => r is DependencyFailure,
            RoutingError::LinkOpenFailure(_) => r is DependencyFailure,
            RoutingError::InvalidAddress => r is AddressError,
            RoutingError::NegotiationError(n) => call_ensures(
                NegotiationError::<E>::into_service_error::<E>,
                (n,),
                r,
            ),
        },
{
    match e {
        RoutingError::RouteNotFound(_) => ServiceError::DependencyFailure,
        RoutingError::RouteUnavailable(_) => ServiceError::DependencyFailure,
        RoutingError::RouterError(_) => ServiceError::DependencyFailure,
        RoutingError::LinkOpenFailure(_) => ServiceError::DependencyFailure,
        RoutingError::InvalidAddress => ServiceError::AddressError,
        RoutingError::NegotiationError(n) => n.into_service_error(),
    }
}

/// What a connection that was not carried on to its end means to the service.
pub fn forwarding_failure<A, E>(e: ClientError<A>) -> (r: ServiceError<E>)
    ensures
        match e {
            ClientError::InvalidAddress => r is AddressError,
            ClientError::Refused => r is Refused,
            ClientError::UnexpectedEnd => r is UnexpectedEnd,
            ClientError::IllegalResponse(_) => r is IllegalResponse,
        },
{
    match e {
        ClientError::InvalidAddress => ServiceError::AddressError,
        ClientError::Refused => ServiceError::Refused,
        ClientError::UnexpectedEnd => ServiceError::UnexpectedEnd,
        ClientError::IllegalResponse(_) => ServiceError::IllegalResponse,
    }
}

/// The result of the task that runs the listeners: one that did not run to its end counts as a
/// failure of what the service depends on.
pub fn listeners_outcome<J, E>(joined: Result<Result<(), ServiceError<E>>, J>) -> (r: Result<
    (),
    ServiceError<E>,
>)
    ensures
        match joined {
            Ok(outcome) => r == outcome,
            Err(_) => r matches Err(ServiceError::DependencyFailure),
        },
{
    match joined {
        Ok(outcome) => outcome,
        Err(_) => Err(ServiceError::DependencyFailure),
    }
}

} // verus!
