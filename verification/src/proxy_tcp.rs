//! The service that connects streams to TCP targets, and the addresses by which targets are named.

use std::convert::Infallible;

use vstd::prelude::*;
use vstd::string::StringExecFns;

use crate::address::{
    is_route, law_route_of_segments, law_segments_of_route, law_segments_without_slash,
    law_strip_what_was_put, route_of, route_segments, strip_segments, RouteAddress,
    RouteAddressParseError,
};
use crate::net::{
    ip_text, ipv4_of, ipv4_text, ipv6_of, ipv6_text, law_ipv4_round_trip, law_ipv6_round_trip,
    lemma_ipv4_text_excludes, AddrParseError, IpAddr, Ipv4Addr, Ipv6Addr, SocketAddr,
};
use crate::numeral::{
    decimal, digit_value, law_port_numbers, law_port_round_trip, lemma_numeral_value, numeral,
    parse_port, port_of, push_numeral, PortParseError,
};
use crate::service::{ClientError, ProtocolInfo, RouteAddressBuilder, Service, ServiceError};
use crate::text::{lemma_prefix_each_concat, prefix_each, same_text, texts};
use crate::tunnel::id::TunnelId;

verus! {

/// Which kinds of addresses a name may be resolved to.
#[derive(Debug, Clone, Copy, PartialEq, Eq, Structural)]
pub enum DnsClass {
    Any,
    V4,
    V6,
}

/// A host that is found by name.
#[derive(Debug, Clone, PartialEq, Eq)]
pub enum DnsTarget {
    /// Written as `dns`: the highest version of IP that is available is to be used.
    PreferHigher { host: String, port: u16 },
    /// Written as `dns4`.
    Dns4 { host: String, port: u16 },
    /// Written as `dns6`.
    Dns6 { host: String, port: u16 },
}

/// What a stream can be connected to.
#[derive(Debug, Clone, PartialEq, Eq)]
pub enum TcpStreamTarget {
    /// A port of this host.
    Port(u16),
    SocketAddr(SocketAddr),
    Dns(DnsTarget),
}

/// A target, with its host as a sequence of characters.
pub enum TargetView {
    Port(u16),
    Socket4(Ipv4Addr, u16),
    Socket6 { segments: Seq<u16>, port: u16, flowinfo: u32, scope_id: u32 },
    Dns { class: DnsClass, host: Seq<char>, port: u16 },
}

impl DnsTarget {
    pub open spec fn class(self) -> DnsClass {
        match self {
            DnsTarget::PreferHigher { .. } => DnsClass::Any,
            DnsTarget::Dns4 { .. } => DnsClass::V4,
            DnsTarget::Dns6 { .. } => DnsClass::V6,
        }
    }

    pub open spec fn host_text(self) -> Seq<char> {
        match self {
            DnsTarget::PreferHigher { host, port } => host@,
            DnsTarget::Dns4 { host, port } => host@,
            DnsTarget::Dns6 { host, port } => host@,
        }
    }

    pub open spec fn port_number(self) -> u16 {
        match self {
            DnsTarget::PreferHigher { host, port } => port,
            DnsTarget::Dns4 { host, port } => port,
            DnsTarget::Dns6 { host, port } => port,
        }
    }

    /// Whether an address is of a version that the name may be resolved to.
    pub open spec fn spec_contains(self, addr: SocketAddr, check_port: bool) -> bool {
        &&& check_port ==> addr.spec_port() == self.port_number()
        &&& match addr {
            SocketAddr::V4 { .. } => self.class() != DnsClass::V6,
            SocketAddr::V6 { .. } => self.class() != DnsClass::V4,
        }
    }

    /// Whether the name may be resolved to IPv6 addresses.
    pub fn includes_ipv6(&self) -> (r: bool)
        ensures
            r == (self.class() != DnsClass::V4),
    {
        match self {
            DnsTarget::PreferHigher { .. } => true,
            DnsTarget::Dns6 { .. } => true,
            DnsTarget::Dns4 { .. } => false,
        }
    }

    /// Whether the name may be resolved to IPv4 addresses.
    pub fn includes_ipv4(&self) -> (r: bool)
        ensures
            r == (self.class() != DnsClass::V6),
    {
        match self {
            DnsTarget::PreferHigher { .. } => true,
            DnsTarget::Dns6 { .. } => false,
            DnsTarget::Dns4 { .. } => true,
        }
    }

    /// The name of the host, without a port.
    pub fn host(&self) -> (r: &str)
        ensures
            r@ == self.host_text(),
    {
        match self {
            DnsTarget::PreferHigher { host, .. } => host.as_str(),
            DnsTarget::Dns6 { host, .. } => host.as_str(),
            DnsTarget::Dns4 { host, .. } => host.as_str(),
        }
    }

    /// The port to connect to. Every target of today has one.
    pub fn port(&self) -> (r: Option<u16>)
        ensures
            r == Some(self.port_number()),
    {
        match self {
            DnsTarget::PreferHigher { port, .. } => Some(*port),
            DnsTarget::Dns6 { port, .. } => Some(*port),
            DnsTarget::Dns4 { port, .. } => Some(*port),
        }
    }

    /// Whether an address is one that the name may be resolved to.
    pub fn contains(&self, addr: &SocketAddr, check_port: bool) -> (r: bool)
        ensures
            r == self.spec_contains(*addr, check_port),
    {
        let port_fits: bool = match self.port() {
            Some(port) => addr.port() == port,
            None => false,
        };
        if check_port && !port_fits {
            false
        } else {
            addr.is_ipv6() && self.includes_ipv6() || addr.is_ipv4() && self.includes_ipv4()
        }
    }

    /// What is handed to the resolver: the host and the port with a colon between them.
    pub fn lookup_name(&self) -> (r: String)
        ensures
            r@ == self.host_text() + seq![':'] + numeral(self.port_number() as int, 10),
    {
        let mut out = String::new();
        out.append(self.host());
        out.push(':');
        match self {
            DnsTarget::PreferHigher { port, .. } => push_numeral(&mut out, *port as u64, 10),
            DnsTarget::Dns6 { port, .. } => push_numeral(&mut out, *port as u64, 10),
            DnsTarget::Dns4 { port, .. } => push_numeral(&mut out, *port as u64, 10),
        }
        assert(out@ =~= self.host_text() + seq![':'] + numeral(self.port_number() as int, 10));
        out
    }
}

/// An address is one that a name may be resolved to exactly when it is of the version of IP that the
/// name is restricted to, if it is restricted at all, and has the port of the name where that counts.
pub proof fn law_what_a_name_is_resolved_to(target: DnsTarget, addr: SocketAddr, check_port: bool)
    ensures
        target.spec_contains(addr, check_port) <==> {
            &&& target is Dns4 ==> addr is V4
            &&& target is Dns6 ==> addr is V6
            &&& check_port ==> addr.spec_port() == match target {
                DnsTarget::PreferHigher { host, port } => port,
                DnsTarget::Dns4 { host, port } => port,
                DnsTarget::Dns6 { host, port } => port,
            }
        },
{
}

impl View for TcpStreamTarget {
    type V = TargetView;

    open spec fn view(&self) -> TargetView {
        match *self {
            TcpStreamTarget::Port(port) => TargetView::Port(port),
            TcpStreamTarget::SocketAddr(SocketAddr::V4 { ip, port }) => TargetView::Socket4(
                ip,
                port,
            ),
            TcpStreamTarget::SocketAddr(SocketAddr::V6 { ip, port, flowinfo, scope_id }) => {
                TargetView::Socket6 { segments: ip.segments@, port, flowinfo, scope_id }
            },
            TcpStreamTarget::Dns(d) => TargetView::Dns {
                class: d.class(),
                host: d.host_text(),
                port: d.port_number(),
            },
        }
    }
}

/// Why an address names no TCP target.
#[derive(Debug, Clone, Copy, PartialEq, Eq)]
pub enum TcpStreamTargetFormatError {
    /// There are not enough segments for any target.
    TooFewSegments,
    /// The segments are in no form that is known.
    NoMatchingFormat,
    /// The last segment is no port.
    InvalidPort { inner: PortParseError },
    /// The address of the host cannot be read.
    InvalidIP { inner: AddrParseError },
}

/// Why a text names no TCP target.
#[derive(Debug, Clone, Copy, PartialEq, Eq)]
pub enum TcpStreamTargetParseError {
    RouteAddressParseError(RouteAddressParseError),
    TcpStreamTargetFormatError(TcpStreamTargetFormatError),
}

/// The segment that stands for a class of names.
pub open spec fn class_segment(class: DnsClass) -> Seq<char> {
    match class {
        DnsClass::Any => "dns"@,
        DnsClass::V4 => "dns4"@,
        DnsClass::V6 => "dns6"@,
    }
}

/// The class of names that a segment stands for.
pub open spec fn segment_class(segment: Seq<char>) -> Option<DnsClass> {
    if segment == "dns"@ {
        Some(DnsClass::Any)
    } else if segment == "dns4"@ {
        Some(DnsClass::V4)
    } else if segment == "dns6"@ {
        Some(DnsClass::V6)
    } else {
        None
    }
}

/// The segments that name a target, behind the name of the protocol.
pub open spec fn target_segments(target: TargetView) -> Seq<Seq<char>> {
    match target {
        TargetView::Port(port) => seq!["tcp"@, numeral(port as int, 10)],
        TargetView::Socket4(ip, port) => seq![
            "ip4"@,
            ipv4_text(ip),
            "tcp"@,
            numeral(port as int, 10),
        ],
        TargetView::Socket6 { segments, port, flowinfo, scope_id } => seq![
            "ip6"@,
            ipv6_text(segments),
            "tcp"@,
            numeral(port as int, 10),
        ],
        TargetView::Dns { class, host, port } => seq![
            class_segment(class),
            host,
            "tcp"@,
            numeral(port as int, 10),
        ],
    }
}

/// The address that names a target.
pub open spec fn target_route(target: TargetView) -> Seq<char> {
    route_of(seq!["proxy-tcp"@]) + route_of(target_segments(target))
}

/// The target that `form` and a port name, where `form` is what stands in front of the port.
pub open spec fn target_form(form: Seq<Seq<char>>, port: u16) -> Result<
    TargetView,
    TcpStreamTargetFormatError,
> {
    if form == seq!["tcp"@] {
        Ok(TargetView::Socket4(Ipv4Addr { a: 127, b: 0, c: 0, d: 1 }, port))
    } else if form.len() == 3 && form[2] == "tcp"@ && form[0] == "ip4"@ {
        match ipv4_of(form[1]) {
            Some(ip) => Ok(TargetView::Socket4(ip, port)),
            None => Err(TcpStreamTargetFormatError::InvalidIP { inner: AddrParseError::Ipv4 }),
        }
    } else if form.len() == 3 && form[2] == "tcp"@ && form[0] == "ip6"@ {
        match ipv6_of(form[1]) {
            Some(segments) => Ok(TargetView::Socket6 { segments, port, flowinfo: 0, scope_id: 0 }),
            None => Err(TcpStreamTargetFormatError::InvalidIP { inner: AddrParseError::Ipv6 }),
        }
    } else if form.len() == 3 && form[2] == "tcp"@ && segment_class(form[0]) is Some {
        Ok(TargetView::Dns { class: segment_class(form[0])->0, host: form[1], port })
    } else {
        Err(TcpStreamTargetFormatError::NoMatchingFormat)
    }
}

/// The target that the segments of an address name. What stands behind the fourth segment after
/// the name of the protocol is ignored.
pub open spec fn target_of(segments: Seq<Seq<char>>) -> Result<
    TargetView,
    TcpStreamTargetFormatError,
> {
    match strip_segments(segments, seq!["proxy-tcp"@]) {
        None => Err(TcpStreamTargetFormatError::NoMatchingFormat),
        Some(rest) => {
            let parts = if rest.len() > 4 {
                rest.take(4)
            } else {
                rest
            };
            if parts.len() == 0 {
                Err(TcpStreamTargetFormatError::TooFewSegments)
            } else {
                match port_of(parts.last()) {
                    Err(inner) => Err(TcpStreamTargetFormatError::InvalidPort { inner }),
                    Ok(port) => target_form(parts.drop_last(), port as u16),
                }
            }
        },
    }
}

/// Whether a first segment is one that names a target without the name of the protocol.
pub open spec fn may_lack_prefix(segment: Seq<char>) -> bool {
    segment == "dns"@ || segment == "dns4"@ || segment == "dns6"@ || segment == "ip4"@ || segment
        == "ip6"@ || segment == "tcp"@
}

/// The target that a text names. The name of the protocol may be left out.
pub open spec fn target_of_text(s: Seq<char>) -> Result<TargetView, TcpStreamTargetParseError> {
    if !is_route(s) {
        Err(TcpStreamTargetParseError::RouteAddressParseError(RouteAddressParseError::InvalidPrefix))
    } else {
        let segments = route_segments(s);
        match target_of(segments) {
            Ok(t) => Ok(t),
            Err(e) => if e is TooFewSegments || e is NoMatchingFormat {
                if segments.len() > 0 && may_lack_prefix(segments[0]) {
                    match target_of(route_segments("/proxy-tcp"@ + s)) {
                        Ok(t) => Ok(t),
                        Err(e) => Err(TcpStreamTargetParseError::TcpStreamTargetFormatError(e)),
                    }
                } else {
                    Err(
                        TcpStreamTargetParseError::TcpStreamTargetFormatError(
                            TcpStreamTargetFormatError::NoMatchingFormat,
                        ),
                    )
                }
            } else {
                Err(TcpStreamTargetParseError::TcpStreamTargetFormatError(e))
            },
        }
    }
}

impl TcpStreamTarget {
    /// The address that names this target.
    pub fn to_route(&self) -> (r: RouteAddress)
        ensures
            r@ == target_route(self@),
    {
        let mut base: Vec<&str> = Vec::new();
        base.push("proxy-tcp");
        assert(texts(base@) =~= seq!["proxy-tcp"@]);
        let base_addr = RouteAddress::from_segments(&base);
        let mut parts: Vec<&str> = Vec::new();
        match self {
            TcpStreamTarget::Port(port) => {
                let port_text = decimal(*port as u64);
                parts.push("tcp");
                parts.push(port_text.as_str());
                assert(texts(parts@) =~= target_segments(self@));
                base_addr.into_suffixed(&parts)
            },
            TcpStreamTarget::SocketAddr(SocketAddr::V4 { ip, port }) => {
                let ip_text = ip.to_text();
                let port_text = decimal(*port as u64);
                parts.push("ip4");
                parts.push(ip_text.as_str());
                parts.push("tcp");
                parts.push(port_text.as_str());
                assert(texts(parts@) =~= target_segments(self@));
                base_addr.into_suffixed(&parts)
            },
            TcpStreamTarget::SocketAddr(SocketAddr::V6 { ip, port, .. }) => {
                let ip_text = ip.to_text();
                let port_text = decimal(*port as u64);
                parts.push("ip6");
                parts.push(ip_text.as_str());
                parts.push("tcp");
                parts.push(port_text.as_str());
                assert(texts(parts@) =~= target_segments(self@));
                base_addr.into_suffixed(&parts)
            },
            TcpStreamTarget::Dns(DnsTarget::PreferHigher { host, port }) => {
                let port_text = decimal(*port as u64);
                parts.push("dns");
                parts.push(host.as_str());
                parts.push("tcp");
                parts.push(port_text.as_str());
                assert(texts(parts@) =~= target_segments(self@));
                base_addr.into_suffixed(&parts)
            },
            TcpStreamTarget::Dns(DnsTarget::Dns4 { host, port }) => {
                let port_text = decimal(*port as u64);
                parts.push("dns4");
                parts.push(host.as_str());
                parts.push("tcp");
                parts.push(port_text.as_str());
                assert(texts(parts@) =~= target_segments(self@));
                base_addr.into_suffixed(&parts)
            },
            TcpStreamTarget::Dns(DnsTarget::Dns6 { host, port }) => {
                let port_text = decimal(*port as u64);
                parts.push("dns6");
                parts.push(host.as_str());
                parts.push("tcp");
                parts.push(port_text.as_str());
                assert(texts(parts@) =~= target_segments(self@));
                base_addr.into_suffixed(&parts)
            },
        }
    }

    /// The text of the address that names this target.
    pub fn to_text(&self) -> (r: String)
        ensures
            r@ == target_route(self@),
    {
        self.to_route().to_text()
    }

    /// The target that three segments in front of a port name.
    fn from_form(class: &str, host: &str, port: u16) -> (r: Result<
        TcpStreamTarget,
        TcpStreamTargetFormatError,
    >)
        ensures
            match (r, target_form(seq![class@, host@, "tcp"@], port)) {
                (Ok(t), Ok(v)) => t@ == v,
                (Err(a), Err(b)) => a == b,
                _ => false,
            },
    {
        let ghost form = seq![class@, host@, "tcp"@];
        proof {
            assert(form.len() != seq!["tcp"@].len());
            reveal_strlit("ip4");
            reveal_strlit("ip6");
            assert("ip4"@[2] != "ip6"@[2]);
        }
        if same_text(class, "ip4") {
            match Ipv4Addr::parse(host) {
                Ok(ip) => Ok(
                    TcpStreamTarget::SocketAddr(SocketAddr::new(IpAddr::V4(ip), port)),
                ),
                Err(inner) => Err(TcpStreamTargetFormatError::InvalidIP { inner }),
            }
        } else if same_text(class, "ip6") {
            match Ipv6Addr::parse(host) {
                Ok(ip) => Ok(
                    TcpStreamTarget::SocketAddr(SocketAddr::new(IpAddr::V6(ip), port)),
                ),
                Err(inner) => Err(TcpStreamTargetFormatError::InvalidIP { inner }),
            }
        } else {
            let host = host.to_owned();
            if same_text(class, "dns") {
                Ok(TcpStreamTarget::Dns(DnsTarget::PreferHigher { host, port }))
            } else if same_text(class, "dns4") {
                Ok(TcpStreamTarget::Dns(DnsTarget::Dns4 { host, port }))
            } else if same_text(class, "dns6") {
                Ok(TcpStreamTarget::Dns(DnsTarget::Dns6 { host, port }))
            } else {
                Err(TcpStreamTargetFormatError::NoMatchingFormat)
            }
        }
    }

    /// The target that an address names.
    pub fn try_from(value: &RouteAddress) -> (r: Result<
        TcpStreamTarget,
        TcpStreamTargetFormatError,
    >)
        ensures
            match (r, target_of(route_segments(value@))) {
                (Ok(t), Ok(v)) => t@ == v,
                (Err(a), Err(b)) => a == b,
                _ => false,
            },
    {
        let mut prefix: Vec<&str> = Vec::new();
        prefix.push("proxy-tcp");
        assert(texts(prefix@) =~= seq!["proxy-tcp"@]);
        let rest = match value.strip_segment_prefix(&prefix) {
            Some(rest) => rest,
            None => {
                return Err(TcpStreamTargetFormatError::NoMatchingFormat);
            },
        };
        let n: usize = if rest.len() > 4 {
            4
        } else {
            rest.len()
        };
        if n == 0 {
            return Err(TcpStreamTargetFormatError::TooFewSegments);
        }
        let ghost all = texts(rest@);
        let ghost parts = if all.len() > 4 {
            all.take(4)
        } else {
            all
        };
        assert(parts.len() == n);
        assert(parts.last() == rest@[n - 1]@);
        let ghost form = parts.drop_last();
        let port: u16 = match parse_port(rest[n - 1]) {
            Ok(port) => port,
            Err(inner) => {
                return Err(TcpStreamTargetFormatError::InvalidPort { inner });
            },
        };
        if n == 2 {
            assert(form[0] == rest@[0]@);
            if same_text(rest[0], "tcp") {
                assert(form =~= seq!["tcp"@]);
                return Ok(
                    TcpStreamTarget::SocketAddr(
                        SocketAddr::new(IpAddr::V4(Ipv4Addr::localhost()), port),
                    ),
                );
            }
            assert(seq!["tcp"@][0] == "tcp"@);
        } else if n == 4 {
            assert(form[0] == rest@[0]@ && form[1] == rest@[1]@ && form[2] == rest@[2]@);
            if same_text(rest[2], "tcp") {
                assert(form =~= seq![rest@[0]@, rest@[1]@, "tcp"@]);
                return TcpStreamTarget::from_form(rest[0], rest[1], port);
            }
        }
        assert(form.len() == n - 1);
        assert(seq!["tcp"@].len() == 1);
        Err(TcpStreamTargetFormatError::NoMatchingFormat)
    }

    /// The target that a text names. The name of the protocol may be left out.
    pub fn parse(s: &str) -> (r: Result<TcpStreamTarget, TcpStreamTargetParseError>)
        ensures
            match (r, target_of_text(s@)) {
                (Ok(t), Ok(v)) => t@ == v,
                (Err(a), Err(b)) => a == b,
                _ => false,
            },
    {
        let route_addr = match RouteAddress::parse(s) {
            Ok(addr) => addr,
            Err(e) => {
                return Err(TcpStreamTargetParseError::RouteAddressParseError(e));
            },
        };
        let first = match TcpStreamTarget::try_from(&route_addr) {
            Ok(t) => {
                return Ok(t);
            },
            Err(e) => e,
        };
        match first {
            TcpStreamTargetFormatError::TooFewSegments
            | TcpStreamTargetFormatError::NoMatchingFormat => {},
            _ => {
                return Err(TcpStreamTargetParseError::TcpStreamTargetFormatError(first));
            },
        }
        let segments = route_addr.iter_segments();
        if segments.len() > 0 {
            assert(route_segments(s@)[0] == segments@[0]@);
            let head = segments[0];
            if same_text(head, "dns") || same_text(head, "dns4") || same_text(head, "dns6")
                || same_text(head, "ip4") || same_text(head, "ip6") || same_text(head, "tcp") {
                let mut prefixed = String::new();
                prefixed.append("/proxy-tcp");
                prefixed.append(s);
                proof {
                    reveal_strlit("/proxy-tcp");
                    assert(prefixed@ =~= "/proxy-tcp"@ + s@);
                    assert(prefixed@[0] == '/');
                }
                return match RouteAddress::parse(prefixed.as_str()) {
                    Ok(addr) => match TcpStreamTarget::try_from(&addr) {
                        Ok(t) => Ok(t),
                        Err(e) => Err(TcpStreamTargetParseError::TcpStreamTargetFormatError(e)),
                    },
                    Err(e) => Err(TcpStreamTargetParseError::RouteAddressParseError(e)),
                };
            }
        }
        Err(
            TcpStreamTargetParseError::TcpStreamTargetFormatError(
                TcpStreamTargetFormatError::NoMatchingFormat,
            ),
        )
    }

    /// The host and the port of the target, as another host is told of them.
    pub fn into_host_and_port(self) -> (r: (String, Option<u16>))
        ensures
            match self {
                TcpStreamTarget::Port(p) => r.0@ == ipv4_text(
                    (Ipv4Addr { a: 127, b: 0, c: 0, d: 1 }),
                ) && r.1 == Some(p),
                TcpStreamTarget::SocketAddr(s) => r.0@ == ip_text(s.spec_ip()) && r.1 == Some(
                    s.spec_port(),
                ),
                TcpStreamTarget::Dns(d) => r.0@ == d.host_text() && r.1 == Some(d.port_number()),
            },
    {
        match self {
            TcpStreamTarget::Port(p) => (Ipv4Addr::localhost().to_text(), Some(p)),
            TcpStreamTarget::SocketAddr(s) => (s.ip().to_text(), Some(s.port())),
            TcpStreamTarget::Dns(d) => (d.host().to_owned(), d.port()),
        }
    }
}

/// The segments that name targets, all different and without slashes.
proof fn lemma_keywords()
    ensures
        "tcp"@ != "ip4"@,
        "ip4"@ != "ip6"@,
        segment_class("ip4"@) is None,
        segment_class("ip6"@) is None,
        segment_class("tcp"@) is None,
        segment_class("dns"@) == Some(DnsClass::Any),
        segment_class("dns4"@) == Some(DnsClass::V4),
        segment_class("dns6"@) == Some(DnsClass::V6),
        "dns"@ != "ip4"@,
        "dns"@ != "ip6"@,
        "dns4"@ != "ip4"@,
        "dns4"@ != "ip6"@,
        "dns6"@ != "ip4"@,
        "dns6"@ != "ip6"@,
        forall|c: Seq<char>| #[trigger] may_lack_prefix(c) ==> c != "proxy-tcp"@,
        !"proxy-tcp"@.contains('/'),
        !"tcp"@.contains('/'),
        !"ip4"@.contains('/'),
        !"ip6"@.contains('/'),
        !"dns"@.contains('/'),
        !"dns4"@.contains('/'),
        !"dns6"@.contains('/'),
{
    reveal_strlit("tcp");
    reveal_strlit("ip4");
    reveal_strlit("ip6");
    reveal_strlit("dns");
    reveal_strlit("dns4");
    reveal_strlit("dns6");
    reveal_strlit("proxy-tcp");
    assert("tcp"@[0] != "ip4"@[0]);
    assert("tcp"@.len() == 3 && "dns"@.len() == 3 && "tcp"@[0] != "dns"@[0]);
    assert("ip4"@[2] != "ip6"@[2]);
    assert("dns4"@[3] != "dns6"@[3]);
    assert("dns"@[0] != "ip4"@[0]);
    assert("dns"@[0] != "ip6"@[0]);
}

/// The notation of a port holds no slash.
pub proof fn lemma_port_segment(port: u16)
    ensures
        !numeral(port as int, 10).contains('/'),
{
    let s = numeral(port as int, 10);
    lemma_numeral_value(port as int, 10);
    if s.contains('/') {
        let k = s.index_of('/');
        assert(digit_value(s[k], 10) is Some);
    }
}

/// What the address of a target can be read as: for a port of this host, the port at 127.0.0.1;
/// for every other target, the target itself.
pub open spec fn as_read(target: TargetView) -> TargetView {
    match target {
        TargetView::Port(port) => TargetView::Socket4(Ipv4Addr { a: 127, b: 0, c: 0, d: 1 }, port),
        _ => target,
    }
}

/// Whether an address can hold all of a target: a name without slashes, and an IPv6 address
/// without flow information or scope, with its eight segments.
pub open spec fn fits_in_route(target: TargetView) -> bool {
    match target {
        TargetView::Dns { class, host, port } => !host.contains('/'),
        TargetView::Socket6 { segments, port, flowinfo, scope_id } => segments.len() == 8
            && flowinfo == 0 && scope_id == 0,
        _ => true,
    }
}

/// The address that names a target has the name of the protocol and the segments of the target.
proof fn lemma_target_route_segments(target: TargetView)
    requires
        fits_in_route(target),
    ensures
        is_route(target_route(target)),
        route_segments(target_route(target)) == seq!["proxy-tcp"@] + target_segments(target),
{
    let parts = target_segments(target);
    let all = seq!["proxy-tcp"@] + parts;
    lemma_keywords();
    lemma_prefix_each_concat(seq!["proxy-tcp"@], parts, '/');
    assert forall|i: int| 0 <= i < all.len() implies !(#[trigger] all[i]).contains('/') by {
        match target {
            TargetView::Port(port) => {
                lemma_port_segment(port);
            },
            TargetView::Socket4(ip, port) => {
                lemma_port_segment(port);
                lemma_ipv4_text_excludes(ip);
            },
            TargetView::Socket6 { segments, port, flowinfo, scope_id } => {
                lemma_port_segment(port);
                law_ipv6_round_trip(segments);
            },
            TargetView::Dns { class, host, port } => {
                lemma_port_segment(port);
            },
        }
    }
    law_segments_of_route(all);
}

/// Up to four segments that end in a port are read by what stands in front of the port.
proof fn lemma_target_of_parts(parts: Seq<Seq<char>>, port: u16)
    requires
        1 <= parts.len() <= 4,
        parts.last() == numeral(port as int, 10),
    ensures
        target_of(seq!["proxy-tcp"@] + parts) == target_form(parts.drop_last(), port),
{
    law_strip_what_was_put(seq!["proxy-tcp"@], parts);
    law_port_round_trip(port);
}

/// What stands in front of the port is read as the target.
proof fn lemma_target_form(target: TargetView, port: u16)
    requires
        fits_in_route(target),
        match target {
            TargetView::Port(p) => p == port,
            TargetView::Socket4(ip, p) => p == port,
            TargetView::Socket6 { segments, port: p, flowinfo, scope_id } => p == port,
            TargetView::Dns { class, host, port: p } => p == port,
        },
    ensures
        target_form(target_segments(target).drop_last(), port) == Ok::<
            TargetView,
            TcpStreamTargetFormatError,
        >(as_read(target)),
{
    let form = target_segments(target).drop_last();
    lemma_keywords();
    assert(seq!["tcp"@].len() == 1);
    match target {
        TargetView::Port(_) => {
            assert(form =~= seq!["tcp"@]);
        },
        TargetView::Socket4(ip, _) => {
            law_ipv4_round_trip(ip);
            assert(form[0] == "ip4"@ && form[1] == ipv4_text(ip) && form[2] == "tcp"@);
        },
        TargetView::Socket6 { segments, port: _, flowinfo: _, scope_id: _ } => {
            law_ipv6_round_trip(segments);
            assert(form[0] == "ip6"@ && form[1] == ipv6_text(segments) && form[2] == "tcp"@);
        },
        TargetView::Dns { class, host, port: _ } => {
            assert(form[0] == class_segment(class) && form[1] == host && form[2] == "tcp"@);
        },
    }
}

/// Reading the address that names a target gives the target back.
pub proof fn law_target_round_trip(target: TargetView)
    requires
        fits_in_route(target),
    ensures
        target_of(route_segments(target_route(target))) == Ok::<
            TargetView,
            TcpStreamTargetFormatError,
        >(as_read(target)),
{
    let port = match target {
        TargetView::Port(p) => p,
        TargetView::Socket4(ip, p) => p,
        TargetView::Socket6 { segments, port: p, flowinfo, scope_id } => p,
        TargetView::Dns { class, host, port: p } => p,
    };
    lemma_target_route_segments(target);
    lemma_target_of_parts(target_segments(target), port);
    lemma_target_form(target, port);
}

/// Reading the text of a target gives the target back.
pub proof fn law_target_text_round_trip(target: TargetView)
    requires
        fits_in_route(target),
    ensures
        target_of_text(target_route(target)) == Ok::<TargetView, TcpStreamTargetParseError>(
            as_read(target),
        ),
{
    lemma_target_route_segments(target);
    law_target_round_trip(target);
}

/// Where a text starts with one of the segments that name targets, it means the same with and
/// without the name of the protocol in front.
pub proof fn law_prefix_is_optional(s: Seq<char>)
    requires
        is_route(s),
        route_segments(s).len() > 0,
        may_lack_prefix(route_segments(s)[0]),
    ensures
        target_of_text(s) == match target_of(route_segments("/proxy-tcp"@ + s)) {
            Ok(t) => Ok::<TargetView, TcpStreamTargetParseError>(t),
            Err(e) => Err(TcpStreamTargetParseError::TcpStreamTargetFormatError(e)),
        },
{
    let segments = route_segments(s);
    lemma_keywords();
    assert(segments[0] != "proxy-tcp"@);
    assert(segments.take(1)[0] == segments[0]);
    assert(seq!["proxy-tcp"@][0] == "proxy-tcp"@);
    assert(strip_segments(segments, seq!["proxy-tcp"@]) is None);
}

/// The port of a target.
pub open spec fn target_port(target: TargetView) -> u16 {
    match target {
        TargetView::Port(port) => port,
        TargetView::Socket4(ip, port) => port,
        TargetView::Socket6 { segments, port, flowinfo, scope_id } => port,
        TargetView::Dns { class, host, port } => port,
    }
}

/// How many segments of an address are looked at: the name of the protocol, and at most four more.
pub open spec fn segments_read(segments: Seq<Seq<char>>) -> int {
    if segments.len() > 5 {
        5
    } else {
        segments.len() as int
    }
}

/// Reading takes the segments apart by their places.
proof fn lemma_target_places(segments: Seq<Seq<char>>)
    requires
        segments.len() >= 2,
        segments[0] == "proxy-tcp"@,
    ensures
        target_of(segments) == match port_of(segments[segments_read(segments) - 1]) {
            Err(inner) => Err(TcpStreamTargetFormatError::InvalidPort { inner }),
            Ok(port) => target_form(
                segments.subrange(1, segments_read(segments) - 1),
                port as u16,
            ),
        },
        strip_segments(segments, seq!["proxy-tcp"@]) == Some(segments.skip(1)),
{
    assert(segments.take(1) =~= seq!["proxy-tcp"@]);
    let rest = segments.skip(1);
    let n = segments_read(segments);
    let parts = if rest.len() > 4 {
        rest.take(4)
    } else {
        rest
    };
    assert(parts.last() == segments[n - 1]);
    assert(parts.drop_last() =~= segments.subrange(1, n - 1));
}

/// Only addresses of TCP targets are read, and what is read is what they say: the segment in front
/// of the port is `tcp`, the port is the last segment that is looked at, and the segments in front
/// of it are the kind of the host and the host. Putting the target into segments again gives the
/// same words at the same places.
pub proof fn law_only_tcp_targets_are_read(segments: Seq<Seq<char>>)
    requires
        target_of(segments) is Ok,
    ensures
        ({
            let n = segments_read(segments);
            let target = target_of(segments)->Ok_0;
            &&& n == 3 || n == 5
            &&& segments[0] == "proxy-tcp"@
            &&& segments[n - 2] == "tcp"@
            &&& port_of(segments[n - 1]) matches Ok(port) && port == target_port(target)
            &&& n == 3 ==> target == TargetView::Socket4(
                Ipv4Addr { a: 127, b: 0, c: 0, d: 1 },
                target_port(target),
            )
            &&& n == 5 ==> target_segments(target).len() == 4
            &&& n == 5 ==> target_segments(target)[0] == segments[1]
            &&& n == 5 ==> target_segments(target)[2] == segments[3]
            &&& n == 5 ==> match target {
                TargetView::Port(_) => false,
                TargetView::Socket4(ip, _) => segments[1] == "ip4"@ && ipv4_of(segments[2])
                    == Some(ip),
                TargetView::Socket6 { segments: groups, port: _, flowinfo, scope_id } => segments[1]
                    == "ip6"@ && ipv6_of(segments[2]) == Some(groups) && flowinfo == 0 && scope_id
                    == 0,
                TargetView::Dns { class, host, port: _ } => segments[2] == host && segments[1]
                    == match class {
                    DnsClass::Any => "dns"@,
                    DnsClass::V4 => "dns4"@,
                    DnsClass::V6 => "dns6"@,
                },
            }
        }),
{
    lemma_keywords();
    assert(seq!["tcp"@].len() == 1 && seq!["tcp"@][0] == "tcp"@);
    assert(seq!["proxy-tcp"@].len() == 1 && seq!["proxy-tcp"@][0] == "proxy-tcp"@);
    assert(segments.take(1)[0] == segments[0]);
    if segments.len() < 2 {
        assert(segments.skip(1).len() == 0);
    }
    lemma_target_places(segments);
    let n = segments_read(segments);
    let form = segments.subrange(1, n - 1);
    assert(form.len() == n - 2);
    law_port_numbers(segments[n - 1]);
    if n == 3 {
        assert(form[0] == segments[1]);
    }
    if n == 5 {
        assert(form[0] == segments[1] && form[1] == segments[2] && form[2] == segments[3]);
    }
}

/// Every address of a TCP target is read. The two shortest forms name a port of this host and a
/// host at a port; the host is an IPv4 address, an IPv6 address or a name.
pub proof fn law_tcp_targets_are_read(segments: Seq<Seq<char>>)
    requires
        segments_read(segments) == 3 || segments_read(segments) == 5,
        segments[0] == "proxy-tcp"@,
        segments[segments_read(segments) - 2] == "tcp"@,
        port_of(segments[segments_read(segments) - 1]) is Ok,
        segments_read(segments) == 5 ==> {
            ||| segments[1] == "dns"@
            ||| segments[1] == "dns4"@
            ||| segments[1] == "dns6"@
            ||| segments[1] == "ip4"@ && ipv4_of(segments[2]) is Some
            ||| segments[1] == "ip6"@ && ipv6_of(segments[2]) is Some
        },
    ensures
        target_of(segments) is Ok,
{
    lemma_keywords();
    lemma_target_places(segments);
    let n = segments_read(segments);
    let form = segments.subrange(1, n - 1);
    if n == 3 {
        assert(form =~= seq!["tcp"@]);
    } else {
        assert(form.len() != seq!["tcp"@].len());
        assert(form[0] == segments[1] && form[1] == segments[2] && form[2] == segments[3]);
    }
}

/// Why an address is not read says what is wrong with it: there is nothing behind the name of the
/// protocol, the port is none, or the host of a known kind is none of that kind.
pub proof fn law_target_errors(
    segments: Seq<Seq<char>>,
    no_port: PortParseError,
    no_address: AddrParseError,
)
    ensures
        target_of(segments) == Err::<TargetView, TcpStreamTargetFormatError>(
            TcpStreamTargetFormatError::TooFewSegments,
        ) <==> segments.len() == 1 && segments[0] == "proxy-tcp"@,
        target_of(segments) == Err::<TargetView, TcpStreamTargetFormatError>(
            TcpStreamTargetFormatError::InvalidPort { inner: no_port },
        ) <==> segments.len() >= 2 && segments[0] == "proxy-tcp"@ && port_of(
            segments[segments_read(segments) - 1],
        ) == Err::<int, PortParseError>(no_port),
        target_of(segments) == Err::<TargetView, TcpStreamTargetFormatError>(
            TcpStreamTargetFormatError::InvalidIP { inner: no_address },
        ) <==> {
            &&& segments.len() >= 5
            &&& segments[0] == "proxy-tcp"@
            &&& segments[3] == "tcp"@
            &&& port_of(segments[4]) is Ok
            &&& {
                ||| segments[1] == "ip4"@ && ipv4_of(segments[2]) is None && no_address
                    == AddrParseError::Ipv4
                ||| segments[1] == "ip6"@ && ipv6_of(segments[2]) is None && no_address
                    == AddrParseError::Ipv6
            }
        },
{
    lemma_keywords();
    assert(seq!["tcp"@].len() == 1 && seq!["tcp"@][0] == "tcp"@);
    assert(seq!["proxy-tcp"@].len() == 1 && seq!["proxy-tcp"@][0] == "proxy-tcp"@);
    if segments.len() >= 1 {
        assert(segments.take(1)[0] == segments[0]);
        if segments.len() == 1 && segments[0] == "proxy-tcp"@ {
            assert(segments.take(1) =~= seq!["proxy-tcp"@]);
        }
    }
    if segments.len() >= 2 && segments[0] == "proxy-tcp"@ {
        lemma_target_places(segments);
        let n = segments_read(segments);
        let form = segments.subrange(1, n - 1);
        assert(form.len() == n - 2);
        if n == 5 {
            assert(form[0] == segments[1] && form[1] == segments[2] && form[2] == segments[3]);
        }
    }
}

/// A text is read exactly as the address that it is, or as that address behind the name of the
/// protocol.
pub proof fn law_text_is_read_as_its_address(s: Seq<char>, target: TargetView)
    requires
        is_route(s),
    ensures
        target_of_text(s) == Ok::<TargetView, TcpStreamTargetParseError>(target) <==> {
            ||| target_of(route_segments(s)) == Ok::<TargetView, TcpStreamTargetFormatError>(target)
            ||| target_of(seq!["proxy-tcp"@] + route_segments(s)) == Ok::<
                TargetView,
                TcpStreamTargetFormatError,
            >(target)
        },
{
    let segments = route_segments(s);
    let longer = seq!["proxy-tcp"@] + segments;
    lemma_keywords();
    reveal_strlit("/proxy-tcp");
    reveal_strlit("proxy-tcp");
    assert("/proxy-tcp"@ =~= seq!['/'] + "proxy-tcp"@);
    law_segments_without_slash(s);
    assert(seq!["proxy-tcp"@][0] == "proxy-tcp"@);
    assert forall|i: int| 0 <= i < longer.len() implies !(#[trigger] longer[i]).contains('/') by {
        if i > 0 {
            assert(longer[i] == segments[i - 1]);
        }
    }
    lemma_prefix_each_concat(seq!["proxy-tcp"@], segments, '/');
    law_route_of_segments(s);
    assert(route_of(seq!["proxy-tcp"@]) =~= "/proxy-tcp"@) by {
        reveal_with_fuel(prefix_each, 2);
    }
    law_segments_of_route(longer);
    assert(route_segments("/proxy-tcp"@ + s) == longer);
    if target_of(longer) is Ok {
        law_only_tcp_targets_are_read(longer);
        assert(longer[1] == segments[0]);
        assert(may_lack_prefix(segments[0]));
        law_prefix_is_optional(s);
    }
    if target_of(segments) is Ok {
        law_only_tcp_targets_are_read(segments);
    }
}

/// The client of the service: it passes what it reads on to the stream, and what comes from the
/// stream on to the writer.
#[derive(Debug, Clone)]
pub struct TcpStreamClient<Reader, Writer> {
    pub recv: Reader,
    pub send: Writer,
}

impl<Reader, Writer> TcpStreamClient<Reader, Writer> {
    pub fn new(recv: Reader, send: Writer) -> (r: Self)
        ensures
            r.recv == recv,
            r.send == send,
    {
        TcpStreamClient { recv, send }
    }

    /// What the client hands back when both directions are done: how many bytes went each way.
    pub fn finish<E>(proxied: Result<(u64, u64), E>) -> (r: Result<(u64, u64), ClientError<E>>)
        ensures
            match proxied {
                Ok(counts) => r == Ok::<(u64, u64), ClientError<E>>(counts),
                Err(e) => r == Err::<(u64, u64), ClientError<E>>(ClientError::IllegalResponse(e)),
            },
    {
        match proxied {
            Ok(counts) => Ok(counts),
            Err(e) => Err(ClientError::IllegalResponse(e)),
        }
    }
}

impl<Reader, Writer> ProtocolInfo for TcpStreamClient<Reader, Writer> {
    fn protocol_name() -> (r: &'static str)
        ensures
            r@ == "proxy-tcp"@,
    {
        "proxy-tcp"
    }
}

impl<Reader, Writer> RouteAddressBuilder for TcpStreamClient<Reader, Writer> {
    type Params = TcpStreamTarget;

    type BuildError = Infallible;

    fn build_addr(args: TcpStreamTarget) -> (r: Result<RouteAddress, Infallible>)
        ensures
            r matches Ok(addr) && addr@ == target_route(args@),
    {
        Ok(args.to_route())
    }
}

/// The service that connects streams to TCP targets.
#[derive(Debug, Clone, Copy)]
pub struct TcpStreamService {
    /// Whether only targets on this host are connected to.
    pub local_only: bool,
}

impl ProtocolInfo for TcpStreamService {
    fn protocol_name() -> (r: &'static str)
        ensures
            r@ == "proxy-tcp"@,
    {
        "proxy-tcp"
    }
}

/// Why no connection was tried.
#[derive(Debug, Clone, Copy, PartialEq, Eq)]
pub enum TcpConnectError {
    /// There was no address to connect to.
    ConnectionFailed,
    /// Only this host may be connected to, and no address was of this host.
    NoLoopbackAddressesFound,
}

/// Why the resolver gave no addresses.
#[derive(Debug, Clone, PartialEq, Eq)]
pub enum TargetResolutionError {
    /// It failed, as this text says.
    IOError(String),
}

/// Where the addresses of a target come from.
#[derive(Debug, Clone, PartialEq, Eq)]
pub enum Resolution {
    /// They are known.
    Known(Vec<SocketAddr>),
    /// The resolver has to be asked.
    Lookup(DnsTarget),
}

impl TcpStreamService {
    pub fn new(local_only: bool) -> (r: Self)
        ensures
            r.local_only == local_only,
    {
        TcpStreamService { local_only }
    }

    /// The addresses to connect to, of those that a target has.
    pub fn connect(&self, addrs: Vec<SocketAddr>) -> (r: Result<Vec<SocketAddr>, TcpConnectError>)
        ensures
            ({
                let usable = if self.local_only {
                    addrs@.filter(|a: SocketAddr| a.spec_ip().spec_is_loopback())
                } else {
                    addrs@
                };
                match r {
                    Ok(v) => v@ == usable && usable.len() > 0,
                    Err(TcpConnectError::ConnectionFailed) => addrs@.len() == 0,
                    Err(TcpConnectError::NoLoopbackAddressesFound) => addrs@.len() > 0
                        && self.local_only && usable.len() == 0,
                }
            }),
    {
        if addrs.len() == 0 {
            return Err(TcpConnectError::ConnectionFailed);
        }
        if self.local_only {
            let ghost keep = |a: SocketAddr| a.spec_ip().spec_is_loopback();
            let mut local: Vec<SocketAddr> = Vec::new();
            let mut i: usize = 0;
            reveal(Seq::filter);
            assert(addrs@.take(0).filter(keep) =~= Seq::<SocketAddr>::empty());
            while i < addrs.len()
                invariant
                    i <= addrs.len(),
                    keep == (|a: SocketAddr| a.spec_ip().spec_is_loopback()),
                    local@ == addrs@.take(i as int).filter(keep),
                decreases addrs.len() - i,
            {
                let addr = addrs[i];
                proof {
                    reveal(Seq::filter);
                    assert(addrs@.take(i + 1).drop_last() =~= addrs@.take(i as int));
                }
                if addr.ip().is_loopback() {
                    local.push(addr);
                }
                i += 1;
            }
            assert(addrs@.take(addrs.len() as int) =~= addrs@);
            if local.len() == 0 {
                return Err(TcpConnectError::NoLoopbackAddressesFound);
            }
            return Ok(local);
        }
        Ok(addrs)
    }

    /// The addresses that may be used, of those that the resolver gave for a name.
    pub fn resolve_dns(target: &DnsTarget, resolved: Vec<SocketAddr>) -> (r: Vec<SocketAddr>)
        ensures
            r@ == resolved@.filter(|a: SocketAddr| target.spec_contains(a, true)),
    {
        let ghost keep = |a: SocketAddr| target.spec_contains(a, true);
        let mut matching: Vec<SocketAddr> = Vec::new();
        let mut i: usize = 0;
        reveal(Seq::filter);
        assert(resolved@.take(0).filter(keep) =~= Seq::<SocketAddr>::empty());
        while i < resolved.len()
            invariant
                i <= resolved.len(),
                keep == (|a: SocketAddr| target.spec_contains(a, true)),
                matching@ == resolved@.take(i as int).filter(keep),
            decreases resolved.len() - i,
        {
            let addr = resolved[i];
            proof {
                reveal(Seq::filter);
                assert(resolved@.take(i + 1).drop_last() =~= resolved@.take(i as int));
            }
            if target.contains(&addr, true) {
                matching.push(addr);
            }
            i += 1;
        }
        assert(resolved@.take(resolved.len() as int) =~= resolved@);
        matching
    }

    /// Where the addresses of a target come from. A port of this host is tried over IPv6 first.
    pub fn resolve(target: TcpStreamTarget) -> (r: Resolution)
        ensures
            match target {
                TcpStreamTarget::Port(port) => r matches Resolution::Known(v) && v.len() == 2
                    && (v@[0] matches SocketAddr::V6 { ip, port: p, flowinfo: 0, scope_id: 0 }
                    && ip.segments@ == seq![0u16, 0, 0, 0, 0, 0, 0, 1] && p == port) && v@[1]
                    == (SocketAddr::V4 { ip: Ipv4Addr { a: 127, b: 0, c: 0, d: 1 }, port }),
                TcpStreamTarget::SocketAddr(s) => r matches Resolution::Known(v) && v@ == seq![s],
                TcpStreamTarget::Dns(d) => r == Resolution::Lookup(d),
            },
    {
        match target {
            TcpStreamTarget::Port(port) => {
                let mut v: Vec<SocketAddr> = Vec::new();
                v.push(SocketAddr::new(IpAddr::V6(Ipv6Addr::localhost()), port));
                v.push(SocketAddr::new(IpAddr::V4(Ipv4Addr::localhost()), port));
                Resolution::Known(v)
            },
            TcpStreamTarget::SocketAddr(s) => {
                let mut v: Vec<SocketAddr> = Vec::new();
                v.push(s);
                assert(v@ =~= seq![s]);
                Resolution::Known(v)
            },
            TcpStreamTarget::Dns(d) => Resolution::Lookup(d),
        }
    }
}

/// Whether an address names a target.
pub open spec fn names_target(addr: Seq<char>) -> bool {
    target_of(route_segments(addr)) is Ok
}

impl Service for TcpStreamService {
    type Error = String;

    fn accepts(&self, addr: &RouteAddress, tunnel: &TunnelId) -> (r: bool)
        ensures
            r == names_target(addr@),
    {
        match TcpStreamTarget::try_from(addr) {
            Ok(_) => true,
            Err(_) => false,
        }
    }
}

/// The service accepts every address that a client builds for a target that an address can hold.
pub proof fn law_service_accepts_clients(target: TargetView)
    requires
        fits_in_route(target),
    ensures
        names_target(target_route(target)),
{
    law_target_round_trip(target);
}

/// The service accepts only addresses that name the protocol and, in front of the port, `tcp`.
pub proof fn law_service_accepts_only_targets(addr: Seq<char>)
    requires
        names_target(addr),
    ensures
        ({
            let segments = route_segments(addr);
            let n = segments_read(segments);
            &&& n >= 3
            &&& segments[0] == "proxy-tcp"@
            &&& segments[n - 2] == "tcp"@
            &&& port_of(segments[n - 1]) is Ok
        }),
{
    law_only_tcp_targets_are_read(route_segments(addr));
}

/// How far the handling of one stream has come.
#[derive(Debug, Clone, PartialEq, Eq)]
pub enum ProxyPhase {
    /// The resolver was asked for this name.
    Resolving(DnsTarget),
    /// A connection is being made.
    Connecting,
    /// The two streams are joined.
    Streaming,
    Over,
}

/// What happened outside.
#[derive(Debug)]
pub enum ProxyEvent<E> {
    /// The resolver gave these addresses, or failed.
    Resolved(Result<Vec<SocketAddr>, TargetResolutionError>),
    /// A connection was made, or could not be.
    Connected(bool),
    /// Both directions ended, or one failed.
    Proxied(Result<(), E>),
}

/// What is to be done next.
#[derive(Debug)]
pub enum ProxyAction<E> {
    /// Ask the resolver for this name, given as a host and a port.
    Lookup(String),
    /// Connect to the first of these addresses that answers, without delaying small packets.
    Connect(Vec<SocketAddr>),
    /// Join the stream and the connection.
    Stream,
    /// The stream was handled.
    Complete,
    Fail(ServiceError<E>),
}

/// The handling of one stream.
pub struct ProxyHandling {
    pub local_only: bool,
    pub phase: ProxyPhase,
}

/// What a service does with the addresses of a target.
pub open spec fn connect_action<E>(local_only: bool, addrs: Seq<SocketAddr>, action: ProxyAction<
    E,
>) -> bool {
    let usable = if local_only {
        addrs.filter(|a: SocketAddr| a.spec_ip().spec_is_loopback())
    } else {
        addrs
    };
    if addrs.len() == 0 {
        action matches ProxyAction::Fail(ServiceError::DependencyFailure)
    } else if usable.len() == 0 {
        action matches ProxyAction::Fail(ServiceError::AddressError)
    } else {
        action matches ProxyAction::Connect(v) && v@ == usable
    }
}

/// Whether `part` is made of the elements of `whole` at these places, in the order in which they
/// stand there.
pub open spec fn stands_at(part: Seq<SocketAddr>, whole: Seq<SocketAddr>, places: Seq<int>) -> bool {
    &&& places.len() == part.len()
    &&& forall|i: int, j: int|
        0 <= i < j < places.len() ==> #[trigger] places[i] < #[trigger] places[j]
    &&& forall|i: int|
        0 <= i < places.len() ==> 0 <= #[trigger] places[i] < whole.len() && part[i]
            == whole[places[i]]
}

/// Whether `part` holds the elements of `whole` that are wanted, all of them and no others, in the
/// order in which they stand there.
pub open spec fn picks(
    part: Seq<SocketAddr>,
    whole: Seq<SocketAddr>,
    wanted: spec_fn(SocketAddr) -> bool,
) -> bool {
    exists|places: Seq<int>|
        #[trigger] stands_at(part, whole, places) && forall|k: int|
            0 <= k < whole.len() ==> (places.contains(k) <==> wanted(#[trigger] whole[k]))
}

/// Whether an address is one of this host.
pub open spec fn is_of_this_host(addr: SocketAddr) -> bool {
    match addr {
        SocketAddr::V4 { ip, port } => ip.a == 127,
        SocketAddr::V6 { ip, port, flowinfo, scope_id } => {
            &&& forall|i: int| 0 <= i < 7 ==> #[trigger] ip.segments@[i] == 0
            &&& ip.segments@[7] == 1
        },
    }
}

/// Whether an address may be connected to for a name: it has the port that was asked for, it is of
/// the version of IP that the name is restricted to, and it is of this host where no other host may
/// be connected to.
pub open spec fn may_be_used(target: DnsTarget, local_only: bool, addr: SocketAddr) -> bool {
    &&& addr.spec_port() == target.port_number()
    &&& target is Dns4 ==> addr is V4
    &&& target is Dns6 ==> addr is V6
    &&& local_only ==> is_of_this_host(addr)
}

/// Filtering picks what the filter wants.
proof fn lemma_filter_picks(whole: Seq<SocketAddr>, wanted: spec_fn(SocketAddr) -> bool)
    ensures
        picks(whole.filter(wanted), whole, wanted),
        forall|a: SocketAddr| #[trigger]
            whole.filter(wanted).contains(a) <==> whole.contains(a) && wanted(a),
    decreases whole.len(),
{
    reveal(Seq::filter);
    let part = whole.filter(wanted);
    if whole.len() == 0 {
        let none = Seq::<int>::empty();
        assert(stands_at(part, whole, none));
    } else {
        let init = whole.drop_last();
        let n = whole.len() - 1;
        lemma_filter_picks(init, wanted);
        let before = init.filter(wanted);
        let places = choose|places: Seq<int>|
            #[trigger] stands_at(before, init, places) && forall|k: int|
                0 <= k < init.len() ==> (places.contains(k) <==> wanted(#[trigger] init[k]));
        assert forall|k: int| 0 <= k < init.len() implies init[k] == #[trigger] whole[k] by {}
        assert(whole[n] == whole.last());
        let all = if wanted(whole.last()) {
            places.push(n)
        } else {
            places
        };
        assert forall|i: int| 0 <= i < places.len() implies #[trigger] places[i] < n by {}
        assert(stands_at(part, whole, all));
        assert forall|k: int| 0 <= k < whole.len() implies (all.contains(k) <==> wanted(
            #[trigger] whole[k],
        )) by {
            if k < n {
                assert(places.contains(k) <==> wanted(init[k]));
                if places.contains(k) {
                    let i = places.index_of(k);
                    assert(all[i] == k);
                }
                if all.contains(k) {
                    let i = all.index_of(k);
                    assert(places[i] == k);
                }
            } else {
                if wanted(whole.last()) {
                    assert(all[places.len() as int] == n);
                }
                if all.contains(k) {
                    let i = all.index_of(k);
                    assert(all[i] == k);
                }
            }
        }
        assert forall|a: SocketAddr| #[trigger] part.contains(a) <==> whole.contains(a) && wanted(
            a,
        ) by {
            if part.contains(a) {
                let i = part.index_of(a);
                if i < before.len() {
                    assert(before[i] == a);
                    assert(before.contains(a));
                    let k = init.index_of(a);
                    assert(whole[k] == a);
                } else {
                    assert(whole[n] == a);
                }
            }
            if whole.contains(a) && wanted(a) {
                let k = whole.index_of(a);
                if k < n {
                    assert(init[k] == a);
                    assert(before.contains(a));
                    let i = before.index_of(a);
                    assert(part[i] == a);
                } else {
                    assert(part[before.len() as int] == a);
                }
            }
        }
    }
}

/// Filtering twice is filtering by both at once.
proof fn lemma_filter_twice(
    whole: Seq<SocketAddr>,
    first: spec_fn(SocketAddr) -> bool,
    second: spec_fn(SocketAddr) -> bool,
    both: spec_fn(SocketAddr) -> bool,
)
    requires
        forall|a: SocketAddr| #[trigger] both(a) == (first(a) && second(a)),
    ensures
        whole.filter(first).filter(second) == whole.filter(both),
    decreases whole.len(),
{
    reveal(Seq::filter);
    if whole.len() > 0 {
        lemma_filter_twice(whole.drop_last(), first, second, both);
        let before = whole.drop_last().filter(first);
        assert(before.push(whole.last()).drop_last() =~= before);
    } else {
        assert(whole.filter(first).filter(second) =~= whole.filter(both));
    }
}

/// A filter that wants everything changes nothing.
proof fn lemma_filter_all(whole: Seq<SocketAddr>, wanted: spec_fn(SocketAddr) -> bool)
    requires
        forall|a: SocketAddr| #[trigger] wanted(a),
    ensures
        whole.filter(wanted) == whole,
    decreases whole.len(),
{
    reveal(Seq::filter);
    if whole.len() > 0 {
        lemma_filter_all(whole.drop_last(), wanted);
        assert(whole.drop_last().push(whole.last()) =~= whole);
    } else {
        assert(whole.filter(wanted) =~= whole);
    }
}

/// Of the addresses that a name was resolved to, a service connects to exactly those that may be
/// used, in the order in which the resolver gave them. Where there are none, it fails: by the
/// address where the only reason is that they are of other hosts, else for want of a connection.
pub proof fn law_connects_to_what_may_be_used<E>(
    target: DnsTarget,
    local_only: bool,
    resolved: Seq<SocketAddr>,
    action: ProxyAction<E>,
)
    requires
        connect_action(
            local_only,
            resolved.filter(|a: SocketAddr| target.spec_contains(a, true)),
            action,
        ),
    ensures
        match action {
            ProxyAction::Connect(list) => {
                &&& list@.len() > 0
                &&& forall|a: SocketAddr| #[trigger]
                    list@.contains(a) <==> resolved.contains(a) && may_be_used(
                        target,
                        local_only,
                        a,
                    )
                &&& picks(list@, resolved, |a: SocketAddr| may_be_used(target, local_only, a))
            },
            ProxyAction::Fail(ServiceError::AddressError) => {
                &&& local_only
                &&& exists|a: SocketAddr| #[trigger]
                    resolved.contains(a) && may_be_used(target, false, a)
                &&& forall|a: SocketAddr| #[trigger]
                    resolved.contains(a) ==> !may_be_used(target, true, a)
            },
            ProxyAction::Fail(ServiceError::DependencyFailure) => forall|a: SocketAddr| #[trigger]
                resolved.contains(a) ==> !may_be_used(target, false, a),
            _ => false,
        },
{
    let fits = |a: SocketAddr| target.spec_contains(a, true);
    let near = |a: SocketAddr| a.spec_ip().spec_is_loopback();
    let used = |a: SocketAddr| may_be_used(target, local_only, a);
    let fitting = resolved.filter(fits);
    assert forall|a: SocketAddr| #[trigger] fits(a) == may_be_used(target, false, a) by {}
    assert forall|a: SocketAddr| #[trigger] near(a) == is_of_this_host(a) by {
        if let SocketAddr::V6 { ip, port, flowinfo, scope_id } = a {
            let one = seq![0u16, 0, 0, 0, 0, 0, 0, 1];
            if is_of_this_host(a) {
                assert(ip.segments@ =~= one);
            }
        }
    }
    lemma_filter_picks(resolved, fits);
    lemma_filter_picks(resolved, used);
    if local_only {
        assert forall|a: SocketAddr| #[trigger] used(a) == (fits(a) && near(a)) by {}
        lemma_filter_twice(resolved, fits, near, used);
    } else {
        assert forall|a: SocketAddr| #[trigger] used(a) == (fits(a) && true) by {}
        let any = |a: SocketAddr| true;
        lemma_filter_twice(resolved, fits, any, used);
        lemma_filter_all(fitting, any);
    }
    let usable = resolved.filter(used);
    if usable.len() == 0 {
        assert forall|a: SocketAddr| #[trigger] resolved.contains(a) implies !may_be_used(
            target,
            local_only,
            a,
        ) by {
            assert(!usable.contains(a));
        }
    }
    if fitting.len() == 0 {
        assert forall|a: SocketAddr| #[trigger] resolved.contains(a) implies !may_be_used(
            target,
            false,
            a,
        ) by {
            assert(!fitting.contains(a));
        }
    } else {
        assert(fitting.contains(fitting[0]));
        assert(resolved.contains(fitting[0]) && may_be_used(target, false, fitting[0]));
    }
}

impl ProxyHandling {
    /// Goes on to connect to the addresses of the target.
    fn connect<E>(&mut self, addrs: Vec<SocketAddr>) -> (r: ProxyAction<E>)
        ensures
            connect_action(old(self).local_only, addrs@, r),
            final(self).local_only == old(self).local_only,
            final(self).phase == if r is Connect {
                ProxyPhase::Connecting
            } else {
                ProxyPhase::Over
            },
    {
        let service = TcpStreamService::new(self.local_only);
        match service.connect(addrs) {
            Ok(usable) => {
                self.phase = ProxyPhase::Connecting;
                ProxyAction::Connect(usable)
            },
            Err(TcpConnectError::ConnectionFailed) => {
                self.phase = ProxyPhase::Over;
                ProxyAction::Fail(ServiceError::DependencyFailure)
            },
            Err(TcpConnectError::NoLoopbackAddressesFound) => {
                self.phase = ProxyPhase::Over;
                ProxyAction::Fail(ServiceError::AddressError)
            },
        }
    }

    /// Whether this event is one that the handling waits for.
    pub open spec fn expects<E>(&self, event: ProxyEvent<E>) -> bool {
        match event {
            ProxyEvent::Resolved(_) => self.phase is Resolving,
            ProxyEvent::Connected(_) => self.phase is Connecting,
            ProxyEvent::Proxied(_) => self.phase is Streaming,
        }
    }

    /// Takes the handling one event further.
    pub fn step<E>(&mut self, event: ProxyEvent<E>) -> (r: ProxyAction<E>)
        requires
            old(self).expects(event),
        ensures
            final(self).local_only == old(self).local_only,
            match event {
                ProxyEvent::Resolved(Err(_)) => {
                    &&& r matches ProxyAction::Fail(ServiceError::AddressError)
                    &&& final(self).phase is Over
                },
                ProxyEvent::Resolved(Ok(resolved)) => {
                    &&& old(self).phase matches ProxyPhase::Resolving(d)
                    &&& connect_action(
                        old(self).local_only,
                        resolved@.filter(|a: SocketAddr| d.spec_contains(a, true)),
                        r,
                    )
                    &&& final(self).phase == if r is Connect {
                        ProxyPhase::Connecting
                    } else {
                        ProxyPhase::Over
                    }
                },
                ProxyEvent::Connected(false) => {
                    &&& r matches ProxyAction::Fail(ServiceError::DependencyFailure)
                    &&& final(self).phase is Over
                },
                ProxyEvent::Connected(true) => {
                    &&& r is Stream
                    &&& final(self).phase is Streaming
                },
                ProxyEvent::Proxied(Ok(_)) => {
                    &&& r is Complete
                    &&& final(self).phase is Over
                },
                ProxyEvent::Proxied(Err(e)) => {
                    &&& r == ProxyAction::Fail(ServiceError::InternalError(e))
                    &&& final(self).phase is Over
                },
            },
            r is Connect ==> event is Resolved,
            match (event, old(self).phase, r) {
                (
                    ProxyEvent::Resolved(Ok(resolved)),
                    ProxyPhase::Resolving(d),
                    ProxyAction::Connect(list),
                ) => {
                    &&& forall|a: SocketAddr| #[trigger]
                        list@.contains(a) <==> resolved@.contains(a) && may_be_used(
                            d,
                            old(self).local_only,
                            a,
                        )
                    &&& picks(
                        list@,
                        resolved@,
                        |a: SocketAddr| may_be_used(d, old(self).local_only, a),
                    )
                },
                (ProxyEvent::Resolved(Ok(resolved)), ProxyPhase::Resolving(d), _) => {
                    forall|a: SocketAddr| #[trigger]
                        resolved@.contains(a) ==> !may_be_used(d, old(self).local_only, a)
                },
                _ => true,
            },
    {
        match event {
            ProxyEvent::Resolved(Err(_)) => {
                self.phase = ProxyPhase::Over;
                ProxyAction::Fail(ServiceError::AddressError)
            },
            ProxyEvent::Resolved(Ok(resolved)) => {
                let ghost given = resolved@;
                let matching = match &self.phase {
                    ProxyPhase::Resolving(d) => TcpStreamService::resolve_dns(d, resolved),
                    _ => resolved,
                };
                let action = self.connect(matching);
                proof {
                    law_connects_to_what_may_be_used(
                        old(self).phase->Resolving_0,
                        old(self).local_only,
                        given,
                        action,
                    );
                }
                action
            },
            ProxyEvent::Connected(ok) => {
                if ok {
                    self.phase = ProxyPhase::Streaming;
                    ProxyAction::Stream
                } else {
                    self.phase = ProxyPhase::Over;
                    ProxyAction::Fail(ServiceError::DependencyFailure)
                }
            },
            ProxyEvent::Proxied(Ok(())) => {
                self.phase = ProxyPhase::Over;
                ProxyAction::Complete
            },
            ProxyEvent::Proxied(Err(e)) => {
                self.phase = ProxyPhase::Over;
                ProxyAction::Fail(ServiceError::InternalError(e))
            },
        }
    }
}

impl TcpStreamService {
    /// Starts to handle a stream that was opened to `addr`.
    pub fn handle<E>(&self, addr: &RouteAddress) -> (r: (ProxyHandling, ProxyAction<E>))
        ensures
            r.0.local_only == self.local_only,
            match target_of(route_segments(addr@)) {
                Err(_) => {
                    &&& r.1 matches ProxyAction::Fail(ServiceError::AddressError)
                    &&& r.0.phase is Over
                },
                Ok(TargetView::Dns { class, host, port }) => {
                    &&& r.1 matches ProxyAction::Lookup(name)
                    &&& name@ == host + seq![':'] + numeral(port as int, 10)
                    &&& r.0.phase matches ProxyPhase::Resolving(d)
                    &&& d.class() == class && d.host_text() == host && d.port_number() == port
                },
                Ok(TargetView::Socket4(ip, port)) => {
                    &&& connect_action(
                        self.local_only,
                        seq![(SocketAddr::V4 { ip, port })],
                        r.1,
                    )
                    &&& r.0.phase == if r.1 is Connect {
                        ProxyPhase::Connecting
                    } else {
                        ProxyPhase::Over
                    }
                },
                Ok(TargetView::Socket6 { segments, port, flowinfo, scope_id }) => {
                    &&& exists|ip: Ipv6Addr|
                        #![trigger ip.segments@]
                        ip.segments@ == segments && connect_action(
                            self.local_only,
                            seq![(SocketAddr::V6 { ip, port, flowinfo, scope_id })],
                            r.1,
                        )
                    &&& r.0.phase == if r.1 is Connect {
                        ProxyPhase::Connecting
                    } else {
                        ProxyPhase::Over
                    }
                },
                Ok(TargetView::Port(_)) => false,
            },
            match (target_of(route_segments(addr@)), r.1) {
                (Ok(target), ProxyAction::Connect(list)) => {
                    &&& list@.len() == 1
                    &&& list@[0].spec_port() == target_port(target)
                    &&& match (target, list@[0].spec_ip()) {
                        (TargetView::Socket4(wanted, _), IpAddr::V4(ip)) => ip == wanted,
                        (
                            TargetView::Socket6 { segments, port: _, flowinfo: _, scope_id: _ },
                            IpAddr::V6(ip),
                        ) => ip.segments@ == segments,
                        _ => false,
                    }
                    &&& self.local_only ==> is_of_this_host(list@[0])
                },
                (Ok(TargetView::Socket4(ip, port)), _) => self.local_only && !is_of_this_host(
                    (SocketAddr::V4 { ip, port }),
                ),
                (Ok(TargetView::Socket6 { segments, port: _, flowinfo: _, scope_id: _ }), _) => {
                    &&& self.local_only
                    &&& segments != seq![0u16, 0, 0, 0, 0, 0, 0, 1]
                },
                _ => !(r.1 is Connect),
            },
    {
        let mut handling = ProxyHandling { local_only: self.local_only, phase: ProxyPhase::Over };
        let target = match TcpStreamTarget::try_from(addr) {
            Err(_) => {
                return (handling, ProxyAction::Fail(ServiceError::AddressError));
            },
            Ok(target) => target,
        };
        proof {
            lemma_read_targets(route_segments(addr@));
        }
        let ghost seen = target;
        match TcpStreamService::resolve(target) {
            Resolution::Known(addrs) => {
                let ghost known = addrs@;
                let action = handling.connect(addrs);
                proof {
                    assert(known.len() == 1);
                    assert(known.drop_last() =~= Seq::<SocketAddr>::empty());
                    reveal_with_fuel(Seq::filter, 2);
                    if let TcpStreamTarget::SocketAddr(
                        SocketAddr::V6 { ip, port, flowinfo, scope_id },
                    ) = seen {
                        assert(ip.segments@ == target_of(
                            route_segments(addr@),
                        )->Ok_0->Socket6_segments);
                    }
                }
                (handling, action)
            },
            Resolution::Lookup(d) => {
                let name = d.lookup_name();
                handling.phase = ProxyPhase::Resolving(d);
                (handling, ProxyAction::Lookup(name))
            },
        }
    }
}

/// No address is read as a port of this host: such a port is read as an address of this host.
proof fn lemma_read_targets(segments: Seq<Seq<char>>)
    ensures
        !(target_of(segments) matches Ok(TargetView::Port(_))),
{
}

} // verus!
