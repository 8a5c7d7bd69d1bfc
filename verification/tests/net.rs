use snocat::net::{AddrParseError, IpAddr, Ipv4Addr, Ipv6Addr, SocketAddr};
use snocat::numeral::{decimal, parse_port, PortParseError};
use snocat::tunnel::TunnelAddressInfo;

#[test]
fn ports_are_read_and_written() {
    for port in [0u16, 1, 9, 10, 80, 443, 8080, 65535] {
        assert_eq!(parse_port(&decimal(port as u64)), Ok(port));
        assert_eq!(decimal(port as u64), port.to_string());
    }
    assert_eq!(parse_port("007"), Ok(7));
    assert_eq!(parse_port("+7"), Ok(7));
    assert_eq!(parse_port(""), Err(PortParseError::Empty));
    assert_eq!(parse_port("+"), Err(PortParseError::InvalidDigit));
    assert_eq!(parse_port("-1"), Err(PortParseError::InvalidDigit));
    assert_eq!(parse_port("7 "), Err(PortParseError::InvalidDigit));
    assert_eq!(parse_port("65536"), Err(PortParseError::Overflow));
    for text in ["", "+", "-", "++1", "1+", "65536", "999999999", "0000065535", "12x", "x", "99999x"] {
        assert_eq!(parse_port(text).ok(), text.parse::<u16>().ok(), "{}", text);
    }
    assert_eq!(decimal(u64::MAX), "18446744073709551615");
}

#[test]
fn ipv4_addresses_are_read_and_written() {
    for text in ["0.0.0.0", "127.0.0.1", "255.255.255.255", "1.20.30.4"] {
        let ip = Ipv4Addr::parse(text).unwrap();
        assert_eq!(ip.to_text(), text);
    }
    for text in ["", "1.2.3", "1.2.3.4.5", "256.0.0.1", "01.2.3.4", "1..2.3", "1.2.3.4 ", "+1.2.3.4"] {
        assert_eq!(Ipv4Addr::parse(text), Err(AddrParseError::Ipv4), "{}", text);
    }
    assert!(Ipv4Addr::new(127, 9, 9, 9).is_loopback());
    assert!(!Ipv4Addr::new(126, 0, 0, 1).is_loopback());
    assert!(Ipv4Addr::new(0, 0, 0, 0).is_unspecified());
}

#[test]
fn ipv6_addresses_are_read_and_written() {
    let written = [
        ("::", "::"),
        ("::1", "::1"),
        ("1::", "1::"),
        ("2001:db8::ff00:42:8329", "2001:db8::ff00:42:8329"),
        ("2001:0DB8:0:0:0:FF00:0042:8329", "2001:db8::ff00:42:8329"),
        ("1:2:3:4:5:6:7:8", "1:2:3:4:5:6:7:8"),
        ("1:0:3:4:5:6:7:8", "1:0:3:4:5:6:7:8"),
        ("1::3:4:5:6:7:8", "1:0:3:4:5:6:7:8"),
        ("1:0:0:4:0:0:7:8", "1::4:0:0:7:8"),
        ("1:0:0:4:0:0:0:8", "1:0:0:4::8"),
        ("::ffff:1.2.3.4", "::ffff:1.2.3.4"),
        ("::ffff:102:304", "::ffff:1.2.3.4"),
        ("64:ff9b::1.2.3.4", "64:ff9b::102:304"),
        ("::1.2.3.4", "::102:304"),
    ];
    for (text, expected) in written {
        let ip = Ipv6Addr::parse(text).unwrap();
        assert_eq!(ip.to_text(), expected);
        assert_eq!(Ipv6Addr::parse(expected).unwrap(), ip);
    }
    let wrong = [
        "", ":", ":::", "1", "1:2:3:4:5:6:7", "1:2:3:4:5:6:7:8:9", "1::2::3", "12345::", "g::",
        "1:2:3:4:5:6:7:8::", "::1.2.3", "1.2.3.4::", "1.2.3.4",
    ];
    for text in wrong {
        assert_eq!(Ipv6Addr::parse(text), Err(AddrParseError::Ipv6), "{}", text);
    }
    assert!(Ipv6Addr::parse("::").unwrap().is_unspecified());
    assert!(Ipv6Addr::parse("::1").unwrap().is_loopback());
    assert!(!Ipv6Addr::parse("::2").unwrap().is_loopback());
}

#[test]
fn socket_addresses_are_written() {
    let four = SocketAddr::new(IpAddr::V4(Ipv4Addr::new(1, 2, 3, 4)), 5);
    assert_eq!(four.to_text(), "1.2.3.4:5");
    assert!(four.is_ipv4() && !four.is_ipv6());
    let six = SocketAddr::new(IpAddr::V6(Ipv6Addr::localhost()), 443);
    assert_eq!(six.to_text(), "[::1]:443");
    assert_eq!(six.port(), 443);
    assert_eq!(six.ip().to_text(), "::1");
    let scoped = SocketAddr::V6 {
        ip: Ipv6Addr::new([0xfe80, 0, 0, 0, 0, 0, 0, 1]),
        port: 1,
        flowinfo: 7,
        scope_id: 12,
    };
    assert_eq!(scoped.to_text(), "[fe80::1%12]:1");
    assert_eq!(TunnelAddressInfo::Socket(four).to_string(), "1.2.3.4:5");
    assert_eq!(TunnelAddressInfo::Port(9).to_string(), "9");
    assert_eq!(TunnelAddressInfo::Unidentified.to_string(), "Unidentified");
}
