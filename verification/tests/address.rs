use snocat::address::{RouteAddress, RouteAddressParseError};

const TRIVIAL_CASE: &str = "/hello/world";
const TRIVIAL_CASE_SEGMENTS: &[&str] = &["hello", "world"];
const MISSING_LEADING_SLASH: &str = "hello/world";

#[test]
fn from_segments_trivial() {
    let addr = RouteAddress::parse(TRIVIAL_CASE).unwrap();
    assert_eq!(&addr.iter_segments(), TRIVIAL_CASE_SEGMENTS);
}

#[test]
fn display_round_trip_trivial() {
    let addr = RouteAddress::parse(TRIVIAL_CASE).unwrap();
    assert_eq!(addr.to_text(), TRIVIAL_CASE);
}

#[test]
fn error_on_missing_leading_slash() {
    assert!(
        matches!(
            RouteAddress::parse(MISSING_LEADING_SLASH).unwrap_err(),
            RouteAddressParseError::InvalidPrefix
        ),
        "A missing leading slash must fail with an invalid prefix error"
    );
}

#[test]
fn from_segments_zero_length_root() {
    let addr = RouteAddress::parse("/").unwrap();
    assert_eq!(
        &addr.iter_segments(),
        &[""],
        "Zero-Length-Root addresses must contain empty-strings in the respective segments"
    );
}

#[test]
fn display_round_trip_zero_length_root() {
    let addr = RouteAddress::parse("/").unwrap();
    assert_eq!(
        addr.to_text(),
        "/",
        "Zero-Length-Root addresses must round-trip through display"
    );
}

#[test]
fn from_segments_zero_length_root_multi() {
    let addr = RouteAddress::parse("//").unwrap();
    assert_eq!(
        &addr.iter_segments(),
        &["", ""],
        "Zero-Length-Root addresses must contain empty-strings in the respective segments"
    );
}

#[test]
fn display_round_trip_zero_length_root_multi() {
    let addr = RouteAddress::parse("//").unwrap();
    assert_eq!(
        addr.to_text(),
        "//",
        "Zero-Length-Root addresses must round-trip through display"
    );
}

#[test]
fn from_segments_empty() {
    let addr = RouteAddress::parse("").unwrap();
    assert!(
        addr.iter_segments().is_empty(),
        "Empty addresses must have no segments"
    );
}

#[test]
fn display_round_trip_empty() {
    let addr = RouteAddress::parse("").unwrap();
    assert_eq!(
        addr.to_text(),
        "",
        "Empty addresses must round-trip through display"
    );
}

#[test]
fn segments_make_the_address_back() {
    for text in ["", "/", "//", "/a", "/a/", "/a//b", "/\u{e9}t\u{e9}/\u{1f408}"] {
        let addr = RouteAddress::parse(text).unwrap();
        let again = RouteAddress::from_segments(&addr.iter_segments());
        assert_eq!(again.to_text(), text);
        assert_eq!(addr, again);
    }
}

#[test]
fn segments_with_a_slash_split_again() {
    let addr = RouteAddress::from_segments(&vec!["a/b", "c"]);
    assert_eq!(addr.to_text(), "/a/b/c");
    assert_eq!(addr.iter_segments(), vec!["a", "b", "c"]);
}

#[test]
fn suffix_follows_the_own_segments() {
    let addr = RouteAddress::parse("/a").unwrap().into_suffixed(&vec!["b", "", "c"]);
    assert_eq!(addr.as_str(), "/a/b//c");
    assert_eq!(addr.iter_segments(), vec!["a", "b", "", "c"]);
    let none = RouteAddress::parse("").unwrap().into_suffixed(&vec![]);
    assert_eq!(none.as_str(), "");
}

#[test]
fn prefixes_are_whole_segments() {
    let addr = RouteAddress::parse("/proxy-tcp/tcp/80").unwrap();
    assert_eq!(
        addr.strip_segment_prefix(&vec!["proxy-tcp"]),
        Some(vec!["tcp", "80"])
    );
    assert_eq!(
        addr.strip_segment_prefix(&vec![]),
        Some(vec!["proxy-tcp", "tcp", "80"])
    );
    assert_eq!(
        addr.strip_segment_prefix(&vec!["proxy-tcp", "tcp", "80"]),
        Some(vec![])
    );
    assert_eq!(addr.strip_segment_prefix(&vec!["proxy"]), None);
    assert_eq!(
        addr.strip_segment_prefix(&vec!["proxy-tcp", "tcp", "80", ""]),
        None
    );
}

#[test]
fn bytes_are_those_of_the_text() {
    let addr = RouteAddress::parse("/caf\u{e9}").unwrap();
    assert_eq!(addr.clone().into_bytes(), "/caf\u{e9}".as_bytes().to_vec());
    assert_eq!(String::from(addr), "/caf\u{e9}");
}
