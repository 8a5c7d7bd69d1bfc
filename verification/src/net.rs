//! Internet addresses as plain values, with the text forms that `std::net` reads and writes.

use vstd::prelude::*;
use vstd::string::{StrSliceExecFns, StringExecFns};

use crate::numeral::{
    all_digits, bounded_value, digit_value, digits_value, law_decimal_notation_is_unique,
    law_port_round_trip, lemma_digits_value, lemma_numeral_value, numeral, port_of, push_numeral,
    PortParseError,
};
use crate::text::{
    chars_of, lemma_prefix_of_split, lemma_split_append, lemma_split_nonempty,
    lemma_split_of_prefix, lemma_split_single, prefix_each, split_from, split_on, texts,
};

verus! {

/// The parts with `sep` between them.
pub open spec fn joined(parts: Seq<Seq<char>>, sep: char) -> Seq<char> {
    if parts.len() == 0 {
        Seq::empty()
    } else {
        prefix_each(parts, sep).drop_first()
    }
}

/// An IPv4 address, by its four octets.
#[derive(Debug, Clone, Copy, PartialEq, Eq, PartialOrd, Ord, Hash, Structural)]
pub struct Ipv4Addr {
    pub a: u8,
    pub b: u8,
    pub c: u8,
    pub d: u8,
}

/// An IPv6 address, by its eight segments.
#[derive(Debug, Clone, Copy, PartialEq, Eq, PartialOrd, Ord, Hash)]
pub struct Ipv6Addr {
    pub segments: [u16; 8],
}

/// Which notation an address failed to be read in.
#[derive(Debug, Clone, Copy, PartialEq, Eq)]
pub enum AddrParseError {
    Ipv4,
    Ipv6,
}

/// The octet that one part of a dotted address stands for: one to three decimal digits, without a
/// leading zero, up to 255.
pub open spec fn octet_of(part: Seq<char>) -> Option<int> {
    match digits_value(part, 10) {
        Some(v) => if 1 <= part.len() <= 3 && (part.len() == 1 || part[0] != '0') && v <= 255 {
            Some(v)
        } else {
            None
        },
        None => None,
    }
}

/// The IPv4 address that a text stands for: four octets between dots.
pub open spec fn ipv4_of(s: Seq<char>) -> Option<Ipv4Addr> {
    let parts = split_on(s, '.');
    if parts.len() == 4 {
        match (octet_of(parts[0]), octet_of(parts[1]), octet_of(parts[2]), octet_of(parts[3])) {
            (Some(a), Some(b), Some(c), Some(d)) => Some(
                Ipv4Addr { a: a as u8, b: b as u8, c: c as u8, d: d as u8 },
            ),
            _ => None,
        }
    } else {
        None
    }
}

/// The dotted notation of an IPv4 address.
pub open spec fn ipv4_text(ip: Ipv4Addr) -> Seq<char> {
    joined(
        seq![
            numeral(ip.a as int, 10),
            numeral(ip.b as int, 10),
            numeral(ip.c as int, 10),
            numeral(ip.d as int, 10),
        ],
        '.',
    )
}

/// The segment that one part of an IPv6 address stands for: one to four hexadecimal digits.
pub open spec fn hex_group(part: Seq<char>) -> Option<int> {
    if 1 <= part.len() <= 4 {
        digits_value(part, 16)
    } else {
        None
    }
}

/// The segments that a list of hexadecimal parts stands for.
pub open spec fn hex_groups(parts: Seq<Seq<char>>) -> Option<Seq<u16>>
    decreases parts.len(),
{
    if parts.len() == 0 {
        Some(Seq::empty())
    } else {
        match (hex_groups(parts.drop_last()), hex_group(parts.last())) {
            (Some(gs), Some(g)) => Some(gs.push(g as u16)),
            _ => None,
        }
    }
}

/// The two segments that an IPv4 address fills at the end of an IPv6 address.
pub open spec fn ipv4_segments(ip: Ipv4Addr) -> Seq<u16> {
    seq![(ip.a * 256 + ip.b) as u16, (ip.c * 256 + ip.d) as u16]
}

/// The segments of one side of an IPv6 address. Where `v4_last` holds, the last part may be a
/// dotted IPv4 address, which counts as two segments.
pub open spec fn side_groups(side: Seq<char>, v4_last: bool) -> Option<Seq<u16>> {
    let parts = split_on(side, ':');
    if side.len() == 0 {
        Some(Seq::empty())
    } else if v4_last && ipv4_of(parts.last()) is Some {
        match hex_groups(parts.drop_last()) {
            Some(gs) => Some(gs + ipv4_segments(ipv4_of(parts.last())->0)),
            None => None,
        }
    } else {
        hex_groups(parts)
    }
}

/// Where the first double colon of a text stands.
pub open spec fn first_gap(s: Seq<char>) -> Option<int>
    decreases s.len(),
{
    if s.len() < 2 {
        None
    } else {
        match first_gap(s.drop_last()) {
            Some(k) => Some(k),
            None => if s[s.len() - 2] == ':' && s[s.len() - 1] == ':' {
                Some(s.len() - 2)
            } else {
                None
            },
        }
    }
}

/// `n` segments of zero.
pub open spec fn zeros(n: int) -> Seq<u16> {
    Seq::new(n as nat, |i: int| 0u16)
}

/// The segments of the IPv6 address that a text stands for: eight of them, or fewer around one
/// double colon that stands for at least one segment of zero.
pub open spec fn ipv6_of(s: Seq<char>) -> Option<Seq<u16>> {
    match first_gap(s) {
        None => match side_groups(s, true) {
            Some(gs) => if gs.len() == 8 {
                Some(gs)
            } else {
                None
            },
            None => None,
        },
        Some(k) => match (side_groups(s.take(k), false), side_groups(s.skip(k + 2), true)) {
            (Some(head), Some(tail)) => if head.len() + tail.len() <= 7 {
                Some(head + zeros(8 - head.len() - tail.len()) + tail)
            } else {
                None
            },
            _ => None,
        },
    }
}

/// The hexadecimal notation of some segments, with colons between them.
pub open spec fn hex_text(gs: Seq<u16>) -> Seq<char> {
    joined(gs.map_values(|g: u16| numeral(g as int, 16)), ':')
}

/// Where a run of zero segments starts, and its length.
pub struct ZeroRun {
    pub start: usize,
    pub len: usize,
}

/// The run of zeros that ends just before segment `i`.
pub open spec fn run_before(gs: Seq<u16>, i: int) -> (int, int)
    decreases i,
{
    if i <= 0 || gs[i - 1] != 0 {
        (i, 0)
    } else {
        let before = run_before(gs, i - 1);
        (before.0, before.1 + 1)
    }
}

/// The first of the longest runs of zeros among the first `i` segments.
pub open spec fn longest_run(gs: Seq<u16>, i: int) -> (int, int)
    decreases i,
{
    if i <= 0 {
        (0, 0)
    } else {
        let best = longest_run(gs, i - 1);
        let here = run_before(gs, i);
        if here.1 > best.1 {
            here
        } else {
            best
        }
    }
}

/// Whether an address is an IPv4 address in IPv6 form.
pub open spec fn is_mapped(gs: Seq<u16>) -> bool {
    gs[0] == 0 && gs[1] == 0 && gs[2] == 0 && gs[3] == 0 && gs[4] == 0 && gs[5] == 0xffff
}

/// The IPv4 address in the last two segments.
pub open spec fn mapped_ipv4(gs: Seq<u16>) -> Ipv4Addr {
    Ipv4Addr {
        a: (gs[6] / 256) as u8,
        b: (gs[6] % 256) as u8,
        c: (gs[7] / 256) as u8,
        d: (gs[7] % 256) as u8,
    }
}

/// The notation of an IPv6 address: the dotted form of a mapped IPv4 address behind `::ffff:`,
/// else hexadecimal segments with a double colon in place of the first of the longest runs of two
/// or more zeros.
pub open spec fn ipv6_text(gs: Seq<u16>) -> Seq<char> {
    let run = longest_run(gs, 8);
    if is_mapped(gs) {
        "::ffff:"@ + ipv4_text(mapped_ipv4(gs))
    } else if run.1 > 1 {
        hex_text(gs.take(run.0)) + "::"@ + hex_text(gs.skip(run.0 + run.1))
    } else {
        hex_text(gs)
    }
}

proof fn lemma_octet_round_trip(v: u8)
    ensures
        octet_of(numeral(v as int, 10)) == Some(v as int),
        !numeral(v as int, 10).contains('.'),
        !numeral(v as int, 10).contains(':'),
        !numeral(v as int, 10).contains('/'),
{
    let s = numeral(v as int, 10);
    lemma_numeral_value(v as int, 10);
    reveal_with_fuel(numeral, 4);
    assert(s.len() <= 3);
    lemma_digits_exclude(s, 10);
}

/// Digits are no punctuation.
proof fn lemma_digits_exclude(s: Seq<char>, radix: int)
    requires
        all_digits(s, radix),
        radix <= 16,
    ensures
        !s.contains('.'),
        !s.contains(':'),
        !s.contains('/'),
{
    assert forall|c: char| c == '.' || c == ':' || c == '/' implies !s.contains(c) by {
        if s.contains(c) {
            let k = s.index_of(c);
            assert(digit_value(s[k], radix) is Some);
        }
    }
}

/// Reading the notation of an IPv4 address gives the address.
pub proof fn law_ipv4_round_trip(ip: Ipv4Addr)
    ensures
        ipv4_of(ipv4_text(ip)) == Some(ip),
{
    let parts = seq![
        numeral(ip.a as int, 10),
        numeral(ip.b as int, 10),
        numeral(ip.c as int, 10),
        numeral(ip.d as int, 10),
    ];
    lemma_octet_round_trip(ip.a);
    lemma_octet_round_trip(ip.b);
    lemma_octet_round_trip(ip.c);
    lemma_octet_round_trip(ip.d);
    lemma_split_of_prefix(parts, '.');
}

/// Reads one octet of a dotted address.
fn parse_octet(part: &str) -> (r: Option<u8>)
    ensures
        match (r, octet_of(part@)) {
            (Some(v), Some(d)) => v == d,
            (None, None) => true,
            _ => false,
        },
{
    let cs = chars_of(part);
    if cs.len() < 1 || cs.len() > 3 || (cs.len() > 1 && cs[0] == '0') {
        return None;
    }
    match bounded_value(&cs, 10, 255) {
        Some(v) => Some(v as u8),
        None => None,
    }
}

/// Reads one segment of an IPv6 address.
fn parse_hex_group(part: &str) -> (r: Option<u16>)
    ensures
        match (r, hex_group(part@)) {
            (Some(v), Some(d)) => v == d,
            (None, None) => true,
            _ => false,
        },
{
    let cs = chars_of(part);
    if cs.len() < 1 || cs.len() > 4 {
        return None;
    }
    proof {
        lemma_hex_group_bound(cs@);
    }
    match bounded_value(&cs, 16, 0xffff) {
        Some(v) => Some(v as u16),
        None => None,
    }
}

/// Four hexadecimal digits fit in sixteen bits.
proof fn lemma_hex_group_bound(part: Seq<char>)
    ensures
        hex_group(part) matches Some(v) ==> 0 <= v <= 0xffff,
{
    reveal_with_fuel(digits_value, 5);
}

impl Ipv4Addr {
    /// The address with these four octets.
    pub fn new(a: u8, b: u8, c: u8, d: u8) -> (r: Ipv4Addr)
        ensures
            r == (Ipv4Addr { a, b, c, d }),
    {
        Ipv4Addr { a, b, c, d }
    }

    /// The loopback address 127.0.0.1.
    pub fn localhost() -> (r: Ipv4Addr)
        ensures
            r == (Ipv4Addr { a: 127, b: 0, c: 0, d: 1 }),
    {
        Ipv4Addr { a: 127, b: 0, c: 0, d: 1 }
    }

    /// Whether this is one of the loopback addresses 127.0.0.0/8.
    pub fn is_loopback(&self) -> (r: bool)
        ensures
            r == (self.a == 127),
    {
        self.a == 127
    }

    /// Whether this is the address 0.0.0.0.
    pub fn is_unspecified(&self) -> (r: bool)
        ensures
            r == (*self == (Ipv4Addr { a: 0, b: 0, c: 0, d: 0 })),
    {
        self.a == 0 && self.b == 0 && self.c == 0 && self.d == 0
    }

    /// Reads a dotted address.
    pub fn parse(s: &str) -> (r: Result<Ipv4Addr, AddrParseError>)
        ensures
            match (r, ipv4_of(s@)) {
                (Ok(ip), Some(v)) => ip == v,
                (Err(e), None) => e == AddrParseError::Ipv4,
                _ => false,
            },
    {
        let parts = split_from(s, 0, '.');
        proof {
            assert(s@.skip(0) =~= s@);
            assert forall|i: int| 0 <= i < parts.len() implies #[trigger] parts@[i]@ == split_on(
                s@,
                '.',
            )[i] by {
                assert(texts(parts@)[i] == parts@[i]@);
            }
            assert(texts(parts@).len() == parts.len());
        }
        if parts.len() != 4 {
            return Err(AddrParseError::Ipv4);
        }
        match (
            parse_octet(parts[0]),
            parse_octet(parts[1]),
            parse_octet(parts[2]),
            parse_octet(parts[3]),
        ) {
            (Some(a), Some(b), Some(c), Some(d)) => Ok(Ipv4Addr { a, b, c, d }),
            _ => Err(AddrParseError::Ipv4),
        }
    }

    /// The dotted notation of the address.
    pub fn to_text(&self) -> (r: String)
        ensures
            r@ == ipv4_text(*self),
    {
        let mut out = String::new();
        push_numeral(&mut out, self.a as u64, 10);
        out.push('.');
        push_numeral(&mut out, self.b as u64, 10);
        out.push('.');
        push_numeral(&mut out, self.c as u64, 10);
        out.push('.');
        push_numeral(&mut out, self.d as u64, 10);
        proof {
            let p0 = numeral(self.a as int, 10);
            let p1 = numeral(self.b as int, 10);
            let p2 = numeral(self.c as int, 10);
            let p3 = numeral(self.d as int, 10);
            lemma_prefix_each_four(p0, p1, p2, p3, '.');
            assert(out@ =~= ipv4_text(*self));
        }
        out
    }
}

/// Four parts behind separators, written out.
pub proof fn lemma_prefix_each_four(
    p0: Seq<char>,
    p1: Seq<char>,
    p2: Seq<char>,
    p3: Seq<char>,
    sep: char,
)
    ensures
        prefix_each(seq![p0, p1, p2, p3], sep) == seq![sep] + p0 + seq![sep] + p1 + seq![sep] + p2
            + seq![sep] + p3,
{
    let four = seq![p0, p1, p2, p3];
    let three = seq![p0, p1, p2];
    let two = seq![p0, p1];
    let one = seq![p0];
    assert(four.drop_last() =~= three);
    assert(three.drop_last() =~= two);
    assert(two.drop_last() =~= one);
    assert(one.drop_last() =~= Seq::<Seq<char>>::empty());
    assert(prefix_each(one.drop_last(), sep) =~= Seq::<char>::empty());
    assert(prefix_each(one, sep) =~= seq![sep] + p0);
    assert(prefix_each(two, sep) =~= seq![sep] + p0 + seq![sep] + p1);
    assert(prefix_each(three, sep) =~= seq![sep] + p0 + seq![sep] + p1 + seq![sep] + p2);
}

/// Reads the hexadecimal parts `0..count`.
fn parse_hex_groups(parts: &Vec<&str>, count: usize) -> (r: Option<Vec<u16>>)
    requires
        count <= parts.len(),
    ensures
        match (r, hex_groups(texts(parts@).take(count as int))) {
            (Some(gs), Some(v)) => gs@ == v,
            (None, None) => true,
            _ => false,
        },
{
    let ghost all = texts(parts@);
    let mut out: Vec<u16> = Vec::new();
    let mut i: usize = 0;
    assert(all.take(0) =~= Seq::<Seq<char>>::empty());
    assert(out@ =~= Seq::<u16>::empty());
    while i < count
        invariant
            i <= count <= parts.len(),
            all == texts(parts@),
            hex_groups(all.take(i as int)) == Some(out@),
        decreases count - i,
    {
        assert(all.take(i + 1).drop_last() =~= all.take(i as int));
        assert(all.take(i + 1).last() == parts@[i as int]@);
        match parse_hex_group(parts[i]) {
            Some(g) => {
                out.push(g);
            },
            None => {
                proof {
                    lemma_hex_groups_stick(all.take(count as int), i + 1);
                    assert(all.take(count as int).take(i + 1) =~= all.take(i + 1));
                }
                return None;
            },
        }
        i += 1;
    }
    Some(out)
}

/// A part that is no segment spoils every list that holds it.
proof fn lemma_hex_groups_stick(parts: Seq<Seq<char>>, i: int)
    requires
        0 <= i <= parts.len(),
        hex_groups(parts.take(i)) is None,
    ensures
        hex_groups(parts) is None,
    decreases parts.len(),
{
    if i == parts.len() {
        assert(parts.take(i) =~= parts);
    } else {
        assert(parts.drop_last().take(i) =~= parts.take(i));
        lemma_hex_groups_stick(parts.drop_last(), i);
    }
}

/// Reads one side of an IPv6 address.
fn parse_side(side: &str, v4_last: bool) -> (r: Option<Vec<u16>>)
    ensures
        match (r, side_groups(side@, v4_last)) {
            (Some(gs), Some(v)) => gs@ == v,
            (None, None) => true,
            _ => false,
        },
{
    if side.is_empty() {
        let none: Vec<u16> = Vec::new();
        assert(none@ =~= Seq::<u16>::empty());
        return Some(none);
    }
    let parts = split_from(side, 0, ':');
    proof {
        assert(side@.skip(0) =~= side@);
        lemma_split_nonempty(side@, ':');
        assert(texts(parts@).len() == parts.len());
        assert(texts(parts@).last() == parts@.last()@);
        assert(texts(parts@).take(parts.len() as int) =~= texts(parts@));
        assert(texts(parts@).take(parts.len() - 1) =~= texts(parts@).drop_last());
    }
    let n: usize = parts.len();
    if v4_last {
        if let Ok(ip) = Ipv4Addr::parse(parts[n - 1]) {
            return match parse_hex_groups(&parts, n - 1) {
                Some(gs) => {
                    let mut gs = gs;
                    let ghost before = gs@;
                    gs.push(ip.a as u16 * 256 + ip.b as u16);
                    gs.push(ip.c as u16 * 256 + ip.d as u16);
                    assert(gs@ =~= before + ipv4_segments(ip));
                    Some(gs)
                },
                None => None,
            };
        }
    }
    parse_hex_groups(&parts, n)
}

/// Finds the first double colon.
fn find_gap(cs: &Vec<char>) -> (r: Option<usize>)
    ensures
        match (r, first_gap(cs@)) {
            (Some(k), Some(v)) => k == v && k + 2 <= cs.len(),
            (None, None) => true,
            _ => false,
        },
{
    let mut i: usize = 1;
    assert(cs.len() >= 1 ==> cs@.take(1).len() == 1);
    while i < cs.len()
        invariant
            1 <= i,
            i <= cs.len() || cs.len() == 0,
            i <= cs.len() ==> first_gap(cs@.take(i as int)) is None,
        decreases cs.len() - i,
    {
        let ghost next = cs@.take(i + 1);
        assert(next.drop_last() =~= cs@.take(i as int));
        if cs[i - 1] == ':' && cs[i] == ':' {
            assert(first_gap(next) == Some(i - 1));
            proof {
                lemma_gap_sticks(cs@, i + 1);
            }
            return Some(i - 1);
        }
        i += 1;
    }
    assert(cs.len() >= 1 ==> cs@.take(cs.len() as int) =~= cs@);
    None
}

/// The first double colon of a prefix is the first one of the whole.
proof fn lemma_gap_sticks(s: Seq<char>, i: int)
    requires
        0 <= i <= s.len(),
        first_gap(s.take(i)) is Some,
    ensures
        first_gap(s) == first_gap(s.take(i)),
    decreases s.len(),
{
    if i == s.len() {
        assert(s.take(i) =~= s);
    } else {
        assert(s.drop_last().take(i) =~= s.take(i));
        lemma_gap_sticks(s.drop_last(), i);
    }
}

/// Puts the two sides of an address around the zeros that a double colon stands for.
fn around_gap(head: &Vec<u16>, tail: &Vec<u16>) -> (r: [u16; 8])
    requires
        head.len() + tail.len() <= 8,
    ensures
        r@ == head@ + zeros(8 - head.len() - tail.len()) + tail@,
{
    let mut out: [u16; 8] = [0;8];
    let mut i: usize = 0;
    while i < head.len()
        invariant
            i <= head.len() <= 8,
            forall|j: int| 0 <= j < i ==> out@[j] == head@[j],
            forall|j: int| i <= j < 8 ==> out@[j] == 0,
        decreases head.len() - i,
    {
        out[i] = head[i];
        i += 1;
    }
    let from: usize = 8 - tail.len();
    let mut k: usize = 0;
    while k < tail.len()
        invariant
            k <= tail.len(),
            head.len() + tail.len() <= 8,
            from == 8 - tail.len(),
            forall|j: int| 0 <= j < head.len() ==> out@[j] == head@[j],
            forall|j: int| head.len() <= j < from ==> out@[j] == 0,
            forall|j: int| 0 <= j < k ==> out@[#[trigger] (from + j)] == tail@[j],
        decreases tail.len() - k,
    {
        out[from + k] = tail[k];
        k += 1;
    }
    proof {
        let all = head@ + zeros(8 - head.len() - tail.len()) + tail@;
        assert forall|j: int| 0 <= j < 8 implies out@[j] == all[j] by {
            if j >= from {
                assert(out@[from + (j - from)] == tail@[j - from]);
            }
        }
        assert(out@ =~= all);
    }
    out
}

impl Ipv6Addr {
    /// The address with these segments.
    pub fn new(segments: [u16; 8]) -> (r: Ipv6Addr)
        ensures
            r.segments == segments,
    {
        Ipv6Addr { segments }
    }

    /// The loopback address `::1`.
    pub fn localhost() -> (r: Ipv6Addr)
        ensures
            r.segments@ == seq![0u16, 0, 0, 0, 0, 0, 0, 1],
    {
        let segments: [u16; 8] = [0, 0, 0, 0, 0, 0, 0, 1];
        assert(segments@ =~= seq![0u16, 0, 0, 0, 0, 0, 0, 1]);
        Ipv6Addr { segments }
    }

    /// Whether this is the loopback address `::1`.
    pub fn is_loopback(&self) -> (r: bool)
        ensures
            r == (self.segments@ == seq![0u16, 0, 0, 0, 0, 0, 0, 1]),
    {
        let g = &self.segments;
        assert(self.segments@ == seq![0u16, 0, 0, 0, 0, 0, 0, 1] <==> self.segments@ =~= seq![
            0u16,
            0,
            0,
            0,
            0,
            0,
            0,
            1,
        ]);
        g[0] == 0 && g[1] == 0 && g[2] == 0 && g[3] == 0 && g[4] == 0 && g[5] == 0 && g[6] == 0
            && g[7] == 1
    }

    /// Whether this is the address `::`.
    pub fn is_unspecified(&self) -> (r: bool)
        ensures
            r == (self.segments@ == zeros(8)),
    {
        let g = &self.segments;
        assert(self.segments@ == zeros(8) <==> self.segments@ =~= zeros(8));
        g[0] == 0 && g[1] == 0 && g[2] == 0 && g[3] == 0 && g[4] == 0 && g[5] == 0 && g[6] == 0
            && g[7] == 0
    }

    /// Reads an IPv6 address.
    pub fn parse(s: &str) -> (r: Result<Ipv6Addr, AddrParseError>)
        ensures
            match (r, ipv6_of(s@)) {
                (Ok(ip), Some(v)) => ip.segments@ == v,
                (Err(e), None) => e == AddrParseError::Ipv6,
                _ => false,
            },
    {
        let cs = chars_of(s);
        match find_gap(&cs) {
            None => match parse_side(s, true) {
                Some(gs) => {
                    if gs.len() != 8 {
                        return Err(AddrParseError::Ipv6);
                    }
                    let none: Vec<u16> = Vec::new();
                    let segments = around_gap(&gs, &none);
                    assert(gs@ + zeros(0) + none@ =~= gs@);
                    Ok(Ipv6Addr { segments })
                },
                None => Err(AddrParseError::Ipv6),
            },
            Some(k) => {
                let head_text = s.substring_char(0, k);
                let tail_text = s.substring_char(k + 2, cs.len());
                proof {
                    assert(head_text@ =~= s@.take(k as int));
                    assert(tail_text@ =~= s@.skip(k + 2));
                }
                match (parse_side(head_text, false), parse_side(tail_text, true)) {
                    (Some(head), Some(tail)) => {
                        if head.len() > 7 || tail.len() > 7 - head.len() {
                            return Err(AddrParseError::Ipv6);
                        }
                        Ok(Ipv6Addr { segments: around_gap(&head, &tail) })
                    },
                    _ => Err(AddrParseError::Ipv6),
                }
            },
        }
    }
}

/// Writes segments in hexadecimal with colons between them.
fn push_hex_text(out: &mut String, gs: &[u16; 8], from: usize, to: usize)
    requires
        from <= to <= 8,
    ensures
        final(out)@ == old(out)@ + hex_text(gs@.subrange(from as int, to as int)),
{
    let ghost start = out@;
    let ghost part = gs@.subrange(from as int, to as int);
    let ghost numerals = part.map_values(|g: u16| numeral(g as int, 16));
    let mut i: usize = from;
    assert(numerals.take(0) =~= Seq::<Seq<char>>::empty());
    assert(start + Seq::<char>::empty() =~= start);
    while i < to
        invariant
            from <= i <= to <= 8,
            part == gs@.subrange(from as int, to as int),
            numerals == part.map_values(|g: u16| numeral(g as int, 16)),
            out@ == start + joined(numerals.take(i - from), ':'),
        decreases to - i,
    {
        let ghost so_far = numerals.take(i - from);
        let ghost next = numerals.take(i - from + 1);
        let ghost before = out@;
        assert(next.drop_last() =~= so_far);
        assert(next.last() == numeral(gs@[i as int] as int, 16));
        if i > from {
            out.push(':');
            push_numeral(out, gs[i] as u64, 16);
            proof {
                lemma_prefix_starts(so_far, ':');
                assert(joined(next, ':') =~= joined(so_far, ':') + seq![':'] + next.last());
                assert(out@ =~= start + joined(next, ':'));
            }
        } else {
            push_numeral(out, gs[i] as u64, 16);
            proof {
                assert(so_far =~= Seq::<Seq<char>>::empty());
                assert(prefix_each(so_far, ':') =~= Seq::<char>::empty());
                assert(joined(next, ':') =~= next.last());
                assert(out@ =~= start + joined(next, ':'));
            }
        }
        i += 1;
    }
    assert(numerals.take(numerals.len() as int) =~= numerals);
}

/// Parts behind separators start with a separator.
proof fn lemma_prefix_starts(parts: Seq<Seq<char>>, sep: char)
    requires
        parts.len() > 0,
    ensures
        prefix_each(parts, sep).len() > 0,
        prefix_each(parts, sep)[0] == sep,
    decreases parts.len(),
{
    if parts.len() > 1 {
        lemma_prefix_starts(parts.drop_last(), sep);
    } else {
        assert(parts.drop_last() =~= Seq::<Seq<char>>::empty());
        assert(prefix_each(parts.drop_last(), sep) =~= Seq::<char>::empty());
        assert(prefix_each(parts, sep) =~= seq![sep] + parts.last());
    }
}

/// The bounds of the runs of zeros, and that they are zeros.
proof fn lemma_runs(gs: Seq<u16>, i: int)
    requires
        0 <= i <= gs.len(),
    ensures
        ({
            let (s, n) = run_before(gs, i);
            0 <= s && 0 <= n && s + n == i && (forall|j: int| s <= j < i ==> gs[j] == 0) && (s > 0
                ==> gs[s - 1] != 0)
        }),
        ({
            let (s, n) = longest_run(gs, i);
            0 <= s && 0 <= n && s + n <= i && (forall|j: int| s <= j < s + n ==> gs[j] == 0)
        }),
    decreases i,
{
    if i > 0 {
        lemma_runs(gs, i - 1);
    }
}

/// No run of zeros is longer than the one that the notation leaves out, and none as long starts
/// before it.
pub proof fn law_longest_run(gs: Seq<u16>, n: int, start: int, len: int)
    requires
        0 <= n <= gs.len(),
        0 <= start,
        0 < len,
        start + len <= n,
        forall|j: int| start <= j < start + len ==> gs[j] == 0,
    ensures
        longest_run(gs, n).1 >= len,
        longest_run(gs, n).1 == len ==> longest_run(gs, n).0 <= start,
    decreases n,
{
    lemma_runs(gs, n);
    lemma_runs(gs, n - 1);
    if start + len < n {
        law_longest_run(gs, n - 1, start, len);
    } else {
        let (s, k) = run_before(gs, n);
        if s > start {
            assert(gs[s - 1] == 0);
        }
        if len > 1 {
            law_longest_run(gs, n - 1, start, len - 1);
        }
    }
}

/// The notation of an IPv4 address is its four octets in decimal, from the first to the last, with dots
/// between them.
pub proof fn law_ipv4_notation(ip: Ipv4Addr)
    ensures
        ipv4_text(ip) == numeral(ip.a as int, 10) + seq!['.'] + numeral(ip.b as int, 10) + seq!['.']
            + numeral(ip.c as int, 10) + seq!['.'] + numeral(ip.d as int, 10),
{
    let a = numeral(ip.a as int, 10);
    let b = numeral(ip.b as int, 10);
    let c = numeral(ip.c as int, 10);
    let d = numeral(ip.d as int, 10);
    let four = seq![a, b, c, d];
    let three = seq![a, b, c];
    let two = seq![a, b];
    let one = seq![a];
    assert(four.drop_last() =~= three);
    assert(three.drop_last() =~= two);
    assert(two.drop_last() =~= one);
    assert(one.drop_last() =~= Seq::<Seq<char>>::empty());
    assert(prefix_each(one.drop_last(), '.') =~= Seq::<char>::empty());
    assert(prefix_each(one, '.') =~= seq!['.'] + a);
    assert(prefix_each(two, '.') =~= seq!['.'] + a + seq!['.'] + b);
    assert(prefix_each(three, '.') =~= seq!['.'] + a + seq!['.'] + b + seq!['.'] + c);
    assert(ipv4_text(ip) =~= a + seq!['.'] + b + seq!['.'] + c + seq!['.'] + d);
}

/// Only the notation of an IPv4 address is read as it: four numbers without needless zeros, with
/// dots between them.
pub proof fn law_ipv4_notation_is_unique(s: Seq<char>)
    requires
        ipv4_of(s) is Some,
    ensures
        s == ipv4_text(ipv4_of(s)->0),
{
    let parts = split_on(s, '.');
    let ip = ipv4_of(s)->0;
    lemma_prefix_of_split(s, '.');
    assert forall|i: int| 0 <= i < 4 implies #[trigger] parts[i] == numeral(
        octet_of(parts[i])->0,
        10,
    ) by {
        assert(octet_of(parts[i]) is Some);
        law_decimal_notation_is_unique(parts[i]);
    }
    assert forall|i: int| 0 <= i < 4 implies 0 <= octet_of(#[trigger] parts[i])->0 <= 255 by {
        lemma_digits_value(parts[i], 10);
    }
    let texts = seq![
        numeral(ip.a as int, 10),
        numeral(ip.b as int, 10),
        numeral(ip.c as int, 10),
        numeral(ip.d as int, 10),
    ];
    assert(parts =~= texts);
    assert((seq!['.'] + s).drop_first() =~= s);
}

/// A segment of an IPv6 address is one to four hexadecimal digits, and fits in sixteen bits.
pub proof fn law_hex_groups_are_short(part: Seq<char>)
    ensures
        hex_group(part) is Some <==> 1 <= part.len() <= 4 && all_digits(part, 16),
        hex_group(part) matches Some(v) ==> 0 <= v <= 0xffff && digits_value(part, 16) == Some(v),
{
    lemma_digits_value(part, 16);
    lemma_hex_group_bound(part);
}

/// A list of parts stands for segments exactly when each of them does, and then for theirs.
proof fn lemma_hex_groups_each(parts: Seq<Seq<char>>)
    ensures
        hex_groups(parts) is Some <==> forall|i: int|
            0 <= i < parts.len() ==> hex_group(#[trigger] parts[i]) is Some,
        hex_groups(parts) matches Some(gs) ==> gs.len() == parts.len() && forall|i: int|
            #![trigger gs[i]]
            0 <= i < parts.len() ==> hex_group(parts[i]) == Some(gs[i] as int),
    decreases parts.len(),
{
    if parts.len() > 0 {
        let init = parts.drop_last();
        lemma_hex_groups_each(init);
        lemma_hex_group_bound(parts.last());
        assert forall|i: int| 0 <= i < init.len() implies init[i] == #[trigger] parts[i] by {}
        assert(parts.last() == parts[parts.len() - 1]);
        if hex_groups(parts) is Some {
            assert forall|i: int| 0 <= i < parts.len() implies hex_group(
                #[trigger] parts[i],
            ) is Some by {
                if i < init.len() {
                    assert(hex_group(init[i]) is Some);
                }
            }
        } else if forall|i: int| 0 <= i < parts.len() ==> hex_group(#[trigger] parts[i]) is Some {
            assert forall|i: int| 0 <= i < init.len() implies hex_group(#[trigger] init[i]) is Some by {
                assert(hex_group(parts[i]) is Some);
            }
            assert(hex_group(parts[parts.len() - 1]) is Some);
        }
    }
}

/// One side of an IPv6 address is read part by part: each is a segment, but for an IPv4 address
/// which may end the side where that is allowed, and which fills two segments.
pub proof fn law_ipv6_side_is_read_by_parts(side: Seq<char>, v4_last: bool)
    requires
        side.len() > 0,
    ensures
        ({
            let parts = split_on(side, ':');
            let n = parts.len() as int;
            let dotted = v4_last && ipv4_of(parts[n - 1]) is Some;
            let hex = if dotted {
                n - 1
            } else {
                n
            };
            &&& n >= 1
            &&& side_groups(side, v4_last) is Some <==> forall|i: int|
                0 <= i < hex ==> hex_group(#[trigger] parts[i]) is Some
            &&& side_groups(side, v4_last) matches Some(gs) ==> {
                &&& gs.len() == if dotted {
                    n + 1
                } else {
                    n
                }
                &&& forall|i: int|
                    #![trigger gs[i]]
                    0 <= i < hex ==> hex_group(parts[i]) == Some(gs[i] as int)
                &&& dotted ==> ({
                    let ip = ipv4_of(parts[n - 1])->0;
                    &&& gs[n - 1] == ip.a * 256 + ip.b
                    &&& gs[n] == ip.c * 256 + ip.d
                })
            }
        }),
{
    let parts = split_on(side, ':');
    let n = parts.len() as int;
    lemma_split_nonempty(side, ':');
    assert(parts.last() == parts[n - 1]);
    lemma_hex_groups_each(parts);
    lemma_hex_groups_each(parts.drop_last());
    assert forall|i: int| 0 <= i < n - 1 implies parts.drop_last()[i] == #[trigger] parts[i] by {}
    if v4_last && ipv4_of(parts[n - 1]) is Some {
        if forall|i: int| 0 <= i < n - 1 ==> hex_group(#[trigger] parts[i]) is Some {
            assert forall|i: int| 0 <= i < n - 1 implies hex_group(
                #[trigger] parts.drop_last()[i],
            ) is Some by {
                assert(hex_group(parts[i]) is Some);
            }
        }
    }
}

/// The first double colon that is found is the first there is.
proof fn lemma_found_gap(s: Seq<char>)
    ensures
        match first_gap(s) {
            Some(k) => 0 <= k < s.len() - 1 && s[k] == ':' && s[k + 1] == ':' && forall|j: int|
                #![trigger s[j]]
                0 <= j < k ==> !(s[j] == ':' && s[j + 1] == ':'),
            None => forall|j: int|
                #![trigger s[j]]
                0 <= j < s.len() - 1 ==> !(s[j] == ':' && s[j + 1] == ':'),
        },
    decreases s.len(),
{
    if s.len() >= 2 {
        let init = s.drop_last();
        lemma_found_gap(init);
        assert forall|j: int| 0 <= j < init.len() implies init[j] == #[trigger] s[j] by {}
        if first_gap(s) is None {
            assert forall|j: int| #![trigger s[j]] 0 <= j < s.len() - 1 implies !(s[j] == ':' && s[j
                + 1] == ':') by {
                if j < init.len() - 1 {
                    assert(init[j] == s[j] && init[j + 1] == s[j + 1]);
                }
            }
        } else if first_gap(init) is Some {
            let k = first_gap(s)->0;
            assert(init[k] == s[k] && init[k + 1] == s[k + 1]);
            assert forall|j: int| #![trigger s[j]] 0 <= j < k implies !(s[j] == ':' && s[j + 1]
                == ':') by {
                assert(init[j] == s[j] && init[j + 1] == s[j + 1]);
            }
        } else {
            let k = first_gap(s)->0;
            assert forall|j: int| #![trigger s[j]] 0 <= j < k implies !(s[j] == ':' && s[j + 1]
                == ':') by {
                assert(init[j] == s[j] && init[j + 1] == s[j + 1]);
            }
        }
    }
}

/// A text without a double colon is an IPv6 address exactly when it gives eight segments.
pub proof fn law_ipv6_without_gap(s: Seq<char>)
    requires
        forall|j: int|
            #![trigger s[j]]
            0 <= j < s.len() - 1 ==> !(s[j] == ':' && s[j + 1] == ':'),
    ensures
        ipv6_of(s) is Some <==> (side_groups(s, true) matches Some(gs) && gs.len() == 8),
        ipv6_of(s) is Some ==> ipv6_of(s) == side_groups(s, true),
{
    lemma_found_gap(s);
}

/// A text with a double colon is an IPv6 address exactly when the two sides of the first such give
/// fewer than eight segments; zeros fill the place between them. An IPv4 address can stand only at
/// the end of the second side.
pub proof fn law_ipv6_around_gap(s: Seq<char>, k: int)
    requires
        0 <= k < s.len() - 1,
        s[k] == ':',
        s[k + 1] == ':',
        forall|j: int| #![trigger s[j]] 0 <= j < k ==> !(s[j] == ':' && s[j + 1] == ':'),
    ensures
        ({
            let head = side_groups(s.take(k), false);
            let tail = side_groups(s.skip(k + 2), true);
            &&& ipv6_of(s) is Some <==> head is Some && tail is Some && head->0.len()
                + tail->0.len() < 8
            &&& ipv6_of(s) matches Some(gs) ==> {
                let h = head->0.len();
                let t = tail->0.len();
                &&& gs.len() == 8
                &&& forall|i: int| #![trigger gs[i]] 0 <= i < h ==> gs[i] == head->0[i]
                &&& forall|i: int| #![trigger gs[i]] h <= i < 8 - t ==> gs[i] == 0
                &&& forall|i: int| #![trigger gs[i]] 8 - t <= i < 8 ==> gs[i] == tail->0[i - 8 + t]
            }
        }),
{
    lemma_found_gap(s);
    if let Some(j) = first_gap(s) {
        if j < k {
            assert(s[j] == ':' && s[j + 1] == ':');
        } else if k < j {
            assert(s[k] == ':' && s[k + 1] == ':');
        }
    } else {
        assert(s[k] == ':' && s[k + 1] == ':');
    }
}

/// The notation of an IPv6 address has a double colon exactly where it leaves zeros out: an address
/// that holds an IPv4 address is written with it, a single zero is never left out, and else the
/// first of the longest runs of zeros is.
pub proof fn law_ipv6_notation(gs: Seq<u16>, start: int, len: int)
    requires
        gs.len() == 8,
        0 <= start,
        0 < len,
        start + len <= 8,
        forall|j: int| #![trigger gs[j]] start <= j < start + len ==> gs[j] == 0,
        forall|s: int, n: int|
            #![trigger gs[s], gs[s + n - 1]]
            0 <= s && 0 < n && s + n <= 8 && (forall|j: int|
                #![trigger gs[j]]
                s <= j < s + n ==> gs[j] == 0) ==> n < len || n == len && start <= s,
    ensures
        ({
            let hex = |g: u16| numeral(g as int, 16);
            if gs[0] == 0 && gs[1] == 0 && gs[2] == 0 && gs[3] == 0 && gs[4] == 0 && gs[5]
                == 0xffff {
                exists|ip: Ipv4Addr|
                    #![trigger ipv4_text(ip)]
                    ip.a * 256 + ip.b == gs[6] && ip.c * 256 + ip.d == gs[7] && ipv6_text(gs)
                        == "::ffff:"@ + ipv4_text(ip)
            } else if len == 1 {
                ipv6_text(gs) == joined(gs.map_values(hex), ':')
            } else {
                ipv6_text(gs) == joined(gs.take(start).map_values(hex), ':') + "::"@ + joined(
                    gs.skip(start + len).map_values(hex),
                    ':',
                )
            }
        }),
{
    let run = longest_run(gs, 8);
    lemma_runs(gs, 8);
    law_longest_run(gs, 8, start, len);
    assert(gs[run.0] == 0 && gs[run.0 + run.1 - 1] == 0);
    assert(run.1 < len || run.1 == len && start <= run.0);
    if is_mapped(gs) {
        let ip = mapped_ipv4(gs);
        assert(ip.a * 256 + ip.b == gs[6] && ip.c * 256 + ip.d == gs[7]);
        assert(ipv6_text(gs) == "::ffff:"@ + ipv4_text(ip));
    }
}

/// An address without zeros is written as all of its segments.
pub proof fn law_ipv6_notation_without_zeros(gs: Seq<u16>)
    requires
        gs.len() == 8,
        forall|j: int| #![trigger gs[j]] 0 <= j < 8 ==> gs[j] != 0,
    ensures
        ipv6_text(gs) == joined(gs.map_values(|g: u16| numeral(g as int, 16)), ':'),
{
    lemma_runs(gs, 8);
    let run = longest_run(gs, 8);
    if run.1 > 0 {
        assert(gs[run.0] == 0);
    }
    assert(gs[0] != 0);
}

impl Ipv6Addr {
    /// The notation of the address.
    pub fn to_text(&self) -> (r: String)
        ensures
            r@ == ipv6_text(self.segments@),
    {
        let g = &self.segments;
        let mut out = String::new();
        if g[0] == 0 && g[1] == 0 && g[2] == 0 && g[3] == 0 && g[4] == 0 && g[5] == 0xffff {
            out.append("::ffff:");
            let ip = Ipv4Addr {
                a: (g[6] / 256) as u8,
                b: (g[6] % 256) as u8,
                c: (g[7] / 256) as u8,
                d: (g[7] % 256) as u8,
            };
            out.append(ip.to_text().as_str());
            assert(out@ =~= ipv6_text(self.segments@));
            return out;
        }
        let mut best: ZeroRun = ZeroRun { start: 0, len: 0 };
        let mut here: ZeroRun = ZeroRun { start: 0, len: 0 };
        let mut i: usize = 0;
        while i < 8
            invariant
                i <= 8,
                g@ == self.segments@,
                run_before(g@, i as int) == (here.start as int, here.len as int),
                longest_run(g@, i as int) == (best.start as int, best.len as int),
                here.start + here.len == i,
                best.len <= 8,
            decreases 8 - i,
        {
            if g[i] == 0 {
                here.len += 1;
            } else {
                here.start = i + 1;
                here.len = 0;
            }
            if here.len > best.len {
                best.start = here.start;
                best.len = here.len;
            }
            i += 1;
        }
        proof {
            lemma_runs(g@, 8);
        }
        if best.len > 1 {
            push_hex_text(&mut out, g, 0, best.start);
            out.append("::");
            push_hex_text(&mut out, g, best.start + best.len, 8);
            proof {
                assert(g@.subrange(0, best.start as int) =~= g@.take(best.start as int));
                assert(g@.subrange(best.start + best.len, 8) =~= g@.skip(best.start + best.len));
                assert(out@ =~= ipv6_text(self.segments@));
            }
        } else {
            push_hex_text(&mut out, g, 0, 8);
            proof {
                assert(g@.subrange(0, 8) =~= g@);
                assert(out@ =~= ipv6_text(self.segments@));
            }
        }
        out
    }
}

/// A hexadecimal numeral of a segment reads as that segment.
proof fn lemma_hex_group_round_trip(g: u16)
    ensures
        hex_group(numeral(g as int, 16)) == Some(g as int),
        !numeral(g as int, 16).contains('.'),
        !numeral(g as int, 16).contains(':'),
        !numeral(g as int, 16).contains('/'),
        numeral(g as int, 16).len() > 0,
{
    let s = numeral(g as int, 16);
    lemma_numeral_value(g as int, 16);
    reveal_with_fuel(numeral, 5);
    assert(s.len() <= 4);
    lemma_digits_exclude(s, 16);
}

/// The numerals of segments read as those segments.
proof fn lemma_hex_groups_round_trip(gs: Seq<u16>)
    ensures
        hex_groups(gs.map_values(|g: u16| numeral(g as int, 16))) == Some(gs),
    decreases gs.len(),
{
    let f = |g: u16| numeral(g as int, 16);
    if gs.len() == 0 {
        assert(gs =~= Seq::<u16>::empty());
    } else {
        lemma_hex_groups_round_trip(gs.drop_last());
        lemma_hex_group_round_trip(gs.last());
        assert(gs.map_values(f).drop_last() =~= gs.drop_last().map_values(f));
        assert(gs.drop_last().push(gs.last()) =~= gs);
    }
}

/// Appending a text without colons makes no double colon.
proof fn lemma_no_gap_append(s: Seq<char>, piece: Seq<char>)
    requires
        first_gap(s) is None,
        !piece.contains(':'),
    ensures
        first_gap(s + piece) is None,
    decreases piece.len(),
{
    if piece.len() == 0 {
        assert(s + piece =~= s);
    } else {
        let init = piece.drop_last();
        assert(piece[piece.len() - 1] != ':');
        assert(!init.contains(':')) by {
            if init.contains(':') {
                let k = init.index_of(':');
                assert(piece[k] == ':');
            }
        }
        lemma_no_gap_append(s, init);
        assert((s + piece).drop_last() =~= s + init);
    }
}

/// Nonempty parts without colons, joined by colons, hold no double colon and end in no colon.
proof fn lemma_joined_no_gap(parts: Seq<Seq<char>>)
    requires
        forall|i: int|
            0 <= i < parts.len() ==> (#[trigger] parts[i]).len() > 0 && !parts[i].contains(':'),
    ensures
        first_gap(joined(parts, ':')) is None,
        parts.len() > 0 ==> joined(parts, ':').len() > 0 && joined(parts, ':').last() != ':',
    decreases parts.len(),
{
    if parts.len() > 0 {
        let init = parts.drop_last();
        let last = parts[parts.len() - 1];
        assert(last[last.len() - 1] != ':') by {
            assert(last.contains(last[last.len() - 1]));
        }
        if init.len() == 0 {
            assert(prefix_each(init, ':') =~= Seq::<char>::empty());
            assert(joined(parts, ':') =~= last);
            lemma_no_gap_append(Seq::empty(), last);
            assert(Seq::<char>::empty() + last =~= last);
        } else {
            assert forall|i: int| 0 <= i < init.len() implies (#[trigger] init[i]).len() > 0
                && !init[i].contains(':') by {
                assert(init[i] == parts[i]);
            }
            lemma_joined_no_gap(init);
            lemma_prefix_starts(init, ':');
            let before = joined(init, ':').push(':');
            assert(before.drop_last() =~= joined(init, ':'));
            assert(first_gap(before) is None);
            assert(joined(parts, ':') =~= before + last);
            lemma_no_gap_append(before, last);
        }
    }
}

/// What the notation of segments is made of.
proof fn lemma_hex_text(gs: Seq<u16>)
    ensures
        first_gap(hex_text(gs)) is None,
        gs.len() > 0 ==> hex_text(gs).len() > 0 && hex_text(gs).last() != ':',
        gs.len() == 0 ==> hex_text(gs).len() == 0,
        side_groups(hex_text(gs), true) == Some(gs),
        side_groups(hex_text(gs), false) == Some(gs),
        !hex_text(gs).contains('/'),
{
    let f = |g: u16| numeral(g as int, 16);
    let parts = gs.map_values(f);
    assert forall|i: int| 0 <= i < parts.len() implies (#[trigger] parts[i]).len() > 0
        && !parts[i].contains(':') && !parts[i].contains('/') by {
        lemma_hex_group_round_trip(gs[i]);
    }
    lemma_joined_no_gap(parts);
    lemma_hex_groups_round_trip(gs);
    lemma_joined_excludes(parts, ':', '/');
    if gs.len() == 0 {
        assert(gs =~= Seq::<u16>::empty());
    } else {
        lemma_split_of_prefix(parts, ':');
        lemma_hex_group_round_trip(gs.last());
        assert(parts.last() == numeral(gs.last() as int, 16));
        lemma_split_single(parts.last(), '.');
        assert(ipv4_of(parts.last()) is None);
    }
}

/// Joined parts hold no character that neither the parts nor the separator are.
proof fn lemma_joined_excludes(parts: Seq<Seq<char>>, sep: char, c: char)
    requires
        sep != c,
        forall|i: int| 0 <= i < parts.len() ==> !(#[trigger] parts[i]).contains(c),
    ensures
        !prefix_each(parts, sep).contains(c),
        !joined(parts, sep).contains(c),
    decreases parts.len(),
{
    if parts.len() > 0 {
        let init = parts.drop_last();
        assert forall|i: int| 0 <= i < init.len() implies !(#[trigger] init[i]).contains(c) by {
            assert(init[i] == parts[i]);
        }
        lemma_joined_excludes(init, sep, c);
        let all = prefix_each(parts, sep);
        let before = prefix_each(init, sep);
        let last = parts[parts.len() - 1];
        assert forall|i: int| 0 <= i < all.len() implies all[i] != c by {
            if i < before.len() {
                assert(before.contains(before[i]));
            } else if i > before.len() {
                assert(last.contains(last[i - before.len() - 1]));
            }
        }
        lemma_prefix_starts(parts, sep);
    }
}

/// A double colon behind a text that holds none, and does not end in a colon, is the first one.
proof fn lemma_gap_after(head: Seq<char>, tail: Seq<char>)
    requires
        first_gap(head) is None,
        head.len() > 0 ==> head.last() != ':',
    ensures
        first_gap(head + seq![':', ':'] + tail) == Some(head.len() as int),
{
    let one = head.push(':');
    let two = one.push(':');
    assert(one.drop_last() =~= head);
    assert(two.drop_last() =~= one);
    assert(first_gap(one) is None);
    assert(first_gap(two) == Some(head.len() as int));
    let whole = head + seq![':', ':'] + tail;
    assert(whole.take(two.len() as int) =~= two);
    lemma_gap_sticks(whole, two.len() as int);
}

/// `ffff` is the segment of all ones.
proof fn lemma_ffff()
    ensures
        hex_group(seq!['f', 'f', 'f', 'f']) == Some(0xffffint),
        !seq!['f', 'f', 'f', 'f'].contains(':'),
{
    let s4 = seq!['f', 'f', 'f', 'f'];
    let s3 = seq!['f', 'f', 'f'];
    let s2 = seq!['f', 'f'];
    let s1 = seq!['f'];
    assert(s4.drop_last() =~= s3);
    assert(s3.drop_last() =~= s2);
    assert(s2.drop_last() =~= s1);
    assert(s1.drop_last() =~= seq![]);
    assert(digits_value(s1.drop_last(), 16) == Some(0int));
    assert(digits_value(s1, 16) == Some(15int));
    assert(digits_value(s2, 16) == Some(255int));
    assert(digits_value(s3, 16) == Some(4095int));
}

/// The side behind the double colon of a mapped address.
proof fn lemma_mapped_tail(ip: Ipv4Addr)
    ensures
        side_groups(seq!['f', 'f', 'f', 'f'] + seq![':'] + ipv4_text(ip), true) == Some(
            seq![0xffffu16] + ipv4_segments(ip),
        ),
{
    let v4 = ipv4_text(ip);
    let ffff = seq!['f', 'f', 'f', 'f'];
    let tail = ffff + seq![':'] + v4;
    law_ipv4_round_trip(ip);
    lemma_ipv4_text_excludes(ip);
    lemma_ffff();
    lemma_split_single(ffff, ':');
    lemma_split_append(ffff, v4, ':');
    let parts = split_on(tail, ':');
    assert(parts.last() == v4);
    assert(parts.drop_last() =~= seq![ffff]);
    assert(seq![ffff].drop_last() =~= Seq::<Seq<char>>::empty());
    assert(hex_groups(seq![ffff].drop_last()) == Some(Seq::<u16>::empty()));
    assert(Seq::<u16>::empty().push(0xffffu16) =~= seq![0xffffu16]);
}

proof fn lemma_mapped_round_trip(gs: Seq<u16>)
    requires
        gs.len() == 8,
        is_mapped(gs),
    ensures
        ipv6_of(ipv6_text(gs)) == Some(gs),
        !ipv6_text(gs).contains('/'),
{
    let text = ipv6_text(gs);
    reveal_strlit("::ffff:");
    let ip = mapped_ipv4(gs);
    let v4 = ipv4_text(ip);
    let tail = seq!['f', 'f', 'f', 'f'] + seq![':'] + v4;
    assert(text =~= Seq::<char>::empty() + seq![':', ':'] + tail);
    lemma_gap_after(Seq::empty(), tail);
    assert(text.take(0) =~= Seq::<char>::empty());
    assert(text.skip(2) =~= tail);
    lemma_mapped_tail(ip);
    let head_groups = Seq::<u16>::empty();
    let tail_groups = seq![0xffffu16] + ipv4_segments(ip);
    assert(side_groups(text.take(0), false) == Some(head_groups));
    assert(head_groups + zeros(5) + tail_groups =~= gs);
    lemma_ipv4_text_excludes(ip);
    assert forall|i: int| 0 <= i < text.len() implies text[i] != '/' by {
        if i >= 7 {
            assert(v4.contains(v4[i - 7]));
        }
    }
}

/// A text around a double colon is read by its two sides.
proof fn lemma_read_gapped(
    head_text: Seq<char>,
    tail_text: Seq<char>,
    head: Seq<u16>,
    tail: Seq<u16>,
)
    requires
        first_gap(head_text) is None,
        head_text.len() > 0 ==> head_text.last() != ':',
        side_groups(head_text, false) == Some(head),
        side_groups(tail_text, true) == Some(tail),
        head.len() + tail.len() <= 7,
    ensures
        ipv6_of(head_text + seq![':', ':'] + tail_text) == Some(
            head + zeros(8 - head.len() - tail.len()) + tail,
        ),
{
    let text = head_text + seq![':', ':'] + tail_text;
    let k = head_text.len() as int;
    lemma_gap_after(head_text, tail_text);
    assert(text.take(k) =~= head_text);
    assert(text.skip(k + 2) =~= tail_text);
}

/// Neither a double colon nor texts without a slash bring one in.
proof fn lemma_gapped_without_slash(head_text: Seq<char>, tail_text: Seq<char>)
    requires
        !head_text.contains('/'),
        !tail_text.contains('/'),
    ensures
        !(head_text + seq![':', ':'] + tail_text).contains('/'),
{
    let text = head_text + seq![':', ':'] + tail_text;
    let k = head_text.len() as int;
    assert forall|i: int| 0 <= i < text.len() implies text[i] != '/' by {
        if i < k {
            assert(head_text.contains(head_text[i]));
        } else if i >= k + 2 {
            assert(tail_text.contains(tail_text[i - k - 2]));
        }
    }
}

#[verifier::spinoff_prover]
proof fn lemma_gapped_round_trip(gs: Seq<u16>)
    requires
        gs.len() == 8,
        !is_mapped(gs),
        longest_run(gs, 8).1 > 1,
    ensures
        ipv6_of(ipv6_text(gs)) == Some(gs),
        !ipv6_text(gs).contains('/'),
{
    let run = longest_run(gs, 8);
    lemma_runs(gs, 8);
    reveal_strlit("::");
    let head = gs.take(run.0);
    let tail = gs.skip(run.0 + run.1);
    lemma_hex_text(head);
    lemma_hex_text(tail);
    assert("::"@ =~= seq![':', ':']);
    assert(ipv6_text(gs) == hex_text(head) + seq![':', ':'] + hex_text(tail));
    lemma_read_gapped(hex_text(head), hex_text(tail), head, tail);
    lemma_gapped_without_slash(hex_text(head), hex_text(tail));
    assert(head + zeros(run.1) + tail =~= gs);
}

/// Reading the notation of an IPv6 address gives the address, and the notation holds no slash.
pub proof fn law_ipv6_round_trip(gs: Seq<u16>)
    requires
        gs.len() == 8,
    ensures
        ipv6_of(ipv6_text(gs)) == Some(gs),
        !ipv6_text(gs).contains('/'),
{
    if is_mapped(gs) {
        lemma_mapped_round_trip(gs);
    } else if longest_run(gs, 8).1 > 1 {
        lemma_gapped_round_trip(gs);
    } else {
        lemma_hex_text(gs);
    }
}

/// The notation of an IPv4 address holds neither a colon nor a slash.
pub proof fn lemma_ipv4_text_excludes(ip: Ipv4Addr)
    ensures
        !ipv4_text(ip).contains(':'),
        !ipv4_text(ip).contains('/'),
{
    let parts = seq![
        numeral(ip.a as int, 10),
        numeral(ip.b as int, 10),
        numeral(ip.c as int, 10),
        numeral(ip.d as int, 10),
    ];
    lemma_octet_round_trip(ip.a);
    lemma_octet_round_trip(ip.b);
    lemma_octet_round_trip(ip.c);
    lemma_octet_round_trip(ip.d);
    lemma_joined_excludes(parts, '.', ':');
    lemma_joined_excludes(parts, '.', '/');
}

/// An address of either family.
#[derive(Debug, Clone, Copy, PartialEq, Eq, Hash)]
pub enum IpAddr {
    V4(Ipv4Addr),
    V6(Ipv6Addr),
}

/// The notation of an address of either family.
pub open spec fn ip_text(ip: IpAddr) -> Seq<char> {
    match ip {
        IpAddr::V4(v) => ipv4_text(v),
        IpAddr::V6(v) => ipv6_text(v.segments@),
    }
}

impl IpAddr {
    /// Whether this is a loopback address of its family.
    pub open spec fn spec_is_loopback(self) -> bool {
        match self {
            IpAddr::V4(v) => v.a == 127,
            IpAddr::V6(v) => v.segments@ == seq![0u16, 0, 0, 0, 0, 0, 0, 1],
        }
    }

    /// Whether this is the address of its family that stands for every interface.
    pub open spec fn spec_is_unspecified(self) -> bool {
        match self {
            IpAddr::V4(v) => v == (Ipv4Addr { a: 0, b: 0, c: 0, d: 0 }),
            IpAddr::V6(v) => v.segments@ == zeros(8),
        }
    }

    /// Whether this is a loopback address of its family.
    pub fn is_loopback(&self) -> (r: bool)
        ensures
            r == self.spec_is_loopback(),
    {
        match self {
            IpAddr::V4(v) => v.is_loopback(),
            IpAddr::V6(v) => v.is_loopback(),
        }
    }

    /// Whether this is the address of its family that stands for every interface.
    pub fn is_unspecified(&self) -> (r: bool)
        ensures
            r == self.spec_is_unspecified(),
    {
        match self {
            IpAddr::V4(v) => v.is_unspecified(),
            IpAddr::V6(v) => v.is_unspecified(),
        }
    }

    /// The notation of the address.
    pub fn to_text(&self) -> (r: String)
        ensures
            r@ == ip_text(*self),
    {
        match self {
            IpAddr::V4(v) => v.to_text(),
            IpAddr::V6(v) => v.to_text(),
        }
    }
}

/// The addresses of this host are those that start with 127 and `::1`, and the addresses that stand
/// for every interface are 0.0.0.0 and `::`; none is both.
pub proof fn law_special_addresses(ip: IpAddr)
    ensures
        ip.spec_is_loopback() <==> match ip {
            IpAddr::V4(v) => v.a == 127,
            IpAddr::V6(v) => (forall|i: int| 0 <= i < 7 ==> #[trigger] v.segments@[i] == 0)
                && v.segments@[7] == 1,
        },
        ip.spec_is_unspecified() <==> match ip {
            IpAddr::V4(v) => v.a == 0 && v.b == 0 && v.c == 0 && v.d == 0,
            IpAddr::V6(v) => forall|i: int| 0 <= i < 8 ==> #[trigger] v.segments@[i] == 0,
        },
        !(ip.spec_is_loopback() && ip.spec_is_unspecified()),
{
    if let IpAddr::V6(v) = ip {
        let one = seq![0u16, 0, 0, 0, 0, 0, 0, 1];
        assert(v.segments@ == one <==> v.segments@ =~= one);
        assert(v.segments@ == zeros(8) <==> v.segments@ =~= zeros(8));
        assert(one[0] == 0 && one[1] == 0 && one[2] == 0 && one[3] == 0 && one[4] == 0 && one[5] == 0
            && one[6] == 0 && one[7] == 1);
        if v.segments@ == one {
            assert(v.segments@[7] == 1);
        }
    }
}

/// The address of one end of a connection.
#[derive(Debug, Clone, Copy, PartialEq, Eq, Hash)]
pub enum SocketAddr {
    V4 { ip: Ipv4Addr, port: u16 },
    V6 { ip: Ipv6Addr, port: u16, flowinfo: u32, scope_id: u32 },
}

/// The notation of a socket address.
pub open spec fn socket_text(addr: SocketAddr) -> Seq<char> {
    match addr {
        SocketAddr::V4 { ip, port } => ipv4_text(ip) + seq![':'] + numeral(port as int, 10),
        SocketAddr::V6 { ip, port, flowinfo, scope_id } => {
            let zone = if scope_id == 0 {
                Seq::empty()
            } else {
                seq!['%'] + numeral(scope_id as int, 10)
            };
            seq!['['] + ipv6_text(ip.segments@) + zone + seq![']', ':'] + numeral(port as int, 10)
        },
    }
}

/// The notation of a socket address holds the address and then the port: the part in front of the
/// last colon reads as the one, and the part behind it as the other. An IPv6 address stands between
/// brackets, with its scope behind a percent sign where it has one.
pub proof fn law_socket_text_holds_both(addr: SocketAddr)
    ensures
        ({
            let text = socket_text(addr);
            match addr {
                SocketAddr::V4 { ip, port } => exists|k: int|
                    {
                        &&& 0 <= k < text.len()
                        &&& #[trigger] text[k] == ':'
                        &&& ipv4_of(text.take(k)) == Some(ip)
                        &&& port_of(text.skip(k + 1)) == Ok::<int, PortParseError>(port as int)
                    },
                SocketAddr::V6 { ip, port, flowinfo: _, scope_id } => exists|z: int, k: int|
                    {
                        &&& 1 <= z <= k < text.len() - 1
                        &&& text[0] == '['
                        &&& #[trigger] text[z] == if scope_id == 0 {
                            ']'
                        } else {
                            '%'
                        }
                        &&& #[trigger] text[k] == ']'
                        &&& text[k + 1] == ':'
                        &&& ipv6_of(text.subrange(1, z)) == Some(ip.segments@)
                        &&& scope_id == 0 ==> z == k
                        &&& scope_id != 0 ==> z < k && digits_value(text.subrange(z + 1, k), 10)
                            == Some(scope_id as int)
                        &&& port_of(text.skip(k + 2)) == Ok::<int, PortParseError>(port as int)
                    },
            }
        }),
{
    let text = socket_text(addr);
    match addr {
        SocketAddr::V4 { ip, port } => {
            law_ipv4_round_trip(ip);
            law_port_round_trip(port);
            let k = ipv4_text(ip).len() as int;
            assert(text.take(k) =~= ipv4_text(ip));
            assert(text.skip(k + 1) =~= numeral(port as int, 10));
            assert(text[k] == ':');
        },
        SocketAddr::V6 { ip, port, flowinfo, scope_id } => {
            law_ipv6_round_trip(ip.segments@);
            law_port_round_trip(port);
            lemma_numeral_value(scope_id as int, 10);
            let inner = ipv6_text(ip.segments@);
            let number = numeral(scope_id as int, 10);
            let z = inner.len() as int + 1;
            let k = if scope_id == 0 {
                z
            } else {
                z + 1 + number.len()
            };
            assert(text.subrange(1, z) =~= inner);
            if scope_id != 0 {
                assert(text.subrange(z + 1, k) =~= number);
                assert(text[z] == '%');
            }
            assert(text.skip(k + 2) =~= numeral(port as int, 10));
            assert(text[k] == ']' && text[k + 1] == ':');
            assert(text[z] == if scope_id == 0 {
                ']'
            } else {
                '%'
            });
        },
    }
}

impl SocketAddr {
    /// The port of the address.
    pub open spec fn spec_port(self) -> u16 {
        match self {
            SocketAddr::V4 { ip, port } => port,
            SocketAddr::V6 { ip, port, flowinfo, scope_id } => port,
        }
    }

    /// The address without its port.
    pub open spec fn spec_ip(self) -> IpAddr {
        match self {
            SocketAddr::V4 { ip, port } => IpAddr::V4(ip),
            SocketAddr::V6 { ip, port, flowinfo, scope_id } => IpAddr::V6(ip),
        }
    }

    /// The socket address of `ip` at `port`.
    pub fn new(ip: IpAddr, port: u16) -> (r: SocketAddr)
        ensures
            r == match ip {
                IpAddr::V4(ip) => (SocketAddr::V4 { ip, port }),
                IpAddr::V6(ip) => (SocketAddr::V6 { ip, port, flowinfo: 0, scope_id: 0 }),
            },
    {
        match ip {
            IpAddr::V4(ip) => SocketAddr::V4 { ip, port },
            IpAddr::V6(ip) => SocketAddr::V6 { ip, port, flowinfo: 0, scope_id: 0 },
        }
    }

    /// The address without its port.
    pub fn ip(&self) -> (r: IpAddr)
        ensures
            r == self.spec_ip(),
    {
        match self {
            SocketAddr::V4 { ip, .. } => IpAddr::V4(*ip),
            SocketAddr::V6 { ip, .. } => IpAddr::V6(*ip),
        }
    }

    /// The port of the address.
    pub fn port(&self) -> (r: u16)
        ensures
            r == self.spec_port(),
    {
        match self {
            SocketAddr::V4 { port, .. } => *port,
            SocketAddr::V6 { port, .. } => *port,
        }
    }

    /// Whether this is an IPv4 address.
    pub fn is_ipv4(&self) -> (r: bool)
        ensures
            r == (self is V4),
    {
        match self {
            SocketAddr::V4 { .. } => true,
            SocketAddr::V6 { .. } => false,
        }
    }

    /// Whether this is an IPv6 address.
    pub fn is_ipv6(&self) -> (r: bool)
        ensures
            r == (self is V6),
    {
        match self {
            SocketAddr::V4 { .. } => false,
            SocketAddr::V6 { .. } => true,
        }
    }

    /// The notation of the socket address.
    pub fn to_text(&self) -> (r: String)
        ensures
            r@ == socket_text(*self),
    {
        let mut out = String::new();
        match self {
            SocketAddr::V4 { ip, port } => {
                out.append(ip.to_text().as_str());
                out.push(':');
                push_numeral(&mut out, *port as u64, 10);
                assert(out@ =~= socket_text(*self));
            },
            SocketAddr::V6 { ip, port, flowinfo: _, scope_id } => {
                out.push('[');
                out.append(ip.to_text().as_str());
                if *scope_id != 0 {
                    out.push('%');
                    push_numeral(&mut out, *scope_id as u64, 10);
                }
                out.push(']');
                out.push(':');
                push_numeral(&mut out, *port as u64, 10);
                assert(out@ =~= socket_text(*self));
            },
        }
        out
    }
}

} // verus!
