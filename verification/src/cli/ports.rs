//! The ports that a server may bind for its clients.

use vstd::prelude::*;

use crate::numeral::{
    digit_value, law_port_round_trip, lemma_numeral_value, numeral, parse_port, port_of,
    PortParseError,
};
use crate::text::{
    lemma_prefix_of_split, lemma_split_append, lemma_split_pieces, lemma_split_single, prefix_each,
    split_from, split_on, texts,
};

verus! {

/// Hands out the ports of a range, each to one holder at a time.
#[derive(Debug)]
pub struct PortRangeAllocator {
    first: u16,
    last: u16,
    taken: Vec<u16>,
}

impl PortRangeAllocator {
    /// The ports that can be handed out.
    pub closed spec fn in_range(&self, port: u16) -> bool {
        self.first <= port <= self.last
    }

    /// The ports that are handed out.
    pub closed spec fn taken(&self) -> Set<u16> {
        self.taken@.to_set()
    }

    /// No port is noted twice.
    pub closed spec fn well_formed(&self) -> bool {
        self.taken@.no_duplicates()
    }

    /// An allocator for the ports from `first` to `last`.
    pub fn new(first: u16, last: u16) -> (r: Self)
        ensures
            r.well_formed(),
            forall|port: u16| r.in_range(port) <==> first <= port <= last,
            r.taken() == Set::<u16>::empty(),
    {
        let r = PortRangeAllocator { first, last, taken: Vec::new() };
        assert(r.taken() =~= Set::<u16>::empty());
        r
    }

    /// Whether a port is handed out.
    fn is_taken(&self, port: u16) -> (r: bool)
        ensures
            r == self.taken().contains(port),
    {
        let mut i: usize = 0;
        while i < self.taken.len()
            invariant
                i <= self.taken.len(),
                forall|j: int| 0 <= j < i ==> self.taken@[j] != port,
            decreases self.taken.len() - i,
        {
            if self.taken[i] == port {
                assert(self.taken@.contains(port));
                return true;
            }
            i += 1;
        }
        false
    }

    /// Hands out the lowest port that is free.
    pub fn allocate(&mut self) -> (r: Option<u16>)
        requires
            old(self).well_formed(),
        ensures
            final(self).well_formed(),
            forall|port: u16| final(self).in_range(port) == old(self).in_range(port),
            match r {
                Some(port) => {
                    &&& old(self).in_range(port)
                    &&& !old(self).taken().contains(port)
                    &&& forall|lower: u16|
                        old(self).in_range(lower) && lower < port ==> #[trigger] old(
                            self,
                        ).taken().contains(lower)
                    &&& final(self).taken() == old(self).taken().insert(port)
                },
                None => {
                    &&& forall|port: u16|
                        old(self).in_range(port) ==> #[trigger] old(self).taken().contains(port)
                    &&& final(self).taken() == old(self).taken()
                },
            },
    {
        if self.first > self.last {
            return None;
        }
        let mut port = self.first;
        loop
            invariant
                *self == *old(self),
                self.well_formed(),
                self.first <= port <= self.last,
                forall|lower: u16|
                    self.first <= lower < port ==> #[trigger] self.taken().contains(lower),
            decreases self.last - port,
        {
            if !self.is_taken(port) {
                self.taken.push(port);
                proof {
                    let before = old(self).taken@;
                    assert(self.taken@ == before.push(port));
                    assert(self.taken() =~= old(self).taken().insert(port)) by {
                        assert forall|p: u16| self.taken().contains(p) <==> old(
                            self,
                        ).taken().insert(port).contains(p) by {
                            if before.contains(p) {
                                let k = before.index_of(p);
                                assert(self.taken@[k] == p);
                            }
                            assert(self.taken@[before.len() as int] == port);
                        }
                    }
                    assert forall|i: int, j: int|
                        0 <= i < self.taken@.len() && 0 <= j < self.taken@.len() && i
                            != j implies self.taken@[i] != self.taken@[j] by {
                        assert(!before.contains(port));
                    }
                }
                return Some(port);
            }
            if port == self.last {
                return None;
            }
            port += 1;
        }
    }

    /// Takes a port back.
    pub fn release(&mut self, port: u16)
        requires
            old(self).well_formed(),
        ensures
            final(self).well_formed(),
            forall|p: u16| final(self).in_range(p) == old(self).in_range(p),
            final(self).taken() == old(self).taken().remove(port),
    {
        let ghost before = self.taken@;
        let mut i: usize = 0;
        while i < self.taken.len()
            invariant
                i <= self.taken.len(),
                *self == *old(self),
                self.taken@ == before,
                before.no_duplicates(),
                forall|j: int| 0 <= j < i ==> before[j] != port,
            decreases self.taken.len() - i,
        {
            if self.taken[i] == port {
                self.taken.remove(i);
                proof {
                    let after = self.taken@;
                    assert(after == before.remove(i as int));
                    assert forall|p: u16| after.contains(p) <==> before.contains(p) && p != port by {
                        if after.contains(p) {
                            let k = after.index_of(p);
                            let m = if k < i {
                                k
                            } else {
                                k + 1
                            };
                            assert(before[m] == p);
                        }
                        if before.contains(p) && p != port {
                            let m = before.index_of(p);
                            let k = if m < i {
                                m
                            } else {
                                m - 1
                            };
                            assert(after[k] == p);
                        }
                    }
                    assert(self.taken() =~= old(self).taken().remove(port));
                }
                return ;
            }
            i += 1;
        }
        assert(self.taken() =~= old(self).taken().remove(port));
    }
}

/// Why a text is not a range of ports.
#[derive(Debug, Clone, Copy, PartialEq, Eq)]
pub enum PortRangeError {
    /// It is not two parts with a colon between them.
    Form,
    /// One of the parts is not a port.
    Port(PortParseError),
}

/// The range of ports that a text names.
pub open spec fn port_range_of(s: Seq<char>) -> Result<(int, int), PortRangeError> {
    let parts = split_on(s, ':');
    if parts.len() != 2 {
        Err(PortRangeError::Form)
    } else {
        match (port_of(parts[0]), port_of(parts[1])) {
            (Ok(first), Ok(last)) => Ok((first, last)),
            (Err(e), _) => Err(PortRangeError::Port(e)),
            (_, Err(e)) => Err(PortRangeError::Port(e)),
        }
    }
}

/// Reads a range of ports: the first and the last, with a colon between them.
pub fn parse_port_range(s: &str) -> (r: Result<(u16, u16), PortRangeError>)
    ensures
        match (r, port_range_of(s@)) {
            (Ok((first, last)), Ok((a, b))) => first == a && last == b,
            (Err(e), Err(f)) => e == f,
            _ => false,
        },
{
    let parts = split_from(s, 0, ':');
    proof {
        assert(s@.skip(0) =~= s@);
        assert(texts(parts@).len() == parts@.len());
    }
    if parts.len() != 2 {
        return Err(PortRangeError::Form);
    }
    assert(split_on(s@, ':')[0] == parts@[0]@ && split_on(s@, ':')[1] == parts@[1]@);
    match parse_port(parts[0]) {
        Err(e) => Err(PortRangeError::Port(e)),
        Ok(first) => match parse_port(parts[1]) {
            Err(e) => Err(PortRangeError::Port(e)),
            Ok(last) => Ok((first, last)),
        },
    }
}

/// A text around one colon is a range exactly when both of its parts are ports, and then of these;
/// and where one of them is none, the first such is the reason.
pub proof fn law_port_range_of_two_parts(first: Seq<char>, last: Seq<char>)
    requires
        !first.contains(':'),
        !last.contains(':'),
    ensures
        match port_range_of(first + seq![':'] + last) {
            Ok((a, b)) => port_of(first) == Ok::<int, PortParseError>(a) && port_of(last) == Ok::<
                int,
                PortParseError,
            >(b),
            Err(PortRangeError::Port(e)) => port_of(first) == Err::<int, PortParseError>(e) || (
            port_of(first) is Ok && port_of(last) == Err::<int, PortParseError>(e)),
            Err(PortRangeError::Form) => false,
        },
{
    lemma_split_single(first, ':');
    lemma_split_append(first, last, ':');
}

/// Only a text around one colon is a range; one with none or with more has not the form of one.
pub proof fn law_port_range_has_one_colon(s: Seq<char>)
    ensures
        port_range_of(s) == Err::<(int, int), PortRangeError>(PortRangeError::Form) <==> !exists|
            k: int,
        |
            0 <= k < s.len() && #[trigger] s[k] == ':' && !s.take(k).contains(':') && !s.skip(
                k + 1,
            ).contains(':'),
{
    let parts = split_on(s, ':');
    if exists|k: int|
        0 <= k < s.len() && #[trigger] s[k] == ':' && !s.take(k).contains(':') && !s.skip(
            k + 1,
        ).contains(':') {
        let k = choose|k: int|
            0 <= k < s.len() && #[trigger] s[k] == ':' && !s.take(k).contains(':') && !s.skip(
                k + 1,
            ).contains(':');
        assert(s =~= s.take(k) + seq![':'] + s.skip(k + 1));
        law_port_range_of_two_parts(s.take(k), s.skip(k + 1));
    } else if parts.len() == 2 {
        lemma_prefix_of_split(s, ':');
        lemma_split_pieces(s, ':');
        assert(parts =~= seq![parts[0], parts[1]]);
        let one = seq![parts[0]];
        assert(parts.drop_last() =~= one);
        assert(one.drop_last() =~= Seq::<Seq<char>>::empty());
        assert(prefix_each(one.drop_last(), ':') =~= Seq::<char>::empty());
        assert(prefix_each(one, ':') =~= seq![':'] + parts[0]);
        assert(seq![':'] + s =~= seq![':'] + parts[0] + seq![':'] + parts[1]);
        let k = parts[0].len() as int;
        assert((seq![':'] + s).drop_first() =~= s);
        assert(s =~= parts[0] + seq![':'] + parts[1]);
        assert(s.take(k) =~= parts[0]);
        assert(s.skip(k + 1) =~= parts[1]);
        assert(s[k] == ':');
    }
}

/// Reading two ports with a colon between them gives the two ports.
pub proof fn law_port_range_round_trip(first: u16, last: u16)
    ensures
        port_range_of(numeral(first as int, 10) + seq![':'] + numeral(last as int, 10)) == Ok::<
            (int, int),
            PortRangeError,
        >((first as int, last as int)),
{
    law_port_round_trip(first);
    law_port_round_trip(last);
    lemma_numeral_value(first as int, 10);
    lemma_numeral_value(last as int, 10);
    let a = numeral(first as int, 10);
    let b = numeral(last as int, 10);
    if a.contains(':') {
        let k = a.index_of(':');
        assert(digit_value(a[k], 10) is Some);
    }
    if b.contains(':') {
        let k = b.index_of(':');
        assert(digit_value(b[k], 10) is Some);
    }
    law_port_range_of_two_parts(a, b);
}

} // verus!
