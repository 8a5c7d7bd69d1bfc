//! Route addresses: lists of segments, each written behind a slash.

use vstd::prelude::*;
use vstd::string::{StrSliceExecFns, StringExecFns};
use vstd::utf8::encode_utf8;

use crate::text::{
    lemma_prefix_each_concat, lemma_prefix_of_split, lemma_split_of_prefix, lemma_split_pieces,
    prefix_each, same_text, split_from, split_on, texts,
};

verus! {

/// Whether a text can be a route address: it has no segments, or it starts with a slash.
pub open spec fn is_route(text: Seq<char>) -> bool {
    text.len() == 0 || text[0] == '/'
}

/// The segments of a route address: none of the empty address, else the pieces between the slashes
/// behind the leading one.
pub open spec fn route_segments(text: Seq<char>) -> Seq<Seq<char>> {
    if text.len() == 0 {
        Seq::empty()
    } else {
        split_on(text.drop_first(), '/')
    }
}

/// The address made of some segments.
pub open spec fn route_of(segments: Seq<Seq<char>>) -> Seq<char> {
    prefix_each(segments, '/')
}

/// What is left of `segments` behind `prefix`, if they start with it.
pub open spec fn strip_segments(
    segments: Seq<Seq<char>>,
    prefix: Seq<Seq<char>>,
) -> Option<Seq<Seq<char>>> {
    if prefix.len() <= segments.len() && segments.take(prefix.len() as int) == prefix {
        Some(segments.skip(prefix.len() as int))
    } else {
        None
    }
}

/// An address by which a service is found on the far side of a tunnel.
///
/// Slashes inside a segment are not escaped: a segment that is to hold one has to encode it.
#[derive(Debug, PartialEq, Eq, PartialOrd, Hash)]
pub struct RouteAddress {
    text: String,
}

/// Why a text is not a route address.
#[derive(Debug, Clone, Copy, PartialEq, Eq)]
pub enum RouteAddressParseError {
    /// The text has segments and does not start with a slash.
    InvalidPrefix,
    /// The text holds an escape sequence that is not known.
    InvalidEscapeSequence,
}

impl View for RouteAddress {
    type V = Seq<char>;

    closed spec fn view(&self) -> Seq<char> {
        self.text@
    }
}

impl Clone for RouteAddress {
    fn clone(&self) -> (r: RouteAddress)
        ensures
            r@ == self@,
            r == *self,
    {
        proof {
            use_type_invariant(self);
        }
        RouteAddress { text: self.text.clone() }
    }
}

impl RouteAddress {
    #[verifier::type_invariant]
    spec fn well_formed(self) -> bool {
        is_route(self.text@)
    }

    /// Reads an address. The empty text is the address without segments.
    pub fn parse(s: &str) -> (r: Result<RouteAddress, RouteAddressParseError>)
        ensures
            match r {
                Ok(addr) => is_route(s@) && addr@ == s@,
                Err(e) => !is_route(s@) && e == RouteAddressParseError::InvalidPrefix,
            },
    {
        if s.is_empty() {
            return Ok(RouteAddress { text: String::new() });
        }
        if s.get_char(0) != '/' {
            return Err(RouteAddressParseError::InvalidPrefix);
        }
        let segments = split_from(s, 1, '/');
        proof {
            assert(s@.skip(1) =~= s@.drop_first());
            lemma_prefix_of_split(s@.drop_first(), '/');
            assert(seq!['/'] + s@.drop_first() =~= s@);
        }
        Ok(RouteAddress::from_segments(&segments))
    }

    /// The address made of some segments.
    pub fn from_segments(segments: &Vec<&str>) -> (r: RouteAddress)
        ensures
            r@ == route_of(texts(segments@)),
    {
        let empty = RouteAddress { text: String::new() };
        let r = empty.into_suffixed(segments);
        assert(Seq::<char>::empty() + route_of(texts(segments@)) =~= route_of(texts(segments@)));
        r
    }

    /// The address with more segments behind its own.
    pub fn into_suffixed(self, segments: &Vec<&str>) -> (r: RouteAddress)
        ensures
            r@ == self@ + route_of(texts(segments@)),
    {
        proof {
            use_type_invariant(&self);
        }
        let ghost start = self@;
        let ghost parts = texts(segments@);
        let mut buffer = self.text;
        let mut i: usize = 0;
        assert(parts.take(0) =~= Seq::<Seq<char>>::empty());
        assert(start + Seq::<char>::empty() =~= start);
        while i < segments.len()
            invariant
                i <= segments.len(),
                parts == texts(segments@),
                buffer@ == start + route_of(parts.take(i as int)),
                is_route(start),
                is_route(buffer@),
            decreases segments.len() - i,
        {
            let ghost before = buffer@;
            buffer.push('/');
            buffer.append(segments[i]);
            proof {
                assert(parts.take(i + 1).drop_last() =~= parts.take(i as int));
                assert(parts.take(i + 1).last() == segments@[i as int]@);
                assert(buffer@ =~= start + route_of(parts.take(i + 1)));
                assert(before.len() > 0 ==> buffer@[0] == before[0]);
            }
            i += 1;
        }
        assert(parts.take(parts.len() as int) =~= parts);
        RouteAddress { text: buffer }
    }

    /// The segments of the address, in order.
    pub fn iter_segments(&self) -> (r: Vec<&str>)
        ensures
            texts(r@) == route_segments(self@),
    {
        let s = self.text.as_str();
        if s.is_empty() {
            let none: Vec<&str> = Vec::new();
            assert(texts(none@) =~= Seq::<Seq<char>>::empty());
            return none;
        }
        assert(s@.skip(1) =~= s@.drop_first());
        split_from(s, 1, '/')
    }

    /// The segments behind `expected_segments`, if the address starts with those.
    pub fn strip_segment_prefix(&self, expected_segments: &Vec<&str>) -> (r: Option<Vec<&str>>)
        ensures
            match (r, strip_segments(route_segments(self@), texts(expected_segments@))) {
                (Some(rest), Some(v)) => texts(rest@) == v,
                (None, None) => true,
                _ => false,
            },
    {
        let actual = self.iter_segments();
        let ghost segments = route_segments(self@);
        let ghost prefix = texts(expected_segments@);
        let mut i: usize = 0;
        while i < expected_segments.len()
            invariant
                i <= expected_segments.len(),
                i <= actual.len(),
                texts(actual@) == segments,
                prefix == texts(expected_segments@),
                segments == route_segments(self@),
                forall|j: int| 0 <= j < i ==> segments[j] == #[trigger] prefix[j],
            decreases expected_segments.len() - i,
        {
            if i >= actual.len() {
                assert(prefix.len() > segments.len());
                return None;
            }
            assert(segments[i as int] == actual@[i as int]@);
            assert(prefix[i as int] == expected_segments@[i as int]@);
            if !same_text(actual[i], expected_segments[i]) {
                assert(prefix.len() <= segments.len() ==> segments.take(
                    prefix.len() as int,
                )[i as int] != prefix[i as int]);
                return None;
            }
            i += 1;
        }
        assert(segments.take(prefix.len() as int) =~= prefix);
        let mut rest: Vec<&str> = Vec::new();
        let mut k: usize = i;
        while k < actual.len()
            invariant
                i <= k <= actual.len(),
                texts(rest@) == texts(actual@).subrange(i as int, k as int),
            decreases actual.len() - k,
        {
            proof {
                assert(texts(rest@.push(actual@[k as int])) =~= texts(rest@).push(
                    actual@[k as int]@,
                ));
                assert(texts(actual@).subrange(i as int, k + 1) =~= texts(actual@).subrange(
                    i as int,
                    k as int,
                ).push(texts(actual@)[k as int]));
            }
            rest.push(actual[k]);
            k += 1;
        }
        assert(texts(actual@).subrange(i as int, actual.len() as int) =~= segments.skip(
            prefix.len() as int,
        ));
        Some(rest)
    }

    /// The bytes of the address as it is sent to a peer: its text in UTF-8.
    pub fn into_bytes(self) -> (r: Vec<u8>)
        ensures
            r@ == encode_utf8(self@),
    {
        self.text.as_str().as_bytes_vec()
    }

    /// The text of the address.
    pub fn to_text(&self) -> (r: String)
        ensures
            r@ == self@,
            is_route(r@),
    {
        proof {
            use_type_invariant(self);
        }
        self.text.clone()
    }

    /// The text of the address.
    pub fn as_str(&self) -> (r: &str)
        ensures
            r@ == self@,
            is_route(r@),
    {
        proof {
            use_type_invariant(self);
        }
        self.text.as_str()
    }
}

/// Every text that can be an address is the address of its segments.
pub proof fn law_route_of_segments(text: Seq<char>)
    requires
        is_route(text),
    ensures
        route_of(route_segments(text)) == text,
{
    if text.len() == 0 {
        assert(text =~= Seq::<char>::empty());
    } else {
        lemma_prefix_of_split(text.drop_first(), '/');
        assert(seq!['/'] + text.drop_first() =~= text);
    }
}

/// An address made of segments without slashes has exactly those segments.
pub proof fn law_segments_of_route(segments: Seq<Seq<char>>)
    requires
        forall|i: int| 0 <= i < segments.len() ==> !(#[trigger] segments[i]).contains('/'),
    ensures
        is_route(route_of(segments)),
        route_segments(route_of(segments)) == segments,
{
    if segments.len() == 0 {
        assert(segments =~= Seq::<Seq<char>>::empty());
    } else {
        lemma_split_of_prefix(segments, '/');
    }
}

/// No segment of an address holds a slash.
pub proof fn law_segments_without_slash(text: Seq<char>)
    ensures
        forall|i: int|
            0 <= i < route_segments(text).len() ==> !(#[trigger] route_segments(text)[i]).contains(
                '/',
            ),
{
    if text.len() > 0 {
        lemma_split_pieces(text.drop_first(), '/');
    }
}

/// Segments put behind an address follow its own segments.
pub proof fn law_suffixed_segments(text: Seq<char>, suffix: Seq<Seq<char>>)
    requires
        is_route(text),
        forall|i: int| 0 <= i < suffix.len() ==> !(#[trigger] suffix[i]).contains('/'),
    ensures
        route_segments(text + route_of(suffix)) == route_segments(text) + suffix,
{
    let own = route_segments(text);
    law_route_of_segments(text);
    law_segments_without_slash(text);
    lemma_prefix_each_concat(own, suffix, '/');
    assert forall|i: int| 0 <= i < (own + suffix).len() implies !(#[trigger] (own
        + suffix)[i]).contains('/') by {
        if i < own.len() {
            assert((own + suffix)[i] == own[i]);
        } else {
            assert((own + suffix)[i] == suffix[i - own.len()]);
        }
    }
    law_segments_of_route(own + suffix);
}

/// Segments that were put in front are what stripping them takes away.
pub proof fn law_strip_what_was_put(prefix: Seq<Seq<char>>, rest: Seq<Seq<char>>)
    ensures
        strip_segments(prefix + rest, prefix) == Some(rest),
{
    assert((prefix + rest).take(prefix.len() as int) =~= prefix);
    assert((prefix + rest).skip(prefix.len() as int) =~= rest);
}

impl From<RouteAddress> for String {
    fn from(a: RouteAddress) -> (r: String) {
        a.text
    }
}

impl vstd::std_specs::convert::FromSpecImpl<RouteAddress> for String {
    open spec fn obeys_from_spec() -> bool {
        true
    }

    closed spec fn from_spec(a: RouteAddress) -> String {
        a.text
    }
}

/// Converting an address to a string gives its text.
pub proof fn law_string_of_address(a: RouteAddress)
    ensures
        <String as vstd::std_specs::convert::FromSpec<RouteAddress>>::from_spec(a)@ == a@,
{
}

/// What is left behind a prefix is what stands behind it: the segments are the prefix and then what is
/// left, and nothing is left where they do not start with the prefix.
pub proof fn law_strip_leaves_the_rest(
    segments: Seq<Seq<char>>,
    prefix: Seq<Seq<char>>,
    rest: Seq<Seq<char>>,
)
    ensures
        strip_segments(segments, prefix) == Some(rest) <==> segments == prefix + rest,
{
    if strip_segments(segments, prefix) == Some(rest) {
        assert(segments =~= segments.take(prefix.len() as int) + segments.skip(
            prefix.len() as int,
        ));
    }
    if segments == prefix + rest {
        law_strip_what_was_put(prefix, rest);
    }
}

/// A text is an address exactly when it is empty or starts with a slash.
pub proof fn law_what_is_a_route(text: Seq<char>)
    ensures
        is_route(text) <==> text == Seq::<char>::empty() || text.len() > 0 && text[0] == '/',
        is_route(text) <==> route_of(route_segments(text)) == text,
{
    if text.len() == 0 {
        assert(text =~= Seq::<char>::empty());
    } else {
        lemma_prefix_of_split(text.drop_first(), '/');
        let back = route_of(route_segments(text));
        assert(back[0] == '/');
        if text[0] == '/' {
            law_route_of_segments(text);
        }
    }
}

} // verus!
