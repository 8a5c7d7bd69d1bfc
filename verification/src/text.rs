//! Text as sequences of characters: splitting, joining and comparing.

use vstd::prelude::*;
use vstd::string::StrSliceExecFns;
use vstd::utf8::*;

verus! {

/// `String::push` appends one character to the end of the string.
pub assume_specification[ String::push ](s: &mut String, ch: char)
    ensures
        final(s)@ == old(s)@.push(ch),
;

/// `std::str::from_utf8` accepts exactly the well-formed UTF-8 encodings, and hands back the text
/// that is encoded. The text is copied into a `String`; the error is dropped.
#[verifier::external_body]
pub(crate) fn utf8_text(bytes: &[u8]) -> (r: Option<String>)
    ensures
        r is Some <==> valid_utf8(bytes@),
        r matches Some(s) ==> s@ == decode_utf8(bytes@),
{
    std::str::from_utf8(bytes).ok().map(String::from)
}

/// The texts that a sequence of string slices stands for.
pub open spec fn texts(parts: Seq<&str>) -> Seq<Seq<char>> {
    parts.map_values(|s: &str| s@)
}

/// The pieces of `s` between the occurrences of `sep`. A text without `sep` is one piece, so
/// there is always at least one.
pub open spec fn split_on(s: Seq<char>, sep: char) -> Seq<Seq<char>>
    decreases s.len(),
{
    if s.len() == 0 {
        seq![Seq::empty()]
    } else {
        let before = split_on(s.drop_last(), sep);
        if s.last() == sep {
            before.push(Seq::empty())
        } else {
            before.drop_last().push(before.last().push(s.last()))
        }
    }
}

/// Every part of `parts` with `sep` in front of it, one after another.
pub open spec fn prefix_each(parts: Seq<Seq<char>>, sep: char) -> Seq<char>
    decreases parts.len(),
{
    if parts.len() == 0 {
        Seq::empty()
    } else {
        prefix_each(parts.drop_last(), sep) + seq![sep] + parts.last()
    }
}

/// Splitting never gives an empty list.
pub proof fn lemma_split_nonempty(s: Seq<char>, sep: char)
    ensures
        split_on(s, sep).len() >= 1,
    decreases s.len(),
{
    if s.len() > 0 {
        lemma_split_nonempty(s.drop_last(), sep);
    }
}

/// The pieces of a split hold no separator.
pub proof fn lemma_split_pieces(s: Seq<char>, sep: char)
    ensures
        forall|i: int|
            0 <= i < split_on(s, sep).len() ==> !(#[trigger] split_on(s, sep)[i]).contains(sep),
    decreases s.len(),
{
    lemma_split_nonempty(s, sep);
    if s.len() > 0 {
        lemma_split_nonempty(s.drop_last(), sep);
        lemma_split_pieces(s.drop_last(), sep);
        let before = split_on(s.drop_last(), sep);
        if s.last() != sep {
            let p = before.last().push(s.last());
            assert(!p.contains(sep)) by {
                if p.contains(sep) {
                    let k = p.index_of(sep);
                    assert(before.last()[k] == sep);
                }
            }
        }
    }
}

/// Putting the pieces of a split back behind separators gives the text behind one separator.
pub proof fn lemma_prefix_of_split(s: Seq<char>, sep: char)
    ensures
        prefix_each(split_on(s, sep), sep) == seq![sep] + s,
    decreases s.len(),
{
    if s.len() == 0 {
        let one = seq![Seq::<char>::empty()];
        assert(one.drop_last() =~= Seq::<Seq<char>>::empty());
        assert(prefix_each(one.drop_last(), sep) == Seq::<char>::empty());
        assert(prefix_each(one, sep) =~= seq![sep] + s);
    } else {
        let before = split_on(s.drop_last(), sep);
        lemma_split_nonempty(s.drop_last(), sep);
        lemma_prefix_of_split(s.drop_last(), sep);
        if s.last() == sep {
            assert(before.push(Seq::empty()).drop_last() =~= before);
            assert(prefix_each(split_on(s, sep), sep) =~= seq![sep] + s);
        } else {
            let after = before.drop_last().push(before.last().push(s.last()));
            assert(after.drop_last() =~= before.drop_last());
            assert(prefix_each(after, sep) =~= prefix_each(before, sep).push(s.last()));
            assert(prefix_each(after, sep) =~= seq![sep] + s);
        }
    }
}

/// Splitting a text and then one more separator and a piece without one.
pub proof fn lemma_split_append(s: Seq<char>, piece: Seq<char>, sep: char)
    requires
        !piece.contains(sep),
    ensures
        split_on(s + seq![sep] + piece, sep) == split_on(s, sep).push(piece),
    decreases piece.len(),
{
    let whole = s + seq![sep] + piece;
    if piece.len() == 0 {
        assert(whole.drop_last() =~= s);
        assert(whole.last() == sep);
        assert(piece =~= Seq::<char>::empty());
    } else {
        assert(piece.last() == piece[piece.len() - 1]);
        assert(whole.drop_last() =~= s + seq![sep] + piece.drop_last());
        assert(!piece.drop_last().contains(sep)) by {
            if piece.drop_last().contains(sep) {
                let k = piece.drop_last().index_of(sep);
                assert(piece[k] == sep);
            }
        }
        lemma_split_append(s, piece.drop_last(), sep);
        let before = split_on(whole.drop_last(), sep);
        assert(before.last().push(piece.last()) =~= piece);
        assert(before.drop_last() =~= split_on(s, sep));
    }
}

/// A text without the separator is its own only piece.
pub proof fn lemma_split_single(piece: Seq<char>, sep: char)
    requires
        !piece.contains(sep),
    ensures
        split_on(piece, sep) == seq![piece],
    decreases piece.len(),
{
    if piece.len() == 0 {
        assert(piece =~= Seq::<char>::empty());
    } else {
        assert(piece.last() == piece[piece.len() - 1]);
        assert(!piece.drop_last().contains(sep)) by {
            if piece.drop_last().contains(sep) {
                let k = piece.drop_last().index_of(sep);
                assert(piece[k] == sep);
            }
        }
        lemma_split_single(piece.drop_last(), sep);
        assert(piece.drop_last().push(piece.last()) =~= piece);
        assert(split_on(piece, sep) =~= seq![piece]);
    }
}

/// Splitting what `prefix_each` builds gives the parts back, when there is a part and no part
/// holds the separator.
pub proof fn lemma_split_of_prefix(parts: Seq<Seq<char>>, sep: char)
    requires
        parts.len() > 0,
        forall|i: int| 0 <= i < parts.len() ==> !(#[trigger] parts[i]).contains(sep),
    ensures
        prefix_each(parts, sep).len() > 0,
        prefix_each(parts, sep)[0] == sep,
        split_on(prefix_each(parts, sep).drop_first(), sep) == parts,
    decreases parts.len(),
{
    let init = parts.drop_last();
    let text = prefix_each(parts, sep);
    assert(!parts[parts.len() - 1].contains(sep));
    if init.len() == 0 {
        assert(prefix_each(init, sep) =~= Seq::<char>::empty());
        assert(text.drop_first() =~= parts.last());
        lemma_split_single(parts.last(), sep);
        assert(seq![parts.last()] =~= parts);
    } else {
        assert forall|i: int| 0 <= i < init.len() implies !(#[trigger] init[i]).contains(sep) by {
            assert(init[i] == parts[i]);
        }
        lemma_split_of_prefix(init, sep);
        let before = prefix_each(init, sep);
        assert(text.drop_first() =~= before.drop_first() + seq![sep] + parts.last());
        lemma_split_append(before.drop_first(), parts.last(), sep);
        assert(init.push(parts.last()) =~= parts);
    }
}

/// Putting two lists of parts behind separators is the same as putting each list there.
pub proof fn lemma_prefix_each_concat(a: Seq<Seq<char>>, b: Seq<Seq<char>>, sep: char)
    ensures
        prefix_each(a + b, sep) == prefix_each(a, sep) + prefix_each(b, sep),
    decreases b.len(),
{
    if b.len() == 0 {
        assert(a + b =~= a);
        assert(prefix_each(a, sep) + prefix_each(b, sep) =~= prefix_each(a, sep));
    } else {
        lemma_prefix_each_concat(a, b.drop_last(), sep);
        assert((a + b).drop_last() =~= a + b.drop_last());
        assert(prefix_each(a + b, sep) =~= prefix_each(a, sep) + prefix_each(b, sep));
    }
}

/// Equal encodings come from equal texts.
proof fn lemma_encode_injective(a: Seq<char>, b: Seq<char>)
    requires
        encode_utf8(a) == encode_utf8(b),
    ensures
        a == b,
{
    encode_utf8_decode_utf8(a);
    encode_utf8_decode_utf8(b);
}

/// Whether two texts are the same.
pub fn same_text(a: &str, b: &str) -> (r: bool)
    ensures
        r == (a@ == b@),
{
    let x = a.as_bytes();
    let y = b.as_bytes();
    if x.len() != y.len() {
        return false;
    }
    let mut i: usize = 0;
    while i < x.len()
        invariant
            i <= x.len(),
            x.len() == y.len(),
            x@ == encode_utf8(a@),
            y@ == encode_utf8(b@),
            x@.take(i as int) == y@.take(i as int),
        decreases x.len() - i,
    {
        if x[i] != y[i] {
            assert(x@[i as int] != y@[i as int]);
            return false;
        }
        i += 1;
    }
    proof {
        assert(x@.take(x@.len() as int) =~= x@);
        assert(y@.take(y@.len() as int) =~= y@);
        lemma_encode_injective(a@, b@);
    }
    true
}

/// The characters of a text, in order.
pub fn chars_of(s: &str) -> (r: Vec<char>)
    ensures
        r@ == s@,
{
    let mut out: Vec<char> = Vec::new();
    for c in it: s.chars()
        invariant
            out@ == it.seq().take(it.index()),
            it.seq() == s@,
    {
        out.push(c);
    }
    out
}

/// The pieces of `s` between the occurrences of `sep`, starting at character `start`.
pub fn split_from<'a>(s: &'a str, start: usize, sep: char) -> (r: Vec<&'a str>)
    requires
        start <= s@.len(),
    ensures
        texts(r@) == split_on(s@.skip(start as int), sep),
{
    let cs = chars_of(s);
    let mut out: Vec<&'a str> = Vec::new();
    let mut from: usize = start;
    let mut i: usize = start;
    proof {
        let none = s@.subrange(start as int, start as int);
        assert(none =~= Seq::<char>::empty());
        assert(texts(out@) =~= Seq::<Seq<char>>::empty());
        assert(split_on(none, sep) =~= texts(out@).push(none));
    }
    while i < cs.len()
        invariant
            start <= from <= i <= cs.len(),
            cs@ == s@,
            split_on(s@.subrange(start as int, i as int), sep) == texts(out@).push(
                s@.subrange(from as int, i as int),
            ),
        decreases cs.len() - i,
    {
        let ghost before = s@.subrange(start as int, i as int);
        let ghost after = s@.subrange(start as int, i + 1);
        assert(after.drop_last() =~= before);
        assert(after.last() == s@[i as int]);
        if cs[i] == sep {
            let piece = s.substring_char(from, i);
            proof {
                assert(texts(out@.push(piece)) =~= texts(out@).push(piece@));
            }
            out.push(piece);
            from = i + 1;
            assert(s@.subrange(from as int, i + 1) =~= Seq::<char>::empty());
        } else {
            assert(s@.subrange(from as int, i + 1) =~= s@.subrange(from as int, i as int).push(
                s@[i as int],
            ));
            assert(texts(out@).push(s@.subrange(from as int, i as int)).drop_last() =~= texts(
                out@,
            ));
        }
        i += 1;
    }
    let piece = s.substring_char(from, cs.len());
    proof {
        assert(s@.subrange(start as int, s@.len() as int) =~= s@.skip(start as int));
        assert(texts(out@.push(piece)) =~= texts(out@).push(piece@));
    }
    out.push(piece);
    out
}

} // verus!
