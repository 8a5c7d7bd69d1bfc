//! Numbers written in a radix from 2 to 16, as `std` reads and writes them.

use vstd::arithmetic::div_mod::lemma_fundamental_div_mod;
use vstd::prelude::*;

use crate::text::chars_of;

verus! {

/// The digit that stands for `d`: `0` to `9`, then `a` to `f`.
pub open spec fn digit_char(d: int) -> char {
    if d < 10 {
        (48 + d) as char
    } else {
        (87 + d) as char
    }
}

/// What the digit `c` stands for. Both cases of the letters count.
pub open spec fn digit_value(c: char, radix: int) -> Option<int> {
    let v = if '0' <= c <= '9' {
        c as int - 48
    } else if 'a' <= c <= 'f' {
        c as int - 87
    } else if 'A' <= c <= 'F' {
        c as int - 55
    } else {
        16
    };
    if v < radix {
        Some(v)
    } else {
        None
    }
}

/// The notation of `n` without leading zeros.
pub open spec fn numeral(n: int, radix: int) -> Seq<char>
    decreases n,
{
    if n < radix || radix < 2 {
        seq![digit_char(n)]
    } else {
        proof {
            vstd::arithmetic::div_mod::lemma_div_decreases(n, radix);
            vstd::arithmetic::div_mod::lemma_div_pos_is_pos(n, radix);
        }
        numeral(n / radix, radix).push(digit_char(n % radix))
    }
}

/// The number that a run of digits stands for; no digits at all stand for zero.
pub open spec fn digits_value(s: Seq<char>, radix: int) -> Option<int>
    decreases s.len(),
{
    if s.len() == 0 {
        Some(0)
    } else {
        match (digits_value(s.drop_last(), radix), digit_value(s.last(), radix)) {
            (Some(v), Some(d)) => Some(v * radix + d),
            _ => None,
        }
    }
}

/// Whether every character of `s` is a digit.
pub open spec fn all_digits(s: Seq<char>, radix: int) -> bool {
    forall|i: int| 0 <= i < s.len() ==> digit_value(#[trigger] s[i], radix) is Some
}

proof fn lemma_digit_round_trip(d: int, radix: int)
    requires
        0 <= d < radix <= 16,
    ensures
        digit_value(digit_char(d), radix) == Some(d),
{
}

/// Reading the notation of a number gives the number.
pub proof fn lemma_numeral_value(n: int, radix: int)
    requires
        0 <= n,
        2 <= radix <= 16,
    ensures
        digits_value(numeral(n, radix), radix) == Some(n),
        numeral(n, radix).len() >= 1,
        all_digits(numeral(n, radix), radix),
        n > 0 ==> numeral(n, radix)[0] != '0',
    decreases n,
{
    if n < radix {
        let s = numeral(n, radix);
        lemma_digit_round_trip(n, radix);
        assert(s.drop_last() =~= Seq::<char>::empty());
        assert(digits_value(s.drop_last(), radix) == Some(0int));
        assert(0 * radix == 0) by (nonlinear_arith);
    } else {
        vstd::arithmetic::div_mod::lemma_div_decreases(n, radix);
        vstd::arithmetic::div_mod::lemma_div_pos_is_pos(n, radix);
        vstd::arithmetic::div_mod::lemma_div_non_zero(n, radix);
        vstd::arithmetic::div_mod::lemma_mod_bound(n, radix);
        lemma_numeral_value(n / radix, radix);
        lemma_digit_round_trip(n % radix, radix);
        let s = numeral(n, radix);
        assert(s.drop_last() =~= numeral(n / radix, radix));
        lemma_fundamental_div_mod(n, radix);
        vstd::arithmetic::mul::lemma_mul_is_commutative(n / radix, radix);
    }
}

/// A text reads as a number only when all of it is digits, and the number is not negative.
pub proof fn lemma_digits_value(s: Seq<char>, radix: int)
    requires
        2 <= radix <= 16,
    ensures
        digits_value(s, radix) is Some <==> all_digits(s, radix),
        digits_value(s, radix) matches Some(v) ==> v >= 0,
    decreases s.len(),
{
    if s.len() > 0 {
        let init = s.drop_last();
        lemma_digits_value(init, radix);
        if all_digits(s, radix) {
            assert forall|i: int| 0 <= i < init.len() implies digit_value(
                #[trigger] init[i],
                radix,
            ) is Some by {
                assert(init[i] == s[i]);
            }
            assert(digit_value(s[s.len() - 1], radix) is Some);
        }
        if digits_value(s, radix) is Some {
            let v = digits_value(init, radix)->0;
            assert(v * radix >= 0) by (nonlinear_arith)
                requires
                    v >= 0,
                    radix >= 2,
            ;
            assert forall|i: int| 0 <= i < s.len() implies digit_value(
                #[trigger] s[i],
                radix,
            ) is Some by {
                if i < init.len() {
                    assert(init[i] == s[i]);
                }
            }
        }
    }
}

/// A longer run of digits never stands for less.
pub proof fn lemma_digits_value_grows(s: Seq<char>, radix: int, i: int)
    requires
        2 <= radix <= 16,
        0 <= i <= s.len(),
        digits_value(s, radix) is Some,
    ensures
        digits_value(s.take(i), radix) is Some,
        digits_value(s.take(i), radix)->0 <= digits_value(s, radix)->0,
    decreases s.len(),
{
    if i == s.len() {
        assert(s.take(i) =~= s);
    } else {
        lemma_digits_value_grows(s.drop_last(), radix, i);
        lemma_digits_value(s.drop_last(), radix);
        assert(s.drop_last().take(i) =~= s.take(i));
        let v = digits_value(s.drop_last(), radix)->0;
        assert(v * radix >= v) by (nonlinear_arith)
            requires
                v >= 0,
                radix >= 2,
        ;
    }
}

/// What the digit `c` stands for.
pub fn digit_of(c: char, radix: u32) -> (r: Option<u32>)
    requires
        2 <= radix <= 16,
    ensures
        match (r, digit_value(c, radix as int)) {
            (Some(v), Some(d)) => v == d,
            (None, None) => true,
            _ => false,
        },
{
    let v: u32 = if '0' <= c && c <= '9' {
        c as u32 - 48
    } else if 'a' <= c && c <= 'f' {
        c as u32 - 87
    } else if 'A' <= c && c <= 'F' {
        c as u32 - 55
    } else {
        16
    };
    if v < radix {
        Some(v)
    } else {
        None
    }
}

/// Appends the notation of `n` to `out`.
pub fn push_numeral(out: &mut String, n: u64, radix: u64)
    requires
        2 <= radix <= 16,
    ensures
        final(out)@ == old(out)@ + numeral(n as int, radix as int),
    decreases n,
{
    if n < radix {
        let d = n as u8;
        let c: char = if d < 10 {
            (48 + d) as char
        } else {
            (87 + d) as char
        };
        out.push(c);
        assert(out@ =~= old(out)@ + numeral(n as int, radix as int));
    } else {
        let q: u64 = n / radix;
        let d = (n % radix) as u8;
        proof {
            vstd::arithmetic::div_mod::lemma_div_decreases(n as int, radix as int);
            vstd::arithmetic::div_mod::lemma_mod_bound(n as int, radix as int);
        }
        push_numeral(out, q, radix);
        let c: char = if d < 10 {
            (48 + d) as char
        } else {
            (87 + d) as char
        };
        out.push(c);
        assert(out@ =~= old(out)@ + numeral(n as int, radix as int));
    }
}

/// The decimal notation of `n`.
pub fn decimal(n: u64) -> (r: String)
    ensures
        r@ == numeral(n as int, 10),
{
    let mut out = String::new();
    push_numeral(&mut out, n, 10);
    assert(out@ =~= numeral(n as int, 10));
    out
}

/// The number that all of `cs` stands for, if it is written in digits and is at most `max`.
pub fn bounded_value(cs: &Vec<char>, radix: u32, max: u32) -> (r: Option<u32>)
    requires
        2 <= radix <= 16,
        max <= 0xffff,
    ensures
        match (r, digits_value(cs@, radix as int)) {
            (Some(v), Some(d)) => v == d && d <= max,
            (None, Some(d)) => d > max,
            (None, None) => true,
            (Some(_), None) => false,
        },
{
    let mut v: u32 = 0;
    let mut i: usize = 0;
    assert(cs@.take(0) =~= Seq::<char>::empty());
    while i < cs.len()
        invariant
            2 <= radix <= 16,
            max <= 0xffff,
            i <= cs.len(),
            v <= max,
            digits_value(cs@.take(i as int), radix as int) == Some(v as int),
        decreases cs.len() - i,
    {
        assert(cs@.take(i + 1).drop_last() =~= cs@.take(i as int));
        assert(cs@.take(i + 1).last() == cs@[i as int]);
        match digit_of(cs[i], radix) {
            None => {
                proof {
                    lemma_digits_value(cs@, radix as int);
                    assert(digit_value(cs@[i as int], radix as int) is None);
                }
                return None;
            },
            Some(d) => {
                assert(v * radix <= 0xffff * 16) by (nonlinear_arith)
                    requires
                        v <= 0xffff,
                        radix <= 16,
                ;
                let w: u32 = v * radix + d;
                if w > max {
                    proof {
                        if digits_value(cs@, radix as int) is Some {
                            lemma_digits_value_grows(cs@, radix as int, i + 1);
                        }
                    }
                    return None;
                }
                v = w;
            },
        }
        i += 1;
    }
    assert(cs@.take(cs@.len() as int) =~= cs@);
    Some(v)
}

/// Why a text is not a port number.
#[derive(Debug, Clone, Copy, PartialEq, Eq)]
pub enum PortParseError {
    /// The text is empty.
    Empty,
    /// A character that is not a decimal digit was met.
    InvalidDigit,
    /// The number does not fit in sixteen bits.
    Overflow,
}

/// Reads digits from the left, and stops at the first character that is no digit or that takes
/// the number past sixteen bits.
pub open spec fn port_digits(s: Seq<char>) -> Result<int, PortParseError>
    decreases s.len(),
{
    if s.len() == 0 {
        Ok(0)
    } else {
        match (port_digits(s.drop_last()), digit_value(s.last(), 10)) {
            (Err(e), _) => Err(e),
            (Ok(_), None) => Err(PortParseError::InvalidDigit),
            (Ok(v), Some(d)) => if v * 10 + d > 0xffff {
                Err(PortParseError::Overflow)
            } else {
                Ok(v * 10 + d)
            },
        }
    }
}

/// The port number that a text stands for: an optional plus sign, then decimal digits.
pub open spec fn port_of(s: Seq<char>) -> Result<int, PortParseError> {
    if s.len() == 0 {
        Err(PortParseError::Empty)
    } else if s[0] == '+' {
        if s.len() == 1 {
            Err(PortParseError::InvalidDigit)
        } else {
            port_digits(s.drop_first())
        }
    } else {
        port_digits(s)
    }
}

proof fn lemma_port_digits(s: Seq<char>)
    ensures
        match port_digits(s) {
            Ok(v) => digits_value(s, 10) == Some(v) && 0 <= v <= 0xffff,
            Err(_) => digits_value(s, 10) is None || digits_value(s, 10)->0 > 0xffff,
        },
    decreases s.len(),
{
    lemma_digits_value(s, 10);
    if s.len() > 0 {
        lemma_port_digits(s.drop_last());
        lemma_digits_value(s.drop_last(), 10);
    }
}

/// A text is a port number exactly when, after an optional plus sign, it is decimal digits that
/// stand for at most 65535.
pub proof fn law_port_numbers(s: Seq<char>)
    ensures
        ({
            let body = if s.len() > 0 && s[0] == '+' {
                s.drop_first()
            } else {
                s
            };
            match port_of(s) {
                Ok(v) => body.len() > 0 && digits_value(body, 10) == Some(v) && 0 <= v <= 0xffff,
                Err(_) => body.len() == 0 || digits_value(body, 10) is None || digits_value(
                    body,
                    10,
                )->0 > 0xffff,
            }
        }),
{
    lemma_port_digits(s);
    if s.len() > 0 {
        lemma_port_digits(s.drop_first());
    }
}

/// The decimal notation of a port number reads as that port number.
pub proof fn law_port_round_trip(port: u16)
    ensures
        port_of(numeral(port as int, 10)) == Ok::<int, PortParseError>(port as int),
{
    let s = numeral(port as int, 10);
    lemma_numeral_value(port as int, 10);
    assert(digit_value(s[0], 10) is Some);
    law_port_numbers(s);
}

/// Reads a port number.
pub fn parse_port(s: &str) -> (r: Result<u16, PortParseError>)
    ensures
        match (r, port_of(s@)) {
            (Ok(p), Ok(v)) => p == v,
            (Err(a), Err(b)) => a == b,
            _ => false,
        },
{
    let cs = chars_of(s);
    if cs.len() == 0 {
        return Err(PortParseError::Empty);
    }
    let mut start: usize = 0;
    if cs[0] == '+' {
        if cs.len() == 1 {
            return Err(PortParseError::InvalidDigit);
        }
        start = 1;
    }
    let ghost body = cs@.skip(start as int);
    proof {
        if start == 0 {
            assert(body =~= cs@);
        } else {
            assert(body =~= cs@.drop_first());
        }
    }
    let mut v: u32 = 0;
    let mut i: usize = start;
    assert(body.take(0) =~= Seq::<char>::empty());
    while i < cs.len()
        invariant
            start <= i <= cs.len(),
            body == cs@.skip(start as int),
            v <= 0xffff,
            port_digits(body.take(i - start)) == Ok::<int, PortParseError>(v as int),
            port_of(s@) == port_digits(body),
        decreases cs.len() - i,
    {
        let ghost next = body.take(i - start + 1);
        assert(next.drop_last() =~= body.take(i - start));
        assert(next.last() == cs@[i as int]);
        match digit_of(cs[i], 10) {
            None => {
                proof {
                    lemma_port_error_sticks(body, i - start + 1);
                }
                return Err(PortParseError::InvalidDigit);
            },
            Some(d) => {
                let w: u32 = v * 10 + d;
                if w > 0xffff {
                    proof {
                        lemma_port_error_sticks(body, i - start + 1);
                    }
                    return Err(PortParseError::Overflow);
                }
                v = w;
            },
        }
        i += 1;
    }
    assert(body.take(body.len() as int) =~= body);
    Ok(v as u16)
}

/// What stops the reading of a prefix stops the reading of the whole.
proof fn lemma_port_error_sticks(s: Seq<char>, i: int)
    requires
        0 <= i <= s.len(),
        port_digits(s.take(i)) is Err,
    ensures
        port_digits(s) == port_digits(s.take(i)),
    decreases s.len(),
{
    if i == s.len() {
        assert(s.take(i) =~= s);
    } else {
        assert(s.drop_last().take(i) =~= s.take(i));
        lemma_port_error_sticks(s.drop_last(), i);
    }
}

/// The digits of radix sixteen are `0` to `9` and the first six letters in either case, those of a
/// lower radix are the first of these, and each stands for its place among them.
pub proof fn law_digits(c: char, radix: int)
    requires
        2 <= radix <= 16,
    ensures
        digit_value(c, radix) is Some <==> {
            ||| '0' <= c <= '9' && (c as int) - ('0' as int) < radix
            ||| 'a' <= c <= 'f' && (c as int) - ('a' as int) + 10 < radix
            ||| 'A' <= c <= 'F' && (c as int) - ('A' as int) + 10 < radix
        },
        digit_value(c, radix) matches Some(d) ==> 0 <= d < radix && {
            &&& '0' <= c <= '9' ==> c as int == '0' as int + d
            &&& 'a' <= c <= 'f' ==> c as int == 'a' as int + d - 10
            &&& 'A' <= c <= 'F' ==> c as int == 'A' as int + d - 10
        },
{
}

/// A run of decimal digits that has no zero in front of others is the notation of the number that it
/// stands for.
pub proof fn law_decimal_notation_is_unique(s: Seq<char>)
    requires
        s.len() >= 1,
        s.len() == 1 || s[0] != '0',
        digits_value(s, 10) is Some,
    ensures
        s == numeral(digits_value(s, 10)->0, 10),
    decreases s.len(),
{
    let v = digits_value(s, 10)->0;
    let init = s.drop_last();
    let d = digit_value(s.last(), 10)->0;
    assert(s.last() == digit_char(d));
    if s.len() == 1 {
        assert(init =~= Seq::<char>::empty());
        assert(digits_value(init, 10) == Some(0int));
        assert(s =~= seq![digit_char(v)]);
    } else {
        assert(init[0] == s[0]);
        law_decimal_notation_is_unique(init);
        lemma_digits_value(init, 10);
        let w = digits_value(init, 10)->0;
        if w == 0 {
            assert(numeral(0, 10)[0] == '0');
        }
        assert(v / 10 == w && v % 10 == d);
        assert(s =~= init.push(s.last()));
    }
}

/// Whether a run of characters stops being a port number at character `k`: those in front of it
/// stand for one, and it is no digit, or takes the number past sixteen bits.
pub open spec fn stops_at(s: Seq<char>, k: int, e: PortParseError) -> bool {
    &&& 0 <= k < s.len()
    &&& digits_value(s.take(k), 10) matches Some(v)
    &&& v <= 0xffff
    &&& match digit_value(s[k], 10) {
        None => e is InvalidDigit,
        Some(d) => v * 10 + d > 0xffff && e is Overflow,
    }
}

/// Reading stops at the first character with which a port number cannot go on.
proof fn lemma_port_stops(s: Seq<char>)
    ensures
        match port_digits(s) {
            Ok(v) => digits_value(s, 10) == Some(v) && v <= 0xffff,
            Err(e) => exists|k: int| #[trigger] stops_at(s, k, e),
        },
    decreases s.len(),
{
    if s.len() > 0 {
        let init = s.drop_last();
        lemma_port_stops(init);
        if let Err(e) = port_digits(init) {
            let k = choose|k: int| #[trigger] stops_at(init, k, e);
            assert(init.take(k) =~= s.take(k));
            assert(stops_at(s, k, e));
        } else if let Err(e) = port_digits(s) {
            let k = s.len() - 1;
            assert(s.take(k) =~= init);
            assert(stops_at(s, k, e));
        }
    }
}

/// What stands behind the sign of a text, if there is anything.
pub open spec fn unsigned(s: Seq<char>) -> Seq<char> {
    if s.len() > 1 && s[0] == '+' {
        s.drop_first()
    } else {
        s
    }
}

/// Why a text is no port number is the first thing that is wrong with it. Nothing at all is empty; a
/// sign alone is no digit; and else, behind the sign if there is one, the first character that is no
/// digit or takes the number past 65535 decides.
pub proof fn law_port_errors(s: Seq<char>)
    ensures
        port_of(s) == Err::<int, PortParseError>(PortParseError::Empty) <==> s.len() == 0,
        port_of(s) matches Ok(v) ==> digits_value(unsigned(s), 10) == Some(v),
        s.len() > 0 ==> (port_of(s) matches Err(e) ==> exists|k: int| #[trigger]
            stops_at(unsigned(s), k, e)),
{
    lemma_port_stops(unsigned(s));
    if s.len() == 1 && s[0] == '+' {
        assert(s.take(0) =~= Seq::<char>::empty());
        assert(digits_value(s.take(0), 10) == Some(0int));
        assert(stops_at(unsigned(s), 0, PortParseError::InvalidDigit));
    }
}

} // verus!
