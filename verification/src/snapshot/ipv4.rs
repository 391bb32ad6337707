//! IPv4 addresses: the dotted-decimal grammar, the `ip:port` split and the
//! address classes the tripwire cares about.

use vstd::prelude::*;
use crate::text::{all_digits, chars_of, digit_value, digits_value, is_digit};

verus! {

/// An IPv4 address as its four octets, most significant first
/// (`a.b.c.d`).
#[derive(Clone, Copy, Debug, PartialEq, Eq, Structural)]
pub struct Ipv4 {
    pub a: u8,
    pub b: u8,
    pub c: u8,
    pub d: u8,
}

impl Ipv4 {
    /// `127.0.0.0/8`.
    #[verifier::allow_in_spec]
    pub fn is_loopback(&self) -> bool
        returns
            self.a == 127,
    {
        self.a == 127
    }

    /// `0.0.0.0`.
    #[verifier::allow_in_spec]
    pub fn is_unspecified(&self) -> bool
        returns
            self.a == 0 && self.b == 0 && self.c == 0 && self.d == 0,
    {
        self.a == 0 && self.b == 0 && self.c == 0 && self.d == 0
    }

    /// `224.0.0.0/4`.
    #[verifier::allow_in_spec]
    pub fn is_multicast(&self) -> bool
        returns
            224 <= self.a && self.a <= 239,
    {
        224 <= self.a && self.a <= 239
    }

    /// The RFC 1918 ranges `10.0.0.0/8`, `172.16.0.0/12`, `192.168.0.0/16`.
    #[verifier::allow_in_spec]
    pub fn is_private(&self) -> bool
        returns
            self.a == 10 || (self.a == 172 && 16 <= self.b && self.b <= 31) || (self.a == 192
                && self.b == 168),
    {
        self.a == 10 || (self.a == 172 && 16 <= self.b && self.b <= 31) || (self.a == 192 && self.b
            == 168)
    }

    /// `169.254.0.0/16`.
    #[verifier::allow_in_spec]
    pub fn is_link_local(&self) -> bool
        returns
            self.a == 169 && self.b == 254,
    {
        self.a == 169 && self.b == 254
    }
}

/// The indices at which `c` occurs in `s`, in increasing order.
pub open spec fn positions_of(s: Seq<char>, c: char) -> Seq<int>
    decreases s.len(),
{
    if s.len() == 0 {
        Seq::empty()
    } else {
        let earlier = positions_of(s.drop_last(), c);
        if s.last() == c {
            earlier.push(s.len() - 1)
        } else {
            earlier
        }
    }
}

/// One field of a dotted-decimal address: one to three digits, no leading
/// zero unless the field is `0` itself, and a value of at most 255.
pub open spec fn octet_value(t: Seq<char>) -> Option<u8> {
    if 1 <= t.len() <= 3 && all_digits(t) && !(t.len() > 1 && t[0] == '0') && digits_value(t)
        <= 255 {
        Some(digits_value(t) as u8)
    } else {
        None
    }
}

/// The address that dotted-decimal text `s` denotes: exactly three dots, and
/// each of the four fields between them an octet.
pub open spec fn dotted_quad(s: Seq<char>) -> Option<Ipv4> {
    let dots = positions_of(s, '.');
    if dots.len() != 3 {
        None
    } else {
        match (
            octet_value(s.subrange(0, dots[0])),
            octet_value(s.subrange(dots[0] + 1, dots[1])),
            octet_value(s.subrange(dots[1] + 1, dots[2])),
            octet_value(s.subrange(dots[2] + 1, s.len() as int)),
        ) {
            (Some(a), Some(b), Some(c), Some(d)) => Some(Ipv4 { a, b, c, d }),
            _ => None,
        }
    }
}

/// The host part of an `ip:port` text: what stands before its last `:`, or
/// the whole text when it holds no `:`.
pub open spec fn host_part(addr: Seq<char>) -> Seq<char> {
    let colons = positions_of(addr, ':');
    if colons.len() == 0 {
        addr
    } else {
        addr.take(colons.last())
    }
}

/// The IPv4 address of an `ip:port` text, if its host part is one.
pub open spec fn address_of(addr: Seq<char>) -> Option<Ipv4> {
    dotted_quad(host_part(addr))
}

/// The positions of `c` lie inside `s`, hold `c`, increase strictly, and are
/// all the places where `c` occurs.
pub proof fn lemma_positions_of(s: Seq<char>, c: char)
    ensures
        forall|k: int|
            0 <= k < positions_of(s, c).len() ==> 0 <= #[trigger] positions_of(s, c)[k] < s.len()
                && s[positions_of(s, c)[k]] == c,
        forall|k: int, l: int|
            0 <= k < l < positions_of(s, c).len() ==> #[trigger] positions_of(s, c)[k]
                < #[trigger] positions_of(s, c)[l],
    decreases s.len(),
{
    if s.len() > 0 {
        let earlier = positions_of(s.drop_last(), c);
        lemma_positions_of(s.drop_last(), c);
        assert forall|k: int| 0 <= k < earlier.len() implies #[trigger] earlier[k] < s.len() - 1
            && s[earlier[k]] == c by {
            assert(s.drop_last()[earlier[k]] == s[earlier[k]]);
        }
    }
}

/// The positions of `s` moved `by` places to the right.
pub open spec fn shifted(s: Seq<int>, by: int) -> Seq<int> {
    Seq::new(s.len(), |k: int| s[k] + by)
}

/// The positions of `c` in `x + y` are those in `x`, then those in `y`
/// moved past `x`.
pub proof fn lemma_positions_of_concat(x: Seq<char>, y: Seq<char>, c: char)
    ensures
        positions_of(x + y, c) == positions_of(x, c) + shifted(positions_of(y, c), x.len() as int),
    decreases y.len(),
{
    if y.len() == 0 {
        assert(x + y =~= x);
        assert(positions_of(x, c) + shifted(positions_of(y, c), x.len() as int) =~= positions_of(
            x,
            c,
        ));
    } else {
        lemma_positions_of_concat(x, y.drop_last(), c);
        assert((x + y).drop_last() =~= x + y.drop_last());
        assert((x + y).last() == y.last());
        if y.last() == c {
            assert(positions_of(x + y, c) =~= positions_of(x, c) + shifted(
                positions_of(y, c),
                x.len() as int,
            ));
        } else {
            assert(positions_of(x + y, c) =~= positions_of(x, c) + shifted(
                positions_of(y, c),
                x.len() as int,
            ));
        }
    }
}

/// A text without `c` holds no position of it.
pub proof fn lemma_positions_of_absent(s: Seq<char>, c: char)
    requires
        forall|i: int| 0 <= i < s.len() ==> s[i] != c,
    ensures
        positions_of(s, c) == Seq::<int>::empty(),
    decreases s.len(),
{
    if s.len() > 0 {
        lemma_positions_of_absent(s.drop_last(), c);
        assert(s.last() == s[s.len() - 1]);
    }
}

/// The indices at which `c` occurs in `chars`.
fn positions(chars: &Vec<char>, c: char) -> (r: Vec<usize>)
    ensures
        r.len() == positions_of(chars@, c).len(),
        forall|k: int| 0 <= k < r.len() ==> r@[k] as int == positions_of(chars@, c)[k],
{
    let mut r: Vec<usize> = Vec::new();
    let mut i: usize = 0;
    while i < chars.len()
        invariant
            i <= chars.len(),
            r.len() == positions_of(chars@.take(i as int), c).len(),
            forall|k: int|
                0 <= k < r.len() ==> r@[k] as int == positions_of(chars@.take(i as int), c)[k],
        decreases chars.len() - i,
    {
        assert(chars@.take(i + 1).drop_last() =~= chars@.take(i as int));
        if chars[i] == c {
            r.push(i);
        }
        i += 1;
    }
    assert(chars@.take(chars.len() as int) =~= chars@);
    r
}

/// The octet that `chars[lo..hi]` denotes, if any.
fn parse_octet(chars: &Vec<char>, lo: usize, hi: usize) -> (r: Option<u8>)
    requires
        lo <= hi <= chars.len(),
    ensures
        r == octet_value(chars@.subrange(lo as int, hi as int)),
{
    let ghost t = chars@.subrange(lo as int, hi as int);
    let len = hi - lo;
    if len < 1 || len > 3 {
        return None;
    }
    if len > 1 && chars[lo] == '0' {
        return None;
    }
    let mut value: u32 = 0;
    let mut k: usize = 0;
    while k < len
        invariant
            t == chars@.subrange(lo as int, hi as int),
            1 <= len <= 3,
            len == hi - lo,
            lo <= hi <= chars.len(),
            k <= len,
            all_digits(t.take(k as int)),
            value == digits_value(t.take(k as int)),
            k == 0 ==> value == 0,
            k == 1 ==> value <= 9,
            k == 2 ==> value <= 99,
            value <= 999,
        decreases len - k,
    {
        let ch = chars[lo + k];
        assert(ch == t[k as int]);
        if !('0' <= ch && ch <= '9') {
            assert(!all_digits(t));
            return None;
        }
        assert(t.take(k + 1).drop_last() =~= t.take(k as int));
        assert(digits_value(t.take(k + 1)) == digits_value(t.take(k as int)) * 10 + digit_value(
            ch,
        ));
        assert(all_digits(t.take(k + 1))) by {
            assert forall|j: int| 0 <= j < k + 1 implies is_digit(#[trigger] t.take(k + 1)[j]) by {
                if j < k {
                    assert(t.take(k + 1)[j] == t.take(k as int)[j]);
                }
            }
        }
        value = value * 10 + ((ch as u32) - ('0' as u32));
        k += 1;
    }
    assert(t.take(len as int) =~= t);
    if value <= 255 {
        Some(value as u8)
    } else {
        None
    }
}

/// The address that dotted-decimal text `chars` denotes, if any.
fn parse_dotted_quad(chars: &Vec<char>) -> (r: Option<Ipv4>)
    ensures
        r == dotted_quad(chars@),
{
    let dots = positions(chars, '.');
    proof {
        lemma_positions_of(chars@, '.');
    }
    if dots.len() != 3 {
        return None;
    }
    assert(dots@[0] as int == positions_of(chars@, '.')[0]);
    assert(dots@[1] as int == positions_of(chars@, '.')[1]);
    assert(dots@[2] as int == positions_of(chars@, '.')[2]);
    let a = parse_octet(chars, 0, dots[0]);
    let b = parse_octet(chars, dots[0] + 1, dots[1]);
    let c = parse_octet(chars, dots[1] + 1, dots[2]);
    let d = parse_octet(chars, dots[2] + 1, chars.len());
    match (a, b, c, d) {
        (Some(a), Some(b), Some(c), Some(d)) => Some(Ipv4 { a, b, c, d }),
        _ => None,
    }
}

/// Parse the IPv4 address portion of an `ip:port` string: the text before
/// the last `:` (or the whole text when there is none) read as dotted
/// decimal.
pub fn parse_ipv4(addr: &str) -> (r: Option<Ipv4>)
    ensures
        r == address_of(addr@),
{
    let mut chars = chars_of(addr);
    let colons = positions(&chars, ':');
    proof {
        lemma_positions_of(chars@, ':');
    }
    if colons.len() > 0 {
        let end = colons[colons.len() - 1];
        assert(end as int == positions_of(chars@, ':')[colons.len() - 1]);
        chars.truncate(end);
    }
    parse_dotted_quad(&chars)
}

} // verus!
