//! IPv4 addresses in dotted-decimal form.
use vstd::prelude::*;

use crate::text::{append_u64_text, chars_of, decimal_value, is_ascii_digit, nat_text, split_char, split_chars};

verus! {

/// An IPv4 address as its four octets.
#[derive(Clone, Copy, PartialEq, Eq, Debug)]
pub struct Ipv4Address(pub u8, pub u8, pub u8, pub u8);

/// One dotted-decimal octet as `Ipv4Addr::from_str` reads it: one to three
/// decimal digits, no leading zero unless the octet is `0`, at most 255.
pub open spec fn is_octet_text(piece: Seq<char>) -> bool {
    &&& 1 <= piece.len() <= 3
    &&& forall|j: int| 0 <= j < piece.len() ==> is_ascii_digit(#[trigger] piece[j])
    &&& (piece.len() == 1 || piece[0] != '0')
    &&& decimal_value(piece) <= 255
}

/// The address that `text` denotes in dotted-decimal form (four octets
/// separated by `.`, nothing else), or `None`.
pub open spec fn ipv4_of_text(text: Seq<char>) -> Option<Ipv4Address> {
    let pieces = split_char(text, '.');
    if pieces.len() == 4 && is_octet_text(pieces[0]) && is_octet_text(pieces[1])
        && is_octet_text(pieces[2]) && is_octet_text(pieces[3]) {
        Some(
            Ipv4Address(
                decimal_value(pieces[0]) as u8,
                decimal_value(pieces[1]) as u8,
                decimal_value(pieces[2]) as u8,
                decimal_value(pieces[3]) as u8,
            ),
        )
    } else {
        None
    }
}

/// The dotted-decimal form of an address (`Ipv4Addr`'s `Display`).
pub open spec fn ipv4_text(address: Ipv4Address) -> Seq<char> {
    nat_text(address.0 as nat) + "."@ + nat_text(address.1 as nat) + "."@ + nat_text(
        address.2 as nat,
    ) + "."@ + nat_text(address.3 as nat)
}

/// The value of one octet piece, if it is one.
fn parse_octet(piece: &Vec<char>) -> (r: Option<u8>)
    ensures
        r is Some <==> is_octet_text(piece@),
        r matches Some(v) ==> v as nat == decimal_value(piece@),
{
    if piece.len() == 0 || piece.len() > 3 {
        return None;
    }
    if piece.len() > 1 && piece[0] == '0' {
        return None;
    }
    let mut value: u32 = 0;
    let mut i: usize = 0;
    while i < piece.len()
        invariant
            1 <= piece.len() <= 3,
            i <= piece.len(),
            forall|j: int| 0 <= j < i ==> is_ascii_digit(#[trigger] piece@[j]),
            value == decimal_value(piece@.take(i as int)),
            value <= 999,
            i == 0 ==> value == 0,
            i == 1 ==> value <= 9,
            i == 2 ==> value <= 99,
        decreases piece.len() - i,
    {
        let c = piece[i];
        if !('0' <= c && c <= '9') {
            return None;
        }
        proof {
            assert(piece@.take(i + 1).drop_last() =~= piece@.take(i as int));
            assert(piece@.take(i + 1).last() == c);
        }
        value = value * 10 + (c as u32 - '0' as u32);
        i = i + 1;
    }
    assert(piece@.take(piece@.len() as int) =~= piece@);
    if value > 255 {
        return None;
    }
    Some(value as u8)
}

/// Reads a dotted-decimal IPv4 address, as `Ipv4Addr::from_str` does.
pub fn parse_ipv4(text: &str) -> (r: Option<Ipv4Address>)
    ensures
        r == ipv4_of_text(text@),
{
    let v = chars_of(text);
    let pieces = split_chars(&v, '.');
    if pieces.len() != 4 {
        return None;
    }
    let a = parse_octet(&pieces[0]);
    let b = parse_octet(&pieces[1]);
    let c = parse_octet(&pieces[2]);
    let d = parse_octet(&pieces[3]);
    match (a, b, c, d) {
        (Some(a), Some(b), Some(c), Some(d)) => Some(Ipv4Address(a, b, c, d)),
        _ => None,
    }
}

impl Ipv4Address {
    /// The dotted-decimal form.
    pub fn to_text(&self) -> (r: String)
        ensures
            r@ == ipv4_text(*self),
    {
        let mut r = String::new();
        append_u64_text(&mut r, self.0 as u64);
        r.append(".");
        append_u64_text(&mut r, self.1 as u64);
        r.append(".");
        append_u64_text(&mut r, self.2 as u64);
        r.append(".");
        append_u64_text(&mut r, self.3 as u64);
        r
    }
}

/// The decimal form of a number has only digits, no leading zero, at most
/// three digits below 1000, and denotes the number.
proof fn lemma_nat_text(n: nat)
    ensures
        nat_text(n).len() >= 1,
        forall|j: int| 0 <= j < nat_text(n).len() ==> is_ascii_digit(#[trigger] nat_text(n)[j]),
        nat_text(n).len() == 1 || nat_text(n)[0] != '0',
        n < 1000 ==> nat_text(n).len() <= 3,
        n < 100 ==> nat_text(n).len() <= 2,
        n < 10 ==> nat_text(n).len() == 1,
        decimal_value(nat_text(n)) == n,
    decreases n,
{
    let t = nat_text(n);
    let d = (n % 10) as int;
    assert(crate::text::digit_char(d) as u32 == 48 + d);
    if n < 10 {
        assert(t.drop_last() =~= Seq::<char>::empty());
        assert(t.last() == crate::text::digit_char(n as int));
        assert('0' as u32 == 48);
        assert(decimal_value(t) == decimal_value(t.drop_last()) * 10 + ((t.last() as u32) - ('0' as u32)) as nat);
        assert(decimal_value(t.drop_last()) == 0);
    } else {
        lemma_nat_text(n / 10);
        let p = nat_text(n / 10);
        assert(t.drop_last() =~= p);
        assert(t.last() == crate::text::digit_char((n % 10) as int));
        assert((n / 10) * 10 + n % 10 == n);
        assert('0' as u32 == 48);
        assert(decimal_value(t) == decimal_value(t.drop_last()) * 10 + ((t.last() as u32) - ('0' as u32)) as nat);
        assert forall|j: int| 0 <= j < t.len() implies is_ascii_digit(#[trigger] t[j]) by {
            if j < p.len() {
                assert(t[j] == p[j]);
            }
        }
        assert(t[0] == p[0]);
        if p.len() == 1 {
            assert(p[0] != '0') by {
                if p[0] == '0' {
                    assert(decimal_value(p) == decimal_value(p.drop_last()) * 10 + 0);
                    assert(p.drop_last() =~= Seq::<char>::empty());
                }
            }
        }
    }
}

/// Splitting at `.` a text without `.` gives the text itself.
proof fn lemma_split_without_dot(x: Seq<char>)
    requires
        !x.contains('.'),
    ensures
        split_char(x, '.') == seq![x],
    decreases x.len(),
{
    if x.len() > 0 {
        let t = x.drop_first();
        assert(!t.contains('.')) by {
            if t.contains('.') {
                let j = choose|j: int| 0 <= j < t.len() && t[j] == '.';
                assert(x[j + 1] == '.');
            }
        }
        lemma_split_without_dot(t);
        assert(x[0] != '.');
        assert(seq![x[0]] + t =~= x);
        assert(seq![x] =~= seq![t].update(0, seq![x[0]] + t));
    } else {
        assert(x =~= Seq::<char>::empty());
    }
}

/// Splitting `x.y` at `.`, where `x` has no `.`, gives `x` and then the pieces of `y`.
proof fn lemma_split_after_dot(x: Seq<char>, y: Seq<char>)
    requires
        !x.contains('.'),
    ensures
        split_char(x + "."@ + y, '.') == seq![x] + split_char(y, '.'),
    decreases x.len(),
{
    reveal_strlit(".");
    let s = x + "."@ + y;
    if x.len() == 0 {
        assert(s[0] == '.');
        assert(s.drop_first() =~= y);
        assert(x =~= Seq::<char>::empty());
    } else {
        let t = x.drop_first();
        assert(!t.contains('.')) by {
            if t.contains('.') {
                let j = choose|j: int| 0 <= j < t.len() && t[j] == '.';
                assert(x[j + 1] == '.');
            }
        }
        lemma_split_after_dot(t, y);
        assert(s.drop_first() =~= t + "."@ + y);
        assert(s[0] == x[0]);
        crate::text::lemma_split_char_nonempty(y, '.');
        assert(seq![x[0]] + t =~= x);
        assert(seq![x] + split_char(y, '.') =~= (seq![t] + split_char(y, '.')).update(
            0,
            seq![s[0]] + (seq![t] + split_char(y, '.'))[0],
        ));
    }
}

proof fn lemma_octet_text(n: u8)
    ensures
        is_octet_text(nat_text(n as nat)),
        decimal_value(nat_text(n as nat)) == n,
        !nat_text(n as nat).contains('.'),
{
    lemma_nat_text(n as nat);
    let t = nat_text(n as nat);
    if t.contains('.') {
        let j = choose|j: int| 0 <= j < t.len() && t[j] == '.';
        assert(is_ascii_digit(t[j]));
    }
}

/// Reading the dotted-decimal form of an address gives back the address.
pub proof fn lemma_ipv4_text_round_trip(address: Ipv4Address)
    ensures
        ipv4_of_text(ipv4_text(address)) == Some(address),
{
    reveal_strlit(".");
    let a = nat_text(address.0 as nat);
    let b = nat_text(address.1 as nat);
    let c = nat_text(address.2 as nat);
    let d = nat_text(address.3 as nat);
    lemma_octet_text(address.0);
    lemma_octet_text(address.1);
    lemma_octet_text(address.2);
    lemma_octet_text(address.3);
    let text = ipv4_text(address);
    assert(text =~= a + "."@ + (b + "."@ + (c + "."@ + d)));
    lemma_split_after_dot(a, b + "."@ + (c + "."@ + d));
    lemma_split_after_dot(b, c + "."@ + d);
    lemma_split_after_dot(c, d);
    lemma_split_without_dot(d);
    let pieces = split_char(text, '.');
    assert(pieces =~= seq![a, b, c, d]);
}

/// The dotted-decimal form of an address holds only digits and dots.
pub proof fn lemma_ipv4_text_chars(address: Ipv4Address)
    ensures
        forall|j: int|
            0 <= j < ipv4_text(address).len() ==> is_ascii_digit(#[trigger] ipv4_text(address)[j])
                || ipv4_text(address)[j] == '.',
{
    reveal_strlit(".");
    lemma_nat_text(address.0 as nat);
    lemma_nat_text(address.1 as nat);
    lemma_nat_text(address.2 as nat);
    lemma_nat_text(address.3 as nat);
    let t = ipv4_text(address);
    let a = nat_text(address.0 as nat);
    let b = nat_text(address.1 as nat);
    let c = nat_text(address.2 as nat);
    let d = nat_text(address.3 as nat);
    assert forall|j: int| 0 <= j < t.len() implies is_ascii_digit(#[trigger] t[j]) || t[j] == '.' by {
        let k0 = a.len() as int;
        let k1 = k0 + 1 + b.len();
        let k2 = k1 + 1 + c.len();
        if j < k0 {
            assert(t[j] == a[j]);
        } else if j == k0 {
        } else if j < k1 {
            assert(t[j] == b[j - k0 - 1]);
        } else if j == k1 {
        } else if j < k2 {
            assert(t[j] == c[j - k1 - 1]);
        } else if j == k2 {
        } else {
            assert(t[j] == d[j - k2 - 1]);
        }
    }
}

} // verus!
