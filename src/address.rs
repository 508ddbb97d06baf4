use vstd::prelude::*;
use crate::text::{
    all_digits, decimal_spec, digits_value, is_digit, lemma_decimal_digits, lemma_decimal_len,
    lemma_digits_bound, lemma_split_join, lemma_split_single, parse_u16, pow10, push_decimal,
    split_fields, split_spec,
};

verus! {

/// An IPv4 address, as its four octets in network order.
#[derive(Clone, Copy, Debug, PartialEq, Eq)]
pub struct Ipv4Address {
    pub octets: [u8; 4],
}

/// One dotted-decimal component: one to three digits, no leading zero, at most 255.
pub open spec fn octet_spec(p: Seq<char>) -> Option<u8> {
    if 1 <= p.len() <= 3 && all_digits(p) && (p.len() == 1 || p[0] != '0') && digits_value(p)
        <= 255 {
        Some(digits_value(p) as u8)
    } else {
        None
    }
}

/// The octets of a dotted-decimal IPv4 literal (`a.b.c.d`), or `None` where
/// `s` is not one.
pub open spec fn address_spec(s: Seq<char>) -> Option<Seq<u8>> {
    let parts = split_spec(s, '.');
    if parts.len() == 4 {
        match (octet_spec(parts[0]), octet_spec(parts[1]), octet_spec(parts[2]), octet_spec(parts[3])) {
            (Some(a), Some(b), Some(c), Some(d)) => Some(seq![a, b, c, d]),
            _ => None,
        }
    } else {
        None
    }
}

/// The dotted-decimal writing of four octets.
pub open spec fn dotted_spec(o: Seq<u8>) -> Seq<char> {
    decimal_spec(o[0] as nat) + seq!['.'] + decimal_spec(o[1] as nat) + seq!['.'] + decimal_spec(
        o[2] as nat,
    ) + seq!['.'] + decimal_spec(o[3] as nat)
}

pub proof fn lemma_digits_exclude(s: Seq<char>, c: char)
    requires
        all_digits(s),
        !is_digit(c),
    ensures
        !s.contains(c),
{
    if s.contains(c) {
        let j = choose|j: int| 0 <= j < s.len() && s[j] == c;
        assert(is_digit(s[j]));
    }
}

proof fn lemma_octet_of_decimal(v: u8)
    ensures
        octet_spec(decimal_spec(v as nat)) == Some(v),
{
    lemma_decimal_digits(v as nat);
    assert(pow10(3) == 1000) by {
        reveal_with_fuel(pow10, 4);
    }
    lemma_decimal_len(v as nat, 3);
    if v == 0 {
        assert(decimal_spec(0).len() == 1);
    }
}

/// Writing an address in dotted-decimal form and reading it back gives the
/// same octets.
pub proof fn lemma_address_round_trip(o: Seq<u8>)
    requires
        o.len() == 4,
    ensures
        address_spec(dotted_spec(o)) == Some(o),
{
    let a = decimal_spec(o[0] as nat);
    let b = decimal_spec(o[1] as nat);
    let c = decimal_spec(o[2] as nat);
    let d = decimal_spec(o[3] as nat);
    lemma_decimal_digits(o[0] as nat);
    lemma_decimal_digits(o[1] as nat);
    lemma_decimal_digits(o[2] as nat);
    lemma_decimal_digits(o[3] as nat);
    lemma_digits_exclude(a, '.');
    lemma_digits_exclude(b, '.');
    lemma_digits_exclude(c, '.');
    lemma_digits_exclude(d, '.');
    lemma_split_single(a, '.');
    lemma_split_single(b, '.');
    lemma_split_single(c, '.');
    lemma_split_single(d, '.');
    lemma_split_join(a, b, '.');
    lemma_split_join(a + seq!['.'] + b, c, '.');
    lemma_split_join(a + seq!['.'] + b + seq!['.'] + c, d, '.');
    let parts = split_spec(dotted_spec(o), '.');
    assert(parts =~= seq![a, b, c, d]);
    lemma_octet_of_decimal(o[0]);
    lemma_octet_of_decimal(o[1]);
    lemma_octet_of_decimal(o[2]);
    lemma_octet_of_decimal(o[3]);
    assert(seq![o[0], o[1], o[2], o[3]] =~= o);
}

/// Reads one dotted-decimal component.
fn parse_octet(p: &str) -> (r: Option<u8>)
    ensures
        r == octet_spec(p@),
{
    let n = p.unicode_len();
    if n < 1 || n > 3 {
        return None;
    }
    let first = p.get_char(0);
    if first == '+' {
        assert(!is_digit(p@[0]));
        return None;
    }
    if n > 1 && first == '0' {
        return None;
    }
    proof {
        if all_digits(p@) {
            lemma_digits_bound(p@);
            reveal_with_fuel(pow10, 4);
        }
    }
    match parse_u16(p) {
        None => None,
        Some(v) => {
            if v > 255 {
                None
            } else {
                Some(v as u8)
            }
        },
    }
}

impl Ipv4Address {
    /// Reads a dotted-decimal IPv4 literal such as `192.0.2.1`.
    pub fn parse(s: &str) -> (r: Option<Ipv4Address>)
        ensures
            r matches Some(a) ==> address_spec(s@) == Some(a.octets@),
            r is None <==> address_spec(s@) is None,
    {
        let parts = split_fields(s, '.');
        if parts.len() != 4 {
            return None;
        }
        let a = parse_octet(parts[0]);
        let b = parse_octet(parts[1]);
        let c = parse_octet(parts[2]);
        let d = parse_octet(parts[3]);
        match (a, b, c, d) {
            (Some(a), Some(b), Some(c), Some(d)) => {
                let r = Ipv4Address { octets: [a, b, c, d] };
                assert(r.octets@ =~= seq![a, b, c, d]);
                Some(r)
            },
            _ => None,
        }
    }

    /// The dotted-decimal writing of this address.
    pub fn dotted(&self) -> (r: String)
        ensures
            r@ == dotted_spec(self.octets@),
    {
        proof {
            reveal_strlit(".");
        }
        let mut out = String::new();
        push_decimal(&mut out, self.octets[0] as u64);
        out.append(".");
        push_decimal(&mut out, self.octets[1] as u64);
        out.append(".");
        push_decimal(&mut out, self.octets[2] as u64);
        out.append(".");
        push_decimal(&mut out, self.octets[3] as u64);
        assert(out@ =~= dotted_spec(self.octets@));
        out
    }
}

} // verus!
