//! Addresses as octets and as text.

use crate::text::{has_colon, push_decimal};
use vstd::prelude::*;
use vstd::string::StringExecFns;

verus! {

/// The number that octets spell in network order.
pub open spec fn be_value(octets: Seq<u8>) -> nat
    decreases octets.len(),
{
    if octets.len() == 0 {
        0
    } else {
        be_value(octets.drop_last()) * 256 + octets.last() as nat
    }
}

/// The low `count` octets of a number in network order.
pub open spec fn be_octets(value: nat, count: nat) -> Seq<u8>
    decreases count,
{
    if count == 0 {
        Seq::empty()
    } else {
        be_octets(value / 256, (count - 1) as nat).push((value % 256) as u8)
    }
}

/// Appends the low `count` octets of `value` in network order.
pub fn push_octets(out: &mut Vec<u8>, value: u128, count: usize)
    ensures
        final(out)@ == old(out)@ + be_octets(value as nat, count as nat),
    decreases count,
{
    if count > 0 {
        push_octets(out, value / 256, count - 1);
        out.push((value % 256) as u8);
    }
    assert(out@ =~= old(out)@ + be_octets(value as nat, count as nat));
}

/// The number that the octets from `start` up to `end` spell.
pub fn read_octets(octets: &[u8], start: usize, end: usize) -> (value: u128)
    requires
        start <= end <= octets@.len(),
        end - start <= 16,
    ensures
        value == be_value(octets@.subrange(start as int, end as int)),
{
    let mut value: u128 = 0;
    let mut i: usize = start;
    proof {
        lemma_value_bound(octets@.subrange(start as int, end as int));
    }
    while i < end
        invariant
            start <= i <= end <= octets@.len(),
            end - start <= 16,
            value == be_value(octets@.subrange(start as int, i as int)),
        decreases end - i,
    {
        let ghost next = octets@.subrange(start as int, i + 1);
        assert(next.drop_last() =~= octets@.subrange(start as int, i as int));
        proof {
            lemma_value_bound(next);
            lemma_power_of_256(next.len());
        }
        value = value * 256 + octets[i] as u128;
        i = i + 1;
    }
    value
}

/// Whether an octet of `octets` from `start` up to `end` is `wanted`.
pub(crate) fn has_octet(octets: &[u8], start: usize, end: usize, wanted: u8) -> (found: bool)
    requires
        start <= end <= octets@.len(),
    ensures
        found == octets@.subrange(start as int, end as int).contains(wanted),
{
    let ghost range = octets@.subrange(start as int, end as int);
    let mut i: usize = start;
    while i < end
        invariant
            start <= i <= end <= octets@.len(),
            range == octets@.subrange(start as int, end as int),
            forall|j: int| 0 <= j < i - start ==> range[j] != wanted,
        decreases end - i,
    {
        assert(range[i - start] == octets@[i as int]);
        if octets[i] == wanted {
            return true;
        }
        i = i + 1;
    }
    false
}

/// Whether the octets from `start` up to `end` are those of `other`.
pub(crate) fn same_octets(octets: &[u8], start: usize, end: usize, other: &[u8]) -> (same: bool)
    requires
        start <= end <= octets@.len(),
    ensures
        same == (octets@.subrange(start as int, end as int) == other@),
{
    let ghost range = octets@.subrange(start as int, end as int);
    if end - start != other.len() {
        return false;
    }
    let mut i: usize = 0;
    while i < other.len()
        invariant
            start <= end <= octets@.len(),
            end - start == other@.len(),
            i <= other@.len(),
            range == octets@.subrange(start as int, end as int),
            forall|j: int| 0 <= j < i ==> range[j] == other@[j],
        decreases other@.len() - i,
    {
        assert(range[i as int] == octets@[start + i]);
        if octets[start + i] != other[i] {
            return false;
        }
        i = i + 1;
    }
    assert(range =~= other@);
    true
}

/// `256` to the power of `count`.
pub open spec fn power_of_256(count: nat) -> nat
    decreases count,
{
    if count == 0 {
        1
    } else {
        256 * power_of_256((count - 1) as nat)
    }
}

proof fn lemma_power_of_256(count: nat)
    requires
        count <= 16,
    ensures
        power_of_256(count) <= u128::MAX + 1,
{
    reveal_with_fuel(power_of_256, 17);
}

proof fn lemma_value_bound(octets: Seq<u8>)
    ensures
        be_value(octets) < power_of_256(octets.len()),
    decreases octets.len(),
{
    if octets.len() > 0 {
        lemma_value_bound(octets.drop_last());
    }
}

/// Two octets spell a number of sixteen bits.
pub(crate) proof fn lemma_two_octets(octets: Seq<u8>)
    requires
        octets.len() == 2,
    ensures
        be_value(octets) <= u16::MAX,
{
    lemma_value_bound(octets);
    reveal_with_fuel(power_of_256, 3);
}

/// Octets are read back from the number they spell.
pub proof fn law_octets_are_read_back(octets: Seq<u8>)
    ensures
        be_octets(be_value(octets), octets.len()) == octets,
    decreases octets.len(),
{
    if octets.len() > 0 {
        law_octets_are_read_back(octets.drop_last());
        assert(octets =~= octets.drop_last().push(octets.last()));
    } else {
        assert(octets =~= Seq::empty());
    }
}

/// A number that fits into `count` octets is read back from them.
pub proof fn law_number_is_read_back(value: nat, count: nat)
    requires
        value < power_of_256(count),
    ensures
        be_octets(value, count).len() == count,
        be_value(be_octets(value, count)) == value,
    decreases count,
{
    if count > 0 {
        law_number_is_read_back(value / 256, (count - 1) as nat);
        assert(be_octets(value, count).drop_last() =~= be_octets(value / 256, (count - 1) as nat));
    }
}

pub(crate) proof fn lemma_port_octets(port: u16)
    ensures
        be_octets(port as nat, 2).len() == 2,
        be_value(be_octets(port as nat, 2)) == port,
{
    reveal_with_fuel(power_of_256, 3);
    law_number_is_read_back(port as nat, 2);
}

pub(crate) proof fn lemma_ipv4_octets(ip: u32)
    ensures
        be_octets(ip as nat, 4).len() == 4,
        be_value(be_octets(ip as nat, 4)) == ip,
{
    reveal_with_fuel(power_of_256, 5);
    law_number_is_read_back(ip as nat, 4);
}

pub(crate) proof fn lemma_ipv6_octets(ip: u128)
    ensures
        be_octets(ip as nat, 16).len() == 16,
        be_value(be_octets(ip as nat, 16)) == ip,
{
    reveal_with_fuel(power_of_256, 17);
    law_number_is_read_back(ip as nat, 16);
}

/// The end of a connection: an address and a port.
#[derive(Clone, Copy, Debug, PartialEq, Eq, Structural)]
pub enum SocketAddress {
    V4 { ipv4: u32, port: u16 },
    V6 { ipv6: u128, port: u16, flowinfo: u32, scope_id: u32 },
}

/// The dotted notation of the IPv4 address with these octets.
pub open spec fn dotted(a: u8, b: u8, c: u8, d: u8) -> Seq<char> {
    crate::text::decimal(a as nat) + seq!['.'] + crate::text::decimal(b as nat) + seq!['.']
        + crate::text::decimal(c as nat) + seq!['.'] + crate::text::decimal(d as nat)
}

/// Writes an IPv4 address in dotted notation.
pub fn ipv4_text(a: u8, b: u8, c: u8, d: u8) -> (text: String)
    ensures
        text@ == dotted(a, b, c, d),
{
    proof {
        reveal_strlit(".");
    }
    let mut text = String::new();
    push_decimal(&mut text, a as u64);
    text.append(".");
    push_decimal(&mut text, b as u64);
    text.append(".");
    push_decimal(&mut text, c as u64);
    text.append(".");
    push_decimal(&mut text, d as u64);
    assert("."@ =~= seq!['.']);
    assert(text@ =~= dotted(a, b, c, d));
    text
}

/// The notation in which an IPv6 address is written.
pub uninterp spec fn ipv6_notation(ip: u128) -> Seq<char>;

/// Calls `cidr::Ipv6Cidr::new_host` and its `Display` impl, which writes the
/// address of a network of one address with the standard library's notation
/// and no prefix length.
///
/// Trusted: the text depends on the address alone, and has a colon, since
/// the notation separates the segments of an address by colons.
#[verifier::external_body]
pub(crate) fn ipv6_text(ip: u128) -> (text: String)
    ensures
        text@ == ipv6_notation(ip),
        text@.contains(':'),
{
    cidr::Ipv6Cidr::new_host(ip.into()).to_string()
}

/// Host and port as one text. A host with a colon stands in brackets.
pub open spec fn host_and_port(host: Seq<char>, port: u16) -> Seq<char> {
    if host.contains(':') {
        seq!['['] + host + seq![']', ':'] + crate::text::decimal(port as nat)
    } else {
        host + seq![':'] + crate::text::decimal(port as nat)
    }
}

/// Joins a host and a port into the text that is resolved.
pub fn authority(host: &str, port: u16) -> (text: String)
    ensures
        text@ == host_and_port(host@, port),
{
    proof {
        reveal_strlit("[");
        reveal_strlit("]:");
        reveal_strlit(":");
        assert("["@ =~= seq!['[']);
        assert("]:"@ =~= seq![']', ':']);
        assert(":"@ =~= seq![':']);
    }
    let mut text = String::new();
    if has_colon(host) {
        text.append("[");
        text.append(host);
        text.append("]:");
    } else {
        text.append(host);
        text.append(":");
    }
    push_decimal(&mut text, port as u64);
    assert(text@ =~= host_and_port(host@, port));
    text
}

/// The notation of a socket address whose address is written like this: it
/// stands in brackets, with its scope behind it unless that is zero.
pub open spec fn bracketed(host: Seq<char>, scope_id: u32, port: u16) -> Seq<char> {
    seq!['['] + host + (if scope_id == 0 {
        Seq::empty()
    } else {
        seq!['%'] + crate::text::decimal(scope_id as nat)
    }) + seq![']', ':'] + crate::text::decimal(port as nat)
}

/// The notation of a socket address.
pub open spec fn socket_notation(address: SocketAddress) -> Seq<char> {
    match address {
        SocketAddress::V4 { ipv4: ip, port } => dotted(
            (ip / 0x100_0000) as u8,
            (ip / 0x1_0000 % 0x100) as u8,
            (ip / 0x100 % 0x100) as u8,
            (ip % 0x100) as u8,
        ) + seq![':'] + crate::text::decimal(port as nat),
        SocketAddress::V6 { ipv6: ip, port, flowinfo: _, scope_id } => bracketed(
            ipv6_notation(ip),
            scope_id,
            port,
        ),
    }
}

/// Writes a socket address whose address is written as `host`.
pub fn bracketed_text(host: &str, scope_id: u32, port: u16) -> (text: String)
    ensures
        text@ == bracketed(host@, scope_id, port),
{
    proof {
        reveal_strlit("[");
        reveal_strlit("%");
        reveal_strlit("]:");
        assert("["@ =~= seq!['[']);
        assert("%"@ =~= seq!['%']);
        assert("]:"@ =~= seq![']', ':']);
    }
    let mut text = "[".to_owned();
    text.append(host);
    if scope_id != 0 {
        text.append("%");
        push_decimal(&mut text, scope_id as u64);
    }
    text.append("]:");
    push_decimal(&mut text, port as u64);
    assert(text@ =~= bracketed(host@, scope_id, port));
    text
}

/// Writes a socket address.
pub fn socket_text(address: SocketAddress) -> (text: String)
    ensures
        text@ == socket_notation(address),
{
    match address {
        SocketAddress::V4 { ipv4: ip, port } => {
            proof {
                reveal_strlit(":");
                assert(":"@ =~= seq![':']);
            }
            let mut text = ipv4_text(
                (ip / 0x100_0000) as u8,
                (ip / 0x1_0000 % 0x100) as u8,
                (ip / 0x100 % 0x100) as u8,
                (ip % 0x100) as u8,
            );
            text.append(":");
            push_decimal(&mut text, port as u64);
            text
        },
        SocketAddress::V6 { ipv6: ip, port, flowinfo: _, scope_id } => {
            let host = ipv6_text(ip);
            bracketed_text(host.as_str(), scope_id, port)
        },
    }
}

/// The notation of an IPv4 address stands before a port as it is.
pub proof fn law_ipv4_host_is_not_bracketed(a: u8, b: u8, c: u8, d: u8, port: u16)
    ensures
        host_and_port(dotted(a, b, c, d), port) == dotted(a, b, c, d) + seq![':']
            + crate::text::decimal(port as nat),
{
    crate::text::lemma_decimal_digits(a as nat);
    crate::text::lemma_decimal_digits(b as nat);
    crate::text::lemma_decimal_digits(c as nat);
    crate::text::lemma_decimal_digits(d as nat);
    let text = dotted(a, b, c, d);
    assert forall|i: int| 0 <= i < text.len() implies text[i] != ':' by {
        let first = crate::text::decimal(a as nat);
        let second = crate::text::decimal(b as nat);
        let third = crate::text::decimal(c as nat);
        let fourth = crate::text::decimal(d as nat);
        let s1 = first.len() as int;
        let s2 = s1 + 1 + second.len();
        let s3 = s2 + 1 + third.len();
        if i < s1 {
            assert(text[i] == first[i]);
        } else if s1 < i < s2 {
            assert(text[i] == second[i - s1 - 1]);
        } else if s2 < i < s3 {
            assert(text[i] == third[i - s2 - 1]);
        } else if s3 < i {
            assert(text[i] == fourth[i - s3 - 1]);
        }
    }
}

} // verus!
