//! IPv6 networks: reading them from text and drawing addresses out of them.
//!
//! An address is the 128-bit number that its sixteen octets spell in network
//! order.

use vstd::prelude::*;

verus! {

/// How many addresses share one prefix of `prefix_len` bits.
pub open spec fn block_size(prefix_len: u8) -> nat {
    vstd::arithmetic::power2::pow2((128 - prefix_len) as nat)
}

/// The two addresses agree in their first `prefix_len` bits.
pub open spec fn same_network(a: u128, b: u128, prefix_len: u8) -> bool {
    a as nat / block_size(prefix_len) == b as nat / block_size(prefix_len)
}

/// The address whose first `prefix_len` bits are those of `network` and whose
/// other bits are those of `host`.
pub open spec fn spliced(network: u128, prefix_len: u8, host: u128) -> nat {
    (network as nat / block_size(prefix_len)) * block_size(prefix_len) + host as nat % block_size(
        prefix_len,
    )
}

/// Writes `host` into the bits of `network` behind the first `prefix_len`.
pub fn splice_address(network: u128, prefix_len: u8, host: u128) -> (ip: u128)
    requires
        prefix_len <= 128,
    ensures
        ip == spliced(network, prefix_len, host),
{
    proof {
        lemma_spliced_bits(network, prefix_len, host);
    }
    if prefix_len == 128 {
        return network;
    }
    if prefix_len == 0 {
        return host;
    }
    let host_bits: u8 = 128 - prefix_len;
    let net_mask: u128 = u128::MAX << host_bits;
    let host_mask: u128 = !net_mask;
    (network & net_mask) | (host & host_mask)
}

/// The error that `cidr` reports for text that is no network.
#[verifier::external_type_specification]
#[verifier::external_body]
pub struct ExNetworkParseError(cidr::errors::NetworkParseError);

/// The network that `cidr` reads in a text, as its first address and its
/// prefix length; `None` where the text is no IPv6 network.
pub uninterp spec fn cidr_network(text: Seq<char>) -> Option<(u128, u8)>;

/// Calls the `FromStr` impl of `cidr::Ipv6Cidr` and takes the network apart
/// with `first_address` and `network_length`.
///
/// Trusted: the outcome depends on the text alone; a prefix has at most 128
/// bits, and the bits of the first address behind the prefix are zero. Which
/// texts are networks is not stated.
#[verifier::external_body]
fn parse_cidr(text: &str) -> (parsed: Result<(u128, u8), cidr::errors::NetworkParseError>)
    ensures
        match parsed {
            Ok(network) => cidr_network(text@) == Some(network),
            Err(_) => cidr_network(text@) is None,
        },
        parsed matches Ok(network) ==> network.1 <= 128 && network.0 as nat % block_size(network.1)
            == 0,
{
    match text.parse::<cidr::Ipv6Cidr>() {
        Ok(network) => Ok((u128::from(network.first_address()), network.network_length())),
        Err(error) => Err(error),
    }
}

/// Calls `rand::Rng::gen` for a `u128` on `rand::thread_rng`.
///
/// Trusted: nothing; any value may come back. A system without a source of
/// randomness makes the call panic.
#[verifier::external_body]
pub(crate) fn random_u128() -> (value: u128)
{
    rand::Rng::gen(&mut rand::thread_rng())
}

/// The random source gave this number when it was asked.
pub closed spec fn random_gave(number: u128) -> bool {
    call_ensures(random_u128, (), number)
}

/// Asks the random source for a number.
pub(crate) fn draw() -> (number: u128)
    ensures
        random_gave(number),
{
    random_u128()
}

/// An IPv6 network.
#[derive(Clone, Copy, Debug, PartialEq, Eq, Structural)]
pub struct Subnet {
    pub address: u128,
    pub prefix_len: u8,
}

/// The text names no IPv6 network.
#[derive(Clone, Copy, Debug, PartialEq, Eq, Structural)]
pub struct InvalidSubnet;

impl Subnet {
    /// The prefix fits an address, and `address` is the network's first one.
    pub open spec fn well_formed(self) -> bool {
        &&& self.prefix_len <= 128
        &&& self.address as nat % block_size(self.prefix_len) == 0
    }

    /// The addresses of the network.
    pub open spec fn contains(self, ip: u128) -> bool {
        same_network(ip, self.address, self.prefix_len)
    }
}

/// Reads a network in CIDR notation.
pub fn parse_subnet(text: &str) -> (parsed: Result<Subnet, InvalidSubnet>)
    ensures
        match parsed {
            Ok(subnet) => cidr_network(text@) == Some((subnet.address, subnet.prefix_len)),
            Err(_) => cidr_network(text@) is None,
        },
        parsed matches Ok(subnet) ==> subnet.well_formed(),
{
    match parse_cidr(text) {
        Ok(network) => Ok(Subnet { address: network.0, prefix_len: network.1 }),
        Err(_) => Err(InvalidSubnet),
    }
}

/// A random address among those that share the first `prefix_len` bits of
/// `ipv6`.
pub fn random_ipv6(ipv6: u128, prefix_len: u8) -> (ip: u128)
    requires
        prefix_len <= 128,
    ensures
        exists|host: u128| #[trigger] random_gave(host) && ip == spliced(ipv6, prefix_len, host),
        same_network(ip, ipv6, prefix_len),
{
    let host: u128 = random_u128();
    let ip: u128 = splice_address(ipv6, prefix_len, host);
    proof {
        assert(random_gave(host));
        law_spliced_address_stays_in_network(ipv6, prefix_len, host);
    }
    ip
}

/// A spliced address is an address, lies in the network whose prefix it was
/// given and carries the host's bits behind that prefix.
pub proof fn law_spliced_address_stays_in_network(network: u128, prefix_len: u8, host: u128)
    requires
        prefix_len <= 128,
    ensures
        spliced(network, prefix_len, host) <= u128::MAX,
        same_network(spliced(network, prefix_len, host) as u128, network, prefix_len),
        spliced(network, prefix_len, host) % block_size(prefix_len) == host as nat % block_size(
            prefix_len,
        ),
{
    let size = block_size(prefix_len) as int;
    vstd::arithmetic::power2::lemma_pow2_pos((128 - prefix_len) as nat);
    lemma_spliced_bits(network, prefix_len, host);
    let q = network as int / size;
    let r = host as int % size;
    vstd::arithmetic::div_mod::lemma_mod_bound(host as int, size);
    vstd::arithmetic::div_mod::lemma_fundamental_div_mod_converse(q * size + r, size, q, r);
}

/// Every address of a network can be drawn: it is what splicing gives for its
/// own host bits.
pub proof fn law_every_address_can_be_drawn(network: u128, prefix_len: u8, ip: u128)
    requires
        prefix_len <= 128,
        same_network(ip, network, prefix_len),
    ensures
        spliced(network, prefix_len, ip) == ip,
{
    let size = block_size(prefix_len) as int;
    vstd::arithmetic::power2::lemma_pow2_pos((128 - prefix_len) as nat);
    vstd::arithmetic::div_mod::lemma_fundamental_div_mod(ip as int, size);
    let q = ip as int / size;
    assert(q * size == size * q) by (nonlinear_arith);
}

/// A network of one address gives that address, and the network of all
/// addresses gives the host's number.
pub proof fn law_spliced_extremes(network: u128, host: u128)
    ensures
        spliced(network, 128, host) == network,
        spliced(network, 0, host) == host,
{
    lemma_spliced_bits(network, 128, host);
    lemma_spliced_bits(network, 0, host);
}

/// The bits of the given address behind the prefix do not matter.
pub proof fn law_spliced_ignores_host_bits(a: u128, b: u128, prefix_len: u8, host: u128)
    requires
        prefix_len <= 128,
        same_network(a, b, prefix_len),
    ensures
        spliced(a, prefix_len, host) == spliced(b, prefix_len, host),
{
}

/// The bit of a number at a place, counted from the front as in an address.
pub open spec fn bit_at(number: u128, place: u8) -> u128 {
    (number >> ((127 - place) as u8)) & 1
}

/// Each bit of a spliced address comes from the network up to the end of the
/// prefix, and from the host behind it.
pub proof fn law_spliced_bit_by_bit(
    network: u128,
    prefix_len: u8,
    host: u128,
    place: u8,
    ip: u128,
)
    requires
        prefix_len <= 128,
        place < 128,
        call_ensures(splice_address, (network, prefix_len, host), ip),
    ensures
        bit_at(ip, place) == bit_at(
            if place < prefix_len {
                network
            } else {
                host
            },
            place,
        ),
{
    lemma_bit_of_spliced(network, prefix_len, host, place);
}

/// What the random source gave is what a call of it came back with, and
/// nothing else.
pub(crate) proof fn law_random_source_gives_what_its_calls_do(number: u128)
    ensures
        random_gave(number) <==> call_ensures(random_u128, (), number),
{
}

/// A random address is made of the very number that the random source gave:
/// every bit behind the prefix is the one that was drawn, whatever the length
/// of the prefix, and every bit of the prefix is the network's.
pub proof fn law_random_address_has_the_drawn_bits(ipv6: u128, prefix_len: u8, ip: u128)
    requires
        prefix_len <= 128,
        call_ensures(random_ipv6, (ipv6, prefix_len), ip),
    ensures
        exists|number: u128| #[trigger]
            random_gave(number) && forall|place: u8|
                place < 128 ==> #[trigger] bit_at(ip, place) == bit_at(
                    if place < prefix_len {
                        ipv6
                    } else {
                        number
                    },
                    place,
                ),
{
    let number = choose|number: u128| #[trigger]
        random_gave(number) && ip == spliced(ipv6, prefix_len, number);
    assert forall|place: u8| place < 128 implies #[trigger] bit_at(ip, place) == bit_at(
        if place < prefix_len {
            ipv6
        } else {
            number
        },
        place,
    ) by {
        lemma_bit_of_spliced(ipv6, prefix_len, number, place);
    }
}

/// A network that was read has a prefix that fits an address, and its address
/// has no bit behind the prefix. The same text is read as the same network
/// each time.
pub proof fn law_network_has_no_bits_behind_its_prefix(
    text: &str,
    again: &str,
    subnet: Subnet,
    second: Result<Subnet, InvalidSubnet>,
    place: u8,
)
    requires
        call_ensures(parse_subnet, (text,), Ok::<Subnet, InvalidSubnet>(subnet)),
        call_ensures(parse_subnet, (again,), second),
        again@ == text@,
        place < 128,
    ensures
        subnet.prefix_len <= 128,
        place >= subnet.prefix_len ==> bit_at(subnet.address, place) == 0,
        second == Ok::<Subnet, InvalidSubnet>(subnet),
{
    let address = subnet.address;
    let size = block_size(subnet.prefix_len);
    vstd::arithmetic::power2::lemma_pow2_pos((128 - subnet.prefix_len) as nat);
    vstd::arithmetic::div_mod::lemma_fundamental_div_mod(address as int, size as int);
    vstd::arithmetic::div_mod::lemma_small_mod(0, size);
    assert((address as nat / size) * size == size * (address as nat / size)) by (nonlinear_arith);
    assert(spliced(address, subnet.prefix_len, 0) == address);
    lemma_bit_of_spliced(address, subnet.prefix_len, 0, place);
    let shift: u8 = (127 - place) as u8;
    assert((0u128 >> shift) & 1 == 0) by (bit_vector)
        requires
            shift < 128,
    ;
}

/// Two addresses share a network when, and only when, nothing is left of
/// their difference once the bits behind the prefix are shifted out.
pub proof fn law_network_is_its_prefix(a: u128, b: u128, prefix_len: u8)
    requires
        prefix_len <= 128,
    ensures
        same_network(a, b, prefix_len) <==> prefix_len == 0 || a >> ((128 - prefix_len) as u128)
            == b >> ((128 - prefix_len) as u128),
        (Subnet { address: b, prefix_len }).contains(a) <==> same_network(a, b, prefix_len),
{
    if prefix_len == 0 {
        lemma_spliced_bits(a, 0, b);
        lemma_pow2_128();
        assert(a as nat / block_size(0) == 0 && b as nat / block_size(0) == 0) by (nonlinear_arith)
            requires
                block_size(0) == u128::MAX + 1,
                a <= u128::MAX,
                b <= u128::MAX,
        ;
    } else {
        let shift: u128 = (128 - prefix_len) as u128;
        vstd::bits::lemma_u128_shr_is_div(a, shift);
        vstd::bits::lemma_u128_shr_is_div(b, shift);
    }
}

pub(crate) proof fn lemma_bit_of_spliced(network: u128, prefix_len: u8, host: u128, place: u8)
    requires
        prefix_len <= 128,
        place < 128,
    ensures
        bit_at(spliced(network, prefix_len, host) as u128, place) == bit_at(
            if place < prefix_len {
                network
            } else {
                host
            },
            place,
        ),
{
    lemma_spliced_bits(network, prefix_len, host);
    if 0 < prefix_len < 128 {
        let bits: u8 = (128 - prefix_len) as u8;
        let mask: u128 = u128::MAX << bits;
        let shift: u8 = (127 - place) as u8;
        assert((((network & mask) | (host & !mask)) >> shift) & 1 == (if shift >= bits {
            (network >> shift) & 1
        } else {
            (host >> shift) & 1
        })) by (bit_vector)
            requires
                mask == u128::MAX << bits,
                bits < 128,
                shift < 128,
        ;
    }
}

/// What the mask arithmetic computes, in terms of quotient and remainder.
proof fn lemma_spliced_bits(network: u128, prefix_len: u8, host: u128)
    requires
        prefix_len <= 128,
    ensures
        prefix_len == 128 ==> spliced(network, prefix_len, host) == network,
        prefix_len == 0 ==> spliced(network, prefix_len, host) == host,
        0 < prefix_len < 128 ==> ({
            let mask: u128 = u128::MAX << ((128 - prefix_len) as u8);
            spliced(network, prefix_len, host) == ((network & mask) | (host & !mask))
        }),
{
    let size = block_size(prefix_len);
    vstd::arithmetic::power2::lemma_pow2_pos((128 - prefix_len) as nat);
    if prefix_len == 128 {
        vstd::arithmetic::power2::lemma2_to64();
        assert(size == 1);
    } else if prefix_len == 0 {
        lemma_pow2_128();
        assert(network as nat / size == 0) by (nonlinear_arith)
            requires
                size == u128::MAX + 1,
                network <= u128::MAX,
        ;
        assert(host as nat % size == host) by (nonlinear_arith)
            requires
                size == u128::MAX + 1,
                host <= u128::MAX,
        ;
    } else {
        let bits: u8 = (128 - prefix_len) as u8;
        let wide: u128 = bits as u128;
        let mask: u128 = u128::MAX << bits;
        let top: u128 = network >> wide;
        let kept: u128 = network & mask;
        let low: u128 = host & !mask;
        vstd::bits::lemma_u128_shr_is_div(network, wide);
        vstd::bits::lemma_u128_shr_is_div(host, wide);
        lemma_shl_back(network, wide);
        lemma_shl_back(host, wide);
        assert(mask == u128::MAX << wide) by (bit_vector)
            requires
                mask == u128::MAX << bits,
                wide == bits as u128,
                bits < 128,
        ;
        lemma_mask_is_shift(network, wide);
        lemma_mask_is_shift(host, wide);
        lemma_disjoint_sum(network, host, mask);
        lemma_disjoint_sum(host, host, mask);
        assert((host & mask) | (host & !mask) == host) by (bit_vector);
        vstd::arithmetic::div_mod::lemma_fundamental_div_mod(host as int, size as int);
        assert(((host as nat / size) * size) as int == size * (host as int / size as int))
            by (nonlinear_arith)
            requires
                size > 0,
        ;
    }
}

/// Masking off the low bits is shifting them out and back.
proof fn lemma_mask_is_shift(x: u128, shift: u128)
    by (bit_vector)
    requires
        shift < 128,
    ensures
        (x & (u128::MAX << shift)) == (x >> shift) << shift,
{
}

/// Numbers with no bit in common add up to their union.
proof fn lemma_disjoint_sum(a: u128, b: u128, mask: u128)
    by (bit_vector)
    ensures
        ((a & mask) | (b & !mask)) == (a & mask) + (b & !mask),
{
}

/// Shifting right and back left keeps the multiple of the power of two.
proof fn lemma_shl_back(x: u128, shift: u128)
    requires
        shift < 128,
    ensures
        ((x >> shift) << shift) == (x as nat / vstd::arithmetic::power2::pow2(shift as nat))
            * vstd::arithmetic::power2::pow2(shift as nat),
{
    let y = x >> shift;
    assert(y <= u128::MAX >> shift) by (bit_vector)
        requires
            shift < 128,
            y == x >> shift,
    ;
    lemma_shl_is_mul(y, shift);
    vstd::bits::lemma_u128_shr_is_div(x, shift);
}

/// A left shift that drops no bit multiplies by the power of two.
proof fn lemma_shl_is_mul(y: u128, shift: u128)
    requires
        shift < 128,
        y <= u128::MAX >> shift,
    ensures
        (y << shift) == y * vstd::arithmetic::power2::pow2(shift as nat),
    decreases shift,
{
    vstd::arithmetic::power2::lemma2_to64();
    if shift == 0 {
        assert(y << 0u128 == y) by (bit_vector);
    } else {
        let less = (shift - 1) as u128;
        let twice = y << 1u128;
        assert(twice <= u128::MAX >> less) by (bit_vector)
            requires
                0 < shift < 128,
                less == shift - 1,
                y <= u128::MAX >> shift,
                twice == y << 1u128,
        ;
        assert(y << shift == twice << less) by (bit_vector)
            requires
                0 < shift < 128,
                less == shift - 1,
                twice == y << 1u128,
        ;
        assert(y <= u128::MAX >> 1u128) by (bit_vector)
            requires
                0 < shift < 128,
                y <= u128::MAX >> shift,
        ;
        assert(twice == 2 * y) by (bit_vector)
            requires
                y <= u128::MAX >> 1u128,
                twice == y << 1u128,
        ;
        lemma_shl_is_mul(twice, less);
        vstd::arithmetic::power2::lemma_pow2_unfold(shift as nat);
        let p = vstd::arithmetic::power2::pow2(less as nat);
        assert(y * (2 * p) == (2 * y) * p) by (nonlinear_arith);
    }
}

proof fn lemma_pow2_128()
    ensures
        vstd::arithmetic::power2::pow2(128) == u128::MAX + 1,
{
    vstd::arithmetic::power2::lemma2_to64();
    vstd::arithmetic::power2::lemma2_to64_rest();
    vstd::arithmetic::power2::lemma_pow2_adds(64, 64);
    assert(0x1_0000_0000_0000_0000 * 0x1_0000_0000_0000_0000 == u128::MAX + 1);
}

} // verus!
