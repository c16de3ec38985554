use ipv6_pool_proxy::subnet::{parse_subnet, random_ipv6, splice_address, InvalidSubnet, Subnet};

const NETWORK: u128 = 0x2001_19f0_6001_48e4_0000_0000_0000_0000;

#[test]
fn subnet_is_read_from_cidr_notation() {
    let subnet = Subnet { address: NETWORK, prefix_len: 64 };
    assert_eq!(parse_subnet("2001:19f0:6001:48e4::/64"), Ok(subnet));
    assert_eq!(parse_subnet("::/0"), Ok(Subnet { address: 0, prefix_len: 0 }));
}

#[test]
fn address_without_a_length_is_a_network_of_one() {
    assert_eq!(parse_subnet("::1"), Ok(Subnet { address: 1, prefix_len: 128 }));
}

#[test]
fn text_that_is_no_network_is_rejected() {
    assert_eq!(parse_subnet("2001:19f0:6001:48e4::1/64"), Err(InvalidSubnet));
    assert_eq!(parse_subnet("2001:19f0:6001:48e4::/129"), Err(InvalidSubnet));
    assert_eq!(parse_subnet("10.0.0.0/8"), Err(InvalidSubnet));
    assert_eq!(parse_subnet(""), Err(InvalidSubnet));
}

#[test]
fn splicing_keeps_the_prefix_and_takes_the_host_bits() {
    let host: u128 = 0xffff_ffff_ffff_ffff_1234_5678_9abc_def0;
    assert_eq!(
        splice_address(NETWORK, 64, host),
        0x2001_19f0_6001_48e4_1234_5678_9abc_def0
    );
    assert_eq!(
        splice_address(NETWORK | 0xff, 64, host),
        0x2001_19f0_6001_48e4_1234_5678_9abc_def0
    );
    assert_eq!(splice_address(u128::MAX, 1, 0), 1u128 << 127);
    assert_eq!(splice_address(u128::MAX, 127, 0), u128::MAX - 1);
}

#[test]
fn splicing_at_the_extremes() {
    assert_eq!(splice_address(NETWORK, 128, 77), NETWORK);
    assert_eq!(splice_address(NETWORK, 0, 77), 77);
}

#[test]
fn every_address_of_a_network_can_be_drawn() {
    let ip = NETWORK | 0xabcd;
    assert_eq!(splice_address(NETWORK, 64, ip), ip);
}

#[test]
fn random_addresses_lie_in_the_network_and_differ() {
    let first = random_ipv6(NETWORK, 64);
    let second = random_ipv6(NETWORK, 64);
    assert_eq!(first >> 64, NETWORK >> 64);
    assert_eq!(second >> 64, NETWORK >> 64);
    assert_ne!(first, second);
    assert_eq!(random_ipv6(NETWORK, 128), NETWORK);
    assert_ne!(random_ipv6(NETWORK, 0), random_ipv6(NETWORK, 0));
}
