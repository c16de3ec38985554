use ipv6_pool_proxy::address::{
    authority, bracketed_text, ipv4_text, push_octets, read_octets, socket_text, SocketAddress,
};
use ipv6_pool_proxy::text::{has_colon, parse_decimal, push_decimal, same_text};

#[test]
fn numbers_are_written_in_decimal() {
    let mut text = String::from("n=");
    push_decimal(&mut text, 0);
    push_decimal(&mut text, 907);
    push_decimal(&mut text, u64::MAX);
    assert_eq!(text, "n=090718446744073709551615");
}

#[test]
fn numbers_are_read_in_decimal() {
    assert_eq!(parse_decimal("0", 10), Some(0));
    assert_eq!(parse_decimal("+007", 10), Some(7));
    assert_eq!(parse_decimal("18446744073709551615", u64::MAX), Some(u64::MAX));
}

#[test]
fn text_that_is_no_number_is_not_read() {
    for text in ["", "+", "-1", "++1", "1 ", " 1", "1a", "\u{661}", "0x10", "1.0"] {
        assert_eq!(parse_decimal(text, u64::MAX), None, "{text:?}");
    }
    assert_eq!(parse_decimal("11", 10), None);
    assert_eq!(parse_decimal("18446744073709551616", u64::MAX), None);
    assert_eq!(parse_decimal("99999999999999999999999999999999999999999", u64::MAX), None);
}

#[test]
fn number_is_read_back_from_its_notation() {
    for n in [0u64, 9, 10, 60, 1000, u64::MAX] {
        let mut text = String::new();
        push_decimal(&mut text, n);
        assert_eq!(parse_decimal(&text, u64::MAX), Some(n));
        assert_eq!(text.parse::<u64>(), Ok(n));
    }
}

#[test]
fn texts_are_searched_and_compared() {
    assert!(has_colon("a:b"));
    assert!(!has_colon("a\u{ff1a}b"));
    assert!(!has_colon(""));
    assert!(same_text("caf\u{e9}", "caf\u{e9}"));
    assert!(!same_text("cafe", "caf\u{e9}"));
    assert!(!same_text("a", "ab"));
}

#[test]
fn octets_stand_in_network_order() {
    let mut octets: Vec<u8> = vec![9];
    push_octets(&mut octets, 0x1_0203, 2);
    assert_eq!(octets, vec![9, 2, 3]);
    assert_eq!(read_octets(&[9, 2, 3], 1, 3), 0x0203);
    assert_eq!(read_octets(&[255; 16], 0, 16), u128::MAX);
    assert_eq!(read_octets(&[1], 1, 1), 0);
}

#[test]
fn octets_are_read_back() {
    let ip: u128 = 0x2001_0db8_0000_0000_0000_00ff_fe00_0042;
    let mut octets: Vec<u8> = Vec::new();
    push_octets(&mut octets, ip, 16);
    assert_eq!(octets, ip.to_be_bytes().to_vec());
    assert_eq!(read_octets(&octets, 0, 16), ip);
}

#[test]
fn ipv4_addresses_are_dotted() {
    assert_eq!(ipv4_text(192, 0, 2, 10), "192.0.2.10");
    assert_eq!(ipv4_text(0, 0, 0, 0), "0.0.0.0");
    assert_eq!(ipv4_text(255, 255, 255, 255), "255.255.255.255");
}

#[test]
fn hosts_with_a_colon_are_bracketed() {
    assert_eq!(authority("2001:db8::1", 443), "[2001:db8::1]:443");
    assert_eq!(authority("example.com", 80), "example.com:80");
    assert_eq!(authority("", 0), ":0");
    assert_eq!(authority(&ipv4_text(192, 0, 2, 10), 65535), "192.0.2.10:65535");
}

#[test]
fn socket_addresses_are_written() {
    let ip: u128 = 0x2001_0db8_0000_0000_0000_0000_0000_0001;
    let plain = SocketAddress::V6 { ipv6: ip, port: 443, flowinfo: 7, scope_id: 0 };
    assert_eq!(socket_text(plain), "[2001:db8::1]:443");
    let scoped = SocketAddress::V6 { ipv6: 0xfe80 << 112 | 1, port: 1, flowinfo: 0, scope_id: 3 };
    assert_eq!(socket_text(scoped), "[fe80::1%3]:1");
    let v4 = SocketAddress::V4 { ipv4: 0xc000_020a, port: 8080 };
    assert_eq!(socket_text(v4), "192.0.2.10:8080");
    assert_eq!(bracketed_text("::", 0, 0), "[::]:0");
}
