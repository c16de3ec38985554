use ipv6_pool_proxy::address::SocketAddress;
use ipv6_pool_proxy::socks5::{
    authenticate, encode_reply, negotiate_auth, read_connect_request, read_port, ErrorKind,
    RequestVerdict, Socks5Error, Verdict,
};

fn refused(error: Socks5Error) -> Verdict {
    Verdict::Refused { error }
}

fn target(read: &[u8]) -> (String, u16) {
    match read_connect_request(read) {
        RequestVerdict::Connect { target } => (target.host, target.port),
        other => panic!("{other:?}"),
    }
}

fn lacks(read: &[u8]) -> usize {
    match read_connect_request(read) {
        RequestVerdict::Need { count } => count,
        other => panic!("{other:?}"),
    }
}

fn request_error(read: &[u8]) -> Socks5Error {
    match read_connect_request(read) {
        RequestVerdict::Refused { error } => error,
        other => panic!("{other:?}"),
    }
}

#[test]
fn greeting_is_read_in_two_pieces() {
    assert_eq!(negotiate_auth(&[]), Verdict::Need { count: 2 });
    assert_eq!(negotiate_auth(&[5]), Verdict::Need { count: 1 });
    assert_eq!(negotiate_auth(&[5, 3]), Verdict::Need { count: 3 });
    assert_eq!(negotiate_auth(&[5, 3, 2]), Verdict::Need { count: 2 });
    assert_eq!(negotiate_auth(&[5, 3, 0, 1, 2]), Verdict::Accepted);
    assert_eq!(negotiate_auth(&[5, 1, 2, 99, 99]), Verdict::Accepted);
}

#[test]
fn greeting_is_refused() {
    assert_eq!(negotiate_auth(&[4, 1]), refused(Socks5Error::InvalidVersion));
    assert_eq!(negotiate_auth(&[5, 0]), refused(Socks5Error::AuthNotOffered));
    assert_eq!(negotiate_auth(&[5, 2, 0, 1]), refused(Socks5Error::AuthNotOffered));
    assert_eq!(negotiate_auth(&[5, 1, 0, 2]), refused(Socks5Error::AuthNotOffered));
}

#[test]
fn credentials_are_read_in_five_pieces() {
    let all = [1u8, 2, b'm', b'e', 3, b'k', b'e', b'y'];
    let asked = [(0usize, 1usize), (1, 1), (2, 2), (3, 1), (4, 1), (5, 3), (7, 1)];
    for (length, count) in asked {
        assert_eq!(authenticate(&all[..length], "me", "key"), Verdict::Need { count });
    }
    assert_eq!(authenticate(&all, "me", "key"), Verdict::Accepted);
    assert_eq!(authenticate(&all, "me", "kex"), refused(Socks5Error::BadCredentials));
    assert_eq!(authenticate(&all, "m", "key"), refused(Socks5Error::BadCredentials));
    assert_eq!(authenticate(&all, "", ""), refused(Socks5Error::BadCredentials));
}

#[test]
fn credentials_of_another_version_are_refused() {
    assert_eq!(authenticate(&[5], "", ""), refused(Socks5Error::InvalidAuthVersion));
}

#[test]
fn credentials_may_be_empty_or_beyond_ascii() {
    assert_eq!(authenticate(&[1, 0], "", ""), Verdict::Need { count: 1 });
    assert_eq!(authenticate(&[1, 0, 0], "", ""), Verdict::Accepted);
    assert_eq!(authenticate(&[1, 2, 0xc3, 0xa9, 0], "\u{e9}", ""), Verdict::Accepted);
    assert_eq!(
        authenticate(&[1, 1, 0xe9, 0], "\u{e9}", ""),
        refused(Socks5Error::BadCredentials)
    );
}

#[test]
fn request_for_an_ipv4_address() {
    assert_eq!(lacks(&[]), 4);
    assert_eq!(lacks(&[5, 1, 0]), 1);
    assert_eq!(lacks(&[5, 1, 0, 1]), 4);
    assert_eq!(lacks(&[5, 1, 0, 1, 192, 0, 2]), 1);
    assert_eq!(lacks(&[5, 1, 0, 1, 192, 0, 2, 10]), 2);
    assert_eq!(
        target(&[5, 1, 0, 1, 192, 0, 2, 10, 0x1f, 0x90]),
        (String::from("192.0.2.10"), 8080)
    );
}

#[test]
fn request_for_an_ipv6_address() {
    let mut read = vec![5u8, 1, 0, 4];
    assert_eq!(lacks(&read), 16);
    read.extend_from_slice(&(0x2001_0db8u128 << 96 | 0x42).to_be_bytes());
    assert_eq!(lacks(&read), 2);
    read.extend_from_slice(&[1, 187]);
    assert_eq!(target(&read), (String::from("2001:db8::42"), 443));
}

#[test]
fn request_for_a_name() {
    assert_eq!(lacks(&[5, 1, 0, 3]), 1);
    assert_eq!(lacks(&[5, 1, 0, 3, 2]), 2);
    assert_eq!(lacks(&[5, 1, 0, 3, 2, b'a', b'b']), 2);
    assert_eq!(
        target(&[5, 1, 0, 3, 2, b'a', b'b', 0, 80, 1, 2, 3]),
        (String::from("ab"), 80)
    );
    assert_eq!(target(&[5, 1, 0, 3, 0, 0, 0]), (String::new(), 0));
    assert_eq!(
        target(&[5, 1, 0, 3, 2, 0xc3, 0xa9, 0xff, 0xff]),
        (String::from("\u{e9}"), 65535)
    );
}

#[test]
fn request_is_refused() {
    assert_eq!(request_error(&[4, 1, 0, 1]), Socks5Error::UnsupportedCommand);
    assert_eq!(request_error(&[5, 2, 0, 1]), Socks5Error::UnsupportedCommand);
    assert_eq!(request_error(&[5, 1, 1, 1]), Socks5Error::UnsupportedCommand);
    assert_eq!(request_error(&[5, 1, 0, 2]), Socks5Error::UnsupportedAddressType);
    assert_eq!(request_error(&[5, 1, 0, 3, 1, 0xff]), Socks5Error::InvalidDomain);
}

#[test]
fn rest_of_a_request_is_its_port() {
    let host = String::from("somewhere");
    match read_port(&[9, 9, 0x12, 0x34], host, 2) {
        RequestVerdict::Connect { target } => {
            assert_eq!(target.host, "somewhere");
            assert_eq!(target.port, 0x1234);
        }
        other => panic!("{other:?}"),
    }
}

#[test]
fn replies_are_encoded() {
    let v4 = SocketAddress::V4 { ipv4: 0xc000_020a, port: 8080 };
    assert_eq!(encode_reply(0, Some(v4)), vec![5, 0, 0, 1, 192, 0, 2, 10, 0x1f, 0x90]);
    let v6 = SocketAddress::V6 { ipv6: 1, port: 443, flowinfo: 5, scope_id: 6 };
    assert_eq!(
        encode_reply(0, Some(v6)),
        vec![5, 0, 0, 4, 0, 0, 0, 0, 0, 0, 0, 0, 0, 0, 0, 0, 0, 0, 0, 1, 1, 187]
    );
    let mut none = vec![5u8, 5, 0, 4];
    none.resize(22, 0);
    assert_eq!(encode_reply(5, None), none);
}

#[test]
fn errors_have_a_class_a_message_and_maybe_a_reply() {
    let expected = [
        (Socks5Error::InvalidVersion, ErrorKind::InvalidData, "invalid SOCKS version"),
        (
            Socks5Error::AuthNotOffered,
            ErrorKind::PermissionDenied,
            "username/password auth not offered",
        ),
        (Socks5Error::InvalidAuthVersion, ErrorKind::InvalidData, "invalid auth version"),
        (Socks5Error::BadCredentials, ErrorKind::PermissionDenied, "bad credentials"),
        (
            Socks5Error::UnsupportedCommand,
            ErrorKind::InvalidData,
            "only SOCKS5 CONNECT is supported",
        ),
        (Socks5Error::InvalidDomain, ErrorKind::InvalidData, "invalid domain"),
        (
            Socks5Error::UnsupportedAddressType,
            ErrorKind::InvalidData,
            "unsupported address type",
        ),
    ];
    for (error, kind, message) in expected {
        assert_eq!(error.kind(), kind);
        assert_eq!(error.message(), message);
        let reply = match error {
            Socks5Error::AuthNotOffered => Some(vec![5u8, 0xff]),
            Socks5Error::BadCredentials => Some(vec![1u8, 1]),
            _ => None,
        };
        assert_eq!(error.reply(), reply);
    }
}
