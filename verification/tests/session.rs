use ipv6_pool_proxy::address::SocketAddress;
use ipv6_pool_proxy::session::{
    timeout_text, Failure, FailureKind, Session, SessionAction, SessionEvent,
};
use ipv6_pool_proxy::socks5::{ErrorKind, Socks5Error};

const LEASED: u128 = 0x2001_0db8u128 << 96 | 7;

fn v6(ip: u128) -> SocketAddress {
    SocketAddress::V6 { ipv6: ip, port: 443, flowinfo: 0, scope_id: 0 }
}

fn v4() -> SocketAddress {
    SocketAddress::V4 { ipv4: 1, port: 443 }
}

fn on(session: Session, event: SessionEvent) -> Session {
    session.handle(event, "me", "key")
}

fn written(session: &Session) -> Vec<u8> {
    match session.action() {
        SessionAction::Write { bytes } => bytes,
        other => panic!("{other:?}"),
    }
}

/// Lets the session read from the stream and takes its replies until it asks
/// for something else; gives back the session, the replies and the rest of
/// the stream.
fn serve(mut session: Session, stream: &[u8]) -> (Session, Vec<u8>, Vec<u8>) {
    let mut rest = stream.to_vec();
    let mut replies: Vec<u8> = Vec::new();
    loop {
        match session.action() {
            SessionAction::Read { count } if count <= rest.len() => {
                let left = rest.split_off(count);
                session = on(session, SessionEvent::Received { bytes: rest });
                rest = left;
            }
            SessionAction::Write { bytes } => {
                replies.extend_from_slice(&bytes);
                session = on(session, SessionEvent::Written);
            }
            _ => return (session, replies, rest),
        }
    }
}

fn hello() -> Vec<u8> {
    vec![5, 2, 0, 2, 1, 2, b'm', b'e', 3, b'k', b'e', b'y']
}

fn resolving() -> Session {
    let mut stream = hello();
    stream.extend_from_slice(&[5, 1, 0, 3, 4, b'h', b'o', b's', b't', 1, 187]);
    let (session, _, _) = serve(Session::new(), &stream);
    on(session, SessionEvent::Leased { ip: Some(LEASED) })
}

fn outcome(session: Session) -> Option<String> {
    match session {
        Session::Closed { outcome } => outcome.map(|failure| failure.message()),
        other => panic!("{other:?}"),
    }
}

fn released(session: Session) -> Session {
    assert!(matches!(session.action(), SessionAction::Release { ip: LEASED }));
    on(session, SessionEvent::Released)
}

#[test]
fn authorized_client_is_served() {
    let mut stream = hello();
    stream.extend_from_slice(&[5, 1, 0, 3, 4, b'h', b'o', b's', b't', 1, 187]);
    stream.extend_from_slice(b"data");
    let (session, replies, rest) = serve(Session::new(), &stream);
    assert!(matches!(session.action(), SessionAction::Lease));
    assert_eq!(replies, vec![5, 2, 1, 0]);
    assert_eq!(rest, b"data");
    let session = on(session, SessionEvent::Leased { ip: Some(LEASED) });
    match session.action() {
        SessionAction::Resolve { authority, ip } => {
            assert_eq!(authority, "host:443");
            assert_eq!(ip, LEASED);
        }
        other => panic!("{other:?}"),
    }
    let session = on(session, SessionEvent::Resolved { addresses: vec![v4(), v6(1)] });
    match session.action() {
        SessionAction::Connect { address, ip, timeout_secs } => {
            assert_eq!(address, v6(1));
            assert_eq!(ip, LEASED);
            assert_eq!(timeout_secs, 5);
        }
        other => panic!("{other:?}"),
    }
    let local = SocketAddress::V6 { ipv6: LEASED, port: 1025, flowinfo: 0, scope_id: 0 };
    let session = on(session, SessionEvent::Connected { local: Some(local) });
    let reply = written(&session);
    assert_eq!(reply.len(), 22);
    assert_eq!(reply[..4], [5, 0, 0, 4]);
    assert_eq!(reply[4..20], LEASED.to_be_bytes());
    assert_eq!(reply[20..], [4, 1]);
    let session = on(session, SessionEvent::Written);
    assert!(matches!(session.action(), SessionAction::Relay));
    let session = released(on(session, SessionEvent::Relayed));
    assert!(matches!(session.action(), SessionAction::Close));
    assert_eq!(outcome(session), None);
}

#[test]
fn ipv6_target_is_resolved_in_brackets() {
    let mut stream = hello();
    stream.extend_from_slice(&[5, 1, 0, 4]);
    stream.extend_from_slice(&1u128.to_be_bytes());
    stream.extend_from_slice(&[0, 80]);
    let (session, _, _) = serve(Session::new(), &stream);
    let session = on(session, SessionEvent::Leased { ip: Some(LEASED) });
    match session.action() {
        SessionAction::Resolve { authority, .. } => assert_eq!(authority, "[::1]:80"),
        other => panic!("{other:?}"),
    }
}

#[test]
fn client_without_credentials_is_turned_away() {
    let (session, replies, _) = serve(Session::new(), &[5, 1, 0]);
    assert_eq!(replies, vec![5, 0xff]);
    assert_eq!(outcome(session).unwrap(), "username/password auth not offered");
}

#[test]
fn client_with_wrong_credentials_is_turned_away() {
    let stream = [5, 1, 2, 1, 2, b'm', b'e', 3, b'k', b'e', b'x', 5, 1, 0, 1, 1, 1, 1, 1, 0, 80];
    let (session, replies, rest) = serve(Session::new(), &stream);
    assert_eq!(replies, vec![5, 2, 1, 1]);
    assert_eq!(rest, stream[11..]);
    assert_eq!(outcome(session).unwrap(), "bad credentials");
}

#[test]
fn malformed_messages_close_the_connection_without_a_reply() {
    let (session, replies, _) = serve(Session::new(), &[4, 1]);
    assert!(replies.is_empty());
    assert_eq!(outcome(session).unwrap(), "invalid SOCKS version");
    let (session, replies, _) = serve(Session::new(), &[5, 1, 2, 2]);
    assert_eq!(replies, vec![5, 2]);
    assert_eq!(outcome(session).unwrap(), "invalid auth version");
    for (request, message) in [
        (vec![5u8, 2, 0, 1], "only SOCKS5 CONNECT is supported"),
        (vec![5u8, 1, 0, 9], "unsupported address type"),
        (vec![5u8, 1, 0, 3, 1, 0xff], "invalid domain"),
    ] {
        let mut stream = hello();
        stream.extend_from_slice(&request);
        let (session, replies, _) = serve(Session::new(), &stream);
        assert_eq!(replies, vec![5, 2, 1, 0]);
        assert_eq!(outcome(session).unwrap(), message);
    }
}

#[test]
fn client_is_declined_where_there_is_no_address() {
    let mut stream = hello();
    stream.extend_from_slice(&[5, 1, 0, 1, 1, 2, 3, 4, 0, 80]);
    let (session, _, _) = serve(Session::new(), &stream);
    let session = on(session, SessionEvent::Leased { ip: None });
    let mut reply = vec![5u8, 1, 0, 4];
    reply.resize(22, 0);
    assert_eq!(written(&session), reply);
    assert_eq!(outcome(on(session, SessionEvent::Written)), None);
}

#[test]
fn ipv6_addresses_are_tried_in_order() {
    let addresses = vec![v4(), v6(1), v4(), v6(2), v4()];
    let session = on(resolving(), SessionEvent::Resolved { addresses });
    assert!(matches!(session.action(), SessionAction::Connect { address, .. } if address == v6(1)));
    let session = on(session, SessionEvent::ConnectFailed {
        kind: std::io::ErrorKind::ConnectionRefused,
        text: String::from("refused"),
    });
    assert!(matches!(session.action(), SessionAction::Connect { address, .. } if address == v6(2)));
    let session = on(session, SessionEvent::ConnectTimedOut);
    let mut reply = vec![5u8, 5, 0, 4];
    reply.resize(22, 0);
    assert_eq!(written(&session), reply);
    let session = released(on(session, SessionEvent::Written));
    assert_eq!(outcome(session).unwrap(), "connect to [::2]:443 timed out");
}

#[test]
fn last_failure_is_reported() {
    let session = on(resolving(), SessionEvent::Resolved { addresses: vec![v6(1), v6(2)] });
    let session = on(session, SessionEvent::ConnectTimedOut);
    let session = on(session, SessionEvent::ConnectFailed {
        kind: std::io::ErrorKind::ConnectionRefused,
        text: String::from("refused"),
    });
    let session = released(on(session, SessionEvent::Written));
    assert_eq!(outcome(session).unwrap(), "refused");
}

#[test]
fn target_without_ipv6_addresses_is_reported() {
    for addresses in [vec![], vec![v4(), v4()]] {
        let session = on(resolving(), SessionEvent::Resolved { addresses });
        let session = released(on(session, SessionEvent::Written));
        assert_eq!(outcome(session).unwrap(), "target has no IPv6 address");
    }
}

#[test]
fn failure_before_the_lease_closes_the_connection() {
    let session = on(Session::new(), SessionEvent::Failed {
        kind: std::io::ErrorKind::UnexpectedEof,
        text: String::from("eof"),
    });
    assert_eq!(outcome(session).unwrap(), "eof");
}

#[test]
fn failure_after_the_lease_gives_the_address_back() {
    let broken = || SessionEvent::Failed {
        kind: std::io::ErrorKind::ConnectionReset,
        text: String::from("reset"),
    };
    let session = released(on(resolving(), broken()));
    assert_eq!(outcome(session).unwrap(), "reset");

    let dialing = on(resolving(), SessionEvent::Resolved { addresses: vec![v6(1)] });
    assert_eq!(outcome(released(on(dialing, broken()))).unwrap(), "reset");

    let dialing = on(resolving(), SessionEvent::Resolved { addresses: vec![v6(1)] });
    let announcing = on(dialing, SessionEvent::Connected { local: None });
    assert_eq!(outcome(released(on(announcing, broken()))).unwrap(), "reset");

    let dialing = on(resolving(), SessionEvent::Resolved { addresses: vec![v6(1)] });
    let relaying = on(
        on(dialing, SessionEvent::Connected { local: None }),
        SessionEvent::Written,
    );
    assert_eq!(outcome(released(on(relaying, broken()))).unwrap(), "reset");
}

#[test]
fn closed_connection_takes_no_more_events() {
    let session = on(Session::new(), SessionEvent::Failed {
        kind: std::io::ErrorKind::UnexpectedEof,
        text: String::from("eof"),
    });
    let session = on(session, SessionEvent::Received { bytes: vec![5, 1] });
    let session = on(session, SessionEvent::Failed {
        kind: std::io::ErrorKind::BrokenPipe,
        text: String::from("other"),
    });
    assert_eq!(outcome(session).unwrap(), "eof");
}

#[test]
fn failures_have_a_class() {
    let protocol = Failure::Protocol { error: Socks5Error::BadCredentials };
    assert_eq!(protocol.kind(), FailureKind::Found { class: ErrorKind::PermissionDenied });
    assert_eq!(Failure::NoIpv6Address.kind(), FailureKind::Found { class: ErrorKind::NotFound });
    assert_eq!(Failure::TimedOut { address: v6(1) }.kind(), FailureKind::Found { class: ErrorKind::TimedOut });
    let kind = std::io::ErrorKind::ConnectionRefused;
    let outside = Failure::Io { kind, text: String::from("x") };
    assert_eq!(outside.kind(), FailureKind::Outside { kind });
    assert_eq!(outside.message(), "x");
    assert_eq!(timeout_text("there"), "connect to there timed out");
}

fn outcome_kind(session: Session) -> FailureKind {
    match session {
        Session::Closed { outcome: Some(failure) } => failure.kind(),
        other => panic!("{other:?}"),
    }
}

#[test]
fn outside_failures_keep_their_class() {
    let eof = SessionEvent::Failed {
        kind: std::io::ErrorKind::UnexpectedEof,
        text: String::from("eof"),
    };
    assert_eq!(
        outcome_kind(on(Session::new(), eof)),
        FailureKind::Outside { kind: std::io::ErrorKind::UnexpectedEof }
    );
    let session = on(resolving(), SessionEvent::Resolved { addresses: vec![v6(1)] });
    let refused = SessionEvent::ConnectFailed {
        kind: std::io::ErrorKind::ConnectionRefused,
        text: String::from("refused"),
    };
    let session = released(on(on(session, refused), SessionEvent::Written));
    assert_eq!(
        outcome_kind(session),
        FailureKind::Outside { kind: std::io::ErrorKind::ConnectionRefused }
    );
}
