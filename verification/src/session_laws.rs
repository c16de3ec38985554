//! What holds of a SOCKS5 connection from its start to its end.

use crate::address::SocketAddress;
use crate::session::{FailureView, Phase, SessionActionView, SessionEventView, SessionView};
use crate::socks5::{RequestVerdictView, TargetView, Verdict};
use vstd::prelude::*;

verus! {

/// Where a connection stands after a sequence of events.
pub open spec fn after_events(
    events: Seq<SessionEventView>,
    username: Seq<char>,
    password: Seq<char>,
) -> SessionView
    decreases events.len(),
{
    if events.len() == 0 {
        SessionView::start()
    } else {
        after_events(events.drop_last(), username, password).after(
            events.last(),
            username,
            password,
        )
    }
}

/// The event hands this address to the session.
pub open spec fn leases(session: SessionView, event: SessionEventView, ip: u128) -> bool {
    session is Leasing && event == (SessionEventView::Leased { ip: Some(ip) })
}

/// The event tells the session that this address was given back.
pub open spec fn releases(session: SessionView, event: SessionEventView, ip: u128) -> bool {
    session matches SessionView::Releasing { outcome: _, ip: held } && held == ip
        && event is Released
}

/// How often an address was leased in the course of the events.
pub open spec fn lease_count(
    events: Seq<SessionEventView>,
    username: Seq<char>,
    password: Seq<char>,
    ip: u128,
) -> nat
    decreases events.len(),
{
    if events.len() == 0 {
        0
    } else {
        let before = after_events(events.drop_last(), username, password);
        lease_count(events.drop_last(), username, password, ip) + if leases(
            before,
            events.last(),
            ip,
        ) {
            1nat
        } else {
            0
        }
    }
}

/// How often an address was given back in the course of the events.
pub open spec fn release_count(
    events: Seq<SessionEventView>,
    username: Seq<char>,
    password: Seq<char>,
    ip: u128,
) -> nat
    decreases events.len(),
{
    if events.len() == 0 {
        0
    } else {
        let before = after_events(events.drop_last(), username, password);
        release_count(events.drop_last(), username, password, ip) + if releases(
            before,
            events.last(),
            ip,
        ) {
            1nat
        } else {
            0
        }
    }
}

/// An address is held from its lease until it is given back, whatever happens
/// in between.
pub proof fn law_address_is_held_until_released(
    session: SessionView,
    event: SessionEventView,
    username: Seq<char>,
    password: Seq<char>,
    ip: u128,
)
    ensures
        session.after(event, username, password).held() == Some(ip) <==> leases(session, event, ip)
            || (session.held() == Some(ip) && !releases(session, event, ip)),
{
}

/// Every address that is leased is given back exactly once by the end of the
/// connection, and none is given back that was not leased.
pub proof fn law_every_lease_is_released_once(
    events: Seq<SessionEventView>,
    username: Seq<char>,
    password: Seq<char>,
    ip: u128,
)
    ensures
        lease_count(events, username, password, ip) == release_count(events, username, password, ip)
            + if after_events(events, username, password).held() == Some(ip) {
            1nat
        } else {
            0
        },
        after_events(events, username, password) is Closed ==> lease_count(
            events,
            username,
            password,
            ip,
        ) == release_count(events, username, password, ip),
    decreases events.len(),
{
    if events.len() > 0 {
        law_every_lease_is_released_once(events.drop_last(), username, password, ip);
        law_address_is_held_until_released(
            after_events(events.drop_last(), username, password),
            events.last(),
            username,
            password,
            ip,
        );
    }
}

/// The session will not ask for an address any more.
pub open spec fn past_lease(session: SessionView) -> bool {
    ||| session.held() is Some
    ||| session is Declining
    ||| session is Closed
}

/// A connection leases at most one address, at most once.
pub proof fn law_one_lease_per_connection(
    events: Seq<SessionEventView>,
    username: Seq<char>,
    password: Seq<char>,
    one: u128,
    other: u128,
)
    ensures
        lease_count(events, username, password, one) <= 1,
        one != other ==> lease_count(events, username, password, one) + lease_count(
            events,
            username,
            password,
            other,
        ) <= 1,
        lease_count(events, username, password, one) + lease_count(
            events,
            username,
            password,
            other,
        ) > 0 ==> past_lease(after_events(events, username, password)),
    decreases events.len(),
{
    if events.len() > 0 {
        law_one_lease_per_connection(events.drop_last(), username, password, one, other);
    }
}

/// Whatever is connected leaves from the leased address.
pub proof fn law_connections_leave_from_the_leased_address(session: SessionView)
    ensures
        session.action() matches SessionActionView::Connect { address: _, ip, timeout_secs: _ }
            ==> session.held() == Some(ip),
        session.action() matches SessionActionView::Release { ip } ==> session.held() == Some(ip),
{
}

/// A connection that is closed stays as it is.
pub proof fn law_closed_is_final(
    session: SessionView,
    event: SessionEventView,
    username: Seq<char>,
    password: Seq<char>,
)
    requires
        session is Closed,
    ensures
        session.after(event, username, password) == session,
{
}

/// A client that is turned away gets nothing more: it is told why, if it is
/// told at all, and the connection is closed with that error.
pub proof fn law_refused_client_is_not_served(
    error: crate::socks5::Socks5Error,
    event: SessionEventView,
    username: Seq<char>,
    password: Seq<char>,
)
    ensures
        ({
            let refused = crate::session::refused(error);
            let next = refused.after(event, username, password);
            &&& error.spec_reply() matches Some(bytes) ==> refused.action()
                == (SessionActionView::Write { bytes })
            &&& error.spec_reply() is None ==> refused == (SessionView::Closed {
                outcome: Some(FailureView::Protocol { error }),
            })
            &&& next == refused || next is Closed
            &&& event is Written ==> next == (SessionView::Closed {
                outcome: Some(FailureView::Protocol { error }),
            })
        }),
{
}

/// What [`crate::session::next_ipv6`] finds.
pub proof fn law_next_ipv6_is_the_nearest(addresses: Seq<SocketAddress>, from: int)
    requires
        0 <= from <= addresses.len(),
    ensures
        ({
            let next = crate::session::next_ipv6(addresses, from);
            &&& from <= next <= addresses.len()
            &&& next < addresses.len() ==> addresses[next] is V6
            &&& forall|i: int| from <= i < next ==> (#[trigger] addresses[i]) is V4
        }),
    decreases addresses.len() - from,
{
    if from < addresses.len() && addresses[from] is V4 {
        law_next_ipv6_is_the_nearest(addresses, from + 1);
    }
}

/// The event reports that an attempt came to nothing, for this reason.
pub open spec fn attempt_failure(address: SocketAddress, event: SessionEventView) -> Option<
    FailureView,
> {
    match event {
        SessionEventView::ConnectFailed { kind, text } => Some(FailureView::Io { kind, text }),
        SessionEventView::ConnectTimedOut => Some(FailureView::TimedOut { address }),
        _ => None,
    }
}

/// The target's addresses are tried in their order, and all IPv6 ones among
/// them until one answers: an attempt that fails is followed by the next IPv6
/// address, or, where there is none, by the report of that failure.
pub proof fn law_ipv6_addresses_are_tried_in_order(
    addresses: Seq<SocketAddress>,
    place: int,
    earlier: Option<FailureView>,
    ip: u128,
    event: SessionEventView,
    username: Seq<char>,
    password: Seq<char>,
)
    requires
        0 <= place < addresses.len(),
        attempt_failure(addresses[place], event) is Some,
    ensures
        ({
            let failure = attempt_failure(addresses[place], event);
            let session = SessionView::Dialing { addresses, next: place, last: earlier, ip };
            let next = session.after(event, username, password);
            ||| next matches SessionView::Dialing {
                addresses: same,
                next: later,
                last,
                ip: held,
            } && same == addresses && last == failure && held == ip && place < later
                < addresses.len() && addresses[later] is V6 && (forall|i: int|
                place < i < later ==> (#[trigger] addresses[i]) is V4)
            ||| next == (SessionView::Failing { failure: failure->0, ip }) && (forall|i: int|
                place < i < addresses.len() ==> (#[trigger] addresses[i]) is V4)
        }),
{
    law_next_ipv6_is_the_nearest(addresses, place + 1);
}

/// A target is first tried at its first IPv6 address; one that has none is
/// reported as such.
pub proof fn law_first_attempt(
    target: TargetView,
    addresses: Seq<SocketAddress>,
    ip: u128,
    username: Seq<char>,
    password: Seq<char>,
)
    ensures
        ({
            let session = SessionView::Resolving { target, ip };
            let next = session.after(
                SessionEventView::Resolved { addresses },
                username,
                password,
            );
            ||| next matches SessionView::Dialing { addresses: same, next: first, last, ip: held }
                && same == addresses && last is None && held == ip && 0 <= first
                < addresses.len() && addresses[first] is V6 && (forall|i: int|
                0 <= i < first ==> (#[trigger] addresses[i]) is V4)
            ||| next == (SessionView::Failing { failure: FailureView::NoIpv6Address, ip })
                && forall|i: int| 0 <= i < addresses.len() ==> (#[trigger] addresses[i]) is V4
        }),
{
    law_next_ipv6_is_the_nearest(addresses, 0);
}

/// The message with which a client offers methods.
pub open spec fn greeting_message(methods: Seq<u8>) -> Seq<u8> {
    seq![0x05u8, methods.len() as u8] + methods
}

/// The methods fit a greeting, and the check of a name and a password is
/// among them.
pub open spec fn offers_credentials(methods: Seq<u8>) -> bool {
    methods.len() <= 255 && methods.contains(0x02)
}

/// The message that brings this name and this password.
pub open spec fn credentials_of(username: Seq<char>, password: Seq<char>) -> Seq<u8> {
    crate::socks5::credentials_message(
        vstd::utf8::encode_utf8(username),
        vstd::utf8::encode_utf8(password),
    )
}

/// What a client has sent is a greeting that offers credentials, and then
/// this.
pub open spec fn greeted(sent: Seq<u8>, rest: Seq<u8>) -> bool {
    exists|methods: Seq<u8>|
        offers_credentials(methods) && sent == #[trigger] greeting_message(methods) + rest
}

/// What a client has sent is a greeting that offers credentials, the right
/// name and password, and then this.
pub open spec fn authorized(
    sent: Seq<u8>,
    username: Seq<char>,
    password: Seq<char>,
    rest: Seq<u8>,
) -> bool {
    greeted(sent, credentials_of(username, password) + rest)
}

/// How what a client has sent accounts for where its session stands.
pub open spec fn accounts_for(
    session: SessionView,
    sent: Seq<u8>,
    username: Seq<char>,
    password: Seq<char>,
) -> bool {
    match session {
        SessionView::Reading { phase: Phase::Greeting, read, need } => sent == read
            && crate::socks5::greeting_verdict(read) == (Verdict::Need { count: need }),
        SessionView::Welcoming => greeted(sent, Seq::empty()),
        SessionView::Reading { phase: Phase::Credentials, read, need } => greeted(sent, read)
            && crate::socks5::credentials_verdict(read, username, password) == (Verdict::Need {
            count: need,
        }),
        SessionView::Admitting => authorized(sent, username, password, Seq::empty()),
        SessionView::Reading { phase: Phase::Request, read, need } => authorized(
            sent,
            username,
            password,
            read,
        ) && crate::socks5::request_verdict(read) == (RequestVerdictView::Need { count: need }),
        SessionView::Leasing { target } => requested(sent, username, password, target),
        SessionView::Resolving { target, ip: _ } => requested(sent, username, password, target),
        SessionView::Refusing { error: _ } => true,
        SessionView::Closed { outcome: _ } => true,
        _ => exists|target: TargetView| requested(sent, username, password, target),
    }
}

/// What a client has sent is a greeting that offers credentials, the right
/// name and password, and a request for this target.
pub open spec fn requested(
    sent: Seq<u8>,
    username: Seq<char>,
    password: Seq<char>,
    target: TargetView,
) -> bool {
    exists|request: Seq<u8>|
        authorized(sent, username, password, request) && #[trigger] crate::socks5::request_verdict(
            request,
        ) == (RequestVerdictView::Connect { target })
}

/// What a session reads with an event.
pub open spec fn read_with(session: SessionView, event: SessionEventView) -> Seq<u8> {
    match (session, event) {
        (
            SessionView::Reading { phase: _, read: _, need: _ },
            SessionEventView::Received { bytes },
        ) => bytes,
        _ => Seq::empty(),
    }
}

/// The session gets as many octets as it asked for.
pub open spec fn exact(session: SessionView, event: SessionEventView) -> bool {
    session matches SessionView::Reading { phase: _, read: _, need } ==> (
    event matches SessionEventView::Received { bytes } ==> bytes.len() == need)
}

proof fn lemma_greeting_accepted(read: Seq<u8>, bytes: Seq<u8>)
    requires
        crate::socks5::greeting_verdict(read) == (Verdict::Need { count: bytes.len() as usize }),
        bytes.len() <= usize::MAX,
        crate::socks5::greeting_verdict(read + bytes) is Accepted,
    ensures
        greeted(read + bytes, Seq::empty()),
{
    let message = read + bytes;
    let methods = message.subrange(2, 2 + message[1]);
    assert(greeting_message(methods) + Seq::empty() =~= message);
}

proof fn lemma_credentials_accepted(
    read: Seq<u8>,
    bytes: Seq<u8>,
    username: Seq<char>,
    password: Seq<char>,
)
    requires
        crate::socks5::credentials_verdict(read, username, password) == (Verdict::Need {
            count: bytes.len() as usize,
        }),
        bytes.len() <= usize::MAX,
        crate::socks5::credentials_verdict(read + bytes, username, password) is Accepted,
    ensures
        read + bytes == credentials_of(username, password),
{
    let message = read + bytes;
    let name_end = 2 + message[1];
    let end = name_end + 1 + message[name_end];
    assert(message.len() == end);
    let name = message.subrange(2, name_end);
    let word = message.subrange(name_end + 1, end);
    assert(message =~= crate::socks5::credentials_message(name, word));
}

proof fn lemma_greeted_more(sent: Seq<u8>, rest: Seq<u8>, bytes: Seq<u8>)
    requires
        greeted(sent, rest),
    ensures
        greeted(sent + bytes, rest + bytes),
{
    let methods = choose|methods: Seq<u8>|
        offers_credentials(methods) && sent == #[trigger] greeting_message(methods) + rest;
    assert(sent + bytes =~= greeting_message(methods) + (rest + bytes));
}

/// Every step of a session is accounted for by what the client has sent.
pub proof fn law_steps_are_accounted_for(
    session: SessionView,
    event: SessionEventView,
    sent: Seq<u8>,
    username: Seq<char>,
    password: Seq<char>,
)
    requires
        accounts_for(session, sent, username, password),
        exact(session, event),
    ensures
        accounts_for(
            session.after(event, username, password),
            sent + read_with(session, event),
            username,
            password,
        ),
{
    assert(sent + Seq::<u8>::empty() =~= sent);
    match (session, event) {
        (SessionView::Reading { phase, read, need }, SessionEventView::Received { bytes }) => {
            lemma_reading_is_accounted_for(phase, read, need, bytes, sent, username, password);
        },
        (SessionView::Resolving { target, ip: _ }, _) => {
            assert(requested(sent, username, password, target));
        },
        (SessionView::Leasing { target }, _) => {
            assert(requested(sent, username, password, target));
        },
        (SessionView::Welcoming, _) => {},
        (SessionView::Admitting, _) => {
            let credentials = credentials_of(username, password);
            assert(credentials + Seq::<u8>::empty() =~= credentials);
        },
        _ => {},
    }
}

#[verifier::rlimit(20)]
proof fn lemma_reading_is_accounted_for(
    phase: Phase,
    read: Seq<u8>,
    need: usize,
    bytes: Seq<u8>,
    sent: Seq<u8>,
    username: Seq<char>,
    password: Seq<char>,
)
    requires
        accounts_for(SessionView::Reading { phase, read, need }, sent, username, password),
        bytes.len() == need,
    ensures
        accounts_for(
            crate::session::judged(phase, read + bytes, username, password),
            sent + bytes,
            username,
            password,
        ),
{
    let credentials = credentials_of(username, password);
    match phase {
        Phase::Greeting => {
            if crate::socks5::greeting_verdict(read + bytes) is Accepted {
                lemma_greeting_accepted(read, bytes);
            }
        },
        Phase::Credentials => {
            lemma_greeted_more(sent, read, bytes);
            if crate::socks5::credentials_verdict(read + bytes, username, password) is Accepted {
                lemma_credentials_accepted(read, bytes, username, password);
                assert(credentials + Seq::<u8>::empty() =~= credentials);
            }
        },
        Phase::Request => {
            lemma_greeted_more(sent, credentials + read, bytes);
            assert(credentials + read + bytes =~= credentials + (read + bytes));
        },
    }
}

/// What the client has sent in the course of the events.
pub open spec fn sent_with(
    events: Seq<SessionEventView>,
    username: Seq<char>,
    password: Seq<char>,
) -> Seq<u8>
    decreases events.len(),
{
    if events.len() == 0 {
        Seq::empty()
    } else {
        sent_with(events.drop_last(), username, password) + read_with(
            after_events(events.drop_last(), username, password),
            events.last(),
        )
    }
}

/// At every event, the session gets as many octets as it asked for.
pub open spec fn all_exact(
    events: Seq<SessionEventView>,
    username: Seq<char>,
    password: Seq<char>,
) -> bool
    decreases events.len(),
{
    events.len() > 0 ==> all_exact(events.drop_last(), username, password) && exact(
        after_events(events.drop_last(), username, password),
        events.last(),
    )
}

proof fn lemma_events_are_accounted_for(
    events: Seq<SessionEventView>,
    username: Seq<char>,
    password: Seq<char>,
)
    requires
        all_exact(events, username, password),
    ensures
        accounts_for(
            after_events(events, username, password),
            sent_with(events, username, password),
            username,
            password,
        ),
    decreases events.len(),
{
    if events.len() > 0 {
        let earlier = events.drop_last();
        lemma_events_are_accounted_for(earlier, username, password);
        law_steps_are_accounted_for(
            after_events(earlier, username, password),
            events.last(),
            sent_with(earlier, username, password),
            username,
            password,
        );
    }
}

/// Only a client that has sent the server's name and password, and a request,
/// makes the server ask for an address, hold one, connect or relay.
pub proof fn law_only_authorized_clients_are_served(
    events: Seq<SessionEventView>,
    username: Seq<char>,
    password: Seq<char>,
)
    requires
        all_exact(events, username, password),
    ensures
        ({
            let session = after_events(events, username, password);
            session is Leasing || session is Declining || session.held() is Some ==> exists|
                target: TargetView,
            |
                requested(sent_with(events, username, password), username, password, target)
        }),
        after_events(events, username, password) matches SessionView::Leasing { target }
            ==> requested(sent_with(events, username, password), username, password, target),
        after_events(events, username, password) matches SessionView::Resolving { target, ip: _ }
            ==> requested(sent_with(events, username, password), username, password, target),
{
    lemma_events_are_accounted_for(events, username, password);
}

/// Where a session stands, and what is left to read, when a client has sent
/// this and takes every reply, up to the point where something else than
/// reading and replying is asked for.
#[verifier::opaque]
pub open spec fn served(
    session: SessionView,
    stream: Seq<u8>,
    username: Seq<char>,
    password: Seq<char>,
) -> (SessionView, Seq<u8>)
    decreases
            stream.len(),
            if session is Welcoming || session is Admitting {
                1int
            } else {
                0int
            },
{
    match session {
        SessionView::Reading { phase: _, read: _, need } => {
            if 0 < need <= stream.len() {
                served(
                    session.after(
                        SessionEventView::Received { bytes: stream.take(need as int) },
                        username,
                        password,
                    ),
                    stream.skip(need as int),
                    username,
                    password,
                )
            } else {
                (session, stream)
            }
        },
        SessionView::Welcoming => served(
            SessionView::Reading { phase: Phase::Credentials, read: Seq::empty(), need: 1 },
            stream,
            username,
            password,
        ),
        SessionView::Admitting => served(
            SessionView::Reading { phase: Phase::Request, read: Seq::empty(), need: 4 },
            stream,
            username,
            password,
        ),
        _ => (session, stream),
    }
}

/// [`crate::session::judged`], as something that is not looked into.
#[verifier::opaque]
spec fn judgement(
    phase: Phase,
    read: Seq<u8>,
    username: Seq<char>,
    password: Seq<char>,
) -> SessionView {
    crate::session::judged(phase, read, username, password)
}

/// How many octets a message lacks, or `None` if it has been judged.
spec fn lacking(judgement: SessionView) -> Option<usize> {
    match judgement {
        SessionView::Reading { phase: _, read: _, need } => Some(need),
        _ => None,
    }
}

proof fn lemma_not_overread(
    phase: Phase,
    read: Seq<u8>,
    more: Seq<u8>,
    username: Seq<char>,
    password: Seq<char>,
)
    ensures
        match lacking(judgement(phase, read, username, password)) {
            Some(need) => {
                &&& judgement(phase, read, username, password) == (SessionView::Reading {
                    phase,
                    read,
                    need,
                })
                &&& need > 0
                &&& more.len() < need ==> lacking(
                    judgement(phase, read + more, username, password),
                ) is Some
            },
            None => judgement(phase, read + more, username, password) == judgement(
                phase,
                read,
                username,
                password,
            ),
        },
{
    reveal(judgement);
    match phase {
        Phase::Greeting => crate::socks5::law_greeting_is_not_overread(read, more),
        Phase::Credentials => crate::socks5::law_credentials_are_not_overread(
            read,
            more,
            username,
            password,
        ),
        Phase::Request => crate::socks5::law_request_is_not_overread(read, more),
    }
}

proof fn lemma_served_reading(
    phase: Phase,
    read: Seq<u8>,
    need: usize,
    stream: Seq<u8>,
    username: Seq<char>,
    password: Seq<char>,
)
    requires
        0 < need <= stream.len(),
    ensures
        served(SessionView::Reading { phase, read, need }, stream, username, password) == served(
            judgement(phase, read + stream.take(need as int), username, password),
            stream.skip(need as int),
            username,
            password,
        ),
{
    reveal(judgement);
    reveal(served);
}

/// A session reads exactly one message: from what it has read of it, with the
/// rest before it and more behind, it gets to the judgement of the message
/// and leaves what is behind.
proof fn lemma_message_is_read(
    phase: Phase,
    read: Seq<u8>,
    rest: Seq<u8>,
    tail: Seq<u8>,
    username: Seq<char>,
    password: Seq<char>,
)
    requires
        lacking(judgement(phase, read, username, password)) is Some,
        lacking(judgement(phase, read + rest, username, password)) is None,
        lacking(judgement(phase, (read + rest).drop_last(), username, password)) is Some,
    ensures
        served(judgement(phase, read, username, password), rest + tail, username, password)
            == served(
            judgement(phase, read + rest, username, password),
            tail,
            username,
            password,
        ),
    decreases rest.len(),
{
    let message = read + rest;
    let need = lacking(judgement(phase, read, username, password))->0;
    lemma_not_overread(phase, read, rest, username, password);
    let part = rest.take(need as int);
    let left = rest.skip(need as int);
    assert((rest + tail).take(need as int) =~= part);
    assert((rest + tail).skip(need as int) =~= left + tail);
    lemma_served_reading(phase, read, need, rest + tail, username, password);
    let now = read + part;
    assert(now + left =~= message);
    if lacking(judgement(phase, now, username, password)) is Some {
        lemma_message_is_read(phase, now, left, tail, username, password);
    } else {
        if left.len() > 0 {
            lemma_not_overread(phase, now, left.drop_last(), username, password);
            assert(now + left.drop_last() =~= message.drop_last());
        }
        assert(left + tail =~= tail);
        assert(now =~= message);
    }
}

/// A client that offers credentials, brings the right ones and asks for a
/// target is served: the server gets to the point of leasing an address for
/// that target, having read what belongs to the three messages and nothing
/// of what follows them.
pub proof fn law_authorized_clients_are_served(
    methods: Seq<u8>,
    username: Seq<char>,
    password: Seq<char>,
    request: Seq<u8>,
    target: TargetView,
    tail: Seq<u8>,
)
    requires
        offers_credentials(methods),
        vstd::utf8::encode_utf8(username).len() <= 255,
        vstd::utf8::encode_utf8(password).len() <= 255,
        crate::socks5::request_verdict(request) == (RequestVerdictView::Connect { target }),
        crate::socks5::request_verdict(request.drop_last()) is Need,
    ensures
        served(
            SessionView::start(),
            greeting_message(methods) + credentials_of(username, password) + request + tail,
            username,
            password,
        ) == (SessionView::Leasing { target }, tail),
{
    let empty = Seq::<u8>::empty();
    let greeting = greeting_message(methods);
    let credentials = credentials_of(username, password);
    let stream = greeting + credentials + request + tail;
    let name = vstd::utf8::encode_utf8(username);
    let word = vstd::utf8::encode_utf8(password);
    crate::socks5::law_greeting_has_to_offer_credentials(methods);
    crate::socks5::law_only_the_right_credentials_are_accepted(name, word, username, password);
    assert(stream =~= greeting + (credentials + (request + tail)));
    assert(empty + greeting =~= greeting);
    assert(empty + credentials =~= credentials);
    assert(empty + request =~= request);
    lemma_greeting_ends(methods);
    lemma_credentials_end(name, word, username, password);
    assert(crate::socks5::greeting_verdict(empty) == (Verdict::Need { count: 2 }));
    assert(crate::socks5::credentials_verdict(empty, username, password) == (Verdict::Need {
        count: 1,
    }));
    assert(crate::socks5::request_verdict(empty) == (RequestVerdictView::Need { count: 4 }));
    reveal(judgement);
    lemma_message_is_read(
        Phase::Greeting,
        empty,
        greeting,
        credentials + (request + tail),
        username,
        password,
    );
    lemma_message_is_read(
        Phase::Credentials,
        empty,
        credentials,
        request + tail,
        username,
        password,
    );
    lemma_message_is_read(Phase::Request, empty, request, tail, username, password);
    lemma_served_replying(credentials + (request + tail), request + tail, tail, target, username, password);
}

proof fn lemma_served_replying(
    welcomed: Seq<u8>,
    admitted: Seq<u8>,
    left: Seq<u8>,
    target: TargetView,
    username: Seq<char>,
    password: Seq<char>,
)
    ensures
        served(SessionView::Welcoming, welcomed, username, password) == served(
            SessionView::Reading { phase: Phase::Credentials, read: Seq::empty(), need: 1 },
            welcomed,
            username,
            password,
        ),
        served(SessionView::Admitting, admitted, username, password) == served(
            SessionView::Reading { phase: Phase::Request, read: Seq::empty(), need: 4 },
            admitted,
            username,
            password,
        ),
        served(SessionView::Leasing { target }, left, username, password) == (
            SessionView::Leasing { target },
            left,
        ),
{
    reveal_with_fuel(served, 2);
}

proof fn lemma_greeting_ends(methods: Seq<u8>)
    requires
        offers_credentials(methods),
    ensures
        crate::socks5::greeting_verdict(greeting_message(methods).drop_last()) is Need,
{
}

proof fn lemma_credentials_end(
    name: Seq<u8>,
    word: Seq<u8>,
    username: Seq<char>,
    password: Seq<char>,
)
    requires
        name.len() <= 255,
        word.len() <= 255,
    ensures
        crate::socks5::credentials_verdict(
            crate::socks5::credentials_message(name, word).drop_last(),
            username,
            password,
        ) is Need,
{
    let message = crate::socks5::credentials_message(name, word);
    let short = message.drop_last();
    assert(message[2 + name.len() as int] == word.len() as u8);
}

} // verus!
