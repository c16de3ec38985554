//! What a SOCKS5 session asks for at each point of its course.
//!
//! Each law speaks of calls: of the session that [`Session::handle`] gives
//! back, and of what [`Session::action`] says of it.

use crate::address::SocketAddress;
use crate::session::{timeout_text, Failure, FailureKind, Phase, Session, SessionAction, SessionEvent};
use crate::socks5::{
    authenticate, negotiate_auth, read_connect_request, ErrorKind, RequestVerdict, Socks5Error,
    TargetAddr, Verdict,
};
use vstd::prelude::*;

verus! {

/// The event takes the session to `next`, which asks for this.
pub open spec fn leads(
    before: Session,
    event: SessionEvent,
    username: &str,
    password: &str,
    next: Session,
    action: SessionAction,
) -> bool {
    &&& call_ensures(Session::handle, (before, event, username, password), next)
    &&& call_ensures(Session::action, (&next,), action)
}

/// The client is to be written these octets.
pub open spec fn writes(action: SessionAction, octets: Seq<u8>) -> bool {
    action matches SessionAction::Write { bytes } && bytes@ == octets
}

/// The client is to be written a reply with this code and this address.
pub open spec fn replies(action: SessionAction, code: u8, bind: Option<SocketAddress>) -> bool {
    action matches SessionAction::Write { bytes } && crate::socks5_laws::tells(bytes@, code, bind)
}

/// The address that a session has leased and has to give back.
pub open spec fn holds(session: Session) -> Option<u128> {
    match session {
        Session::Resolving { target: _, ip } => Some(ip),
        Session::Dialing { addresses: _, next: _, last: _, ip } => Some(ip),
        Session::Announcing { local: _, ip } => Some(ip),
        Session::Relaying { ip } => Some(ip),
        Session::Failing { failure: _, ip } => Some(ip),
        Session::Releasing { outcome: _, ip } => Some(ip),
        _ => None,
    }
}

/// The session closes with this failure to report, once it has given back
/// what it holds.
pub open spec fn ends_with(
    next: Session,
    action: SessionAction,
    held: Option<u128>,
    failure: Option<crate::session::FailureView>,
) -> bool {
    match held {
        Some(ip) => {
            &&& next matches Session::Releasing { outcome, ip: given } && given == ip
                && crate::session::view_failure(outcome) == failure
            &&& action == (SessionAction::Release { ip })
        },
        None => {
            &&& next matches Session::Closed { outcome } && crate::session::view_failure(outcome)
                == failure
            &&& action is Close
        },
    }
}

/// A connection starts with nothing read, and the first two octets of the
/// greeting are asked for.
pub proof fn law_session_starts_with_the_greeting(session: Session, action: SessionAction)
    requires
        call_ensures(Session::new, (), session),
        call_ensures(Session::action, (&session,), action),
    ensures
        session matches Session::Reading { phase: Phase::Greeting, read, need: _ } && read@.len()
            == 0,
        action == (SessionAction::Read { count: 2 }),
{
}

/// The event is what can come of the action. What fails ends the connection,
/// except that an address is given back whatever happens.
pub open spec fn answers(action: SessionAction, event: SessionEvent) -> bool {
    match event {
        SessionEvent::Received { bytes: _ } => action is Read,
        SessionEvent::Written => action is Write,
        SessionEvent::Leased { ip: _ } => action is Lease,
        SessionEvent::Resolved { addresses: _ } => action is Resolve,
        SessionEvent::Connected { local: _ } => action is Connect,
        SessionEvent::ConnectFailed { kind: _, text: _ } => action is Connect,
        SessionEvent::ConnectTimedOut => action is Connect,
        SessionEvent::Relayed => action is Relay,
        SessionEvent::Released => action is Release,
        SessionEvent::Failed { kind: _, text: _ } => action !is Release && action !is Close,
    }
}

/// An event that does not answer what the session asked for changes nothing.
pub proof fn law_unasked_events_change_nothing(
    before: Session,
    asked: SessionAction,
    event: SessionEvent,
    username: &str,
    password: &str,
    next: Session,
    action: SessionAction,
)
    requires
        call_ensures(Session::action, (&before,), asked),
        leads(before, event, username, password, next, action),
        !answers(asked, event),
    ensures
        next@ == before@,
        action@ == asked@,
{
}

/// Where an action fails, what is held is given back, and the connection is
/// closed with that failure, its class and its text.
pub proof fn law_failed_action_ends_the_connection(
    before: Session,
    asked: SessionAction,
    kind: std::io::ErrorKind,
    text: String,
    username: &str,
    password: &str,
    next: Session,
    action: SessionAction,
)
    requires
        call_ensures(Session::action, (&before,), asked),
        asked !is Release && asked !is Close,
        leads(before, SessionEvent::Failed { kind, text }, username, password, next, action),
    ensures
        ends_with(
            next,
            action,
            holds(before),
            Some(crate::session::FailureView::Io { kind, text: text@ }),
        ),
{
}

/// A client is turned away: it is told so where it did not offer credentials
/// or brought wrong ones, and not told anything otherwise.
pub open spec fn turned_away(error: Socks5Error, next: Session, action: SessionAction) -> bool {
    match error {
        Socks5Error::AuthNotOffered => next == (Session::Refusing { error }) && writes(
            action,
            seq![5u8, 255],
        ),
        Socks5Error::BadCredentials => next == (Session::Refusing { error }) && writes(
            action,
            seq![1u8, 1],
        ),
        _ => ends_with(
            next,
            action,
            None,
            Some(crate::session::FailureView::Protocol { error }),
        ),
    }
}

/// More of the message is to be read, behind what was read of it.
pub open spec fn reads_on(
    phase: Phase,
    message: Seq<u8>,
    count: usize,
    next: Session,
    action: SessionAction,
) -> bool {
    &&& next matches Session::Reading { phase: same, read, need: _ } && same == phase && read@
        == message
    &&& action == (SessionAction::Read { count })
}

/// A greeting is judged by all that was read of it. One that is accepted is
/// answered with the choice of the check of a name and a password, and then
/// the first octet of these is asked for.
pub proof fn law_greeting_is_answered(
    read: Vec<u8>,
    need: usize,
    bytes: Vec<u8>,
    message: &[u8],
    verdict: Verdict,
    username: &str,
    password: &str,
    next: Session,
    action: SessionAction,
)
    requires
        leads(
            Session::Reading { phase: Phase::Greeting, read, need },
            SessionEvent::Received { bytes },
            username,
            password,
            next,
            action,
        ),
        message@ == read@ + bytes@,
        call_ensures(negotiate_auth, (message,), verdict),
    ensures
        match verdict {
            Verdict::Need { count } => reads_on(Phase::Greeting, message@, count, next, action),
            Verdict::Accepted => writes(action, seq![5u8, 2]) && (forall|
                later: Session,
                asked: SessionAction,
            | #[trigger]
                leads(next, SessionEvent::Written, username, password, later, asked) ==> reads_on(
                    Phase::Credentials,
                    Seq::empty(),
                    1,
                    later,
                    asked,
                )),
            Verdict::Refused { error } => turned_away(error, next, action),
        },
{
}

/// A name and a password are judged by all that was read of them. The right
/// ones are confirmed, and then the first four octets of the request are
/// asked for.
pub proof fn law_credentials_are_answered(
    read: Vec<u8>,
    need: usize,
    bytes: Vec<u8>,
    message: &[u8],
    verdict: Verdict,
    username: &str,
    password: &str,
    next: Session,
    action: SessionAction,
)
    requires
        leads(
            Session::Reading { phase: Phase::Credentials, read, need },
            SessionEvent::Received { bytes },
            username,
            password,
            next,
            action,
        ),
        message@ == read@ + bytes@,
        call_ensures(authenticate, (message, username, password), verdict),
    ensures
        match verdict {
            Verdict::Need { count } => reads_on(Phase::Credentials, message@, count, next, action),
            Verdict::Accepted => writes(action, seq![1u8, 0]) && (forall|
                later: Session,
                asked: SessionAction,
            | #[trigger]
                leads(next, SessionEvent::Written, username, password, later, asked) ==> reads_on(
                    Phase::Request,
                    Seq::empty(),
                    4,
                    later,
                    asked,
                )),
            Verdict::Refused { error } => turned_away(error, next, action),
        },
{
}

/// A request is judged by all that was read of it. A request to be connected
/// makes the server ask for an address, for that very target.
pub proof fn law_request_is_answered(
    read: Vec<u8>,
    need: usize,
    bytes: Vec<u8>,
    message: &[u8],
    verdict: RequestVerdict,
    username: &str,
    password: &str,
    next: Session,
    action: SessionAction,
)
    requires
        leads(
            Session::Reading { phase: Phase::Request, read, need },
            SessionEvent::Received { bytes },
            username,
            password,
            next,
            action,
        ),
        message@ == read@ + bytes@,
        call_ensures(read_connect_request, (message,), verdict),
    ensures
        match verdict {
            RequestVerdict::Need { count } => reads_on(
                Phase::Request,
                message@,
                count,
                next,
                action,
            ),
            RequestVerdict::Connect { target } => action is Lease && (
            next matches Session::Leasing { target: asked } && asked.host@ == target.host@
                && asked.port == target.port),
            RequestVerdict::Refused { error } => turned_away(error, next, action),
        },
{
}

/// A client that was told why it is turned away is disconnected with that
/// error.
pub proof fn law_refused_client_is_disconnected(
    error: Socks5Error,
    username: &str,
    password: &str,
    next: Session,
    action: SessionAction,
)
    requires
        leads(
            Session::Refusing { error },
            SessionEvent::Written,
            username,
            password,
            next,
            action,
        ),
    ensures
        ends_with(next, action, None, Some(crate::session::FailureView::Protocol { error })),
{
}

/// With an address to connect from, the target is looked up under its host
/// and port, and the address is kept.
pub proof fn law_target_is_looked_up(
    target: TargetAddr,
    ip: u128,
    username: &str,
    password: &str,
    next: Session,
    action: SessionAction,
)
    requires
        leads(
            Session::Leasing { target },
            SessionEvent::Leased { ip: Some(ip) },
            username,
            password,
            next,
            action,
        ),
    ensures
        holds(next) == Some(ip),
        next is Resolving,
        exists|digits: Seq<char>|
            {
                &&& #[trigger] crate::notation_laws::plain(target.port as nat, digits)
                &&& action matches SessionAction::Resolve { authority, ip: from } && from == ip
                    && authority@ == if target.host@.contains(':') {
                    seq!['['] + target.host@ + seq![']', ':'] + digits
                } else {
                    target.host@ + seq![':'] + digits
                }
            },
{
    crate::notation_laws::lemma_decimal_is_plain(target.port as nat);
}

/// Without an address to connect from, the client is told of a general
/// failure, and the connection is closed with nothing to report.
pub proof fn law_no_address_means_general_failure(
    target: TargetAddr,
    username: &str,
    password: &str,
    next: Session,
    action: SessionAction,
    last: Session,
    end: SessionAction,
)
    requires
        leads(
            Session::Leasing { target },
            SessionEvent::Leased { ip: None },
            username,
            password,
            next,
            action,
        ),
        leads(next, SessionEvent::Written, username, password, last, end),
    ensures
        replies(action, 1, None),
        holds(next) is None,
        ends_with(last, end, None, None),
{
    crate::socks5_laws::lemma_reply_tells(1, None);
}

/// The session tries this address of the list next, from the leased address
/// and for five seconds.
pub open spec fn tries(
    next: Session,
    action: SessionAction,
    addresses: Seq<SocketAddress>,
    place: int,
    failure: Option<crate::session::FailureView>,
    ip: u128,
) -> bool {
    &&& next matches Session::Dialing { addresses: list, next: at, last, ip: from } && list@
        == addresses && at == place && crate::session::view_failure(last) == failure && from == ip
    &&& action == (SessionAction::Connect { address: addresses[place], ip, timeout_secs: 5 })
}

/// The client is told that the target was not reached, and the connection is
/// to end with this failure.
pub open spec fn unreached_with(
    next: Session,
    action: SessionAction,
    failure: crate::session::FailureView,
    ip: u128,
) -> bool {
    &&& next matches Session::Failing { failure: why, ip: from } && why@ == failure && from == ip
    &&& replies(action, 5, None)
}

/// Of the addresses from this place on, the first IPv6 address is tried next;
/// where there is none, the failure is reported.
pub open spec fn goes_on_from(
    next: Session,
    action: SessionAction,
    addresses: Seq<SocketAddress>,
    from: int,
    failure: Option<crate::session::FailureView>,
    ip: u128,
) -> bool {
    ||| exists|place: int|
        {
            &&& from <= place < addresses.len()
            &&& addresses[place] is V6
            &&& forall|i: int| from <= i < place ==> (#[trigger] addresses[i]) is V4
            &&& #[trigger] tries(next, action, addresses, place, failure, ip)
        }
    ||| {
        &&& forall|i: int| from <= i < addresses.len() ==> (#[trigger] addresses[i]) is V4
        &&& unreached_with(
            next,
            action,
            match failure {
                Some(failure) => failure,
                None => crate::session::FailureView::NoIpv6Address,
            },
            ip,
        )
    }
}

proof fn lemma_goes_on_from(
    next: Session,
    action: SessionAction,
    addresses: Seq<SocketAddress>,
    from: int,
    failure: Option<crate::session::FailureView>,
    ip: u128,
)
    requires
        0 <= from <= addresses.len(),
        next@ == crate::session::dialing_from(addresses, from, failure, ip),
        call_ensures(Session::action, (&next,), action),
    ensures
        goes_on_from(next, action, addresses, from, failure, ip),
{
    crate::session_laws::law_next_ipv6_is_the_nearest(addresses, from);
    crate::socks5_laws::lemma_reply_tells(5, None);
    let place = crate::session::next_ipv6(addresses, from);
    if place < addresses.len() {
        assert(tries(next, action, addresses, place, failure, ip));
    }
}

/// What was found of a target is tried in its order, IPv6 addresses only,
/// from the leased address.
pub proof fn law_first_address_is_tried(
    target: TargetAddr,
    ip: u128,
    addresses: Vec<SocketAddress>,
    username: &str,
    password: &str,
    next: Session,
    action: SessionAction,
)
    requires
        leads(
            Session::Resolving { target, ip },
            SessionEvent::Resolved { addresses },
            username,
            password,
            next,
            action,
        ),
    ensures
        goes_on_from(next, action, addresses@, 0, None, ip),
{
    lemma_goes_on_from(next, action, addresses@, 0, None, ip);
}

/// An address that could not be connected to is followed by the next IPv6
/// address of the list, with what was reported of it kept in mind.
pub proof fn law_next_address_is_tried(
    addresses: Vec<SocketAddress>,
    place: usize,
    last: Option<Failure>,
    ip: u128,
    kind: std::io::ErrorKind,
    text: String,
    username: &str,
    password: &str,
    next: Session,
    action: SessionAction,
)
    requires
        place < addresses@.len(),
        leads(
            Session::Dialing { addresses, next: place, last, ip },
            SessionEvent::ConnectFailed { kind, text },
            username,
            password,
            next,
            action,
        ),
    ensures
        goes_on_from(
            next,
            action,
            addresses@,
            place + 1,
            Some(crate::session::FailureView::Io { kind, text: text@ }),
            ip,
        ),
{
    lemma_goes_on_from(
        next,
        action,
        addresses@,
        place + 1,
        Some(crate::session::FailureView::Io { kind, text: text@ }),
        ip,
    );
}

/// An address that did not answer in time is followed by the next IPv6
/// address of the list, and is the one that is reported if none is left.
pub proof fn law_next_address_is_tried_in_time(
    addresses: Vec<SocketAddress>,
    place: usize,
    last: Option<Failure>,
    ip: u128,
    username: &str,
    password: &str,
    next: Session,
    action: SessionAction,
)
    requires
        place < addresses@.len(),
        leads(
            Session::Dialing { addresses, next: place, last, ip },
            SessionEvent::ConnectTimedOut,
            username,
            password,
            next,
            action,
        ),
    ensures
        goes_on_from(
            next,
            action,
            addresses@,
            place + 1,
            Some(crate::session::FailureView::TimedOut { address: addresses@[place as int] }),
            ip,
        ),
{
    lemma_goes_on_from(
        next,
        action,
        addresses@,
        place + 1,
        Some(crate::session::FailureView::TimedOut { address: addresses@[place as int] }),
        ip,
    );
}

/// A client whose target was not reached is told so; then the address is
/// given back, and the connection is closed with the failure of the last
/// attempt.
pub proof fn law_unreached_target_is_reported(
    failure: Failure,
    ip: u128,
    username: &str,
    password: &str,
    told: Session,
    release: SessionAction,
    last: Session,
    end: SessionAction,
)
    requires
        leads(
            Session::Failing { failure, ip },
            SessionEvent::Written,
            username,
            password,
            told,
            release,
        ),
        leads(told, SessionEvent::Released, username, password, last, end),
    ensures
        release == (SessionAction::Release { ip }),
        ends_with(last, end, None, Some(failure@)),
{
}

/// Whichever address of the list answers, the client is first written the
/// reply of success with the local address of the connection. Only then is
/// data passed on. When that ends, the address is given back, and the
/// connection is closed with nothing to report.
pub proof fn law_connected_client_is_told_and_then_served(
    addresses: Vec<SocketAddress>,
    place: usize,
    last: Option<Failure>,
    ip: u128,
    local: Option<SocketAddress>,
    username: &str,
    password: &str,
    announcing: Session,
    reply: SessionAction,
    relaying: Session,
    relay: SessionAction,
    releasing: Session,
    release: SessionAction,
    closed: Session,
    close: SessionAction,
)
    requires
        leads(
            Session::Dialing { addresses, next: place, last, ip },
            SessionEvent::Connected { local },
            username,
            password,
            announcing,
            reply,
        ),
        leads(announcing, SessionEvent::Written, username, password, relaying, relay),
        leads(relaying, SessionEvent::Relayed, username, password, releasing, release),
        leads(releasing, SessionEvent::Released, username, password, closed, close),
    ensures
        replies(reply, 0, local),
        holds(announcing) == Some(ip),
        relay is Relay,
        holds(relaying) == Some(ip),
        release == (SessionAction::Release { ip }),
        ends_with(closed, close, None, None),
{
    crate::socks5_laws::lemma_reply_tells(0, local);
}

/// Data is passed on only by a session that has just written a reply of
/// success, or was passing data on already.
pub proof fn law_relay_follows_the_reply(
    before: Session,
    asked: SessionAction,
    event: SessionEvent,
    username: &str,
    password: &str,
    next: Session,
    action: SessionAction,
)
    requires
        call_ensures(Session::action, (&before,), asked),
        leads(before, event, username, password, next, action),
        action is Relay,
    ensures
        asked is Relay || (before matches Session::Announcing { local, ip: _ } && event is Written
            && replies(asked, 0, local)),
{
    if let Session::Announcing { local, ip: _ } = before {
        crate::socks5_laws::lemma_reply_tells(0, local);
    }
    lemma_dialing_asks_for_no_relay(before, event, username, password, next);
}

proof fn lemma_dialing_asks_for_no_relay(
    before: Session,
    event: SessionEvent,
    username: &str,
    password: &str,
    next: Session,
)
    requires
        call_ensures(Session::handle, (before, event, username, password), next),
        next is Relaying,
    ensures
        before is Relaying || before is Announcing && event is Written,
{
}

/// A reply of success is written only where a connection was made, and tells
/// the local address of that connection.
pub proof fn law_success_is_reported_of_connections_only(
    before: Session,
    asked: SessionAction,
    event: SessionEvent,
    username: &str,
    password: &str,
    next: Session,
    told: Option<SocketAddress>,
    held: u128,
)
    requires
        call_ensures(Session::action, (&before,), asked),
        call_ensures(Session::handle, (before, event, username, password), next),
        next@ == (Session::Announcing { local: told, ip: held })@,
    ensures
        next@ == before@ || (asked is Connect && holds(before) == Some(held) && (
        event matches SessionEvent::Connected { local } && local == told)),
{
}

/// A session took these events one after the other and asked for these
/// things.
pub open spec fn runs(
    sessions: Seq<Session>,
    actions: Seq<SessionAction>,
    events: Seq<SessionEvent>,
    username: &str,
    password: &str,
) -> bool {
    &&& sessions.len() == events.len() + 1
    &&& actions.len() == sessions.len()
    &&& call_ensures(Session::new, (), sessions[0])
    &&& call_ensures(Session::action, (&sessions[0],), actions[0])
    &&& forall|k: int|
        0 <= k < events.len() ==> #[trigger] leads(
            sessions[k],
            events[k],
            username,
            password,
            sessions[k + 1],
            actions[k + 1],
        )
}

proof fn lemma_reply_before_relay(
    sessions: Seq<Session>,
    actions: Seq<SessionAction>,
    events: Seq<SessionEvent>,
    username: &str,
    password: &str,
    m: int,
)
    requires
        runs(sessions, actions, events, username, password),
        0 <= m < actions.len(),
    ensures
        actions[m] is Relay ==> exists|k: int, local: Option<SocketAddress>|
            0 <= k < m && events[k] is Written && #[trigger] replies(actions[k], 0, local),
        sessions[m] matches Session::Announcing { local, ip: _ } ==> exists|j: int|
            0 <= j < m && actions[j] is Connect && #[trigger] events[j] == (
            SessionEvent::Connected { local }),
    decreases m,
{
    if m > 0 {
        lemma_reply_before_relay(sessions, actions, events, username, password, m - 1);
        assert(leads(
            sessions[m - 1],
            events[m - 1],
            username,
            password,
            sessions[m - 1 + 1],
            actions[m - 1 + 1],
        ));
        if m > 1 {
            assert(leads(
                sessions[m - 2],
                events[m - 2],
                username,
                password,
                sessions[m - 2 + 1],
                actions[m - 2 + 1],
            ));
        }
        assert(call_ensures(Session::action, (&sessions[m - 1],), actions[m - 1]));
        if actions[m] is Relay {
            law_relay_follows_the_reply(
                sessions[m - 1],
                actions[m - 1],
                events[m - 1],
                username,
                password,
                sessions[m],
                actions[m],
            );
            if let Session::Announcing { local, ip: _ } = sessions[m - 1] {
                if actions[m - 1] !is Relay {
                    assert(replies(actions[m - 1], 0, local));
                }
            }
        }
        if let Session::Announcing { local, ip } = sessions[m] {
            law_success_is_reported_of_connections_only(
                sessions[m - 1],
                actions[m - 1],
                events[m - 1],
                username,
                password,
                sessions[m],
                local,
                ip,
            );
        }
    }
}

/// In the whole course of a connection, data is passed on only after a reply
/// of success was written to the client.
pub proof fn law_nothing_is_relayed_before_the_reply(
    sessions: Seq<Session>,
    actions: Seq<SessionAction>,
    events: Seq<SessionEvent>,
    username: &str,
    password: &str,
    m: int,
)
    requires
        runs(sessions, actions, events, username, password),
        0 <= m < actions.len(),
        actions[m] is Relay,
    ensures
        exists|k: int, local: Option<SocketAddress>|
            0 <= k < m && events[k] is Written && #[trigger] replies(actions[k], 0, local),
{
    lemma_reply_before_relay(sessions, actions, events, username, password, m);
}

/// What each standing of a session asks for.
pub proof fn law_each_standing_asks_for_its_thing(session: Session, action: SessionAction)
    requires
        call_ensures(Session::action, (&session,), action),
    ensures
        match session {
            Session::Reading { phase: _, read: _, need } => action == (SessionAction::Read {
                count: need,
            }),
            Session::Welcoming => writes(action, seq![5u8, 2]),
            Session::Admitting => writes(action, seq![1u8, 0]),
            Session::Refusing { error } => match error {
                Socks5Error::AuthNotOffered => writes(action, seq![5u8, 255]),
                Socks5Error::BadCredentials => writes(action, seq![1u8, 1]),
                _ => writes(action, Seq::empty()),
            },
            Session::Leasing { target: _ } => action is Lease,
            Session::Declining => replies(action, 1, None),
            Session::Resolving { target: _, ip } => (action matches SessionAction::Resolve {
                authority: _,
                ip: from,
            } && from == ip),
            Session::Dialing { addresses, next, last: _, ip } => action == (
            SessionAction::Connect { address: addresses@[next as int], ip, timeout_secs: 5 }),
            Session::Announcing { local, ip: _ } => replies(action, 0, local),
            Session::Relaying { ip: _ } => action is Relay,
            Session::Failing { failure: _, ip: _ } => replies(action, 5, None),
            Session::Releasing { outcome: _, ip } => action == (SessionAction::Release { ip }),
            Session::Closed { outcome: _ } => action is Close,
        },
{
    crate::socks5_laws::lemma_reply_tells(1, None);
    crate::socks5_laws::lemma_reply_tells(5, None);
    if let Session::Announcing { local, ip: _ } = session {
        crate::socks5_laws::lemma_reply_tells(0, local);
    }
}

/// What is reported of a failure: what it came with from outside, or what the
/// server found.
pub proof fn law_failures_are_reported(failure: Failure, text: String, kind: FailureKind)
    requires
        call_ensures(Failure::message, (&failure,), text),
        call_ensures(Failure::kind, (&failure,), kind),
    ensures
        match failure {
            Failure::Io { kind: outside, text: told } => text@ == told@ && kind == (
            FailureKind::Outside { kind: outside }),
            Failure::NoIpv6Address => text@ == "target has no IPv6 address"@ && kind == (
            FailureKind::Found { class: ErrorKind::NotFound }),
            Failure::TimedOut { address } => kind == (FailureKind::Found {
                class: ErrorKind::TimedOut,
            }) && text@ == "connect to "@ + crate::address::socket_notation(address)
                + " timed out"@,
            Failure::Protocol { error } => kind == (FailureKind::Found {
                class: match error {
                    Socks5Error::AuthNotOffered => ErrorKind::PermissionDenied,
                    Socks5Error::BadCredentials => ErrorKind::PermissionDenied,
                    _ => ErrorKind::InvalidData,
                },
            }) && (forall|message: &'static str| #[trigger]
                call_ensures(Socks5Error::message, (error,), message) ==> text@ == message@),
        },
{
}

/// What is reported of an address that did not answer names it.
pub proof fn law_timeout_names_the_address(address: &str, text: String)
    requires
        call_ensures(timeout_text, (address,), text),
    ensures
        text@ == "connect to "@ + address@ + " timed out"@,
{
}

} // verus!
