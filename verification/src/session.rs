//! The course of one SOCKS5 connection.
//!
//! A [`Session`] says what to do next and takes in what came of it. It lets
//! in a client that brings the right name and password, leases an address for
//! it, tries the addresses of the target in turn, and releases what it leased
//! however the connection ends.

use crate::address::{authority, socket_text, SocketAddress};
use crate::socks5::{
    authenticate, encode_reply, negotiate_auth, read_connect_request, ErrorKind, RequestVerdict,
    Socks5Error, TargetAddr, TargetView, Verdict,
};
use vstd::prelude::*;
use vstd::string::StringExecFns;

verus! {

/// How long one attempt to connect may take.
pub const CONNECT_TIMEOUT_SECS: u64 = 5;

/// The code of a reply that reports success.
pub const SUCCEEDED: u8 = 0x00;

/// The code of a reply that reports that the server cannot serve.
pub const GENERAL_FAILURE: u8 = 0x01;

/// The code of a reply that reports that the target was not reached.
pub const CONNECTION_REFUSED: u8 = 0x05;

/// The class that `std::io` gives to an error. A session carries it along and
/// does not look into it.
#[verifier::external_type_specification]
#[verifier::external_body]
pub struct ExErrorKind(std::io::ErrorKind);

/// The class of a failure: one that the server found itself, or one that came
/// from outside with its class.
#[derive(Debug, Clone, Copy, PartialEq, Eq)]
pub enum FailureKind {
    Found { class: ErrorKind },
    Outside { kind: std::io::ErrorKind },
}

/// Why a connection ended early.
#[derive(Debug)]
pub enum Failure {
    /// The client was turned away.
    Protocol { error: Socks5Error },
    /// Reading, writing or connecting failed, as the text says.
    Io { kind: std::io::ErrorKind, text: String },
    /// The target's address did not answer in time.
    TimedOut { address: SocketAddress },
    /// No address of the target is an IPv6 address.
    NoIpv6Address,
}

/// What a [`Failure`] holds.
pub enum FailureView {
    Protocol { error: Socks5Error },
    Io { kind: std::io::ErrorKind, text: Seq<char> },
    TimedOut { address: SocketAddress },
    NoIpv6Address,
}

impl View for Failure {
    type V = FailureView;

    open spec fn view(&self) -> FailureView {
        match self {
            Failure::Protocol { error } => FailureView::Protocol { error: *error },
            Failure::Io { kind, text } => FailureView::Io { kind: *kind, text: text@ },
            Failure::TimedOut { address } => FailureView::TimedOut { address: *address },
            Failure::NoIpv6Address => FailureView::NoIpv6Address,
        }
    }
}

impl FailureView {
    pub open spec fn message(self) -> Seq<char> {
        match self {
            FailureView::Protocol { error } => error.spec_message(),
            FailureView::Io { kind: _, text } => text,
            FailureView::TimedOut { address } => timeout_report(
                crate::address::socket_notation(address),
            ),
            FailureView::NoIpv6Address => "target has no IPv6 address"@,
        }
    }

    /// The class of the failure.
    pub open spec fn kind(self) -> FailureKind {
        match self {
            FailureView::Protocol { error } => FailureKind::Found { class: error.spec_kind() },
            FailureView::Io { kind, text: _ } => FailureKind::Outside { kind },
            FailureView::TimedOut { address: _ } => FailureKind::Found { class: ErrorKind::TimedOut },
            FailureView::NoIpv6Address => FailureKind::Found { class: ErrorKind::NotFound },
        }
    }
}

/// What is reported of an address that did not answer in time.
pub open spec fn timeout_report(address: Seq<char>) -> Seq<char> {
    "connect to "@ + address + " timed out"@
}

/// Reports that the address that is written like this did not answer.
pub fn timeout_text(address: &str) -> (text: String)
    ensures
        text@ == timeout_report(address@),
{
    let mut text = "connect to ".to_owned();
    text.append(address);
    text.append(" timed out");
    text
}

impl Failure {
    /// What is reported of the failure.
    pub fn message(&self) -> (text: String)
        ensures
            text@ == self@.message(),
    {
        match self {
            Failure::Protocol { error } => error.message().to_owned(),
            Failure::Io { kind: _, text } => text.clone(),
            Failure::TimedOut { address } => {
                let written = socket_text(*address);
                timeout_text(written.as_str())
            },
            Failure::NoIpv6Address => "target has no IPv6 address".to_owned(),
        }
    }

    /// The class of the failure.
    pub fn kind(&self) -> (kind: FailureKind)
        ensures
            kind == self@.kind(),
    {
        match self {
            Failure::Protocol { error } => FailureKind::Found { class: error.kind() },
            Failure::Io { kind, text: _ } => FailureKind::Outside { kind: *kind },
            Failure::TimedOut { address: _ } => FailureKind::Found { class: ErrorKind::TimedOut },
            Failure::NoIpv6Address => FailureKind::Found { class: ErrorKind::NotFound },
        }
    }
}

pub open spec fn view_failure(failure: Option<Failure>) -> Option<FailureView> {
    match failure {
        Some(failure) => Some(failure@),
        None => None,
    }
}

/// The message that is being read.
#[derive(Clone, Copy, Debug, PartialEq, Eq, Structural)]
pub enum Phase {
    Greeting,
    Credentials,
    Request,
}

/// Where a connection stands.
#[derive(Debug)]
pub enum Session {
    /// Reading a message, of which `need` more octets are due.
    Reading { phase: Phase, read: Vec<u8>, need: usize },
    /// Telling the client to bring its name and password.
    Welcoming,
    /// Telling the client that it is let in.
    Admitting,
    /// Telling the client why it is turned away.
    Refusing { error: Socks5Error },
    /// Asking for an address to connect from.
    Leasing { target: TargetAddr },
    /// Telling the client that there is no address to connect from.
    Declining,
    /// Looking up the target.
    Resolving { target: TargetAddr, ip: u128 },
    /// Connecting to one of the target's addresses.
    Dialing {
        addresses: Vec<SocketAddress>,
        next: usize,
        last: Option<Failure>,
        ip: u128,
    },
    /// Telling the client that it is connected.
    Announcing { local: Option<SocketAddress>, ip: u128 },
    /// Passing data on.
    Relaying { ip: u128 },
    /// Telling the client that the target was not reached.
    Failing { failure: Failure, ip: u128 },
    /// Giving the address back.
    Releasing { outcome: Option<Failure>, ip: u128 },
    /// Done; there is nothing to report if the outcome is `None`.
    Closed { outcome: Option<Failure> },
}

/// What a [`Session`] holds.
pub enum SessionView {
    Reading { phase: Phase, read: Seq<u8>, need: usize },
    Welcoming,
    Admitting,
    Refusing { error: Socks5Error },
    Leasing { target: TargetView },
    Declining,
    Resolving { target: TargetView, ip: u128 },
    Dialing {
        addresses: Seq<SocketAddress>,
        next: int,
        last: Option<FailureView>,
        ip: u128,
    },
    Announcing { local: Option<SocketAddress>, ip: u128 },
    Relaying { ip: u128 },
    Failing { failure: FailureView, ip: u128 },
    Releasing { outcome: Option<FailureView>, ip: u128 },
    Closed { outcome: Option<FailureView> },
}

impl View for Session {
    type V = SessionView;

    open spec fn view(&self) -> SessionView {
        match self {
            Session::Reading { phase, read, need } => SessionView::Reading {
                phase: *phase,
                read: read@,
                need: *need,
            },
            Session::Welcoming => SessionView::Welcoming,
            Session::Admitting => SessionView::Admitting,
            Session::Refusing { error } => SessionView::Refusing { error: *error },
            Session::Leasing { target } => SessionView::Leasing { target: target@ },
            Session::Declining => SessionView::Declining,
            Session::Resolving { target, ip } => SessionView::Resolving {
                target: target@,
                ip: *ip,
            },
            Session::Dialing { addresses, next, last, ip } => SessionView::Dialing {
                addresses: addresses@,
                next: *next as int,
                last: view_failure(*last),
                ip: *ip,
            },
            Session::Announcing { local, ip } => SessionView::Announcing { local: *local, ip: *ip },
            Session::Relaying { ip } => SessionView::Relaying { ip: *ip },
            Session::Failing { failure, ip } => SessionView::Failing { failure: failure@, ip: *ip },
            Session::Releasing { outcome, ip } => SessionView::Releasing {
                outcome: view_failure(*outcome),
                ip: *ip,
            },
            Session::Closed { outcome } => SessionView::Closed { outcome: view_failure(*outcome) },
        }
    }
}

/// What came of the action that a session asked for.
#[derive(Debug)]
pub enum SessionEvent {
    Received { bytes: Vec<u8> },
    Written,
    Leased { ip: Option<u128> },
    Resolved { addresses: Vec<SocketAddress> },
    Connected { local: Option<SocketAddress> },
    /// The address could not be connected to.
    ConnectFailed { kind: std::io::ErrorKind, text: String },
    ConnectTimedOut,
    Relayed,
    Released,
    /// The action failed in a way that ends the connection.
    Failed { kind: std::io::ErrorKind, text: String },
}

/// What a [`SessionEvent`] holds.
pub enum SessionEventView {
    Received { bytes: Seq<u8> },
    Written,
    Leased { ip: Option<u128> },
    Resolved { addresses: Seq<SocketAddress> },
    Connected { local: Option<SocketAddress> },
    ConnectFailed { kind: std::io::ErrorKind, text: Seq<char> },
    ConnectTimedOut,
    Relayed,
    Released,
    Failed { kind: std::io::ErrorKind, text: Seq<char> },
}

impl View for SessionEvent {
    type V = SessionEventView;

    open spec fn view(&self) -> SessionEventView {
        match self {
            SessionEvent::Received { bytes } => SessionEventView::Received { bytes: bytes@ },
            SessionEvent::Written => SessionEventView::Written,
            SessionEvent::Leased { ip } => SessionEventView::Leased { ip: *ip },
            SessionEvent::Resolved { addresses } => SessionEventView::Resolved {
                addresses: addresses@,
            },
            SessionEvent::Connected { local } => SessionEventView::Connected { local: *local },
            SessionEvent::ConnectFailed { kind, text } => SessionEventView::ConnectFailed {
                kind: *kind,
                text: text@,
            },
            SessionEvent::ConnectTimedOut => SessionEventView::ConnectTimedOut,
            SessionEvent::Relayed => SessionEventView::Relayed,
            SessionEvent::Released => SessionEventView::Released,
            SessionEvent::Failed { kind, text } => SessionEventView::Failed {
                kind: *kind,
                text: text@,
            },
        }
    }
}

/// What a session asks for.
#[derive(Debug)]
pub enum SessionAction {
    Read { count: usize },
    Write { bytes: Vec<u8> },
    Lease,
    Resolve { authority: String, ip: u128 },
    Connect { address: SocketAddress, ip: u128, timeout_secs: u64 },
    Relay,
    Release { ip: u128 },
    Close,
}

/// What a [`SessionAction`] holds.
pub enum SessionActionView {
    Read { count: usize },
    Write { bytes: Seq<u8> },
    Lease,
    Resolve { authority: Seq<char>, ip: u128 },
    Connect { address: SocketAddress, ip: u128, timeout_secs: u64 },
    Relay,
    Release { ip: u128 },
    Close,
}

impl View for SessionAction {
    type V = SessionActionView;

    open spec fn view(&self) -> SessionActionView {
        match self {
            SessionAction::Read { count } => SessionActionView::Read { count: *count },
            SessionAction::Write { bytes } => SessionActionView::Write { bytes: bytes@ },
            SessionAction::Lease => SessionActionView::Lease,
            SessionAction::Resolve { authority, ip } => SessionActionView::Resolve {
                authority: authority@,
                ip: *ip,
            },
            SessionAction::Connect { address, ip, timeout_secs } => SessionActionView::Connect {
                address: *address,
                ip: *ip,
                timeout_secs: *timeout_secs,
            },
            SessionAction::Relay => SessionActionView::Relay,
            SessionAction::Release { ip } => SessionActionView::Release { ip: *ip },
            SessionAction::Close => SessionActionView::Close,
        }
    }
}

/// A client that is turned away is told so if the error has a reply.
pub open spec fn refused(error: Socks5Error) -> SessionView {
    if error.spec_reply() is Some {
        SessionView::Refusing { error }
    } else {
        SessionView::Closed { outcome: Some(FailureView::Protocol { error }) }
    }
}

/// Where a session stands when this has been read of a message.
pub open spec fn judged(
    phase: Phase,
    read: Seq<u8>,
    username: Seq<char>,
    password: Seq<char>,
) -> SessionView {
    match phase {
        Phase::Greeting => match crate::socks5::greeting_verdict(read) {
            Verdict::Need { count } => SessionView::Reading { phase, read, need: count },
            Verdict::Accepted => SessionView::Welcoming,
            Verdict::Refused { error } => refused(error),
        },
        Phase::Credentials => match crate::socks5::credentials_verdict(read, username, password) {
            Verdict::Need { count } => SessionView::Reading { phase, read, need: count },
            Verdict::Accepted => SessionView::Admitting,
            Verdict::Refused { error } => refused(error),
        },
        Phase::Request => match crate::socks5::request_verdict(read) {
            crate::socks5::RequestVerdictView::Need { count } => SessionView::Reading {
                phase,
                read,
                need: count,
            },
            crate::socks5::RequestVerdictView::Connect { target } => SessionView::Leasing {
                target,
            },
            crate::socks5::RequestVerdictView::Refused { error } => refused(error),
        },
    }
}

/// The place of the first IPv6 address from `from` on, or the length of the
/// list if there is none.
pub open spec fn next_ipv6(addresses: Seq<SocketAddress>, from: int) -> int
    decreases addresses.len() - from,
{
    if from >= addresses.len() {
        addresses.len() as int
    } else if addresses[from] is V6 {
        from
    } else {
        next_ipv6(addresses, from + 1)
    }
}

/// Where a session stands that goes on dialing from a place of the list, with
/// what became of the attempt before.
pub open spec fn dialing_from(
    addresses: Seq<SocketAddress>,
    from: int,
    failure: Option<FailureView>,
    ip: u128,
) -> SessionView {
    let next = next_ipv6(addresses, from);
    if next < addresses.len() {
        SessionView::Dialing { addresses, next, last: failure, ip }
    } else {
        SessionView::Failing {
            failure: match failure {
                Some(failure) => failure,
                None => FailureView::NoIpv6Address,
            },
            ip,
        }
    }
}

impl SessionView {
    /// The start of a connection.
    pub open spec fn start() -> SessionView {
        SessionView::Reading { phase: Phase::Greeting, read: Seq::empty(), need: 2 }
    }

    /// The address that the session has leased and not given back.
    pub open spec fn held(self) -> Option<u128> {
        match self {
            SessionView::Resolving { target: _, ip } => Some(ip),
            SessionView::Dialing { addresses: _, next: _, last: _, ip } => Some(ip),
            SessionView::Announcing { local: _, ip } => Some(ip),
            SessionView::Relaying { ip } => Some(ip),
            SessionView::Failing { failure: _, ip } => Some(ip),
            SessionView::Releasing { outcome: _, ip } => Some(ip),
            _ => None,
        }
    }

    /// Where a session stands when its action failed.
    pub open spec fn broken(self, kind: std::io::ErrorKind, text: Seq<char>) -> SessionView {
        let outcome = Some(FailureView::Io { kind, text });
        match self {
            SessionView::Releasing { outcome: _, ip: _ } => self,
            SessionView::Closed { outcome: _ } => self,
            _ => match self.held() {
                Some(ip) => SessionView::Releasing { outcome, ip },
                None => SessionView::Closed { outcome },
            },
        }
    }

    /// Where a session stands after an event. One that it did not ask for
    /// changes nothing.
    pub open spec fn after(
        self,
        event: SessionEventView,
        username: Seq<char>,
        password: Seq<char>,
    ) -> SessionView {
        match (self, event) {
            (_, SessionEventView::Failed { kind, text }) => self.broken(kind, text),
            (
                SessionView::Reading { phase, read, need: _ },
                SessionEventView::Received { bytes },
            ) => judged(phase, read + bytes, username, password),
            (SessionView::Welcoming, SessionEventView::Written) => SessionView::Reading {
                phase: Phase::Credentials,
                read: Seq::empty(),
                need: 1,
            },
            (SessionView::Admitting, SessionEventView::Written) => SessionView::Reading {
                phase: Phase::Request,
                read: Seq::empty(),
                need: 4,
            },
            (SessionView::Refusing { error }, SessionEventView::Written) => SessionView::Closed {
                outcome: Some(FailureView::Protocol { error }),
            },
            (SessionView::Leasing { target }, SessionEventView::Leased { ip }) => match ip {
                Some(ip) => SessionView::Resolving { target, ip },
                None => SessionView::Declining,
            },
            (SessionView::Declining, SessionEventView::Written) => SessionView::Closed {
                outcome: None,
            },
            (
                SessionView::Resolving { target: _, ip },
                SessionEventView::Resolved { addresses },
            ) => dialing_from(addresses, 0, None, ip),
            (
                SessionView::Dialing { addresses: _, next: _, last: _, ip },
                SessionEventView::Connected { local },
            ) => SessionView::Announcing { local, ip },
            (
                SessionView::Dialing { addresses, next, last: _, ip },
                SessionEventView::ConnectFailed { kind, text },
            ) => dialing_from(addresses, next + 1, Some(FailureView::Io { kind, text }), ip),
            (
                SessionView::Dialing { addresses, next, last: _, ip },
                SessionEventView::ConnectTimedOut,
            ) => dialing_from(
                addresses,
                next + 1,
                Some(FailureView::TimedOut { address: addresses[next] }),
                ip,
            ),
            (SessionView::Announcing { local: _, ip }, SessionEventView::Written) =>
                SessionView::Relaying { ip },
            (SessionView::Relaying { ip }, SessionEventView::Relayed) => SessionView::Releasing {
                outcome: None,
                ip,
            },
            (SessionView::Failing { failure, ip }, SessionEventView::Written) =>
                SessionView::Releasing { outcome: Some(failure), ip },
            (SessionView::Releasing { outcome, ip: _ }, SessionEventView::Released) =>
                SessionView::Closed { outcome },
            _ => self,
        }
    }

    /// What the session asks for.
    pub open spec fn action(self) -> SessionActionView {
        match self {
            SessionView::Reading { phase: _, read: _, need } => SessionActionView::Read {
                count: need,
            },
            SessionView::Welcoming => SessionActionView::Write { bytes: seq![0x05u8, 0x02] },
            SessionView::Admitting => SessionActionView::Write { bytes: seq![0x01u8, 0x00] },
            SessionView::Refusing { error } => SessionActionView::Write {
                bytes: match error.spec_reply() {
                    Some(bytes) => bytes,
                    None => Seq::empty(),
                },
            },
            SessionView::Leasing { target: _ } => SessionActionView::Lease,
            SessionView::Declining => SessionActionView::Write {
                bytes: crate::socks5::reply_octets(GENERAL_FAILURE, None),
            },
            SessionView::Resolving { target, ip } => SessionActionView::Resolve {
                authority: crate::address::host_and_port(target.host, target.port),
                ip,
            },
            SessionView::Dialing { addresses, next, last: _, ip } => SessionActionView::Connect {
                address: addresses[next],
                ip,
                timeout_secs: CONNECT_TIMEOUT_SECS,
            },
            SessionView::Announcing { local, ip: _ } => SessionActionView::Write {
                bytes: crate::socks5::reply_octets(SUCCEEDED, local),
            },
            SessionView::Relaying { ip: _ } => SessionActionView::Relay,
            SessionView::Failing { failure: _, ip: _ } => SessionActionView::Write {
                bytes: crate::socks5::reply_octets(CONNECTION_REFUSED, None),
            },
            SessionView::Releasing { outcome: _, ip } => SessionActionView::Release { ip },
            SessionView::Closed { outcome: _ } => SessionActionView::Close,
        }
    }

    /// The attempt that is under way is one of the list, to an IPv6 address.
    pub open spec fn well_formed(self) -> bool {
        self matches SessionView::Dialing { addresses, next, last: _, ip: _ } ==> {
            &&& 0 <= next < addresses.len()
            &&& addresses[next] is V6
        }
    }
}

fn refuse(error: Socks5Error) -> (session: Session)
    ensures
        session@ == refused(error),
{
    match error.reply() {
        Some(_) => Session::Refusing { error },
        None => Session::Closed { outcome: Some(Failure::Protocol { error }) },
    }
}

fn judge(phase: Phase, read: Vec<u8>, username: &str, password: &str) -> (session: Session)
    ensures
        session@ == judged(phase, read@, username@, password@),
{
    match phase {
        Phase::Greeting => match negotiate_auth(read.as_slice()) {
            Verdict::Need { count } => Session::Reading { phase, read, need: count },
            Verdict::Accepted => Session::Welcoming,
            Verdict::Refused { error } => refuse(error),
        },
        Phase::Credentials => match authenticate(read.as_slice(), username, password) {
            Verdict::Need { count } => Session::Reading { phase, read, need: count },
            Verdict::Accepted => Session::Admitting,
            Verdict::Refused { error } => refuse(error),
        },
        Phase::Request => match read_connect_request(read.as_slice()) {
            RequestVerdict::Need { count } => Session::Reading { phase, read, need: count },
            RequestVerdict::Connect { target } => Session::Leasing { target },
            RequestVerdict::Refused { error } => refuse(error),
        },
    }
}

/// The place of the first IPv6 address from `from` on.
fn find_ipv6(addresses: &Vec<SocketAddress>, from: usize) -> (next: usize)
    requires
        from <= addresses@.len(),
    ensures
        next == next_ipv6(addresses@, from as int),
        from <= next <= addresses@.len(),
        next < addresses@.len() ==> addresses@[next as int] is V6,
{
    let mut i: usize = from;
    while i < addresses.len()
        invariant
            from <= i <= addresses@.len(),
            next_ipv6(addresses@, from as int) == next_ipv6(addresses@, i as int),
        decreases addresses@.len() - i,
    {
        if let SocketAddress::V6 { .. } = addresses[i] {
            return i;
        }
        i = i + 1;
    }
    i
}

fn dial_from(
    addresses: Vec<SocketAddress>,
    from: usize,
    failure: Option<Failure>,
    ip: u128,
) -> (session: Session)
    requires
        from <= addresses@.len(),
    ensures
        session@ == dialing_from(addresses@, from as int, view_failure(failure), ip),
        session@.well_formed(),
{
    let next: usize = find_ipv6(&addresses, from);
    if next < addresses.len() {
        Session::Dialing { addresses, next, last: failure, ip }
    } else {
        match failure {
            Some(failure) => Session::Failing { failure, ip },
            None => Session::Failing { failure: Failure::NoIpv6Address, ip },
        }
    }
}

fn break_off(session: Session, kind: std::io::ErrorKind, text: String) -> (broken: Session)
    ensures
        broken@ == session@.broken(kind, text@),
{
    let outcome = Some(Failure::Io { kind, text });
    match session {
        Session::Releasing { outcome, ip } => Session::Releasing { outcome, ip },
        Session::Closed { outcome } => Session::Closed { outcome },
        Session::Resolving { target: _, ip } => Session::Releasing { outcome, ip },
        Session::Dialing { addresses: _, next: _, last: _, ip } => Session::Releasing {
            outcome,
            ip,
        },
        Session::Announcing { local: _, ip } => Session::Releasing { outcome, ip },
        Session::Relaying { ip } => Session::Releasing { outcome, ip },
        Session::Failing { failure: _, ip } => Session::Releasing { outcome, ip },
        _ => Session::Closed { outcome },
    }
}

impl Session {
    /// The start of a connection.
    pub fn new() -> (session: Session)
        ensures
            session@ == SessionView::start(),
            session@.well_formed(),
    {
        let session = Session::Reading { phase: Phase::Greeting, read: Vec::new(), need: 2 };
        assert(session@ == SessionView::start());
        session
    }

    /// Says what to do next.
    pub fn action(&self) -> (action: SessionAction)
        requires
            self@.well_formed(),
        ensures
            action@ == self@.action(),
    {
        match self {
            Session::Reading { phase: _, read: _, need } => SessionAction::Read { count: *need },
            Session::Welcoming => {
                let bytes: Vec<u8> = vec![0x05, 0x02];
                assert(bytes@ =~= seq![0x05u8, 0x02]);
                SessionAction::Write { bytes }
            },
            Session::Admitting => {
                let bytes: Vec<u8> = vec![0x01, 0x00];
                assert(bytes@ =~= seq![0x01u8, 0x00]);
                SessionAction::Write { bytes }
            },
            Session::Refusing { error } => match error.reply() {
                Some(bytes) => SessionAction::Write { bytes },
                None => SessionAction::Write { bytes: Vec::new() },
            },
            Session::Leasing { target: _ } => SessionAction::Lease,
            Session::Declining => SessionAction::Write {
                bytes: encode_reply(GENERAL_FAILURE, None),
            },
            Session::Resolving { target, ip } => SessionAction::Resolve {
                authority: authority(target.host.as_str(), target.port),
                ip: *ip,
            },
            Session::Dialing { addresses, next, last: _, ip } => SessionAction::Connect {
                address: addresses[*next],
                ip: *ip,
                timeout_secs: CONNECT_TIMEOUT_SECS,
            },
            Session::Announcing { local, ip: _ } => SessionAction::Write {
                bytes: encode_reply(SUCCEEDED, *local),
            },
            Session::Relaying { ip: _ } => SessionAction::Relay,
            Session::Failing { failure: _, ip: _ } => SessionAction::Write {
                bytes: encode_reply(CONNECTION_REFUSED, None),
            },
            Session::Releasing { outcome: _, ip } => SessionAction::Release { ip: *ip },
            Session::Closed { outcome: _ } => SessionAction::Close,
        }
    }

    /// Takes in what came of the action, on a server with this name and
    /// password.
    pub fn handle(self, event: SessionEvent, username: &str, password: &str) -> (next: Session)
        requires
            self@.well_formed(),
        ensures
            next@ == self@.after(event@, username@, password@),
            next@.well_formed(),
    {
        match (self, event) {
            (session, SessionEvent::Failed { kind, text }) => break_off(session, kind, text),
            (Session::Reading { phase, read, need: _ }, SessionEvent::Received { bytes }) => {
                let mut read = read;
                let mut bytes = bytes;
                let ghost all = read@ + bytes@;
                read.append(&mut bytes);
                assert(read@ =~= all);
                judge(phase, read, username, password)
            },
            (Session::Welcoming, SessionEvent::Written) => Session::Reading {
                phase: Phase::Credentials,
                read: Vec::new(),
                need: 1,
            },
            (Session::Admitting, SessionEvent::Written) => Session::Reading {
                phase: Phase::Request,
                read: Vec::new(),
                need: 4,
            },
            (Session::Refusing { error }, SessionEvent::Written) => Session::Closed {
                outcome: Some(Failure::Protocol { error }),
            },
            (Session::Leasing { target }, SessionEvent::Leased { ip }) => match ip {
                Some(ip) => Session::Resolving { target, ip },
                None => Session::Declining,
            },
            (Session::Declining, SessionEvent::Written) => Session::Closed { outcome: None },
            (Session::Resolving { target: _, ip }, SessionEvent::Resolved { addresses }) =>
                dial_from(addresses, 0, None, ip),
            (
                Session::Dialing { addresses: _, next: _, last: _, ip },
                SessionEvent::Connected { local },
            ) => Session::Announcing { local, ip },
            (
                Session::Dialing { addresses, next, last: _, ip },
                SessionEvent::ConnectFailed { kind, text },
            ) => {
                assert(next < addresses.len());
                dial_from(addresses, next + 1, Some(Failure::Io { kind, text }), ip)
            },
            (
                Session::Dialing { addresses, next, last: _, ip },
                SessionEvent::ConnectTimedOut,
            ) => {
                assert(next < addresses.len());
                let address = addresses[next];
                dial_from(addresses, next + 1, Some(Failure::TimedOut { address }), ip)
            },
            (Session::Announcing { local: _, ip }, SessionEvent::Written) => Session::Relaying {
                ip,
            },
            (Session::Relaying { ip }, SessionEvent::Relayed) => Session::Releasing {
                outcome: None,
                ip,
            },
            (Session::Failing { failure, ip }, SessionEvent::Written) => Session::Releasing {
                outcome: Some(failure),
                ip,
            },
            (Session::Releasing { outcome, ip: _ }, SessionEvent::Released) => Session::Closed {
                outcome,
            },
            (session, _) => session,
        }
    }
}

} // verus!
