//! The messages of a SOCKS5 client, and what the server answers.
//!
//! Each of the three messages is read in pieces, since its length shows only
//! in its course. The functions here look at what has been read of a message
//! and say how many more octets to read, or what the message means.

use crate::address::{
    has_octet, ipv4_text, ipv6_text, push_octets, read_octets, same_octets, SocketAddress,
};
use vstd::prelude::*;

verus! {

/// Why a client is turned away.
#[derive(Clone, Copy, Debug, PartialEq, Eq, Structural)]
pub enum Socks5Error {
    InvalidVersion,
    AuthNotOffered,
    InvalidAuthVersion,
    BadCredentials,
    UnsupportedCommand,
    InvalidDomain,
    UnsupportedAddressType,
}

/// The class of an error.
#[derive(Clone, Copy, Debug, PartialEq, Eq, Structural)]
pub enum ErrorKind {
    InvalidData,
    PermissionDenied,
    TimedOut,
    NotFound,
}

impl Socks5Error {
    pub open spec fn spec_kind(self) -> ErrorKind {
        match self {
            Socks5Error::AuthNotOffered => ErrorKind::PermissionDenied,
            Socks5Error::BadCredentials => ErrorKind::PermissionDenied,
            _ => ErrorKind::InvalidData,
        }
    }

    pub open spec fn spec_message(self) -> Seq<char> {
        match self {
            Socks5Error::InvalidVersion => "invalid SOCKS version"@,
            Socks5Error::AuthNotOffered => "username/password auth not offered"@,
            Socks5Error::InvalidAuthVersion => "invalid auth version"@,
            Socks5Error::BadCredentials => "bad credentials"@,
            Socks5Error::UnsupportedCommand => "only SOCKS5 CONNECT is supported"@,
            Socks5Error::InvalidDomain => "invalid domain"@,
            Socks5Error::UnsupportedAddressType => "unsupported address type"@,
        }
    }

    /// What the client is told, if it is told anything.
    pub open spec fn spec_reply(self) -> Option<Seq<u8>> {
        match self {
            Socks5Error::AuthNotOffered => Some(seq![0x05u8, 0xff]),
            Socks5Error::BadCredentials => Some(seq![0x01u8, 0x01]),
            _ => None,
        }
    }

    pub fn kind(self) -> (kind: ErrorKind)
        ensures
            kind == self.spec_kind(),
    {
        match self {
            Socks5Error::AuthNotOffered => ErrorKind::PermissionDenied,
            Socks5Error::BadCredentials => ErrorKind::PermissionDenied,
            _ => ErrorKind::InvalidData,
        }
    }

    pub fn message(self) -> (text: &'static str)
        ensures
            text@ == self.spec_message(),
    {
        match self {
            Socks5Error::InvalidVersion => "invalid SOCKS version",
            Socks5Error::AuthNotOffered => "username/password auth not offered",
            Socks5Error::InvalidAuthVersion => "invalid auth version",
            Socks5Error::BadCredentials => "bad credentials",
            Socks5Error::UnsupportedCommand => "only SOCKS5 CONNECT is supported",
            Socks5Error::InvalidDomain => "invalid domain",
            Socks5Error::UnsupportedAddressType => "unsupported address type",
        }
    }

    /// What the client is told before it is turned away.
    pub fn reply(self) -> (bytes: Option<Vec<u8>>)
        ensures
            match bytes {
                Some(told) => self.spec_reply() == Some(told@),
                None => self.spec_reply() is None,
            },
    {
        match self {
            Socks5Error::AuthNotOffered => {
                let told: Vec<u8> = vec![0x05, 0xff];
                assert(told@ =~= seq![0x05u8, 0xff]);
                Some(told)
            },
            Socks5Error::BadCredentials => {
                let told: Vec<u8> = vec![0x01, 0x01];
                assert(told@ =~= seq![0x01u8, 0x01]);
                Some(told)
            },
            _ => None,
        }
    }
}

/// What has been read of a message amounts to this.
#[derive(Clone, Copy, Debug, PartialEq, Eq, Structural)]
pub enum Verdict {
    /// So many more octets belong to the message.
    Need { count: usize },
    Accepted,
    Refused { error: Socks5Error },
}

/// What a greeting amounts to: the version, a count and as many methods, of
/// which one has to be the check of a name and a password.
pub open spec fn greeting_verdict(read: Seq<u8>) -> Verdict {
    if read.len() < 2 {
        Verdict::Need { count: (2 - read.len()) as usize }
    } else if read[0] != 0x05 {
        Verdict::Refused { error: Socks5Error::InvalidVersion }
    } else if read.len() < 2 + read[1] {
        Verdict::Need { count: (2 + read[1] - read.len()) as usize }
    } else if read.subrange(2, 2 + read[1]).contains(0x02) {
        Verdict::Accepted
    } else {
        Verdict::Refused { error: Socks5Error::AuthNotOffered }
    }
}

/// Reads the greeting.
pub fn negotiate_auth(read: &[u8]) -> (verdict: Verdict)
    ensures
        verdict == greeting_verdict(read@),
{
    if read.len() < 2 {
        return Verdict::Need { count: 2 - read.len() };
    }
    if read[0] != 0x05 {
        return Verdict::Refused { error: Socks5Error::InvalidVersion };
    }
    let end: usize = 2 + read[1] as usize;
    if read.len() < end {
        return Verdict::Need { count: end - read.len() };
    }
    if has_octet(read, 2, end, 0x02) {
        Verdict::Accepted
    } else {
        Verdict::Refused { error: Socks5Error::AuthNotOffered }
    }
}

/// What a name and a password amount to: a version, and then each of the two
/// behind its length.
pub open spec fn credentials_verdict(
    read: Seq<u8>,
    username: Seq<char>,
    password: Seq<char>,
) -> Verdict {
    if read.len() < 1 {
        Verdict::Need { count: 1 }
    } else if read[0] != 0x01 {
        Verdict::Refused { error: Socks5Error::InvalidAuthVersion }
    } else if read.len() < 2 {
        Verdict::Need { count: 1 }
    } else {
        let name_end = 2 + read[1];
        if read.len() < name_end {
            Verdict::Need { count: (name_end - read.len()) as usize }
        } else if read.len() < name_end + 1 {
            Verdict::Need { count: 1 }
        } else {
            let end = name_end + 1 + read[name_end];
            if read.len() < end {
                Verdict::Need { count: (end - read.len()) as usize }
            } else if read.subrange(2, name_end) == vstd::utf8::encode_utf8(username)
                && read.subrange(name_end + 1, end) == vstd::utf8::encode_utf8(password) {
                Verdict::Accepted
            } else {
                Verdict::Refused { error: Socks5Error::BadCredentials }
            }
        }
    }
}

/// Reads a name and a password and compares them with those of the server.
pub fn authenticate(read: &[u8], username: &str, password: &str) -> (verdict: Verdict)
    ensures
        verdict == credentials_verdict(read@, username@, password@),
{
    if read.len() < 1 {
        return Verdict::Need { count: 1 };
    }
    if read[0] != 0x01 {
        return Verdict::Refused { error: Socks5Error::InvalidAuthVersion };
    }
    if read.len() < 2 {
        return Verdict::Need { count: 1 };
    }
    let name_end: usize = 2 + read[1] as usize;
    if read.len() < name_end {
        return Verdict::Need { count: name_end - read.len() };
    }
    if read.len() < name_end + 1 {
        return Verdict::Need { count: 1 };
    }
    let end: usize = name_end + 1 + read[name_end] as usize;
    if read.len() < end {
        return Verdict::Need { count: end - read.len() };
    }
    if same_octets(read, 2, name_end, username.as_bytes()) && same_octets(
        read,
        name_end + 1,
        end,
        password.as_bytes(),
    ) {
        Verdict::Accepted
    } else {
        Verdict::Refused { error: Socks5Error::BadCredentials }
    }
}

/// Where a client wants to be connected to.
#[derive(Debug)]
pub struct TargetAddr {
    pub host: String,
    pub port: u16,
}

/// What a [`TargetAddr`] holds.
pub struct TargetView {
    pub host: Seq<char>,
    pub port: u16,
}

impl View for TargetAddr {
    type V = TargetView;

    open spec fn view(&self) -> TargetView {
        TargetView { host: self.host@, port: self.port }
    }
}

/// What has been read of a request amounts to this.
#[derive(Debug)]
pub enum RequestVerdict {
    Need { count: usize },
    Connect { target: TargetAddr },
    Refused { error: Socks5Error },
}

/// What a [`RequestVerdict`] holds.
pub enum RequestVerdictView {
    Need { count: usize },
    Connect { target: TargetView },
    Refused { error: Socks5Error },
}

impl View for RequestVerdict {
    type V = RequestVerdictView;

    open spec fn view(&self) -> RequestVerdictView {
        match self {
            RequestVerdict::Need { count } => RequestVerdictView::Need { count: *count },
            RequestVerdict::Connect { target } => RequestVerdictView::Connect { target: target@ },
            RequestVerdict::Refused { error } => RequestVerdictView::Refused { error: *error },
        }
    }
}

/// What a request amounts to whose host ends before `end`: two octets for the
/// port follow.
pub open spec fn port_verdict(read: Seq<u8>, host: Seq<char>, end: int) -> RequestVerdictView {
    if read.len() < end + 2 {
        RequestVerdictView::Need { count: (end + 2 - read.len()) as usize }
    } else {
        RequestVerdictView::Connect {
            target: TargetView {
                host,
                port: crate::address::be_value(read.subrange(end, end + 2)) as u16,
            },
        }
    }
}

/// What a request amounts to: version, command, a zero, the kind of address,
/// the address and the port. The host is the notation of an address, or a
/// name in UTF-8.
pub open spec fn request_verdict(read: Seq<u8>) -> RequestVerdictView {
    if read.len() < 4 {
        RequestVerdictView::Need { count: (4 - read.len()) as usize }
    } else if read[0] != 0x05 || read[1] != 0x01 || read[2] != 0x00 {
        RequestVerdictView::Refused { error: Socks5Error::UnsupportedCommand }
    } else if read[3] == 0x01 {
        if read.len() < 8 {
            RequestVerdictView::Need { count: (8 - read.len()) as usize }
        } else {
            port_verdict(read, crate::address::dotted(read[4], read[5], read[6], read[7]), 8)
        }
    } else if read[3] == 0x03 {
        if read.len() < 5 {
            RequestVerdictView::Need { count: 1 }
        } else if read.len() < 5 + read[4] {
            RequestVerdictView::Need { count: (5 + read[4] - read.len()) as usize }
        } else {
            let name = read.subrange(5, 5 + read[4]);
            if vstd::utf8::valid_utf8(name) {
                port_verdict(read, vstd::utf8::decode_utf8(name), 5 + read[4])
            } else {
                RequestVerdictView::Refused { error: Socks5Error::InvalidDomain }
            }
        }
    } else if read[3] == 0x04 {
        if read.len() < 20 {
            RequestVerdictView::Need { count: (20 - read.len()) as usize }
        } else {
            port_verdict(
                read,
                crate::address::ipv6_notation(
                    crate::address::be_value(read.subrange(4, 20)) as u128,
                ),
                20,
            )
        }
    } else {
        RequestVerdictView::Refused { error: Socks5Error::UnsupportedAddressType }
    }
}

/// The error that `String::from_utf8` reports.
#[verifier::external_type_specification]
#[verifier::external_body]
pub struct ExFromUtf8Error(std::string::FromUtf8Error);

/// Specifies `String::from_utf8`.
///
/// Trusted: it succeeds on valid UTF-8 and on nothing else, and gives the
/// characters that the bytes encode.
pub assume_specification[ String::from_utf8 ](bytes: Vec<u8>) -> (text: Result<
    String,
    std::string::FromUtf8Error,
>)
    ensures
        text is Ok <==> vstd::utf8::valid_utf8(bytes@),
        text matches Ok(decoded) ==> decoded@ == vstd::utf8::decode_utf8(bytes@),
;

/// Reads the rest of a request whose host ends before `end`.
pub fn read_port(read: &[u8], host: String, end: usize) -> (verdict: RequestVerdict)
    requires
        end <= read@.len(),
        end + 2 <= usize::MAX,
    ensures
        verdict@ == port_verdict(read@, host@, end as int),
{
    if read.len() < end + 2 {
        return RequestVerdict::Need { count: end + 2 - read.len() };
    }
    proof {
        crate::address::lemma_two_octets(read@.subrange(end as int, end + 2));
    }
    let port: u16 = read_octets(read, end, end + 2) as u16;
    RequestVerdict::Connect { target: TargetAddr { host, port } }
}

/// Reads a request to be connected.
pub fn read_connect_request(read: &[u8]) -> (verdict: RequestVerdict)
    ensures
        verdict@ == request_verdict(read@),
        read@.len() >= 4 && read@[3] == 0x04 ==> (verdict matches RequestVerdict::Connect { target }
            ==> target.host@.contains(':')),
{
    if read.len() < 4 {
        return RequestVerdict::Need { count: 4 - read.len() };
    }
    if read[0] != 0x05 || read[1] != 0x01 || read[2] != 0x00 {
        return RequestVerdict::Refused { error: Socks5Error::UnsupportedCommand };
    }
    match read[3] {
        0x01 => {
            if read.len() < 8 {
                return RequestVerdict::Need { count: 8 - read.len() };
            }
            read_port(read, ipv4_text(read[4], read[5], read[6], read[7]), 8)
        },
        0x03 => {
            if read.len() < 5 {
                return RequestVerdict::Need { count: 1 };
            }
            let end: usize = 5 + read[4] as usize;
            if read.len() < end {
                return RequestVerdict::Need { count: end - read.len() };
            }
            let name = vstd::slice::slice_to_vec(vstd::slice::slice_subrange(read, 5, end));
            match String::from_utf8(name) {
                Ok(host) => read_port(read, host, end),
                Err(_) => RequestVerdict::Refused { error: Socks5Error::InvalidDomain },
            }
        },
        0x04 => {
            if read.len() < 20 {
                return RequestVerdict::Need { count: 20 - read.len() };
            }
            read_port(read, ipv6_text(read_octets(read, 4, 20)), 20)
        },
        _ => RequestVerdict::Refused { error: Socks5Error::UnsupportedAddressType },
    }
}

/// The address that stands in a reply where there is none to tell.
pub open spec fn unspecified() -> SocketAddress {
    SocketAddress::V6 { ipv6: 0, port: 0, flowinfo: 0, scope_id: 0 }
}

/// The octets of a reply: version, code, a zero, the kind of address, the
/// address and the port.
pub open spec fn reply_octets(code: u8, bind: Option<SocketAddress>) -> Seq<u8> {
    let address = match bind {
        Some(address) => address,
        None => unspecified(),
    };
    seq![0x05u8, code, 0x00] + match address {
        SocketAddress::V4 { ipv4: ip, port } => seq![0x01u8] + crate::address::be_octets(ip as nat, 4)
            + crate::address::be_octets(port as nat, 2),
        SocketAddress::V6 { ipv6: ip, port, flowinfo: _, scope_id: _ } => seq![0x04u8]
            + crate::address::be_octets(ip as nat, 16) + crate::address::be_octets(port as nat, 2),
    }
}

/// Encodes a reply.
pub fn encode_reply(code: u8, bind: Option<SocketAddress>) -> (bytes: Vec<u8>)
    ensures
        bytes@ == reply_octets(code, bind),
{
    let address = match bind {
        Some(address) => address,
        None => SocketAddress::V6 { ipv6: 0, port: 0, flowinfo: 0, scope_id: 0 },
    };
    let mut bytes: Vec<u8> = Vec::new();
    bytes.push(0x05);
    bytes.push(code);
    bytes.push(0x00);
    match address {
        SocketAddress::V4 { ipv4: ip, port } => {
            bytes.push(0x01);
            push_octets(&mut bytes, ip as u128, 4);
            push_octets(&mut bytes, port as u128, 2);
        },
        SocketAddress::V6 { ipv6: ip, port, flowinfo: _, scope_id: _ } => {
            bytes.push(0x04);
            push_octets(&mut bytes, ip, 16);
            push_octets(&mut bytes, port as u128, 2);
        },
    }
    assert(bytes@ =~= reply_octets(code, bind));
    bytes
}

/// The verdict asks for so many more octets.
pub open spec fn asks(verdict: Verdict, count: nat) -> bool {
    verdict matches Verdict::Need { count: asked } && asked == count
}

/// The verdict on a request asks for so many more octets.
pub open spec fn request_asks(verdict: RequestVerdictView, count: nat) -> bool {
    verdict matches RequestVerdictView::Need { count: asked } && asked == count
}

/// A greeting is never read beyond its end: what is asked for belongs to it,
/// and once it has been judged, further octets change nothing.
pub proof fn law_greeting_is_not_overread(read: Seq<u8>, more: Seq<u8>)
    ensures
        match greeting_verdict(read) {
            Verdict::Need { count } => count > 0 && (more.len() < count ==> asks(
                greeting_verdict(read + more),
                (count - more.len()) as nat,
            )),
            verdict => greeting_verdict(read + more) == verdict,
        },
{
    if read.len() >= 2 && read.len() >= 2 + read[1] {
        assert((read + more).subrange(2, 2 + read[1]) =~= read.subrange(2, 2 + read[1]));
    }
}

/// Name and password are never read beyond their end: what is asked for
/// belongs to them, and once they have been judged, further octets change
/// nothing.
pub proof fn law_credentials_are_not_overread(
    read: Seq<u8>,
    more: Seq<u8>,
    username: Seq<char>,
    password: Seq<char>,
)
    ensures
        match credentials_verdict(read, username, password) {
            Verdict::Need { count } => count > 0 && (more.len() < count ==> asks(
                credentials_verdict(read + more, username, password),
                (count - more.len()) as nat,
            )),
            verdict => credentials_verdict(read + more, username, password) == verdict,
        },
{
    if read.len() >= 2 && read.len() > 2 + read[1] {
        let name_end = 2 + read[1];
        let end = name_end + 1 + read[name_end];
        if read.len() >= end {
            assert((read + more).subrange(2, name_end) =~= read.subrange(2, name_end));
            assert((read + more).subrange(name_end + 1, end) =~= read.subrange(name_end + 1, end));
        }
    }
}

/// A request is never read beyond its end: what is asked for belongs to it,
/// and once it has been judged, further octets change nothing.
pub proof fn law_request_is_not_overread(read: Seq<u8>, more: Seq<u8>)
    ensures
        match request_verdict(read) {
            RequestVerdictView::Need { count } => count > 0 && (more.len() < count ==> request_asks(
                request_verdict(read + more),
                (count - more.len()) as nat,
            )),
            verdict => request_verdict(read + more) == verdict,
        },
{
    let all = read + more;
    if read.len() >= 10 {
        assert(all.subrange(8, 10) =~= read.subrange(8, 10));
    }
    if read.len() >= 5 && read.len() >= 5 + read[4] {
        assert(all.subrange(5, 5 + read[4]) =~= read.subrange(5, 5 + read[4]));
        if read.len() >= 7 + read[4] {
            assert(all.subrange(5 + read[4], 7 + read[4]) =~= read.subrange(
                5 + read[4],
                7 + read[4],
            ));
        }
    }
    if read.len() >= 20 {
        assert(all.subrange(4, 20) =~= read.subrange(4, 20));
        if read.len() >= 22 {
            assert(all.subrange(20, 22) =~= read.subrange(20, 22));
        }
    }
}

/// A greeting is accepted when, and only when, it offers the check of a name
/// and a password.
pub proof fn law_greeting_has_to_offer_credentials(methods: Seq<u8>)
    requires
        methods.len() <= 255,
    ensures
        greeting_verdict(seq![0x05u8, methods.len() as u8] + methods) == if methods.contains(0x02) {
            Verdict::Accepted
        } else {
            Verdict::Refused { error: Socks5Error::AuthNotOffered }
        },
{
    let message = seq![0x05u8, methods.len() as u8] + methods;
    assert(message.subrange(2, 2 + message[1]) =~= methods);
}

/// The message that brings a name and a password.
pub open spec fn credentials_message(name: Seq<u8>, word: Seq<u8>) -> Seq<u8> {
    seq![0x01u8, name.len() as u8] + name + seq![word.len() as u8] + word
}

/// A client is let in when, and only when, it brings the server's own name
/// and password.
pub proof fn law_only_the_right_credentials_are_accepted(
    name: Seq<u8>,
    word: Seq<u8>,
    username: Seq<char>,
    password: Seq<char>,
)
    requires
        name.len() <= 255,
        word.len() <= 255,
    ensures
        credentials_verdict(credentials_message(name, word), username, password) == if name
            == vstd::utf8::encode_utf8(username) && word == vstd::utf8::encode_utf8(password) {
            Verdict::Accepted
        } else {
            Verdict::Refused { error: Socks5Error::BadCredentials }
        },
{
    let message = credentials_message(name, word);
    let name_end = 2 + message[1];
    assert(message.subrange(2, name_end) =~= name);
    assert(message[name_end] == word.len() as u8);
    assert(message.subrange(name_end + 1, name_end + 1 + message[name_end]) =~= word);
}

/// A request for a name is read as that name and that port.
pub proof fn law_named_target_is_read_back(host: Seq<char>, port: u16)
    requires
        vstd::utf8::encode_utf8(host).len() <= 255,
    ensures
        request_verdict(
            seq![0x05u8, 0x01, 0x00, 0x03, vstd::utf8::encode_utf8(host).len() as u8]
                + vstd::utf8::encode_utf8(host) + crate::address::be_octets(port as nat, 2),
        ) == (RequestVerdictView::Connect { target: TargetView { host, port } }),
{
    let name = vstd::utf8::encode_utf8(host);
    let message = seq![0x05u8, 0x01, 0x00, 0x03, name.len() as u8] + name
        + crate::address::be_octets(port as nat, 2);
    vstd::utf8::encode_utf8_valid_utf8(host);
    vstd::utf8::encode_utf8_decode_utf8(host);
    crate::address::lemma_port_octets(port);
    assert(message.subrange(5, 5 + message[4]) =~= name);
    assert(message.subrange(5 + message[4], 7 + message[4]) =~= crate::address::be_octets(
        port as nat,
        2,
    ));
}

/// A request for an IPv4 address is read as its notation and that port.
pub proof fn law_ipv4_target_is_read_back(a: u8, b: u8, c: u8, d: u8, port: u16)
    ensures
        request_verdict(
            seq![0x05u8, 0x01, 0x00, 0x01, a, b, c, d] + crate::address::be_octets(port as nat, 2),
        ) == (RequestVerdictView::Connect {
            target: TargetView { host: crate::address::dotted(a, b, c, d), port },
        }),
{
    let message = seq![0x05u8, 0x01, 0x00, 0x01, a, b, c, d] + crate::address::be_octets(
        port as nat,
        2,
    );
    crate::address::lemma_port_octets(port);
    assert(message.subrange(8, 10) =~= crate::address::be_octets(port as nat, 2));
}

/// A request for an IPv6 address is read as its notation and that port.
pub proof fn law_ipv6_target_is_read_back(ip: u128, port: u16)
    ensures
        request_verdict(
            seq![0x05u8, 0x01, 0x00, 0x04] + crate::address::be_octets(ip as nat, 16)
                + crate::address::be_octets(port as nat, 2),
        ) == (RequestVerdictView::Connect {
            target: TargetView { host: crate::address::ipv6_notation(ip), port },
        }),
{
    let message = seq![0x05u8, 0x01, 0x00, 0x04] + crate::address::be_octets(ip as nat, 16)
        + crate::address::be_octets(port as nat, 2);
    crate::address::lemma_port_octets(port);
    crate::address::lemma_ipv6_octets(ip);
    assert(message.subrange(4, 20) =~= crate::address::be_octets(ip as nat, 16));
    assert(message.subrange(20, 22) =~= crate::address::be_octets(port as nat, 2));
}

/// A reply tells its code, and the address and the port it was given.
pub proof fn law_reply_tells_the_address(code: u8, address: SocketAddress)
    ensures
        ({
            let reply = reply_octets(code, Some(address));
            &&& reply[0] == 0x05
            &&& reply[1] == code
            &&& reply[2] == 0x00
            &&& match address {
                SocketAddress::V4 { ipv4: ip, port } => {
                    &&& reply.len() == 10
                    &&& reply[3] == 0x01
                    &&& crate::address::be_value(reply.subrange(4, 8)) == ip
                    &&& crate::address::be_value(reply.subrange(8, 10)) == port
                },
                SocketAddress::V6 { ipv6: ip, port, flowinfo: _, scope_id: _ } => {
                    &&& reply.len() == 22
                    &&& reply[3] == 0x04
                    &&& crate::address::be_value(reply.subrange(4, 20)) == ip
                    &&& crate::address::be_value(reply.subrange(20, 22)) == port
                },
            }
        }),
{
    let reply = reply_octets(code, Some(address));
    match address {
        SocketAddress::V4 { ipv4: ip, port } => {
            crate::address::lemma_port_octets(port);
            crate::address::lemma_ipv4_octets(ip);
            assert(reply.subrange(4, 8) =~= crate::address::be_octets(ip as nat, 4));
            assert(reply.subrange(8, 10) =~= crate::address::be_octets(port as nat, 2));
        },
        SocketAddress::V6 { ipv6: ip, port, flowinfo: _, scope_id: _ } => {
            crate::address::lemma_port_octets(port);
            crate::address::lemma_ipv6_octets(ip);
            assert(reply.subrange(4, 20) =~= crate::address::be_octets(ip as nat, 16));
            assert(reply.subrange(20, 22) =~= crate::address::be_octets(port as nat, 2));
        },
    }
}

} // verus!
