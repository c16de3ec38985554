//! What the messages of a SOCKS5 client mean, whole and in part.

use crate::address::SocketAddress;
use crate::socks5::{
    authenticate, encode_reply, negotiate_auth, read_connect_request, read_port, ErrorKind,
    RequestVerdict, Socks5Error, Verdict,
};
use vstd::prelude::*;

verus! {

/// A greeting names version five and offers methods; whatever follows it, it
/// is accepted when the check of a name and a password is among them, and
/// refused otherwise.
pub proof fn law_greeting_is_judged(
    version: u8,
    methods: Seq<u8>,
    more: Seq<u8>,
    read: &[u8],
    verdict: Verdict,
)
    requires
        methods.len() <= 255,
        read@ == seq![version, methods.len() as u8] + methods + more,
        call_ensures(negotiate_auth, (read,), verdict),
    ensures
        version != 5 ==> verdict == (Verdict::Refused { error: Socks5Error::InvalidVersion }),
        version == 5 && methods.contains(2) ==> verdict is Accepted,
        version == 5 && !methods.contains(2) ==> verdict == (Verdict::Refused {
            error: Socks5Error::AuthNotOffered,
        }),
{
    assert(read@.subrange(2, 2 + read@[1]) =~= methods);
}

/// Of a greeting two octets are read first, and then as many as the second of
/// them says, no more and no fewer. One of another version is refused after
/// the first two.
pub proof fn law_greeting_is_read_in_parts(read: &[u8], verdict: Verdict)
    requires
        call_ensures(negotiate_auth, (read,), verdict),
    ensures
        read@.len() < 2 ==> (verdict matches Verdict::Need { count } && read@.len() + count == 2),
        read@.len() >= 2 && read@[0] != 5 ==> verdict == (Verdict::Refused {
            error: Socks5Error::InvalidVersion,
        }),
        read@.len() >= 2 && read@[0] == 5 ==> {
            &&& verdict is Need <==> read@.len() < 2 + read@[1]
            &&& verdict matches Verdict::Need { count } ==> read@.len() + count == 2 + read@[1]
        },
{
}

/// A client that brings a name and a password is let in when they are the
/// server's, octet by octet, and turned away otherwise, whatever follows.
pub proof fn law_credentials_are_judged(
    name: Seq<u8>,
    word: Seq<u8>,
    more: Seq<u8>,
    read: &[u8],
    username: &str,
    password: &str,
    verdict: Verdict,
)
    requires
        name.len() <= 255,
        word.len() <= 255,
        read@ == seq![1u8, name.len() as u8] + name + seq![word.len() as u8] + word + more,
        call_ensures(authenticate, (read, username, password), verdict),
    ensures
        name == vstd::utf8::encode_utf8(username@) && word == vstd::utf8::encode_utf8(password@)
            ==> verdict is Accepted,
        name != vstd::utf8::encode_utf8(username@) || word != vstd::utf8::encode_utf8(password@)
            ==> verdict == (Verdict::Refused { error: Socks5Error::BadCredentials }),
{
    let name_end = 2 + name.len() as int;
    assert(read@[1] == name.len());
    assert(read@[name_end] == word.len());
    assert(read@.subrange(2, name_end) =~= name);
    assert(read@.subrange(name_end + 1, name_end + 1 + word.len()) =~= word);
}

/// Name and password are read one length and one text after the other, each
/// text as long as its length says. A message of another version is refused
/// after its first octet.
pub proof fn law_credentials_are_read_in_parts(
    read: &[u8],
    username: &str,
    password: &str,
    verdict: Verdict,
)
    requires
        call_ensures(authenticate, (read, username, password), verdict),
    ensures
        read@.len() == 0 ==> verdict == (Verdict::Need { count: 1 }),
        read@.len() >= 1 && read@[0] != 1 ==> verdict == (Verdict::Refused {
            error: Socks5Error::InvalidAuthVersion,
        }),
        read@.len() == 1 && read@[0] == 1 ==> verdict == (Verdict::Need { count: 1 }),
        read@.len() >= 2 && read@[0] == 1 ==> {
            let at = 2 + read@[1];
            &&& read@.len() < at ==> (verdict matches Verdict::Need { count } && read@.len() + count
                == at)
            &&& read@.len() == at ==> verdict == (Verdict::Need { count: 1 })
            &&& read@.len() > at ==> {
                let end = at + 1 + read@[at];
                &&& verdict is Need <==> read@.len() < end
                &&& verdict matches Verdict::Need { count } ==> read@.len() + count == end
            }
        },
{
}

/// A request for an IPv4 address asks for that address in dotted notation and
/// for the port that the two octets behind it spell in network order.
pub proof fn law_ipv4_request_is_read(
    a: u8,
    b: u8,
    c: u8,
    d: u8,
    port: u16,
    more: Seq<u8>,
    read: &[u8],
    verdict: RequestVerdict,
)
    requires
        read@ == seq![5u8, 1, 0, 1, a, b, c, d, (port / 256) as u8, (port % 256) as u8] + more,
        call_ensures(read_connect_request, (read,), verdict),
    ensures
        verdict matches RequestVerdict::Connect { target } && target.port == port && target.host@
            == crate::address::dotted(a, b, c, d),
{
    lemma_two(read@.subrange(8, 10), port);
}

/// A request for a name asks for that name and for the port behind it, if it
/// is a name in UTF-8, and is refused otherwise.
pub proof fn law_named_request_is_read(
    name: Seq<u8>,
    port: u16,
    more: Seq<u8>,
    read: &[u8],
    verdict: RequestVerdict,
)
    requires
        name.len() <= 255,
        read@ == seq![5u8, 1, 0, 3, name.len() as u8] + name + seq![
            (port / 256) as u8,
            (port % 256) as u8,
        ] + more,
        call_ensures(read_connect_request, (read,), verdict),
    ensures
        vstd::utf8::valid_utf8(name) ==> (verdict matches RequestVerdict::Connect { target }
            && target.port == port && target.host@ == vstd::utf8::decode_utf8(name)),
        !vstd::utf8::valid_utf8(name) ==> verdict == (RequestVerdict::Refused {
            error: Socks5Error::InvalidDomain,
        }),
{
    let end = 5 + name.len() as int;
    assert(read@[4] == name.len());
    assert(read@.subrange(5, end) =~= name);
    lemma_two(read@.subrange(end, end + 2), port);
}

/// A request for an IPv6 address asks for that address in its notation and
/// for the port behind it.
pub proof fn law_ipv6_request_is_read(
    octets: Seq<u8>,
    ip: u128,
    port: u16,
    more: Seq<u8>,
    read: &[u8],
    verdict: RequestVerdict,
)
    requires
        octets.len() == 16,
        crate::address::be_value(octets) == ip,
        read@ == seq![5u8, 1, 0, 4] + octets + seq![(port / 256) as u8, (port % 256) as u8] + more,
        call_ensures(read_connect_request, (read,), verdict),
    ensures
        verdict matches RequestVerdict::Connect { target } && target.port == port && target.host@
            == crate::address::ipv6_notation(ip),
{
    assert(read@.subrange(4, 20) =~= octets);
    lemma_two(read@.subrange(20, 22), port);
}

proof fn lemma_two(octets: Seq<u8>, port: u16)
    requires
        octets.len() == 2,
        octets[0] == port / 256,
        octets[1] == port % 256,
    ensures
        crate::address::be_value(octets) == port,
{
    reveal_with_fuel(crate::address::be_value, 3);
    assert(octets.drop_last().drop_last() =~= Seq::<u8>::empty());
}

/// Of a request four octets are read first. Anything but a request of version
/// five to be connected is refused then, and so is a kind of address that is
/// not known. Then the address is read, of a length that its kind has or that
/// the octet before it says, and then the two octets of the port.
pub proof fn law_request_is_read_in_parts(read: &[u8], verdict: RequestVerdict)
    requires
        call_ensures(read_connect_request, (read,), verdict),
    ensures
        read@.len() < 4 ==> (verdict matches RequestVerdict::Need { count } && read@.len() + count
            == 4),
        read@.len() >= 4 && !(read@[0] == 5 && read@[1] == 1 && read@[2] == 0) ==> verdict == (
        RequestVerdict::Refused { error: Socks5Error::UnsupportedCommand }),
        read@.len() >= 4 && read@[0] == 5 && read@[1] == 1 && read@[2] == 0 ==> {
            &&& read@[3] == 1 ==> due(read@, verdict, 8)
            &&& read@[3] == 4 ==> due(read@, verdict, 20)
            &&& read@[3] == 3 && read@.len() == 4 ==> verdict == (RequestVerdict::Need { count: 1 })
            &&& read@[3] == 3 && read@.len() > 4 && (read@.len() < 5 + read@[4]
                || vstd::utf8::valid_utf8(read@.subrange(5, 5 + read@[4]))) ==> due(
                read@,
                verdict,
                5 + read@[4],
            )
            &&& read@[3] == 3 && read@.len() >= 5 + read@[4] && read@.len() > 4
                && !vstd::utf8::valid_utf8(read@.subrange(5, 5 + read@[4])) ==> verdict == (
            RequestVerdict::Refused { error: Socks5Error::InvalidDomain })
            &&& read@[3] != 1 && read@[3] != 3 && read@[3] != 4 ==> verdict == (
            RequestVerdict::Refused { error: Socks5Error::UnsupportedAddressType })
        },
{
}

/// The rest of an address that ends at this place is due, then the two octets
/// of the port, and then nothing.
pub open spec fn due(read: Seq<u8>, verdict: RequestVerdict, end: int) -> bool {
    if read.len() < end {
        verdict matches RequestVerdict::Need { count } && read.len() + count == end
    } else if read.len() < end + 2 {
        verdict matches RequestVerdict::Need { count } && read.len() + count == end + 2
    } else {
        verdict is Connect
    }
}

/// The port of a request is the number of the two octets behind its host, and
/// the host is the one that was read.
pub proof fn law_port_is_read(read: &[u8], host: String, end: usize, verdict: RequestVerdict)
    requires
        end <= read@.len(),
        end + 2 <= usize::MAX,
        call_ensures(read_port, (read, host, end), verdict),
    ensures
        read@.len() < end + 2 ==> (verdict matches RequestVerdict::Need { count } && read@.len()
            + count == end + 2),
        read@.len() >= end + 2 ==> (verdict matches RequestVerdict::Connect { target }
            && target.host@ == host@ && target.port == read@[end as int] * 256 + read@[end + 1]),
{
    if read@.len() >= end + 2 {
        let octets = read@.subrange(end as int, end + 2);
        reveal_with_fuel(crate::address::be_value, 3);
        assert(octets.drop_last().drop_last() =~= Seq::<u8>::empty());
    }
}

/// The octets tell version five, this code and this address, octet by octet
/// in network order; where there is none, an address and a port of zeros.
pub open spec fn tells(bytes: Seq<u8>, code: u8, bind: Option<SocketAddress>) -> bool {
    &&& bytes.len() >= 4
    &&& bytes[0] == 5
    &&& bytes[1] == code
    &&& bytes[2] == 0
    &&& match bind {
        Some(SocketAddress::V4 { ipv4, port }) => {
            &&& bytes.len() == 10
            &&& bytes[3] == 1
            &&& crate::address::be_value(bytes.subrange(4, 8)) == ipv4
            &&& crate::address::be_value(bytes.subrange(8, 10)) == port
        },
        Some(SocketAddress::V6 { ipv6, port, flowinfo: _, scope_id: _ }) => {
            &&& bytes.len() == 22
            &&& bytes[3] == 4
            &&& crate::address::be_value(bytes.subrange(4, 20)) == ipv6
            &&& crate::address::be_value(bytes.subrange(20, 22)) == port
        },
        None => {
            &&& bytes.len() == 22
            &&& bytes[3] == 4
            &&& forall|i: int| 4 <= i < 22 ==> #[trigger] bytes[i] == 0
        },
    }
}

pub(crate) proof fn lemma_reply_tells(code: u8, bind: Option<SocketAddress>)
    ensures
        tells(crate::socks5::reply_octets(code, bind), code, bind),
{
    match bind {
        Some(address) => {
            crate::socks5::law_reply_tells_the_address(code, address);
        },
        None => {
            reveal_with_fuel(crate::address::be_octets, 17);
        },
    }
}

/// A reply tells its code and the address it was given.
pub proof fn law_reply_is_encoded(code: u8, bind: Option<SocketAddress>, bytes: Vec<u8>)
    requires
        call_ensures(encode_reply, (code, bind), bytes),
    ensures
        tells(bytes@, code, bind),
{
    lemma_reply_tells(code, bind);
}

/// Only a client that did not offer credentials, or brought wrong ones, is
/// told so, and only these two are refused for want of permission.
pub proof fn law_refusals_are_told_apart(
    error: Socks5Error,
    kind: ErrorKind,
    reply: Option<Vec<u8>>,
    message: &'static str,
)
    requires
        call_ensures(Socks5Error::kind, (error,), kind),
        call_ensures(Socks5Error::reply, (error,), reply),
        call_ensures(Socks5Error::message, (error,), message),
    ensures
        error is AuthNotOffered ==> (reply matches Some(bytes) && bytes@ == seq![5u8, 255]),
        error is BadCredentials ==> (reply matches Some(bytes) && bytes@ == seq![1u8, 1]),
        reply is Some <==> error is AuthNotOffered || error is BadCredentials,
        reply is Some <==> kind == ErrorKind::PermissionDenied,
        reply is None <==> kind == ErrorKind::InvalidData,
        message@ == match error {
            Socks5Error::InvalidVersion => "invalid SOCKS version"@,
            Socks5Error::AuthNotOffered => "username/password auth not offered"@,
            Socks5Error::InvalidAuthVersion => "invalid auth version"@,
            Socks5Error::BadCredentials => "bad credentials"@,
            Socks5Error::UnsupportedCommand => "only SOCKS5 CONNECT is supported"@,
            Socks5Error::InvalidDomain => "invalid domain"@,
            Socks5Error::UnsupportedAddressType => "unsupported address type"@,
        },
{
}

} // verus!
