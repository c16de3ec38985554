//! What numbers and addresses look like as text and as octets, digit by digit.

use crate::address::{
    authority, bracketed_text, ipv4_text, push_octets, read_octets, socket_text, SocketAddress,
};
use crate::text::{has_colon, parse_decimal, push_decimal, same_text};
use vstd::prelude::*;

verus! {

/// The digit of a number at a place, counted from the last one.
pub open spec fn digit_of(number: nat, base: nat, place: nat) -> nat {
    number / (vstd::arithmetic::power::pow(base as int, place) as nat) % base
}

proof fn lemma_next_place(number: nat, base: nat, place: nat)
    requires
        base > 1,
    ensures
        digit_of(number / base, base, place) == digit_of(number, base, place + 1),
        digit_of(number, base, 0) == number % base,
        vstd::arithmetic::power::pow(base as int, place) > 0,
        vstd::arithmetic::power::pow(base as int, place + 1) == base
            * vstd::arithmetic::power::pow(base as int, place),
        vstd::arithmetic::power::pow(base as int, 0) == 1,
{
    let power = vstd::arithmetic::power::pow(base as int, place);
    vstd::arithmetic::power::lemma_pow_positive(base as int, place);
    vstd::arithmetic::power::lemma_pow0(base as int);
    assert(number / 1 == number);
    reveal(vstd::arithmetic::power::pow);
    vstd::arithmetic::div_mod::lemma_div_denominator(number as int, base as int, power);
}

proof fn lemma_bound_by_quotient(number: nat, base: nat, power: int)
    requires
        base > 1,
        power > 0,
    ensures
        number / base < power <==> number < base * power,
{
    let quotient = number as int / base as int;
    vstd::arithmetic::div_mod::lemma_fundamental_div_mod(number as int, base as int);
    assert(quotient < power <==> number < base * power) by (nonlinear_arith)
        requires
            number == base * quotient + number as int % base as int,
            0 <= number as int % base as int,
            (number as int % base as int) < base,
            base > 1,
    ;
}

/// The text has the digits of the number, one for each place, and no more
/// than it needs for the number to fit.
pub open spec fn spells(number: nat, text: Seq<char>) -> bool {
    &&& number < vstd::arithmetic::power::pow(10, text.len())
    &&& forall|i: int|
        0 <= i < text.len() ==> (#[trigger] text[i]) as int == '0' as int + digit_of(
            number,
            10,
            (text.len() - 1 - i) as nat,
        )
}

/// The text is the number in plain decimal notation: its digits, without
/// leading zeros.
pub open spec fn plain(number: nat, text: Seq<char>) -> bool {
    &&& spells(number, text)
    &&& text.len() > 0
    &&& text.len() > 1 ==> text[0] != '0'
}

proof fn lemma_spells_more(number: nat, text: Seq<char>)
    requires
        text.len() > 0,
    ensures
        spells(number, text) <==> spells(number / 10, text.drop_last()) && text.last() as int
            == '0' as int + number % 10,
{
    let rest = text.drop_last();
    lemma_next_place(number, 10, rest.len());
    lemma_bound_by_quotient(number, 10, vstd::arithmetic::power::pow(10, rest.len()));
    assert forall|i: int| 0 <= i < rest.len() implies #[trigger] text[i] == rest[i] && digit_of(
        number / 10,
        10,
        (rest.len() - 1 - i) as nat,
    ) == digit_of(number, 10, (text.len() - 1 - i) as nat) by {
        lemma_next_place(number, 10, (rest.len() - 1 - i) as nat);
    }
    if spells(number, text) {
        assert(text[text.len() - 1] as int == '0' as int + digit_of(number, 10, 0));
        assert forall|i: int| 0 <= i < rest.len() implies (#[trigger] rest[i]) as int == '0' as int
            + digit_of(number / 10, 10, (rest.len() - 1 - i) as nat) by {
            assert(rest[i] == text[i]);
        }
    }
    if spells(number / 10, rest) && text.last() as int == '0' as int + number % 10 {
        assert forall|i: int| 0 <= i < text.len() implies (#[trigger] text[i]) as int == '0' as int
            + digit_of(number, 10, (text.len() - 1 - i) as nat) by {
            if i < rest.len() {
                assert(rest[i] == text[i]);
            }
        }
    }
}

pub(crate) proof fn lemma_decimal_is_plain(number: nat)
    ensures
        plain(number, crate::text::decimal(number)),
        number > 0 ==> crate::text::decimal(number)[0] != '0',
    decreases number,
{
    let text = crate::text::decimal(number);
    lemma_next_place(number, 10, 0);
    if number >= 10 {
        lemma_decimal_is_plain(number / 10);
        assert(text.drop_last() =~= crate::text::decimal(number / 10));
    } else {
        assert(text.drop_last() =~= Seq::<char>::empty());
        assert(spells(number / 10, Seq::<char>::empty()));
    }
    lemma_spells_more(number, text);
}

proof fn lemma_spelled_value(number: nat, text: Seq<char>)
    requires
        spells(number, text),
    ensures
        crate::text::digits_value(text) == number,
        forall|i: int| 0 <= i < text.len() ==> crate::text::is_digit(#[trigger] text[i]),
    decreases text.len(),
{
    lemma_next_place(number, 10, 0);
    if text.len() > 0 {
        lemma_spells_more(number, text);
        lemma_spelled_value(number / 10, text.drop_last());
        assert forall|i: int| 0 <= i < text.len() implies crate::text::is_digit(
            #[trigger] text[i],
        ) by {
            if i < text.len() - 1 {
                assert(text[i] == text.drop_last()[i]);
            }
        }
    }
}

proof fn lemma_value_is_spelled(text: Seq<char>)
    requires
        forall|i: int| 0 <= i < text.len() ==> crate::text::is_digit(#[trigger] text[i]),
    ensures
        spells(crate::text::digits_value(text), text),
    decreases text.len(),
{
    let value = crate::text::digits_value(text);
    lemma_next_place(value, 10, 0);
    if text.len() > 0 {
        let rest = text.drop_last();
        assert forall|i: int| 0 <= i < rest.len() implies crate::text::is_digit(
            #[trigger] rest[i],
        ) by {
            assert(rest[i] == text[i]);
        }
        lemma_value_is_spelled(rest);
        assert(crate::text::is_digit(text[text.len() - 1]));
        lemma_spells_more(value, text);
    }
}

/// A number is written behind what stands there already, in plain decimal
/// notation.
pub proof fn law_number_is_written_plainly(out: &mut String, n: u64)
    requires
        call_ensures(push_decimal, (out, n), ()),
    ensures
        exists|digits: Seq<char>| #[trigger]
            plain(n as nat, digits) && final(out)@ == old(out)@ + digits,
{
    lemma_decimal_is_plain(n as nat);
}

/// A text is read as the number whose digits it has, behind a plus sign or
/// not, if that is small enough; and it is read as a number only then.
pub proof fn law_number_is_read_digit_by_digit(text: &str, max: u64, parsed: Option<u64>)
    requires
        call_ensures(parse_decimal, (text, max), parsed),
    ensures
        ({
            let digits = if text@.len() > 0 && text@[0] == '+' {
                text@.skip(1)
            } else {
                text@
            };
            match parsed {
                Some(n) => digits.len() > 0 && spells(n as nat, digits) && n <= max,
                None => digits.len() == 0 || forall|n: nat| n <= max ==> !spells(n, digits),
            }
        }),
{
    let digits = crate::text::magnitude(text@);
    if parsed is Some {
        lemma_value_is_spelled(digits);
    } else {
        assert forall|n: nat| n <= max implies digits.len() == 0 || !spells(n, digits) by {
            if spells(n, digits) {
                lemma_spelled_value(n, digits);
            }
        }
    }
}

/// A text has a colon when, and only when, one of its characters is one.
pub proof fn law_colon_is_found(text: &str, found: bool)
    requires
        call_ensures(has_colon, (text,), found),
    ensures
        found <==> exists|i: int| 0 <= i < text@.len() && #[trigger] text@[i] == ':',
{
}

/// Texts are the same when, and only when, they have the same characters at
/// the same places.
pub proof fn law_same_texts(a: &str, b: &str, same: bool)
    requires
        call_ensures(same_text, (a, b), same),
    ensures
        same <==> a@.len() == b@.len() && forall|i: int| 0 <= i < a@.len() ==> a@[i] == b@[i],
{
    if a@.len() == b@.len() && forall|i: int| 0 <= i < a@.len() ==> a@[i] == b@[i] {
        assert(a@ =~= b@);
    }
}

/// An octet of a number in network order is the digit of the number at that
/// place.
proof fn lemma_octets_are_digits(value: nat, count: nat)
    ensures
        crate::address::be_octets(value, count).len() == count,
        forall|i: int|
            0 <= i < count ==> (#[trigger] crate::address::be_octets(value, count)[i]) as nat
                == digit_of(value, 256, (count - 1 - i) as nat),
    decreases count,
{
    if count > 0 {
        let fewer = (count - 1) as nat;
        lemma_octets_are_digits(value / 256, fewer);
        let octets = crate::address::be_octets(value, count);
        assert forall|i: int| 0 <= i < count implies (#[trigger] octets[i]) as nat == digit_of(
            value,
            256,
            (count - 1 - i) as nat,
        ) by {
            if i < fewer {
                assert(octets[i] == crate::address::be_octets(value / 256, fewer)[i]);
                lemma_next_place(value, 256, (fewer - 1 - i) as nat);
            } else {
                lemma_next_place(value, 256, 0);
            }
        }
    }
}

proof fn lemma_value_has_octets(octets: Seq<u8>)
    ensures
        crate::address::be_value(octets) < vstd::arithmetic::power::pow(256, octets.len()),
        forall|i: int|
            0 <= i < octets.len() ==> (#[trigger] octets[i]) as nat == digit_of(
                crate::address::be_value(octets),
                256,
                (octets.len() - 1 - i) as nat,
            ),
    decreases octets.len(),
{
    let value = crate::address::be_value(octets);
    lemma_next_place(value, 256, 0);
    if octets.len() > 0 {
        let rest = octets.drop_last();
        lemma_value_has_octets(rest);
        lemma_next_place(value, 256, rest.len());
        assert(value / 256 == crate::address::be_value(rest));
        lemma_bound_by_quotient(value, 256, vstd::arithmetic::power::pow(256, rest.len()));
        assert forall|i: int| 0 <= i < octets.len() implies (#[trigger] octets[i]) as nat
            == digit_of(value, 256, (octets.len() - 1 - i) as nat) by {
            if i < rest.len() {
                assert(octets[i] == rest[i]);
                lemma_next_place(value, 256, (rest.len() - 1 - i) as nat);
            }
        }
    }
}

/// The octets of a number are written in network order behind what stands
/// there already, the last one for the ones, the one before for the
/// two-hundred-and-fifty-sixes, and so on.
pub proof fn law_octets_are_written_in_network_order(out: &mut Vec<u8>, value: u128, count: usize)
    requires
        call_ensures(push_octets, (out, value, count), ()),
    ensures
        final(out)@.len() == old(out)@.len() + count,
        forall|i: int| 0 <= i < old(out)@.len() ==> #[trigger] final(out)@[i] == old(out)@[i],
        ({
            let written = final(out)@.skip(old(out)@.len() as int);
            forall|i: int|
                0 <= i < count ==> (#[trigger] written[i]) as nat == digit_of(
                    value as nat,
                    256,
                    (count - 1 - i) as nat,
                )
        }),
{
    lemma_octets_are_digits(value as nat, count as nat);
    let written = final(out)@.skip(old(out)@.len() as int);
    assert(written =~= crate::address::be_octets(value as nat, count as nat));
}

/// Octets are read in network order: each of them is the digit at its place,
/// and there is nothing more to the number.
pub proof fn law_octets_are_read_in_network_order(
    octets: &[u8],
    start: usize,
    end: usize,
    value: u128,
)
    requires
        start <= end <= octets@.len(),
        end - start <= 16,
        call_ensures(read_octets, (octets, start, end), value),
    ensures
        value < vstd::arithmetic::power::pow(256, (end - start) as nat),
        forall|i: int|
            start <= i < end ==> (#[trigger] octets@[i]) as nat == digit_of(
                value as nat,
                256,
                (end - 1 - i) as nat,
            ),
{
    let range = octets@.subrange(start as int, end as int);
    lemma_value_has_octets(range);
    assert forall|i: int| start <= i < end implies (#[trigger] octets@[i]) as nat == digit_of(
        value as nat,
        256,
        (end - 1 - i) as nat,
    ) by {
        assert(range[i - start] == octets@[i]);
    }
}

/// An IPv4 address is written as its four octets in plain decimal notation
/// with dots between them.
pub proof fn law_ipv4_address_is_dotted(a: u8, b: u8, c: u8, d: u8, text: String)
    requires
        call_ensures(ipv4_text, (a, b, c, d), text),
    ensures
        exists|w: Seq<char>, x: Seq<char>, y: Seq<char>, z: Seq<char>|
            {
                &&& #[trigger] plain(a as nat, w)
                &&& #[trigger] plain(b as nat, x)
                &&& #[trigger] plain(c as nat, y)
                &&& #[trigger] plain(d as nat, z)
                &&& text@ == w + seq!['.'] + x + seq!['.'] + y + seq!['.'] + z
            },
{
    lemma_decimal_is_plain(a as nat);
    lemma_decimal_is_plain(b as nat);
    lemma_decimal_is_plain(c as nat);
    lemma_decimal_is_plain(d as nat);
}

/// Host and port are joined by a colon, and a host that has a colon of its
/// own is put in brackets; the port is in plain decimal notation.
pub proof fn law_host_and_port_are_joined(host: &str, port: u16, text: String)
    requires
        call_ensures(authority, (host, port), text),
    ensures
        exists|digits: Seq<char>|
            {
                &&& #[trigger] plain(port as nat, digits)
                &&& text@ == if host@.contains(':') {
                    seq!['['] + host@ + seq![']', ':'] + digits
                } else {
                    host@ + seq![':'] + digits
                }
            },
{
    lemma_decimal_is_plain(port as nat);
}

/// A host in a socket address stands in brackets, with its scope behind a
/// percent sign unless that is zero, and then the port.
pub proof fn law_bracketed_host(host: &str, scope_id: u32, port: u16, text: String)
    requires
        call_ensures(bracketed_text, (host, scope_id, port), text),
    ensures
        exists|scope: Seq<char>, digits: Seq<char>|
            {
                &&& #[trigger] plain(scope_id as nat, scope)
                &&& #[trigger] plain(port as nat, digits)
                &&& text@ == if scope_id == 0 {
                    seq!['['] + host@ + seq![']', ':'] + digits
                } else {
                    seq!['['] + host@ + seq!['%'] + scope + seq![']', ':'] + digits
                }
            },
{
    let scope = crate::text::decimal(scope_id as nat);
    let digits = crate::text::decimal(port as nat);
    lemma_decimal_is_plain(scope_id as nat);
    lemma_decimal_is_plain(port as nat);
    assert(text@ =~= if scope_id == 0 {
        seq!['['] + host@ + seq![']', ':'] + digits
    } else {
        seq!['['] + host@ + seq!['%'] + scope + seq![']', ':'] + digits
    });
}

/// A socket address is written as its address and its port: an IPv4 address
/// with dots between its octets, the first of which is the highest; an IPv6
/// address in brackets.
pub proof fn law_socket_address_is_written(address: SocketAddress, text: String)
    requires
        call_ensures(socket_text, (address,), text),
    ensures
        match address {
            SocketAddress::V4 { ipv4, port } => exists|
                w: Seq<char>,
                x: Seq<char>,
                y: Seq<char>,
                z: Seq<char>,
                digits: Seq<char>,
            |
                {
                    &&& #[trigger] plain(digit_of(ipv4 as nat, 256, 3), w)
                    &&& #[trigger] plain(digit_of(ipv4 as nat, 256, 2), x)
                    &&& #[trigger] plain(digit_of(ipv4 as nat, 256, 1), y)
                    &&& #[trigger] plain(digit_of(ipv4 as nat, 256, 0), z)
                    &&& #[trigger] plain(port as nat, digits)
                    &&& text@ == w + seq!['.'] + x + seq!['.'] + y + seq!['.'] + z + seq![':']
                        + digits
                },
            SocketAddress::V6 { ipv6, port, flowinfo: _, scope_id } => exists|
                scope: Seq<char>,
                digits: Seq<char>,
            |
                {
                    &&& #[trigger] plain(scope_id as nat, scope)
                    &&& #[trigger] plain(port as nat, digits)
                    &&& text@ == seq!['['] + crate::address::ipv6_notation(ipv6) + (if scope_id
                        == 0 {
                        Seq::empty()
                    } else {
                        seq!['%'] + scope
                    }) + seq![']', ':'] + digits
                },
        },
{
    match address {
        SocketAddress::V4 { ipv4, port } => {
            let value = ipv4 as nat;
            assert(digit_of(value, 256, 0) == value % 256 && digit_of(value, 256, 1) == value / 256
                % 256 && digit_of(value, 256, 2) == value / 0x1_0000 % 256 && digit_of(
                value,
                256,
                3,
            ) == value / 0x100_0000 % 256) by {
                lemma_next_place(value, 256, 0);
                lemma_next_place(value, 256, 1);
                lemma_next_place(value, 256, 2);
            }
            lemma_decimal_is_plain(digit_of(value, 256, 3));
            lemma_decimal_is_plain(digit_of(value, 256, 2));
            lemma_decimal_is_plain(digit_of(value, 256, 1));
            lemma_decimal_is_plain(digit_of(value, 256, 0));
            lemma_decimal_is_plain(port as nat);
        },
        SocketAddress::V6 { ipv6, port, flowinfo: _, scope_id } => {
            lemma_decimal_is_plain(scope_id as nat);
            lemma_decimal_is_plain(port as nat);
        },
    }
}

} // verus!
