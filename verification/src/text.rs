//! Text of numbers and addresses, as it goes into commands and messages.

use crate::address::same_octets;
use vstd::prelude::*;
use vstd::string::StringExecFns;

verus! {

/// The decimal digit of a number below ten.
pub open spec fn digit(d: nat) -> char {
    (48 + d) as char
}

/// The decimal notation of a number, without leading zeros.
pub open spec fn decimal(n: nat) -> Seq<char>
    decreases n,
{
    if n < 10 {
        seq![digit(n)]
    } else {
        decimal(n / 10).push(digit(n % 10))
    }
}

fn digit_text(d: u64) -> (text: &'static str)
    requires
        d < 10,
    ensures
        text@ == seq![digit(d as nat)],
{
    proof {
        reveal_strlit("0");
        reveal_strlit("1");
        reveal_strlit("2");
        reveal_strlit("3");
        reveal_strlit("4");
        reveal_strlit("5");
        reveal_strlit("6");
        reveal_strlit("7");
        reveal_strlit("8");
        reveal_strlit("9");
    }
    let text = match d {
        0 => "0",
        1 => "1",
        2 => "2",
        3 => "3",
        4 => "4",
        5 => "5",
        6 => "6",
        7 => "7",
        8 => "8",
        _ => "9",
    };
    assert(text@ =~= seq![digit(d as nat)]);
    text
}

/// Appends the decimal notation of `n`.
pub fn push_decimal(out: &mut String, n: u64)
    ensures
        final(out)@ == old(out)@ + decimal(n as nat),
    decreases n,
{
    if n >= 10 {
        push_decimal(out, n / 10);
    }
    out.append(digit_text(n % 10));
    assert(out@ =~= old(out)@ + decimal(n as nat));
}

/// Whether the text has a colon.
pub fn has_colon(text: &str) -> (found: bool)
    ensures
        found == text@.contains(':'),
{
    for c in it: text.chars()
        invariant
            it.seq() == text@,
            forall|i: int| 0 <= i < it.index() ==> text@[i] != ':',
    {
        if c == ':' {
            return true;
        }
    }
    false
}

/// Whether the texts have the same characters.
pub fn same_text(a: &str, b: &str) -> (same: bool)
    ensures
        same == (a@ == b@),
{
    proof {
        vstd::utf8::encode_utf8_decode_utf8(a@);
        vstd::utf8::encode_utf8_decode_utf8(b@);
    }
    let octets = a.as_bytes();
    assert(octets@.subrange(0, octets@.len() as int) =~= octets@);
    same_octets(octets, 0, octets.len(), b.as_bytes())
}

/// The value that a sequence of decimal digits spells.
pub open spec fn digits_value(digits: Seq<char>) -> nat
    decreases digits.len(),
{
    if digits.len() == 0 {
        0
    } else {
        digits_value(digits.drop_last()) * 10 + (digits.last() as nat - 48) as nat
    }
}

pub open spec fn is_digit(c: char) -> bool {
    '0' <= c <= '9'
}

/// At least one character, and all of them decimal digits.
pub open spec fn is_digits(s: Seq<char>) -> bool {
    s.len() > 0 && forall|i: int| 0 <= i < s.len() ==> is_digit(#[trigger] s[i])
}

/// The text without the plus sign that may stand before the digits.
pub open spec fn magnitude(text: Seq<char>) -> Seq<char> {
    if text.len() > 0 && text[0] == '+' {
        text.skip(1)
    } else {
        text
    }
}

/// The number that a text in decimal notation stands for, if it is one and is
/// at most `max`.
pub open spec fn number_in(text: Seq<char>, max: nat) -> Option<nat> {
    let digits = magnitude(text);
    if is_digits(digits) && digits_value(digits) <= max {
        Some(digits_value(digits))
    } else {
        None
    }
}

/// Reads a number in decimal notation: an optional plus sign and digits.
pub fn parse_decimal(text: &str, max: u64) -> (parsed: Option<u64>)
    ensures
        match parsed {
            Some(n) => number_in(text@, max as nat) == Some(n as nat),
            None => number_in(text@, max as nat) is None,
        },
{
    let mut value: u64 = 0;
    let mut at_start = true;
    let mut has_digit = false;
    for c in it: text.chars()
        invariant
            it.seq() == text@,
            at_start == (it.index() == 0),
            has_digit == (magnitude(text@.take(it.index() as int)).len() > 0),
            forall|i: int|
                0 <= i < magnitude(text@.take(it.index() as int)).len() ==> is_digit(
                    #[trigger] magnitude(text@.take(it.index() as int))[i],
                ),
            value == digits_value(magnitude(text@.take(it.index() as int))),
            value <= max,
    {
        let ghost k = it.index() as int;
        let ghost before = magnitude(text@.take(k));
        let ghost after = magnitude(text@.take(k + 1));
        assert(text@.take(k + 1) =~= text@.take(k).push(c));
        if at_start && c == '+' {
            assert(after =~= before);
        } else {
            assert(after =~= before.push(c));
            assert(after.drop_last() =~= before);
            let ghost j = before.len() as int;
            assert(magnitude(text@).len() > j && magnitude(text@)[j] == c);
            if c < '0' || '9' < c {
                return None;
            }
            let next: u128 = value as u128 * 10 + (c as u32 - 48) as u128;
            assert(next == digits_value(after));
            if next > max as u128 {
                proof {
                    assert(magnitude(text@).take(j + 1) =~= after);
                    if is_digits(magnitude(text@)) {
                        lemma_prefix_value(magnitude(text@), j + 1);
                    }
                }
                return None;
            }
            value = next as u64;
            has_digit = true;
        }
        at_start = false;
    }
    assert(text@.take(text@.len() as int) =~= text@);
    if has_digit {
        Some(value)
    } else {
        None
    }
}

/// The first digits of a number spell a number that is no larger.
proof fn lemma_prefix_value(digits: Seq<char>, n: int)
    requires
        is_digits(digits),
        0 <= n <= digits.len(),
    ensures
        digits_value(digits.take(n)) <= digits_value(digits),
    decreases digits.len(),
{
    if n == digits.len() {
        assert(digits.take(n) =~= digits);
    } else if digits.len() == 1 {
        assert(digits.take(n).len() == 0);
    } else {
        let rest = digits.drop_last();
        assert forall|i: int| 0 <= i < rest.len() implies is_digit(#[trigger] rest[i]) by {
            assert(rest[i] == digits[i]);
        }
        lemma_prefix_value(rest, n);
        assert(rest.take(n) =~= digits.take(n));
    }
}

/// A number is read back from its own notation.
pub proof fn law_decimal_is_read_back(n: nat, max: nat)
    requires
        n <= max,
    ensures
        number_in(decimal(n), max) == Some(n),
{
    lemma_decimal_digits(n);
    assert(is_digit(decimal(n)[0]));
    assert(magnitude(decimal(n)) == decimal(n));
}

/// The notation of a number has only digits and spells that number.
pub(crate) proof fn lemma_decimal_digits(n: nat)
    ensures
        is_digits(decimal(n)),
        digits_value(decimal(n)) == n,
    decreases n,
{
    if n >= 10 {
        lemma_decimal_digits(n / 10);
        assert(decimal(n).drop_last() =~= decimal(n / 10));
    } else {
        assert(decimal(n).drop_last() =~= Seq::<char>::empty());
        assert(digits_value(Seq::<char>::empty()) == 0);
    }
}

} // verus!
