//! Numbers and bytes written as text.

use vstd::prelude::*;
use vstd::string::*;
use crate::primitives::push_char;

verus! {

/// The character of a decimal digit.
pub open spec fn digit_char(d: nat) -> char {
    (48 + d) as char
}

/// The decimal digits of `n`, without leading zeros.
pub open spec fn decimal_digits(n: nat) -> Seq<char>
    decreases n,
{
    if n < 10 {
        seq![digit_char(n)]
    } else {
        decimal_digits(n / 10).push(digit_char(n % 10))
    }
}

/// `n` in decimal, with a minus sign when negative.
pub open spec fn decimal_text(n: int) -> Seq<char> {
    if n < 0 {
        seq!['-'] + decimal_digits((-n) as nat)
    } else {
        decimal_digits(n as nat)
    }
}

fn digit(d: u64) -> (c: char)
    requires
        d < 10,
    ensures
        c == digit_char(d as nat),
{
    let code: u8 = 48 + d as u8;
    code as char
}

/// Appends `n` in decimal.
pub fn push_decimal(text: &mut String, n: u64)
    ensures
        final(text)@ == old(text)@ + decimal_digits(n as nat),
    decreases n,
{
    if n >= 10 {
        push_decimal(text, n / 10);
    }
    push_char(text, digit(n % 10));
    proof {
        if n < 10 {
            assert(decimal_digits(n as nat) =~= seq![digit_char(n as nat)]);
        }
    }
    assert(final(text)@ =~= old(text)@ + decimal_digits(n as nat)) by {
        if n >= 10 {
            assert(decimal_digits(n as nat) == decimal_digits((n / 10) as nat).push(digit_char((n % 10) as nat)));
        }
    }
}

/// Appends a signed `n` in decimal.
pub fn push_signed_decimal(text: &mut String, n: i64)
    ensures
        final(text)@ == old(text)@ + decimal_text(n as int),
{
    if n < 0 {
        push_char(text, '-');
        let magnitude: u64 = (0i128 - n as i128) as u64;
        push_decimal(text, magnitude);
        assert(final(text)@ =~= old(text)@ + decimal_text(n as int));
    } else {
        push_decimal(text, n as u64);
    }
}

/// `n` in decimal.
pub fn decimal_string(n: u64) -> (text: String)
    ensures
        text@ == decimal_digits(n as nat),
{
    let mut text = String::new();
    push_decimal(&mut text, n);
    assert(text@ =~= decimal_digits(n as nat));
    text
}

/// A signed `n` in decimal.
pub fn signed_decimal_string(n: i64) -> (text: String)
    ensures
        text@ == decimal_text(n as int),
{
    let mut text = String::new();
    push_signed_decimal(&mut text, n);
    assert(text@ =~= decimal_text(n as int));
    text
}

/// The lowercase hexadecimal character of a digit below sixteen.
pub open spec fn hex_digit_char(d: nat) -> char {
    if d < 10 {
        (48 + d) as char
    } else {
        (87 + d) as char
    }
}

/// A byte as two lowercase hexadecimal digits.
pub open spec fn hex_pair(b: u8) -> Seq<char> {
    seq![hex_digit_char((b / 16) as nat), hex_digit_char((b % 16) as nat)]
}

/// Bytes as hexadecimal pairs separated by single spaces.
pub open spec fn hex_text(bytes: Seq<u8>) -> Seq<char>
    decreases bytes.len(),
{
    if bytes.len() == 0 {
        seq![]
    } else if bytes.len() == 1 {
        hex_pair(bytes[0])
    } else {
        hex_text(bytes.drop_last()) + seq![' '] + hex_pair(bytes.last())
    }
}

/// A byte shown as text: itself when it is a visible ASCII character or a
/// space, a dot otherwise.
pub open spec fn printable_char(b: u8) -> char {
    if 0x20 <= b <= 0x7e {
        b as char
    } else {
        '.'
    }
}

fn hex_digit(d: u8) -> (c: char)
    requires
        d < 16,
    ensures
        c == hex_digit_char(d as nat),
{
    if d < 10 {
        (48 + d) as char
    } else {
        (87 + d) as char
    }
}

/// The header as text, each byte shown by `printable_char`.
pub fn printable_header(header: &[u8; 16]) -> (text: String)
    ensures
        text@ == Seq::new(16, |i: int| printable_char(header@[i])),
{
    let mut text = String::new();
    let mut i: usize = 0;
    while i < 16
        invariant
            i <= 16,
            text@ == Seq::new(i as nat, |k: int| printable_char(header@[k])),
        decreases 16 - i,
    {
        let b = header[i];
        let c = if 0x20 <= b && b <= 0x7e { b as char } else { '.' };
        push_char(&mut text, c);
        assert(text@ =~= Seq::new((i + 1) as nat, |k: int| printable_char(header@[k])));
        i = i + 1;
    }
    text
}

/// The header in hexadecimal, bytes separated by spaces.
pub fn hex_header(header: &[u8; 16]) -> (text: String)
    ensures
        text@ == hex_text(header@),
{
    let mut text = String::new();
    let mut i: usize = 0;
    assert(header@.take(0) =~= seq![]);
    while i < 16
        invariant
            i <= 16,
            text@ == hex_text(header@.take(i as int)),
        decreases 16 - i,
    {
        let b = header[i];
        if i > 0 {
            push_char(&mut text, ' ');
        }
        push_char(&mut text, hex_digit(b / 16));
        push_char(&mut text, hex_digit(b % 16));
        proof {
            let prefix = header@.take(i + 1);
            assert(prefix.drop_last() =~= header@.take(i as int));
            assert(prefix.last() == b);
            assert(text@ =~= hex_text(prefix));
        }
        i = i + 1;
    }
    assert(header@.take(16) =~= header@);
    text
}

} // verus!
