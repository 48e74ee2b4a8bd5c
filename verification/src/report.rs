//! How a line of the spectrum is written: two numbers in hexadecimal.
use vstd::prelude::*;

verus! {

/// Appending a character to a `String` appends it to the string's
/// characters, as the documentation of `String::push` says.
pub assume_specification[ String::push ](s: &mut String, ch: char)
    ensures
        final(s)@ == old(s)@.push(ch),
;

/// The hexadecimal digits, in lower case.
pub const HEX_DIGITS: [char; 16] = [
    '0', '1', '2', '3', '4', '5', '6', '7', '8', '9', 'a', 'b', 'c', 'd', 'e', 'f',
];

/// Least number of digits in a field.
pub const FIELD_DIGITS: usize = 6;

/// The digits of `v` to base 16, the highest first, without leading zeros;
/// one digit for zero.
pub open spec fn hex_digits(v: nat) -> Seq<char>
    decreases v,
{
    if v < 16 {
        seq![HEX_DIGITS[v as int]]
    } else {
        hex_digits(v / 16).push(HEX_DIGITS[(v % 16) as int])
    }
}

/// A number as a field: `0x`, then its hexadecimal digits, with zeros before
/// them where there are fewer than six.
pub open spec fn hex_field(v: nat) -> Seq<char> {
    let digits = hex_digits(v);
    let zeros = if digits.len() < FIELD_DIGITS {
        FIELD_DIGITS - digits.len()
    } else {
        0
    };
    seq!['0', 'x'] + Seq::new(zeros as nat, |i: int| '0') + digits
}

/// A line of the spectrum: the bin and its magnitude as fields, a space
/// between them.
pub open spec fn line_text(bin: nat, magnitude: nat) -> Seq<char> {
    hex_field(bin) + seq![' '] + hex_field(magnitude)
}

/// A number has at most sixteen hexadecimal digits per 64 bits.
proof fn lemma_hex_digits_len(v: nat)
    ensures
        1 <= hex_digits(v).len(),
        v <= u64::MAX ==> hex_digits(v).len() <= 16,
        v < 0x10 ==> hex_digits(v).len() == 1,
        v < 0x100 ==> hex_digits(v).len() <= 2,
        v < 0x1000 ==> hex_digits(v).len() <= 3,
        v < 0x1_0000 ==> hex_digits(v).len() <= 4,
        v < 0x10_0000 ==> hex_digits(v).len() <= 5,
        v < 0x100_0000 ==> hex_digits(v).len() <= 6,
        v < 0x1000_0000 ==> hex_digits(v).len() <= 7,
        v < 0x1_0000_0000 ==> hex_digits(v).len() <= 8,
        v < 0x10_0000_0000 ==> hex_digits(v).len() <= 9,
        v < 0x100_0000_0000 ==> hex_digits(v).len() <= 10,
        v < 0x1000_0000_0000 ==> hex_digits(v).len() <= 11,
        v < 0x1_0000_0000_0000 ==> hex_digits(v).len() <= 12,
        v < 0x10_0000_0000_0000 ==> hex_digits(v).len() <= 13,
        v < 0x100_0000_0000_0000 ==> hex_digits(v).len() <= 14,
        v < 0x1000_0000_0000_0000 ==> hex_digits(v).len() <= 15,
    decreases v,
{
    if v >= 16 {
        lemma_hex_digits_len(v / 16);
    }
}

/// The hexadecimal digits of `v`, the highest first.
fn digits_of(v: u64) -> (digits: Vec<char>)
    ensures
        digits@ == hex_digits(v as nat),
    decreases v,
{
    if v < 16 {
        let mut digits: Vec<char> = Vec::new();
        digits.push(HEX_DIGITS[v as usize]);
        assert(digits@ =~= hex_digits(v as nat));
        digits
    } else {
        let mut digits = digits_of(v / 16);
        digits.push(HEX_DIGITS[(v % 16) as usize]);
        digits
    }
}

/// Appends the field of `v` to `text`.
fn push_field(text: &mut String, v: u64)
    ensures
        final(text)@ == old(text)@ + hex_field(v as nat),
{
    let digits = digits_of(v);
    proof {
        lemma_hex_digits_len(v as nat);
    }
    text.push('0');
    text.push('x');
    let ghost start = text@;
    assert(start =~= old(text)@ + seq!['0', 'x']);
    let mut n: usize = digits.len();
    while n < FIELD_DIGITS
        invariant
            digits@.len() <= n,
            n <= 16,
            digits@.len() < FIELD_DIGITS ==> n <= FIELD_DIGITS,
            digits@.len() >= FIELD_DIGITS ==> n == digits@.len(),
            text@ == start + Seq::new((n - digits@.len()) as nat, |i: int| '0'),
        decreases FIELD_DIGITS - n,
    {
        text.push('0');
        n += 1;
        assert(text@ =~= start + Seq::new((n - digits@.len()) as nat, |i: int| '0'));
    }
    let ghost padded = text@;
    let ghost zeros = Seq::new((n - digits@.len()) as nat, |i: int| '0');
    let mut k: usize = 0;
    while k < digits.len()
        invariant
            k <= digits@.len(),
            text@ == padded + digits@.take(k as int),
        decreases digits@.len() - k,
    {
        text.push(digits[k]);
        k += 1;
        assert(text@ =~= padded + digits@.take(k as int));
    }
    assert(digits@.take(k as int) =~= digits@);
    assert(hex_field(v as nat) == seq!['0', 'x'] + zeros + digits@);
    assert(text@ =~= old(text)@ + (seq!['0', 'x'] + zeros + digits@));
}

/// A line of the spectrum for a bin and its magnitude.
pub fn spectrum_line(bin: usize, magnitude: i32) -> (text: String)
    requires
        0 <= magnitude,
    ensures
        text@ == line_text(bin as nat, magnitude as nat),
{
    let mut text = String::new();
    push_field(&mut text, bin as u64);
    text.push(' ');
    push_field(&mut text, magnitude as u64);
    assert(text@ =~= line_text(bin as nat, magnitude as nat));
    text
}

}
