//! Building text: decimal numbers and characters appended to a `String`.

use vstd::prelude::*;
use std::fmt::Write;
use vstd::string::StringSliceAdditionalSpecFns;

verus! {

/// The character for a decimal digit.
pub open spec fn digit_char(digit: nat) -> char {
    (48 + digit) as char
}

/// The decimal digits of a natural number, most significant first, with no
/// leading zero.
pub open spec fn digits(n: nat) -> Seq<char>
    decreases n,
{
    if n < 10 {
        seq![digit_char(n)]
    } else {
        digits(n / 10) + seq![digit_char(n % 10)]
    }
}

/// An integer written in decimal, with a leading minus sign when negative.
pub open spec fn decimal(n: int) -> Seq<char> {
    if n < 0 {
        seq!['-'] + digits((-n) as nat)
    } else {
        digits(n as nat)
    }
}

/// Appends one character: `String::push`.
#[verifier::external_body]
pub(crate) fn push_char(text: &mut String, character: char)
    ensures
        final(text)@ == old(text)@.push(character),
{
    text.push(character);
}

/// What the `Debug` format of a character writes: the character between
/// single quotes, escaped as `char::escape_debug` escapes it.
pub uninterp spec fn char_debug(character: char) -> Seq<char>;

/// Appends a character as its `Debug` format writes it: `write!` with `{:?}`
/// into a `String`, which cannot fail. What the format writes is named;
/// stated are only the cases the documentation of `char::escape_debug` gives
/// plainly: a printable ASCII character other than a quote or a backslash is
/// written as itself between single quotes, and a line feed as `\n`.
#[verifier::external_body]
pub(crate) fn push_char_debug(text: &mut String, character: char)
    ensures
        final(text)@ == old(text)@ + char_debug(character),
        ' ' <= character <= '~' && character != '\'' && character != '\\' ==> final(text)@ == old(
            text,
        )@ + seq!['\'', character, '\''],
        character == '\n' ==> final(text)@ == old(text)@ + seq!['\'', '\\', 'n', '\''],
{
    let _ = write!(text, "{:?}", character);
}

/// Appends a string slice.
pub fn push_str(text: &mut String, tail: &str)
    ensures
        final(text)@ == old(text)@ + tail@,
{
    text.append(tail);
}

/// Appends the decimal digits of a natural number.
pub fn push_digits(text: &mut String, n: u128)
    ensures
        final(text)@ == old(text)@ + digits(n as nat),
    decreases n,
{
    if n >= 10 {
        push_digits(text, n / 10);
    }
    let digit = (n % 10) as u8;
    let character = (48u8 + digit) as char;
    push_char(text, character);
    proof {
        assert(digit_char((n % 10) as nat) == character);
        if n >= 10 {
            assert(digits(n as nat) == digits((n / 10) as nat) + seq![digit_char((n % 10) as nat)]);
        }
    }
}

/// Appends an integer in decimal.
pub fn push_decimal(text: &mut String, n: i128)
    requires
        n > i128::MIN,
    ensures
        final(text)@ == old(text)@ + decimal(n as int),
{
    if n < 0 {
        push_char(text, '-');
        push_digits(text, (-n) as u128);
        proof {
            assert(final(text)@ =~= old(text)@ + decimal(n as int));
        }
    } else {
        push_digits(text, n as u128);
    }
}

/// Whether two texts are the same, compared by their UTF-8 bytes.
pub fn str_equals(a: &str, b: &str) -> (equal: bool)
    ensures
        equal == (a@ == b@),
{
    let left = a.as_bytes();
    let right = b.as_bytes();
    proof {
        vstd::utf8::encode_utf8_decode_utf8(a@);
        vstd::utf8::encode_utf8_decode_utf8(b@);
    }
    if left.len() != right.len() {
        return false;
    }
    let mut index: usize = 0;
    while index < left.len()
        invariant
            left@ == a.spec_bytes(),
            right@ == b.spec_bytes(),
            left@.len() == right@.len(),
            index <= left@.len(),
            forall|i: int| 0 <= i < index ==> left@[i] == right@[i],
        decreases left@.len() - index,
    {
        if left[index] != right[index] {
            return false;
        }
        index += 1;
    }
    assert(left@ =~= right@);
    true
}

} // verus!
