//! Numbers as text: the standard library's number parsing and formatting,
//! and the string operations by which text is built and taken apart.

use core::num::ParseIntError;
use std::str::FromStr;
use vstd::prelude::*;
use vstd::string::StringExecFns;

verus! {

#[verifier::external_type_specification]
#[verifier::external_body]
pub struct ExParseIntError(ParseIntError);

/// The number that `u16::from_str_radix` makes of a text in a radix, or
/// `None` where it reports an error.
pub uninterp spec fn u16_from_text_radix(text: Seq<char>, radix: int) -> Option<u16>;

/// The number that `u16::from_str` makes of a text, or `None` where it
/// reports an error.
pub uninterp spec fn u16_from_text(text: Seq<char>) -> Option<u16>;

/// The number that `usize::from_str` makes of a text, or `None` where it
/// reports an error.
pub uninterp spec fn usize_from_text(text: Seq<char>) -> Option<usize>;

/// What `str::trim` leaves of a text: the text without the white space at
/// its two ends.
pub uninterp spec fn trimmed(text: Seq<char>) -> Seq<char>;

/// Whether `part` is a stretch of `whole`: some of its characters, in one
/// piece.
pub open spec fn is_stretch_of(part: Seq<char>, whole: Seq<char>) -> bool {
    exists|i: int, j: int| 0 <= i <= j <= whole.len() && part == #[trigger] whole.subrange(i, j)
}

/// The sixteen digits, in order of their worth.
pub open spec fn digit_char(d: int) -> char {
    "0123456789abcdef"@[d]
}

/// The decimal digits of `n`, without leading zeros.
pub open spec fn decimal(n: nat) -> Seq<char>
    decreases n,
{
    if n < 10 {
        seq![digit_char(n as int)]
    } else {
        decimal(n / 10).push(digit_char((n % 10) as int))
    }
}

/// The hexadecimal digits of `n`, in lower case and without leading zeros.
pub open spec fn hex(n: nat) -> Seq<char>
    decreases n,
{
    if n < 16 {
        seq![digit_char(n as int)]
    } else {
        hex(n / 16).push(digit_char((n % 16) as int))
    }
}

/// `digits` with zeros in front until it is `width` characters long.
pub open spec fn zero_padded(digits: Seq<char>, width: nat) -> Seq<char> {
    if digits.len() >= width {
        digits
    } else {
        Seq::new((width - digits.len()) as nat, |i: int| '0') + digits
    }
}

/// Calls `u16::from_str_radix`, which panics on a radix outside 2..=36.
/// Nothing is claimed of the result but that it is the one the name stands
/// for.
#[verifier::external_body]
pub(crate) fn parse_u16_radix(text: &str, radix: u32) -> (r: Result<u16, ParseIntError>)
    requires
        2 <= radix <= 36,
    ensures
        match r {
            Ok(n) => u16_from_text_radix(text@, radix as int) == Some(n),
            Err(_) => u16_from_text_radix(text@, radix as int) is None,
        },
{
    u16::from_str_radix(text, radix)
}

/// Calls `u16::from_str`. Nothing is claimed of the result but that it is the
/// one the name stands for.
#[verifier::external_body]
pub(crate) fn parse_u16(text: &str) -> (r: Result<u16, ParseIntError>)
    ensures
        match r {
            Ok(n) => u16_from_text(text@) == Some(n),
            Err(_) => u16_from_text(text@) is None,
        },
{
    u16::from_str(text)
}

/// Calls `usize::from_str`. Nothing is claimed of the result but that it is
/// the one the name stands for.
#[verifier::external_body]
pub(crate) fn parse_usize(text: &str) -> (r: Result<usize, ParseIntError>)
    ensures
        match r {
            Ok(n) => usize_from_text(text@) == Some(n),
            Err(_) => usize_from_text(text@) is None,
        },
{
    usize::from_str(text)
}

/// Calls `try_from::TryFrom::try_from` from a `&str` to a `usize`. Its one
/// impl for `&str` hands the text to `FromStr::from_str` of the target type
/// and returns what that returns, so the result is that of `usize::from_str`.
#[verifier::external_body]
pub(crate) fn try_usize_from(text: &str) -> (r: Result<usize, ParseIntError>)
    ensures
        match r {
            Ok(n) => usize_from_text(text@) == Some(n),
            Err(_) => usize_from_text(text@) is None,
        },
{
    try_from::TryFrom::try_from(text)
}

/// Calls `str::trim`, which returns a slice of the text: the text without
/// the white space at its two ends. The result is the one the name stands
/// for, and it is a stretch of the text.
#[verifier::external_body]
pub(crate) fn trim(text: &str) -> (r: &str)
    ensures
        r@ == trimmed(text@),
        is_stretch_of(r@, text@),
{
    text.trim()
}

/// The number of a parse that succeeded.
pub fn parsed<T>(r: Result<T, ParseIntError>) -> (n: Option<T>)
    ensures
        n == match r {
            Ok(v) => Some(v),
            Err(_) => None::<T>,
        },
{
    match r {
        Ok(v) => Some(v),
        Err(_) => None,
    }
}

/// Calls `format!` with `{}` on a number: its decimal digits.
#[verifier::external_body]
pub(crate) fn decimal_string(n: usize) -> (s: String)
    ensures
        s@ == decimal(n as nat),
{
    format!("{}", n)
}

/// Calls `format!` with `{:04}` on a number: its decimal digits, with zeros
/// in front where there are fewer than four.
#[verifier::external_body]
pub(crate) fn decimal4_string(n: usize) -> (s: String)
    ensures
        s@ == zero_padded(decimal(n as nat), 4),
{
    format!("{:04}", n)
}

/// Calls `format!` with `{:04x}` on a number: its hexadecimal digits in lower
/// case, with zeros in front where there are fewer than four.
#[verifier::external_body]
pub(crate) fn hex4_string(n: usize) -> (s: String)
    ensures
        s@ == zero_padded(hex(n as nat), 4),
{
    format!("{:04x}", n)
}

/// Calls `format!` with `{:02x}` on a byte: its hexadecimal digits in lower
/// case, with a zero in front where there is only one.
#[verifier::external_body]
pub(crate) fn hex2_string(b: u8) -> (s: String)
    ensures
        s@ == zero_padded(hex(b as nat), 2),
{
    format!("{:02x}", b)
}

/// Calls `String::push`, which appends one character.
#[verifier::external_body]
pub(crate) fn push_char(s: &mut String, c: char)
    ensures
        final(s)@ == old(s)@.push(c),
{
    s.push(c)
}

/// Calls `String::remove` at index 0, which panics on an empty string and
/// otherwise takes the first character out and returns it.
#[verifier::external_body]
pub(crate) fn remove_first_char(s: &mut String) -> (c: char)
    requires
        old(s)@.len() > 0,
    ensures
        c == old(s)@[0],
        final(s)@ == old(s)@.drop_first(),
{
    s.remove(0)
}

/// A name and one argument with a space between them.
pub open spec fn line1(name: Seq<char>, a: Seq<char>) -> Seq<char> {
    name + seq![' '] + a
}

/// A name and two arguments with spaces between them.
pub open spec fn line2(name: Seq<char>, a: Seq<char>, b: Seq<char>) -> Seq<char> {
    name + seq![' '] + a + seq![' '] + b
}

/// A name and three arguments with spaces between them.
pub open spec fn line3(name: Seq<char>, a: Seq<char>, b: Seq<char>, c: Seq<char>) -> Seq<char> {
    name + seq![' '] + a + seq![' '] + b + seq![' '] + c
}

/// A text between two others.
pub open spec fn wrapped(before: Seq<char>, inner: Seq<char>, after: Seq<char>) -> Seq<char> {
    before + inner + after
}

/// Appends a space and a text.
pub fn push_word(s: &mut String, word: &str)
    ensures
        final(s)@ == old(s)@ + seq![' '] + word@,
{
    push_char(s, ' ');
    s.append(word);
    assert(s@ =~= old(s)@ + seq![' '] + word@);
}

/// Writes a name and one argument with a space between them.
pub fn write_line1(name: &str, a: &str) -> (s: String)
    ensures
        s@ == line1(name@, a@),
{
    let mut s = name.to_owned();
    push_word(&mut s, a);
    s
}

/// Writes a name and two arguments with spaces between them.
pub fn write_line2(name: &str, a: &str, b: &str) -> (s: String)
    ensures
        s@ == line2(name@, a@, b@),
{
    let mut s = name.to_owned();
    push_word(&mut s, a);
    push_word(&mut s, b);
    s
}

/// Writes a name and three arguments with spaces between them.
pub fn write_line3(name: &str, a: &str, b: &str, c: &str) -> (s: String)
    ensures
        s@ == line3(name@, a@, b@, c@),
{
    let mut s = name.to_owned();
    push_word(&mut s, a);
    push_word(&mut s, b);
    push_word(&mut s, c);
    s
}

/// Writes a text between two others.
pub fn write_wrapped(before: &str, inner: &str, after: &str) -> (s: String)
    ensures
        s@ == wrapped(before@, inner@, after@),
{
    let mut s = before.to_owned();
    s.append(inner);
    s.append(after);
    s
}

} // verus!
