//! Character classes of the source alphabet.
//!
//! The language itself is written in ASCII, and for ASCII every class is
//! decided here by a range test. Characters beyond ASCII are classified by the
//! Unicode tables of the standard library, whose answers are only named.

use vstd::prelude::*;

verus! {

/// What `char::is_whitespace` answers for `c`.
pub uninterp spec fn unicode_whitespace(c: char) -> bool;

/// What `char::is_alphabetic` answers for `c`.
pub uninterp spec fn unicode_alphabetic(c: char) -> bool;

/// What `char::is_alphanumeric` answers for `c`.
pub uninterp spec fn unicode_alphanumeric(c: char) -> bool;

/// Calls `char::is_whitespace`, which looks `c` up in the Unicode `White_Space`
/// table. Nothing is claimed beyond the result being the named one.
#[verifier::external_body]
fn std_is_whitespace(c: char) -> (r: bool)
    ensures
        r == unicode_whitespace(c),
{
    c.is_whitespace()
}

/// Calls `char::is_alphabetic`, which looks `c` up in the Unicode `Alphabetic`
/// table. Nothing is claimed beyond the result being the named one.
#[verifier::external_body]
fn std_is_alphabetic(c: char) -> (r: bool)
    ensures
        r == unicode_alphabetic(c),
{
    c.is_alphabetic()
}

/// Calls `char::is_alphanumeric`, which looks `c` up in the Unicode tables of
/// letters and numbers. Nothing is claimed beyond the result being the named one.
#[verifier::external_body]
fn std_is_alphanumeric(c: char) -> (r: bool)
    ensures
        r == unicode_alphanumeric(c),
{
    c.is_alphanumeric()
}

/// `c` lies in the ASCII range.
pub open spec fn spec_is_ascii(c: char) -> bool {
    c <= '\x7f'
}

/// `c` is one of the ten decimal digits.
pub open spec fn spec_is_digit(c: char) -> bool {
    '0' <= c && c <= '9'
}

/// `c` is an ASCII letter.
pub open spec fn spec_is_ascii_letter(c: char) -> bool {
    ('a' <= c && c <= 'z') || ('A' <= c && c <= 'Z')
}

/// `c` is an ASCII blank: space, tab, line feed, vertical tab, form feed or
/// carriage return.
pub open spec fn spec_is_ascii_blank(c: char) -> bool {
    c == ' ' || ('\x09' <= c && c <= '\x0d')
}

/// White space: the ASCII blanks, and beyond ASCII whatever Unicode calls so.
pub open spec fn spec_is_whitespace(c: char) -> bool {
    if spec_is_ascii(c) {
        spec_is_ascii_blank(c)
    } else {
        unicode_whitespace(c)
    }
}

/// A letter: the ASCII letters, and beyond ASCII whatever Unicode calls
/// alphabetic.
pub open spec fn spec_is_letter(c: char) -> bool {
    if spec_is_ascii(c) {
        spec_is_ascii_letter(c)
    } else {
        unicode_alphabetic(c)
    }
}

/// A letter or a number: the ASCII letters and digits, and beyond ASCII
/// whatever Unicode calls alphanumeric.
pub open spec fn spec_is_alphanumeric(c: char) -> bool {
    if spec_is_ascii(c) {
        spec_is_ascii_letter(c) || spec_is_digit(c)
    } else {
        unicode_alphanumeric(c)
    }
}

/// A character that may start an identifier: a letter or `_`.
pub open spec fn spec_is_word_start(c: char) -> bool {
    spec_is_letter(c) || c == '_'
}

/// A character that may continue an identifier: a letter, a number or `_`.
pub open spec fn spec_is_word_part(c: char) -> bool {
    spec_is_alphanumeric(c) || c == '_'
}

pub fn is_digit(c: char) -> (r: bool)
    ensures
        r == spec_is_digit(c),
{
    '0' <= c && c <= '9'
}

pub fn is_whitespace(c: char) -> (r: bool)
    ensures
        r == spec_is_whitespace(c),
{
    if c <= '\x7f' {
        c == ' ' || ('\x09' <= c && c <= '\x0d')
    } else {
        std_is_whitespace(c)
    }
}

pub fn is_letter(c: char) -> (r: bool)
    ensures
        r == spec_is_letter(c),
{
    if c <= '\x7f' {
        ('a' <= c && c <= 'z') || ('A' <= c && c <= 'Z')
    } else {
        std_is_alphabetic(c)
    }
}

pub fn is_alphanumeric(c: char) -> (r: bool)
    ensures
        r == spec_is_alphanumeric(c),
{
    if c <= '\x7f' {
        ('a' <= c && c <= 'z') || ('A' <= c && c <= 'Z') || ('0' <= c && c <= '9')
    } else {
        std_is_alphanumeric(c)
    }
}

pub fn is_word_start(c: char) -> (r: bool)
    ensures
        r == spec_is_word_start(c),
{
    is_letter(c) || c == '_'
}

pub fn is_word_part(c: char) -> (r: bool)
    ensures
        r == spec_is_word_part(c),
{
    is_alphanumeric(c) || c == '_'
}

} // verus!
