//! The reserved words of the language.

use vstd::prelude::*;
use crate::common::text::str_eq;

verus! {

/// Membership in the keyword set: `program`, `var`, `integer`, `real`,
/// `boolean`, `procedure`, `begin`, `end`, `if`, `then`, `else`, `while`,
/// `do`, `not`.
pub open spec fn spec_is_keyword(s: Seq<char>) -> bool {
    ||| s == "program"@
    ||| s == "var"@
    ||| s == "integer"@
    ||| s == "real"@
    ||| s == "boolean"@
    ||| s == "procedure"@
    ||| s == "begin"@
    ||| s == "end"@
    ||| s == "if"@
    ||| s == "then"@
    ||| s == "else"@
    ||| s == "while"@
    ||| s == "do"@
    ||| s == "not"@
}

/// The names of the three value types.
pub open spec fn spec_is_type_name(s: Seq<char>) -> bool {
    s == "integer"@ || s == "real"@ || s == "boolean"@
}

pub fn is_keyword(input: &str) -> (r: bool)
    ensures
        r == spec_is_keyword(input@),
{
    str_eq(input, "program") || str_eq(input, "var") || str_eq(input, "integer") || str_eq(
        input,
        "real",
    ) || str_eq(input, "boolean") || str_eq(input, "procedure") || str_eq(input, "begin")
        || str_eq(input, "end") || str_eq(input, "if") || str_eq(input, "then") || str_eq(
        input,
        "else",
    ) || str_eq(input, "while") || str_eq(input, "do") || str_eq(input, "not")
}

pub fn is_type_name(input: &str) -> (r: bool)
    ensures
        r == spec_is_type_name(input@),
{
    str_eq(input, "integer") || str_eq(input, "real") || str_eq(input, "boolean")
}

} // verus!
