//! The regex crate's Unicode character classes `\d` (decimal digits) and
//! `\w` (word characters). On ASCII they are `[0-9]` and `[0-9A-Za-z_]`;
//! beyond ASCII the regex crate's Unicode tables decide.

use vstd::prelude::*;
use regex::Regex;

verus! {

/// Whether `c` is in the regex crate's Unicode class `class` (`\d` or `\w`).
pub uninterp spec fn regex_class_member(class: Seq<char>, c: char) -> bool;

/// `Regex::is_match` of the pattern `^{class}$` on the one-character text
/// `c`: whether `c` is in the class. Both classes compile.
#[verifier::external_body]
fn regex_class_match(class: &str, c: char) -> (r: bool)
    requires
        class@ == "\\d"@ || class@ == "\\w"@,
    ensures
        r == regex_class_member(class@, c),
{
    Regex::new(&format!("^{}$", class)).unwrap().is_match(&c.to_string())
}

/// `c` is a decimal digit (`\d`).
pub open spec fn decimal_digit(c: char) -> bool {
    if (c as u32) < 128 { '0' <= c && c <= '9' } else { regex_class_member("\\d"@, c) }
}

/// `c` is an ASCII word character: a letter, a digit or `_`.
pub open spec fn ascii_word(c: char) -> bool {
    ('0' <= c && c <= '9') || ('a' <= c && c <= 'z') || ('A' <= c && c <= 'Z') || c == '_'
}

/// `c` is a word character (`\w`).
pub open spec fn word_char(c: char) -> bool {
    if (c as u32) < 128 { ascii_word(c) } else { regex_class_member("\\w"@, c) }
}

/// Whether `c` is a decimal digit (`\d`).
pub fn is_decimal_digit(c: char) -> (r: bool)
    ensures
        r == decimal_digit(c),
{
    if (c as u32) < 128 { '0' <= c && c <= '9' } else { regex_class_match("\\d", c) }
}

/// Whether `c` is a word character (`\w`).
pub fn is_word_char(c: char) -> (r: bool)
    ensures
        r == word_char(c),
{
    if (c as u32) < 128 {
        ('0' <= c && c <= '9') || ('a' <= c && c <= 'z') || ('A' <= c && c <= 'Z') || c == '_'
    } else {
        regex_class_match("\\w", c)
    }
}

} // verus!
