//! The Unicode character classes `\w` and `\d` of the `regex` crate, and its
//! case-insensitive matching of a letter.
use vstd::prelude::*;

verus! {

/// Membership of `c` in the class `\w` (word character) of the `regex` crate.
pub uninterp spec fn regex_word_char(c: char) -> bool;

/// Membership of `c` in the class `\d` (`\p{Nd}`) of the `regex` crate.
pub uninterp spec fn regex_digit_char(c: char) -> bool;

/// Whether `c` matches the lower-case ASCII letter `l` in a case-insensitive (`(?i)`)
/// pattern of the `regex` crate.
pub uninterp spec fn regex_ci_match(c: char, l: char) -> bool;

/// Membership of `c` in `\w`: on ASCII the documented class (letters, digits and `_`),
/// elsewhere as the `regex` crate's Unicode tables have it.
pub open spec fn word_char(c: char) -> bool {
    if (c as u32) < 128 {
        ('a' <= c && c <= 'z') || ('A' <= c && c <= 'Z') || ('0' <= c && c <= '9') || c == '_'
    } else {
        regex_word_char(c)
    }
}

/// Membership of `c` in `\d`: on ASCII the documented class (`0` to `9`), elsewhere as the
/// `regex` crate's Unicode tables have it.
pub open spec fn digit_char(c: char) -> bool {
    if (c as u32) < 128 {
        '0' <= c && c <= '9'
    } else {
        regex_digit_char(c)
    }
}

/// Asks `regex::Regex::is_match` whether the one-character text `c` matches `\w`.
/// The answer is a function of `c`; on ASCII it is the documented class: letters, digits
/// and `_`.
#[verifier::external_body]
pub(crate) fn is_word_char(c: char) -> (r: bool)
    ensures
        r == regex_word_char(c),
        r == word_char(c),
{
    regex::Regex::new(r"^\w$").unwrap().is_match(&c.to_string())
}

/// Asks `regex::Regex::is_match` whether the one-character text `c` matches `\d`.
/// The answer is a function of `c`; on ASCII it is the documented class: `0` to `9`.
#[verifier::external_body]
pub(crate) fn is_digit_char(c: char) -> (r: bool)
    ensures
        r == regex_digit_char(c),
        r == digit_char(c),
{
    regex::Regex::new(r"^\d$").unwrap().is_match(&c.to_string())
}

/// Asks `regex::Regex::is_match` whether the one-character text `c` matches the pattern
/// `(?i)^l$` for the lower-case ASCII letter `l`. The answer is named, not stated: the
/// Unicode case folding behind it is not restated here.
#[verifier::external_body]
pub(crate) fn matches_ignoring_case(c: char, l: char) -> (r: bool)
    requires
        'a' <= l <= 'z',
    ensures
        r == regex_ci_match(c, l),
{
    regex::Regex::new(&format!("(?i)^{}$", l)).unwrap().is_match(&c.to_string())
}

} // verus!
