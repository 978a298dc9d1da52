//! Character classes of the layout language.
//!
//! Whitespace and alphanumeric characters are whatever the standard library's Unicode tables
//! say they are; the operator and delimiter sets are fixed and spelled out here.

use vstd::prelude::*;

verus! {

/// What `char::is_whitespace` answers for `c`: whether `c` carries the Unicode
/// `White_Space` property. The tables behind it are not modelled.
pub uninterp spec fn unicode_whitespace(c: char) -> bool;

/// What `char::is_alphanumeric` answers for `c`: whether `c` is alphabetic or numeric in
/// the Unicode sense. The tables behind it are not modelled.
pub uninterp spec fn unicode_alphanumeric(c: char) -> bool;

/// Trusted: `char::is_whitespace` is a function of the character alone, and its answer is
/// the one that contracts call `unicode_whitespace`.
pub assume_specification[ char::is_whitespace ](c: char) -> (b: bool)
    ensures
        b == unicode_whitespace(c),
;

/// Trusted: `char::is_alphanumeric` is a function of the character alone, and its answer is
/// the one that contracts call `unicode_alphanumeric`.
pub assume_specification[ char::is_alphanumeric ](c: char) -> (b: bool)
    ensures
        b == unicode_alphanumeric(c),
;

/// The operator characters. `/` is one of them, but where it opens a comment the comment
/// wins.
pub open spec fn is_operator(c: char) -> bool {
    c == '/' || c == '+' || c == '-' || c == '*' || c == '%' || c == '=' || c == '<' || c == '>'
        || c == '!' || c == '&' || c == '|' || c == '^' || c == '~'
}

/// The delimiter characters.
pub open spec fn is_delimiter(c: char) -> bool {
    c == '{' || c == '}' || c == '(' || c == ')' || c == '[' || c == ']' || c == ';'
}

/// The characters an identifier, a keyword or a numeric literal is made of.
pub open spec fn is_word_char(c: char) -> bool {
    unicode_alphanumeric(c) || c == '_'
}

/// No character is both an operator and a delimiter.
pub proof fn lemma_operators_and_delimiters_disjoint(c: char)
    ensures
        !(is_operator(c) && is_delimiter(c)),
{
}

/// Whether `c` can stand in a word.
pub fn word_char(c: char) -> (b: bool)
    ensures
        b == is_word_char(c),
{
    c.is_alphanumeric() || c == '_'
}

} // verus!
