use vstd::prelude::*;

verus! {

/// An ASCII decimal digit.
pub open spec fn is_digit(c: char) -> bool {
    '0' <= c <= '9'
}

/// A character of the ASCII range.
pub open spec fn is_ascii(c: char) -> bool {
    c <= '\x7f'
}

/// Space, carriage return, tab or newline: what separates tokens.
pub open spec fn is_blank(c: char) -> bool {
    c == ' ' || c == '\r' || c == '\t' || c == '\n'
}

/// Whether `c` is a letter or a numeral of any script: what
/// `char::is_alphanumeric` answers for it.
pub uninterp spec fn alphanumeric(c: char) -> bool;

/// `char::is_alphanumeric` is taken to be a function of the character alone;
/// `alphanumeric` is the name of its answer, and nothing more is claimed of it.
pub assume_specification[ char::is_alphanumeric ](c: char) -> (r: bool)
    ensures
        r == alphanumeric(c),
;

/// Whether `c` is an ASCII decimal digit.
pub fn is_ascii_digit(c: char) -> (digit: bool)
    ensures
        digit == is_digit(c),
{
    '0' <= c && c <= '9'
}

/// Whether `c` lies in the ASCII range.
pub fn is_ascii_char(c: char) -> (ascii: bool)
    ensures
        ascii == is_ascii(c),
{
    c <= '\x7f'
}

} // verus!
