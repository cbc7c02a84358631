//! Character classes used by the lexer.
use vstd::prelude::*;

verus! {

/// Whether a character may appear in an identifier: an ASCII letter or digit, or `_`.
pub open spec fn is_ident_char(c: char) -> bool {
    ('a' <= c && c <= 'z') || ('A' <= c && c <= 'Z') || ('0' <= c && c <= '9') || c == '_'
}

/// Whether a character is an ASCII decimal digit.
pub open spec fn is_ascii_digit(c: char) -> bool {
    '0' <= c && c <= '9'
}

/// What `char::is_numeric` answers for a non-ASCII character: whether its
/// Unicode general category is one of the number categories (Nd, Nl, No).
pub uninterp spec fn unicode_numeric(c: char) -> bool;

/// Whether a character is numeric in the sense of `char::is_numeric`: an ASCII
/// digit, or a non-ASCII character of a Unicode number category.
pub open spec fn is_numeric(c: char) -> bool {
    if c <= '\x7f' {
        is_ascii_digit(c)
    } else {
        unicode_numeric(c)
    }
}

/// `char::is_numeric`. The standard library answers `'0'..='9'` for ASCII
/// characters and looks every other character up in the Unicode tables; the
/// contract states the ASCII part and names the table lookup.
#[verifier::external_body]
pub fn char_is_numeric(c: char) -> (r: bool)
    ensures
        r == is_numeric(c),
        c > '\x7f' ==> r == unicode_numeric(c),
{
    c.is_numeric()
}

/// The conditions under which the lexer keeps eating characters.
#[derive(Clone, Copy, Debug, PartialEq, Eq)]
pub enum CharClass {
    /// Every character but a newline (the rest of a comment).
    NotNewline,
    /// Characters of an identifier.
    Identifier,
    /// Every character but a double quote (the body of a string literal).
    NotQuote,
}

impl CharClass {
    /// Whether a character belongs to the class.
    pub open spec fn contains(self, c: char) -> bool {
        match self {
            CharClass::NotNewline => c != '\n',
            CharClass::Identifier => is_ident_char(c),
            CharClass::NotQuote => c != '"',
        }
    }

    /// Whether a character belongs to the class.
    pub fn test(self, c: char) -> (r: bool)
        ensures
            r == self.contains(c),
    {
        match self {
            CharClass::NotNewline => c != '\n',
            CharClass::Identifier => is_in_identifier(c),
            CharClass::NotQuote => c != '"',
        }
    }
}

/// Check if a character is a part of an identifier.
///
/// Identifiers must start with an alphabetic character or underscore, and then can have
/// alphanumeric characters and underscores.
pub fn is_in_identifier(c: char) -> (r: bool)
    ensures
        r == is_ident_char(c),
{
    ('a' <= c && c <= 'z') || ('A' <= c && c <= 'Z') || ('0' <= c && c <= '9') || c == '_'
}

} // verus!
