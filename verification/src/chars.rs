//! The byte classes the scanner dispatches on. The language is ASCII only,
//! so classes are sets of bytes, not of characters.

use vstd::prelude::*;

verus! {

/// A class of bytes.
pub enum ByteClass {
    /// Newline, tab and space: skipped between tokens.
    Whitespace,
    /// `0` to `9`.
    Digit,
    /// ASCII letters and the underscore: what an identifier may begin with.
    IdentStart,
    /// Identifier-start bytes and digits: what an identifier may go on with.
    Ident,
    /// Space to tilde, but for the quote: what may stand between two quotes.
    SymContent,
}

impl ByteClass {
    /// Whether `c` belongs to the class.
    pub open spec fn has(self, c: u8) -> bool {
        match self {
            ByteClass::Whitespace => c == '\n' as u8 || c == '\t' as u8 || c == ' ' as u8,
            ByteClass::Digit => is_digit_byte(c),
            ByteClass::IdentStart => is_letter_byte(c) || c == '_' as u8,
            ByteClass::Ident => is_letter_byte(c) || c == '_' as u8 || is_digit_byte(c),
            ByteClass::SymContent => c != '\'' as u8 && ' ' as u8 <= c <= '~' as u8,
        }
    }
}

/// `0` to `9`.
pub open spec fn is_digit_byte(c: u8) -> bool {
    '0' as u8 <= c <= '9' as u8
}

/// `a` to `z` and `A` to `Z`.
pub open spec fn is_letter_byte(c: u8) -> bool {
    'a' as u8 <= c <= 'z' as u8 || 'A' as u8 <= c <= 'Z' as u8
}

/// Whether `c` is whitespace.
pub(crate) fn is_whitespace(c: u8) -> (r: bool)
    ensures
        r == ByteClass::Whitespace.has(c),
{
    c == '\n' as u8 || c == '\t' as u8 || c == ' ' as u8
}

/// Whether `c` is a digit.
pub(crate) fn is_digit(c: u8) -> (r: bool)
    ensures
        r == ByteClass::Digit.has(c),
{
    '0' as u8 <= c && c <= '9' as u8
}

/// Whether an identifier may begin with `c`.
pub(crate) fn is_ident_start(c: u8) -> (r: bool)
    ensures
        r == ByteClass::IdentStart.has(c),
{
    ('a' as u8 <= c && c <= 'z' as u8) || ('A' as u8 <= c && c <= 'Z' as u8) || c == '_' as u8
}

/// Whether an identifier may go on with `c`.
pub(crate) fn is_ident(c: u8) -> (r: bool)
    ensures
        r == ByteClass::Ident.has(c),
{
    is_ident_start(c) || is_digit(c)
}

/// Whether `c` may stand between two quotes.
pub(crate) fn is_sym(c: u8) -> (r: bool)
    ensures
        r == ByteClass::SymContent.has(c),
{
    c != '\'' as u8 && ' ' as u8 <= c && c <= '~' as u8
}

} // verus!
