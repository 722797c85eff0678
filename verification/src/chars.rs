//! Character classes of the language, and the facts about characters that
//! the tokenizer relies on.

use vstd::prelude::*;

verus! {

/// Whether a character beyond the ASCII range has the Unicode `Alphabetic`
/// property: what `char::is_alphabetic` returns for it. The tables of
/// Unicode are not written out here.
pub uninterp spec fn unicode_alphabetic(c: char) -> bool;

/// Whether a character beyond the ASCII range belongs to one of the Unicode
/// general categories for numbers: what `char::is_numeric` returns for it.
/// The tables of Unicode are not written out here.
pub uninterp spec fn unicode_numeric(c: char) -> bool;

/// A character of the ASCII range.
pub open spec fn ascii(c: char) -> bool {
    c <= '\x7f'
}

/// An ASCII letter, small or capital.
pub open spec fn ascii_letter(c: char) -> bool {
    ('a' <= c && c <= 'z') || ('A' <= c && c <= 'Z')
}

/// An ASCII decimal digit.
pub open spec fn digit(c: char) -> bool {
    '0' <= c && c <= '9'
}

/// Alphabetic in the sense of Unicode; within ASCII these are the letters.
pub open spec fn alphabetic(c: char) -> bool {
    if ascii(c) {
        ascii_letter(c)
    } else {
        unicode_alphabetic(c)
    }
}

/// Numeric in the sense of Unicode; within ASCII these are the digits.
pub open spec fn numeric(c: char) -> bool {
    if ascii(c) {
        digit(c)
    } else {
        unicode_numeric(c)
    }
}

/// The characters skipped between tokens: space, tab, line feed and
/// carriage return.
pub open spec fn whitespace(c: char) -> bool {
    c == ' ' || c == '\t' || c == '\n' || c == '\r'
}

/// The three characters that open, and then close, a string literal.
pub open spec fn quote(c: char) -> bool {
    c == '"' || c == '\'' || c == '`'
}

/// A character that may begin an identifier or a declarator.
pub open spec fn word_start(c: char) -> bool {
    alphabetic(c) || c == '_'
}

/// A character that may continue an identifier or a declarator.
pub open spec fn word_part(c: char) -> bool {
    alphabetic(c) || numeric(c) || c == '_'
}

/// A character that may continue a number.
pub open spec fn number_part(c: char) -> bool {
    digit(c) || c == '.' || c == '_'
}

/// The classes of characters of which the tokenizer consumes maximal runs.
pub ghost enum CharClass {
    Whitespace,
    NumberPart,
    WordPart,
}

impl CharClass {
    pub open spec fn holds(self, c: char) -> bool {
        match self {
            CharClass::Whitespace => whitespace(c),
            CharClass::NumberPart => number_part(c),
            CharClass::WordPart => word_part(c),
        }
    }
}

/// Assumed of `char::is_alphabetic` of the standard library, which tells
/// whether a character has the Unicode `Alphabetic` property: within ASCII
/// it holds of the letters `a` to `z` and `A` to `Z` and of nothing else;
/// beyond ASCII it depends on the character alone, and is named
/// [`unicode_alphabetic`].
pub assume_specification[ char::is_alphabetic ](c: char) -> (b: bool)
    ensures
        b == (if ascii(c) {
            ascii_letter(c)
        } else {
            unicode_alphabetic(c)
        }),
;

/// Assumed of `char::is_numeric` of the standard library, which tells
/// whether a character belongs to one of the Unicode general categories for
/// numbers: within ASCII it holds of the digits `0` to `9` and of nothing
/// else; beyond ASCII it depends on the character alone, and is named
/// [`unicode_numeric`].
pub assume_specification[ char::is_numeric ](c: char) -> (b: bool)
    ensures
        b == (if ascii(c) {
            digit(c)
        } else {
            unicode_numeric(c)
        }),
;

/// Assumed of `String::push` of the standard library: it appends the
/// character to the end of the string and changes nothing else.
pub assume_specification[ String::push ](s: &mut String, ch: char)
    ensures
        final(s)@ == old(s)@.push(ch),
;

pub fn is_digit(c: char) -> (b: bool)
    ensures
        b == digit(c),
{
    '0' <= c && c <= '9'
}

pub fn is_whitespace(c: char) -> (b: bool)
    ensures
        b == whitespace(c),
{
    c == ' ' || c == '\t' || c == '\n' || c == '\r'
}

pub fn is_quote(c: char) -> (b: bool)
    ensures
        b == quote(c),
{
    c == '"' || c == '\'' || c == '`'
}

pub fn is_word_start(c: char) -> (b: bool)
    ensures
        b == word_start(c),
{
    c.is_alphabetic() || c == '_'
}

pub fn is_word_part(c: char) -> (b: bool)
    ensures
        b == word_part(c),
{
    c.is_alphabetic() || c.is_numeric() || c == '_'
}

pub fn is_number_part(c: char) -> (b: bool)
    ensures
        b == number_part(c),
{
    is_digit(c) || c == '.' || c == '_'
}

} // verus!
