//! Character classes: the coarse kinds of character between which a word
//! boundary can fall.

use vstd::prelude::*;

verus! {

/// Semantic class of a character.
#[derive(Clone, Copy, Debug, PartialEq, Eq, Structural)]
pub enum CharClass {
    White,
    NonWord,
    Delimiter,
    Lower,
    Upper,
    Number,
}

/// What `char::is_lowercase` answers for a character: whether Unicode
/// counts it as lowercase.
pub uninterp spec fn unicode_lowercase(c: char) -> bool;

/// What `char::is_uppercase` answers for a character: whether Unicode
/// counts it as uppercase.
pub uninterp spec fn unicode_uppercase(c: char) -> bool;

/// `char::is_lowercase` looks the character up in the Unicode tables that
/// the standard library carries. Believed, not proved: the answer depends
/// on the character alone. Nothing more is claimed of it.
pub assume_specification[ char::is_lowercase ](c: char) -> (r: bool)
    ensures
        r == unicode_lowercase(c),
;

/// `char::is_uppercase` looks the character up in the Unicode tables that
/// the standard library carries. Believed, not proved: the answer depends
/// on the character alone. Nothing more is claimed of it.
pub assume_specification[ char::is_uppercase ](c: char) -> (r: bool)
    ensures
        r == unicode_uppercase(c),
;

/// Whether `c` lies in the ASCII range.
pub open spec fn is_ascii_char(c: char) -> bool {
    c <= '\u{7f}'
}

/// A lowercase letter: `a` to `z` within ASCII, and beyond ASCII whatever
/// Unicode calls lowercase.
pub open spec fn is_lower(c: char) -> bool {
    if is_ascii_char(c) {
        'a' <= c <= 'z'
    } else {
        unicode_lowercase(c)
    }
}

/// An uppercase letter: `A` to `Z` within ASCII, and beyond ASCII whatever
/// Unicode calls uppercase.
pub open spec fn is_upper(c: char) -> bool {
    if is_ascii_char(c) {
        'A' <= c <= 'Z'
    } else {
        unicode_uppercase(c)
    }
}

/// A decimal digit, `0` to `9`.
pub open spec fn is_digit(c: char) -> bool {
    '0' <= c <= '9'
}

/// One of the six characters that separate fields: `'`, `/`, `,`, `:`, `;`, `|`.
pub open spec fn is_delimiter(c: char) -> bool {
    c == '\'' || c == '/' || c == ',' || c == ':' || c == ';' || c == '|'
}

/// One of the eight blank characters: space, tab, line feed, vertical tab,
/// form feed, carriage return, next line (U+0085), no-break space (U+00A0).
pub open spec fn is_white(c: char) -> bool {
    c == ' ' || c == '\t' || c == '\n' || c == '\u{0B}' || c == '\u{0C}' || c == '\r'
        || c == '\u{85}' || c == '\u{A0}'
}

/// The class of a character. The tests are made in this order, and the
/// first that holds decides; a character that passes none is `NonWord`.
pub open spec fn class_of(c: char) -> CharClass {
    if is_lower(c) {
        CharClass::Lower
    } else if is_upper(c) {
        CharClass::Upper
    } else if is_digit(c) {
        CharClass::Number
    } else if is_delimiter(c) {
        CharClass::Delimiter
    } else if is_white(c) {
        CharClass::White
    } else {
        CharClass::NonWord
    }
}

impl CharClass {
    /// A class that can begin a word: every class but `White` and `NonWord`.
    pub open spec fn is_word(self) -> bool {
        self != CharClass::White && self != CharClass::NonWord
    }
}

/// Whether `c` is a lowercase letter. ASCII is decided here; only beyond it
/// is the standard library asked.
fn lowercase_letter(c: char) -> (r: bool)
    ensures
        r == is_lower(c),
{
    if c <= '\u{7f}' {
        'a' <= c && c <= 'z'
    } else {
        c.is_lowercase()
    }
}

/// Whether `c` is an uppercase letter. ASCII is decided here; only beyond
/// it is the standard library asked.
fn uppercase_letter(c: char) -> (r: bool)
    ensures
        r == is_upper(c),
{
    if c <= '\u{7f}' {
        'A' <= c && c <= 'Z'
    } else {
        c.is_uppercase()
    }
}

/// Classifies one character. Total: every character has exactly one class.
pub fn get_char_type(c: char) -> (class: CharClass)
    ensures
        class == class_of(c),
{
    if lowercase_letter(c) {
        CharClass::Lower
    } else if uppercase_letter(c) {
        CharClass::Upper
    } else if '0' <= c && c <= '9' {
        CharClass::Number
    } else if c == '\'' || c == '/' || c == ',' || c == ':' || c == ';' || c == '|' {
        CharClass::Delimiter
    } else if c == ' ' || c == '\t' || c == '\n' || c == '\u{0B}' || c == '\u{0C}' || c == '\r'
        || c == '\u{85}' || c == '\u{A0}' {
        CharClass::White
    } else {
        CharClass::NonWord
    }
}

/// The class of an ASCII character rests on no Unicode table: it is a
/// letter exactly if it is one of the fifty-two, and a digit, a delimiter
/// or a blank exactly if it is one of those listed.
pub proof fn ascii_class_is_decided(c: char)
    requires
        is_ascii_char(c),
    ensures
        class_of(c) == CharClass::Lower <==> 'a' <= c <= 'z',
        class_of(c) == CharClass::Upper <==> 'A' <= c <= 'Z',
        class_of(c) == CharClass::Number <==> is_digit(c),
        class_of(c) == CharClass::Delimiter <==> is_delimiter(c),
        class_of(c) == CharClass::White <==> is_white(c),
{
}

} // verus!
