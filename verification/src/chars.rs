//! Character classes that word motions and text objects are built on.

use vstd::prelude::*;

verus! {

/// The class a character belongs to when text is cut into words.
#[derive(Debug, PartialEq, Eq, Copy, Clone, Structural)]
pub enum CharClass {
    Whitespace,
    Punctuation,
    Regular,
}

/// The characters that have the property `White_Space` in the Unicode
/// Character Database.
pub open spec fn white_space(c: char) -> bool {
    ('\u{9}' <= c && c <= '\u{d}') || c == ' ' || c == '\u{85}' || c == '\u{a0}' || c == '\u{1680}' || ('\u{2000}'
        <= c && c <= '\u{200a}') || c == '\u{2028}' || c == '\u{2029}' || c == '\u{202f}' || c == '\u{205f}'
        || c == '\u{3000}'
}

/// The letters and digits of ASCII.
pub open spec fn ascii_alphanumeric(c: char) -> bool {
    ('a' <= c && c <= 'z') || ('A' <= c && c <= 'Z') || ('0' <= c && c <= '9')
}

/// Whether a character beyond ASCII has the Unicode property `Alphabetic`
/// or is in one of the general categories of numbers.
pub uninterp spec fn unicode_alphanumeric(c: char) -> bool;

/// Whether a character is alphabetic or numeric: in ASCII the letters and
/// the digits, beyond it what Unicode says.
pub open spec fn alphanumeric(c: char) -> bool {
    if c <= '\u{7f}' {
        ascii_alphanumeric(c)
    } else {
        unicode_alphanumeric(c)
    }
}

/// `char::is_whitespace` decides the property `White_Space` of the Unicode
/// Character Database, which 25 characters have.
pub assume_specification[ char::is_whitespace ](c: char) -> (b: bool)
    ensures
        b == white_space(c),
;

/// `char::is_alphanumeric` decides whether a character has the property
/// `Alphabetic` or is in a general category of numbers. In ASCII those are
/// the letters and the digits; beyond ASCII the answer is taken as given,
/// under the name [`unicode_alphanumeric`].
pub assume_specification[ char::is_alphanumeric ](c: char) -> (b: bool)
    ensures
        b == alphanumeric(c),
        c > '\u{7f}' ==> b == unicode_alphanumeric(c),
;

/// The five characters of ASCII whitespace: space, tab, line feed, form feed
/// and carriage return.
pub open spec fn ascii_blank(c: char) -> bool {
    c == ' ' || c == '\t' || c == '\n' || c == '\x0C' || c == '\r'
}

/// Whether `c` is ASCII whitespace.
pub fn is_ascii_blank(c: char) -> (b: bool)
    ensures
        b == ascii_blank(c),
{
    c == ' ' || c == '\t' || c == '\n' || c == '\x0C' || c == '\r'
}

/// A character that can stand inside a word: alphanumeric, or `_`.
pub open spec fn word_char(c: char) -> bool {
    alphanumeric(c) || c == '_'
}

/// Whether `c` can stand inside a word.
pub fn is_word_char(c: char) -> (b: bool)
    ensures
        b == word_char(c),
{
    word_by(c.is_alphanumeric(), c)
}

/// The class of a character of which it is known whether it is whitespace
/// and whether it can stand inside a word: whitespace comes first, and what
/// is neither is punctuation.
pub open spec fn class_from(whitespace: bool, word: bool) -> CharClass {
    if whitespace {
        CharClass::Whitespace
    } else if !word {
        CharClass::Punctuation
    } else {
        CharClass::Regular
    }
}

/// The class of a character that is whitespace or not, and can stand
/// inside a word or not.
pub fn class_by(whitespace: bool, word: bool) -> (cc: CharClass)
    ensures
        cc == class_from(whitespace, word),
{
    if whitespace {
        CharClass::Whitespace
    } else if !word {
        CharClass::Punctuation
    } else {
        CharClass::Regular
    }
}

/// Whether a character can stand inside a word, when it is known whether it
/// is alphanumeric.
pub fn word_by(alphanumeric: bool, c: char) -> (b: bool)
    ensures
        b == (alphanumeric || c == '_'),
{
    alphanumeric || c == '_'
}

/// The class of a character: whitespace by either the Unicode or the ASCII
/// rule, else punctuation unless it can stand inside a word.
pub open spec fn class_of(c: char) -> CharClass {
    class_from(white_space(c) || ascii_blank(c), word_char(c))
}

/// The class of a character when punctuation counts as part of a word
/// (`bigword`), or when it does not.
pub open spec fn class_with(c: char, bigword: bool) -> CharClass {
    if bigword && class_of(c) == CharClass::Punctuation {
        CharClass::Regular
    } else {
        class_of(c)
    }
}

/// Classification of a value into a [`CharClass`].
pub trait CharClassify: Sized {
    /// The class as a mathematical function of the value.
    spec fn class_spec(self) -> CharClass;

    /// The class of the value.
    fn class(self) -> (cc: CharClass)
        ensures
            cc == self.class_spec(),
    ;
}

impl CharClassify for char {
    open spec fn class_spec(self) -> CharClass {
        class_of(self)
    }

    fn class(self) -> (cc: CharClass) {
        class_by(self.is_whitespace() || is_ascii_blank(self), is_word_char(self))
    }
}

/// The class of `c`, with punctuation merged into `Regular` when `bigword`
/// is set.
pub fn class(c: char, bigword: bool) -> (cc: CharClass)
    ensures
        cc == class_with(c, bigword),
{
    let cc = c.class();
    if bigword && cc == CharClass::Punctuation {
        CharClass::Regular
    } else {
        cc
    }
}

} // verus!
