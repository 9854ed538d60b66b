//! The text buffer: a rope of characters, seen as a sequence, with its lines.

use vstd::prelude::*;
use ropey::Rope;

verus! {

/// The rope of `ropey`, taken as it is: nothing of its inside is read here.
#[verifier::external_type_specification]
#[verifier::external_body]
pub struct ExRope(ropey::Rope);

/// The characters that a rope holds, in order.
pub uninterp spec fn rope_text(buf: &Rope) -> Seq<char>;

/// The number of lines of a text: one more than the number of line breaks
/// that the rope recognises in it.
pub uninterp spec fn line_count(text: Seq<char>) -> int;

/// The index of the line that holds the character at `char_idx`.
pub uninterp spec fn line_of_char(text: Seq<char>, char_idx: int) -> int;

/// The index of the first character of line `line_idx`.
pub uninterp spec fn line_start(text: Seq<char>, line_idx: int) -> int;

/// The number of characters of line `line_idx`, its line break included: the
/// line runs up to the start of the next.
pub open spec fn line_len(text: Seq<char>, line_idx: int) -> int {
    line_start(text, line_idx + 1) - line_start(text, line_idx)
}

/// `Rope::len_chars` gives the number of characters in the rope.
pub assume_specification[ Rope::len_chars ](buf: &Rope) -> (n: usize)
    ensures
        n == rope_text(buf).len(),
;

/// `Rope::get_char` gives the character at an index, or `None` at and past
/// the end.
pub assume_specification[ Rope::get_char ](buf: &Rope, char_idx: usize) -> (c: Option<char>)
    ensures
        c == (if char_idx < rope_text(buf).len() {
            Some(rope_text(buf)[char_idx as int])
        } else {
            None
        }),
;

/// `Rope::len_lines` gives the number of lines, which is never zero: the
/// count of line breaks plus one.
pub assume_specification[ Rope::len_lines ](buf: &Rope) -> (n: usize)
    ensures
        n == line_count(rope_text(buf)),
        n >= 1,
;

/// `Rope::char_to_line` gives the line of a character index. It panics past
/// the end of the rope; one past the last character is accepted and lies on
/// the last line. The line it names starts at or before the index.
pub assume_specification[ Rope::char_to_line ](buf: &Rope, char_idx: usize) -> (line_idx: usize)
    requires
        char_idx <= rope_text(buf).len(),
    ensures
        line_idx == line_of_char(rope_text(buf), char_idx as int),
        line_idx < line_count(rope_text(buf)),
        line_start(rope_text(buf), line_idx as int) <= char_idx,
;

/// `Rope::line_to_char` gives the index of the first character of a line. It
/// panics past `len_lines()`; at `len_lines()` itself it gives the length of
/// the rope.
pub assume_specification[ Rope::line_to_char ](buf: &Rope, line_idx: usize) -> (char_idx: usize)
    requires
        line_idx <= line_count(rope_text(buf)),
    ensures
        char_idx == line_start(rope_text(buf), line_idx as int),
        char_idx <= rope_text(buf).len(),
        line_idx == line_count(rope_text(buf)) ==> char_idx == rope_text(buf).len(),
;

/// `Rope::new` makes an empty rope.
pub assume_specification[ Rope::new ]() -> (buf: Rope)
    ensures
        rope_text(&buf) == Seq::<char>::empty(),
;

/// `Rope::from_str` makes a rope that holds the characters of a string.
pub assume_specification[ Rope::from_str ](text: &str) -> (buf: Rope)
    ensures
        rope_text(&buf) == text@,
;

/// `Rope::insert_char` puts a character in at an index, which becomes the
/// character's own. It panics at an index past the end.
pub assume_specification[ Rope::insert_char ](buf: &mut Rope, char_idx: usize, ch: char)
    requires
        char_idx <= rope_text(old(buf)).len(),
    ensures
        rope_text(final(buf)) == rope_text(old(buf)).insert(char_idx as int, ch),
;

/// `Rope::insert` puts the characters of a string in at an index. It
/// panics at an index past the end.
pub assume_specification[ Rope::insert ](buf: &mut Rope, char_idx: usize, text: &str)
    requires
        char_idx <= rope_text(old(buf)).len(),
    ensures
        rope_text(final(buf)) == rope_text(old(buf)).subrange(0, char_idx as int) + text@ + rope_text(
            old(buf),
        ).subrange(char_idx as int, rope_text(old(buf)).len() as int),
;

/// `Rope::remove` on the range from `start` up to, not including, `end`:
/// the characters before the range and those after it are left, in their
/// order. It panics on a range that runs backwards or past the end.
#[verifier::external_body]
pub(crate) fn remove_range(buf: &mut Rope, start: usize, end: usize)
    requires
        start <= end <= rope_text(old(buf)).len(),
    ensures
        rope_text(final(buf)) == rope_text(old(buf)).subrange(0, start as int) + rope_text(old(buf)).subrange(
            end as int,
            rope_text(old(buf)).len() as int,
        ),
{
    buf.remove(start..end)
}

/// `Rope::slice` on the range from `start` up to, not including, `end`,
/// turned into a `String`: the characters of the range. `Rope::slice`
/// panics on a range that runs backwards or past the end.
#[verifier::external_body]
pub(crate) fn slice_to_string(buf: &Rope, start: usize, end: usize) -> (s: String)
    requires
        start <= end <= rope_text(buf).len(),
    ensures
        s@ == rope_text(buf).subrange(start as int, end as int),
{
    String::from(buf.slice(start..end))
}

/// `String::from` on a rope: the characters that the rope holds.
#[verifier::external_body]
pub(crate) fn rope_to_string(buf: &Rope) -> (s: String)
    ensures
        s@ == rope_text(buf),
{
    String::from(buf)
}

/// `Rope::line` followed by `RopeSlice::len_chars`: the number of characters
/// of a line, which is the slice of the rope from the line's start to the
/// start of the next line. `Rope::line` panics from `len_lines()` on.
#[verifier::external_body]
pub(crate) fn line_len_chars(buf: &Rope, line_idx: usize) -> (n: usize)
    requires
        line_idx < line_count(rope_text(buf)),
    ensures
        n == line_len(rope_text(buf), line_idx as int),
        line_start(rope_text(buf), line_idx as int) + n <= rope_text(buf).len(),
{
    buf.line(line_idx).len_chars()
}

} // verus!
