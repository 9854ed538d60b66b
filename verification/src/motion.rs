//! Motions: cursor movements and text objects, each resolved against a
//! buffer into a pair of character indices.

use vstd::prelude::*;
use std::ops::Range;
use ropey::Rope;
use crate::buffer::{rope_text, line_count, line_of_char, line_start, line_len, line_len_chars};
use crate::chars::{CharClass, class, class_with};
use crate::scan::{CharTest, Direction, find_toward, skip_forward, skip_backward, dir_index_of, run_end, run_start, lemma_find_forward, lemma_find_backward};
use crate::text_object::{Span, MotionError, TextObject, span_of, is_outcome, object_span};

verus! {

/// The kinds of motion.
#[derive(Debug, PartialEq, Eq, Copy, Clone, Structural)]
pub enum MotionType {
    Char(Direction),
    Word(Direction),
    BigWord(Direction),
    EndOfWord(Direction),
    EndOfBigWord(Direction),
    /// To the next occurrence of `c`, or to just before it.
    NextChar { c: char, place_before: bool, direction: Direction },
    /// The last `NextChar` search again, the other way with `opposite`.
    RepeatNextChar { opposite: bool },
    WholeLine,
    Line(Direction),
    StartOfLine,
    EndOfLine,
    Paragraph,
    An(TextObject),
    Inner(TextObject),
    NextSearchMatch(Direction),
    /// A range that is already known, handed through as it is.
    Passthrough(usize, usize),
}

/// A motion and the number of times it is to be made.
#[derive(Debug, PartialEq, Eq, Copy, Clone, Structural)]
pub struct Motion {
    pub count: usize,
    pub mo: MotionType,
}

/// The last character search of an editing session: the character, whether
/// the cursor stops before it, and the direction.
pub type CharQuery = (char, bool, Direction);

impl MotionType {
    /// Whether the end of the motion's range is itself part of what the
    /// motion covers.
    pub open spec fn is_inclusive(self) -> bool {
        self is NextChar || self is RepeatNextChar || self is An || self is Inner
            || self is Passthrough || self is EndOfLine
    }

    /// Whether the motion has no resolution, whatever the buffer: the
    /// motions and text objects that the grammar knows and nothing resolves,
    /// and a block object whose character is no opening delimiter.
    pub open spec fn is_unsupported(self) -> bool {
        match self {
            MotionType::Paragraph => true,
            MotionType::NextSearchMatch(_) => true,
            MotionType::An(obj) => obj.is_unsupported(),
            MotionType::Inner(obj) => obj.is_unsupported(),
            _ => false,
        }
    }

    /// Whether the motion's range starts at the cursor: the motions that
    /// move the cursor, but for `WholeLine`.
    pub open spec fn keeps_start(self) -> bool {
        (is_stepped(self) || self is RepeatNextChar) && !(self is WholeLine)
    }

    /// Whether the motion moves the cursor and leaves the start of its
    /// range at the place the cursor was.
    pub fn moves_cursor(&self) -> (b: bool)
        ensures
            b == self.keeps_start(),
    {
        match self {
            MotionType::Char(_) | MotionType::Word(_) | MotionType::BigWord(_) => true,
            MotionType::EndOfWord(_) | MotionType::EndOfBigWord(_) => true,
            MotionType::NextChar { .. } | MotionType::RepeatNextChar { .. } => true,
            MotionType::Line(_) | MotionType::StartOfLine | MotionType::EndOfLine => true,
            _ => false,
        }
    }

    /// Whether the motion's range end already names the last character it
    /// covers, so that a caller must not step past it.
    pub fn inclusive(&self) -> (b: bool)
        ensures
            b == self.is_inclusive(),
    {
        match self {
            MotionType::NextChar { .. } | MotionType::RepeatNextChar { .. } => true,
            MotionType::An(_) | MotionType::Inner(_) => true,
            MotionType::Passthrough(_, _) => true,
            MotionType::EndOfLine => true,
            _ => false,
        }
    }
}

/// One character forward or backward, kept within the text.
pub open spec fn char_step(text: Seq<char>, e: int, dir: Direction) -> int {
    match dir {
        Direction::Forward => if e + 1 <= text.len() {
            e + 1
        } else {
            text.len() as int
        },
        Direction::Backward => if e >= 1 {
            e - 1
        } else {
            0
        },
    }
}

/// The line that a line motion goes to from line `cur` of `lines` lines:
/// the next or the previous one, or `cur` itself where there is none.
pub open spec fn neighbour(cur: int, lines: int, dir: Direction) -> int {
    match dir {
        Direction::Forward => if cur + 1 < lines {
            cur + 1
        } else {
            cur
        },
        Direction::Backward => if cur >= 1 {
            cur - 1
        } else {
            0
        },
    }
}

/// The index at `column` of a line that starts at `first` and has `len`
/// characters, or the index past the line where it is shorter.
pub open spec fn at_column(first: int, len: int, column: int) -> int {
    first + if column <= len {
        column
    } else {
        len
    }
}

/// The index of the last character of a line that starts at `first` and
/// has `len` characters; 0 where the line is empty at the start of the text.
pub open spec fn last_of_line(first: int, len: int) -> int {
    if first + len >= 1 {
        first + len - 1
    } else {
        0
    }
}

/// The lesser of two indices.
pub open spec fn lesser(a: int, b: int) -> int {
    if a <= b {
        a
    } else {
        b
    }
}

/// The line that a line motion goes to: see [`neighbour`].
pub fn neighbour_line(cur: usize, lines: usize, dir: Direction) -> (r: usize)
    requires
        cur < lines,
    ensures
        r == neighbour(cur as int, lines as int, dir),
        r < lines,
{
    match dir {
        Direction::Forward => if cur + 1 < lines {
            cur + 1
        } else {
            cur
        },
        Direction::Backward => if cur >= 1 {
            cur - 1
        } else {
            0
        },
    }
}

/// The index at a column of a line: see [`at_column`].
pub fn index_at_column(first: usize, len: usize, column: usize) -> (r: usize)
    requires
        first + len <= usize::MAX,
    ensures
        r == at_column(first as int, len as int, column as int),
        first <= r <= first + len,
{
    if column <= len {
        first + column
    } else {
        first + len
    }
}

/// The index of the last character of a line: see [`last_of_line`].
pub fn last_index_of_line(first: usize, len: usize) -> (r: usize)
    requires
        first + len <= usize::MAX,
    ensures
        r == last_of_line(first as int, len as int),
        r <= first + len,
{
    if first + len >= 1 {
        first + len - 1
    } else {
        0
    }
}

/// To the neighbouring line, at the same column where that line is long
/// enough, else at its end.
pub open spec fn line_step(text: Seq<char>, e: int, dir: Direction) -> int {
    let cur = line_of_char(text, e);
    let target = neighbour(cur, line_count(text), dir);
    at_column(line_start(text, target), line_len(text, target), e - line_start(text, cur))
}

/// To the first character of the line that is not whitespace, or to the end
/// of the line if it has none.
pub open spec fn start_of_line(text: Seq<char>, e: int) -> int {
    let cur = line_of_char(text, e);
    let first = line_start(text, cur);
    lesser(skip_forward(text, CharTest::InClass(CharClass::Whitespace, false), first), first + line_len(text, cur))
}

/// To the last character of the line, its line break if it has one.
pub open spec fn end_of_line(text: Seq<char>, e: int) -> int {
    let cur = line_of_char(text, e);
    last_of_line(line_start(text, cur), line_len(text, cur))
}

/// To the start of the next word: past the rest of the run of one class
/// that the cursor is in, unless that is whitespace, and then past any
/// whitespace. With `bigword` punctuation counts as part of a word. Where
/// the text ends in that whitespace, the cursor lands on its first
/// character; where it ends with the run, or the cursor is past the text,
/// the cursor stays.
pub open spec fn word_forward(text: Seq<char>, e: int, bigword: bool) -> int {
    if e < 0 || e >= text.len() {
        e
    } else {
        let sc = class_with(text[e], bigword);
        let run_end = if sc == CharClass::Whitespace {
            e
        } else {
            skip_forward(text, CharTest::InClass(sc, bigword), e)
        };
        let next = skip_forward(text, CharTest::InClass(CharClass::Whitespace, bigword), run_end);
        if next < text.len() {
            next
        } else if run_end < text.len() {
            run_end
        } else {
            e
        }
    }
}

/// To the start of the word before the cursor: leftwards past any
/// whitespace, and then to the start of the run of one class that ends
/// there; index 0 where there is only whitespace before the cursor.
pub open spec fn word_backward(text: Seq<char>, e: int, bigword: bool) -> int {
    if 0 < e <= text.len() {
        let word_end = skip_backward(text, CharTest::InClass(CharClass::Whitespace, bigword), e);
        if word_end > 0 {
            skip_backward(text, CharTest::InClass(class_with(text[word_end - 1], bigword), bigword), word_end)
        } else {
            0
        }
    } else {
        0
    }
}

/// To the start of the next or of the previous word.
pub open spec fn word_step(text: Seq<char>, e: int, dir: Direction, bigword: bool) -> int {
    match dir {
        Direction::Forward => word_forward(text, e, bigword),
        Direction::Backward => word_backward(text, e, bigword),
    }
}

/// Forward to the last character of a word: of the word under the cursor
/// if the cursor is inside it, else of the next one after any whitespace.
/// Past the text the cursor stays.
pub open spec fn end_of_word_forward(text: Seq<char>, e: int, bigword: bool) -> int {
    if e < 0 || e >= text.len() {
        e
    } else {
        let sc = class_with(text[e], bigword);
        let past = if sc != CharClass::Whitespace && e + 1 < text.len() && class_with(text[e + 1], bigword)
            == sc {
            skip_forward(text, CharTest::InClass(sc, bigword), e + 1)
        } else {
            let gap_end = skip_forward(text, CharTest::InClass(CharClass::Whitespace, bigword), e + 1);
            if gap_end < text.len() {
                skip_forward(text, CharTest::InClass(class_with(text[gap_end], bigword), bigword), gap_end)
            } else {
                gap_end
            }
        };
        past - 1
    }
}

/// Backward to the last character of the word before the one under the
/// cursor: leftwards over the cursor's own run, unless it is whitespace,
/// then over whitespace.
pub open spec fn end_of_word_backward(text: Seq<char>, e: int, bigword: bool) -> int {
    if e <= 0 || text.len() == 0 {
        0
    } else {
        let on = if e < text.len() {
            e
        } else {
            text.len() - 1
        };
        let sc = class_with(text[on], bigword);
        let word_start = if sc != CharClass::Whitespace {
            skip_backward(text, CharTest::InClass(sc, bigword), on)
        } else {
            on
        };
        let gap_start = skip_backward(text, CharTest::InClass(CharClass::Whitespace, bigword), word_start);
        if gap_start >= 1 {
            gap_start - 1
        } else {
            0
        }
    }
}

/// To the last character of a word, in either direction.
pub open spec fn end_of_word(text: Seq<char>, e: int, dir: Direction, bigword: bool) -> int {
    match dir {
        Direction::Forward => end_of_word_forward(text, e, bigword),
        Direction::Backward => end_of_word_backward(text, e, bigword),
    }
}

/// To the next `c` after the cursor, or to the last one before it. With
/// `place_before` the cursor stops one short of the match, on the side it
/// came from. Where there is no match the cursor stays.
pub open spec fn next_char(text: Seq<char>, e: int, c: char, place_before: bool, dir: Direction) -> int {
    match find_toward(text, CharTest::Is(c), search_start(e, dir), dir) {
        Some(i) => if place_before {
            short_of(i, dir)
        } else {
            i
        },
        None => e,
    }
}

/// Where a search from the cursor starts: forward one past the cursor,
/// backward at the cursor, so that it looks at the character before it
/// first.
pub open spec fn search_start(e: int, dir: Direction) -> int {
    match dir {
        Direction::Forward => e + 1,
        Direction::Backward => e,
    }
}

/// The index one short of `i` for a walk in the given direction.
pub open spec fn short_of(i: int, dir: Direction) -> int {
    match dir {
        Direction::Forward => i - 1,
        Direction::Backward => i + 1,
    }
}

/// The empty span at an index.
pub open spec fn at(cursor: int) -> Span {
    Span { start: cursor, end: cursor }
}

/// One step of a motion that is resolved by stepping: the span after it,
/// from the span before. Every such motion but `WholeLine` keeps the start
/// and moves the end, from the end.
pub open spec fn step(text: Seq<char>, mo: MotionType, s: Span) -> Span {
    match mo {
        MotionType::Char(dir) => Span { start: s.start, end: char_step(text, s.end, dir) },
        MotionType::Line(dir) => Span { start: s.start, end: line_step(text, s.end, dir) },
        MotionType::StartOfLine => Span { start: s.start, end: start_of_line(text, s.end) },
        MotionType::EndOfLine => Span { start: s.start, end: end_of_line(text, s.end) },
        MotionType::Word(dir) => Span { start: s.start, end: word_step(text, s.end, dir, false) },
        MotionType::BigWord(dir) => Span { start: s.start, end: word_step(text, s.end, dir, true) },
        MotionType::EndOfWord(dir) => Span { start: s.start, end: end_of_word(text, s.end, dir, false) },
        MotionType::EndOfBigWord(dir) => Span { start: s.start, end: end_of_word(text, s.end, dir, true) },
        MotionType::NextChar { c, place_before, direction } => Span {
            start: s.start,
            end: next_char(text, s.end, c, place_before, direction),
        },
        MotionType::WholeLine => {
            let cur = line_of_char(text, s.end);
            Span { start: line_start(text, cur), end: line_start(text, cur) + line_len(text, cur) }
        },
        _ => s,
    }
}

/// The span after `n` steps of a motion, each taken from where the one
/// before ended.
pub open spec fn repeated(text: Seq<char>, mo: MotionType, n: nat, s: Span) -> Span
    decreases n,
{
    if n == 0 {
        s
    } else {
        step(text, mo, repeated(text, mo, (n - 1) as nat, s))
    }
}

/// The search that `RepeatNextChar` makes from the last one.
pub open spec fn replayed(q: CharQuery, opposite: bool) -> MotionType {
    MotionType::NextChar {
        c: q.0,
        place_before: q.1,
        direction: if opposite {
            q.2.reversed()
        } else {
            q.2
        },
    }
}

/// What a motion resolves to at `cursor` when it is made `total` times.
///
/// A known range is handed through and a text object is resolved as a
/// whole; `Paragraph` and `NextSearchMatch` have no resolution. A repeated
/// search replays the last one, and does nothing when there was none. Every
/// other motion is stepped `total` times from the empty span at the cursor.
pub open spec fn resolve(
    text: Seq<char>,
    m: MotionType,
    cursor: int,
    total: nat,
    last: Option<CharQuery>,
) -> Result<Span, MotionError> {
    let at_cursor = at(cursor);
    match m {
        MotionType::Passthrough(s, e) => Ok(Span { start: s as int, end: e as int }),
        MotionType::An(obj) => object_span(text, obj, cursor, total, true),
        MotionType::Inner(obj) => object_span(text, obj, cursor, total, false),
        MotionType::Paragraph => Err(MotionError::Unsupported),
        MotionType::NextSearchMatch(_) => Err(MotionError::Unsupported),
        MotionType::RepeatNextChar { opposite } => match last {
            Some(q) => Ok(repeated(text, replayed(q, opposite), total, at_cursor)),
            None => Ok(at_cursor),
        },
        _ => Ok(repeated(text, m, total, at_cursor)),
    }
}

/// The last character search on record after a motion has been resolved
/// `total` times: a search that was made at least once is recorded, in the
/// direction in which it was made, and no other motion touches the record.
pub open spec fn query_after(m: MotionType, total: nat, last: Option<CharQuery>) -> Option<CharQuery> {
    if total == 0 {
        last
    } else {
        match m {
            MotionType::NextChar { c, place_before, direction } => Some((c, place_before, direction)),
            MotionType::RepeatNextChar { opposite } => match last {
                Some(q) => Some(
                    (
                        q.0,
                        q.1,
                        if opposite {
                            q.2.reversed()
                        } else {
                            q.2
                        },
                    ),
                ),
                None => None,
            },
            _ => last,
        }
    }
}

/// Whether a motion is resolved by repeated steps.
pub open spec fn is_stepped(mo: MotionType) -> bool {
    mo is Char || mo is Line || mo is StartOfLine || mo is EndOfLine || mo is Word || mo is BigWord
        || mo is EndOfWord || mo is EndOfBigWord || mo is NextChar || mo is WholeLine
}

fn word_forward_step(buf: &Rope, e: usize, bigword: bool) -> (r: usize)
    requires
        e <= rope_text(buf).len(),
    ensures
        r == word_forward(rope_text(buf), e as int, bigword),
        e <= r <= rope_text(buf).len(),
{
    let n: usize = buf.len_chars();
    match buf.get_char(e) {
        None => e,
        Some(c) => {
            let sc = class(c, bigword);
            let run: usize = if sc == CharClass::Whitespace {
                e
            } else {
                run_end(buf, CharTest::InClass(sc, bigword), e)
            };
            let next: usize = run_end(buf, CharTest::InClass(CharClass::Whitespace, bigword), run);
            if next < n {
                next
            } else if run < n {
                run
            } else {
                e
            }
        },
    }
}

fn word_backward_step(buf: &Rope, e: usize, bigword: bool) -> (r: usize)
    requires
        e <= rope_text(buf).len(),
    ensures
        r == word_backward(rope_text(buf), e as int, bigword),
        r <= e,
{
    if e == 0 {
        return 0;
    }
    let word_end: usize = run_start(buf, CharTest::InClass(CharClass::Whitespace, bigword), e);
    if word_end == 0 {
        return 0;
    }
    match buf.get_char(word_end - 1) {
        Some(c) => run_start(buf, CharTest::InClass(class(c, bigword), bigword), word_end),
        None => vstd::pervasive::unreached(),
    }
}

fn end_of_word_forward_step(buf: &Rope, e: usize, bigword: bool) -> (r: usize)
    requires
        e <= rope_text(buf).len(),
    ensures
        r == end_of_word_forward(rope_text(buf), e as int, bigword),
        r <= rope_text(buf).len(),
{
    let n: usize = buf.len_chars();
    match buf.get_char(e) {
        None => e,
        Some(ch) => {
            let sc = class(ch, bigword);
            let same_next = match buf.get_char(e + 1) {
                Some(x) => class(x, bigword) == sc,
                None => false,
            };
            let past: usize = if sc != CharClass::Whitespace && same_next {
                run_end(buf, CharTest::InClass(sc, bigword), e + 1)
            } else {
                let gap_end: usize = run_end(buf, CharTest::InClass(CharClass::Whitespace, bigword), e + 1);
                match buf.get_char(gap_end) {
                    Some(x) => run_end(buf, CharTest::InClass(class(x, bigword), bigword), gap_end),
                    None => gap_end,
                }
            };
            past - 1
        },
    }
}

fn end_of_word_backward_step(buf: &Rope, e: usize, bigword: bool) -> (r: usize)
    requires
        e <= rope_text(buf).len(),
    ensures
        r == end_of_word_backward(rope_text(buf), e as int, bigword),
        r <= e,
{
    let n: usize = buf.len_chars();
    if e == 0 || n == 0 {
        return 0;
    }
    let on: usize = if e < n {
        e
    } else {
        n - 1
    };
    let sc = match buf.get_char(on) {
        Some(c) => class(c, bigword),
        None => vstd::pervasive::unreached(),
    };
    let word_start: usize = if sc != CharClass::Whitespace {
        run_start(buf, CharTest::InClass(sc, bigword), on)
    } else {
        on
    };
    let gap_start: usize = run_start(buf, CharTest::InClass(CharClass::Whitespace, bigword), word_start);
    if gap_start >= 1 {
        gap_start - 1
    } else {
        0
    }
}

fn next_char_step(buf: &Rope, e: usize, c: char, place_before: bool, dir: Direction) -> (r: usize)
    requires
        e <= rope_text(buf).len(),
    ensures
        r == next_char(rope_text(buf), e as int, c, place_before, dir),
        r <= rope_text(buf).len(),
        dir == Direction::Forward ==> r >= e,
        dir == Direction::Backward ==> r <= e,
{
    let ghost text = rope_text(buf);
    let n: usize = buf.len_chars();
    let start: usize = match dir {
        Direction::Forward => {
            if e >= n {
                return e;
            }
            e + 1
        },
        Direction::Backward => e,
    };
    proof {
        lemma_find_forward(text, CharTest::Is(c), start as int);
        lemma_find_backward(text, CharTest::Is(c), e as int);
    }
    match dir_index_of(buf, CharTest::Is(c), start, dir) {
        Some(i) => if place_before {
            match dir {
                Direction::Forward => i - 1,
                Direction::Backward => i + 1,
            }
        } else {
            i
        },
        None => e,
    }
}

fn line_step_to(buf: &Rope, e: usize, dir: Direction) -> (r: usize)
    requires
        e <= rope_text(buf).len(),
    ensures
        r == line_step(rope_text(buf), e as int, dir),
        r <= rope_text(buf).len(),
{
    let n: usize = buf.len_chars();
    let cur: usize = buf.char_to_line(e);
    let target: usize = neighbour_line(cur, buf.len_lines(), dir);
    let cur_start: usize = buf.line_to_char(cur);
    let target_start: usize = buf.line_to_char(target);
    let target_len: usize = line_len_chars(buf, target);
    index_at_column(target_start, target_len, e - cur_start)
}

/// The start of the line of `e` and the number of its characters.
fn line_extent(buf: &Rope, e: usize) -> (r: (usize, usize))
    requires
        e <= rope_text(buf).len(),
    ensures
        r.0 == line_start(rope_text(buf), line_of_char(rope_text(buf), e as int)),
        r.1 == line_len(rope_text(buf), line_of_char(rope_text(buf), e as int)),
        r.0 <= e,
        r.0 + r.1 <= rope_text(buf).len() <= usize::MAX,
{
    let n: usize = buf.len_chars();
    let cur: usize = buf.char_to_line(e);
    let first: usize = buf.line_to_char(cur);
    let len: usize = line_len_chars(buf, cur);
    (first, len)
}

fn start_of_line_step(buf: &Rope, e: usize) -> (r: usize)
    requires
        e <= rope_text(buf).len(),
    ensures
        r == start_of_line(rope_text(buf), e as int),
        r <= rope_text(buf).len(),
{
    let (first, len) = line_extent(buf, e);
    let s: usize = run_end(buf, CharTest::InClass(CharClass::Whitespace, false), first);
    if s <= first + len {
        s
    } else {
        first + len
    }
}

fn end_of_line_step(buf: &Rope, e: usize) -> (r: usize)
    requires
        e <= rope_text(buf).len(),
    ensures
        r == end_of_line(rope_text(buf), e as int),
        r <= rope_text(buf).len(),
{
    let (first, len) = line_extent(buf, e);
    last_index_of_line(first, len)
}

/// Takes one step of a stepped motion.
fn step_once(buf: &Rope, mo: &MotionType, start: usize, end: usize) -> (r: (usize, usize))
    requires
        end <= rope_text(buf).len(),
        is_stepped(*mo),
    ensures
        step(rope_text(buf), *mo, (Span { start: start as int, end: end as int })) == (Span {
            start: r.0 as int,
            end: r.1 as int,
        }),
        r.1 <= rope_text(buf).len(),
        !(mo is WholeLine) ==> r.0 == start,
{
    let n: usize = buf.len_chars();
    match mo {
        MotionType::Char(Direction::Forward) => (
            start,
            if end < n {
                end + 1
            } else {
                n
            },
        ),
        MotionType::Char(Direction::Backward) => (
            start,
            if end >= 1 {
                end - 1
            } else {
                0
            },
        ),
        MotionType::Line(dir) => (start, line_step_to(buf, end, *dir)),
        MotionType::StartOfLine => (start, start_of_line_step(buf, end)),
        MotionType::EndOfLine => (start, end_of_line_step(buf, end)),
        MotionType::Word(Direction::Forward) => (start, word_forward_step(buf, end, false)),
        MotionType::Word(Direction::Backward) => (start, word_backward_step(buf, end, false)),
        MotionType::BigWord(Direction::Forward) => (start, word_forward_step(buf, end, true)),
        MotionType::BigWord(Direction::Backward) => (start, word_backward_step(buf, end, true)),
        MotionType::EndOfWord(Direction::Forward) => (start, end_of_word_forward_step(buf, end, false)),
        MotionType::EndOfWord(Direction::Backward) => (start, end_of_word_backward_step(buf, end, false)),
        MotionType::EndOfBigWord(Direction::Forward) => (start, end_of_word_forward_step(buf, end, true)),
        MotionType::EndOfBigWord(Direction::Backward) => (start, end_of_word_backward_step(buf, end, true)),
        MotionType::NextChar { c, place_before, direction } => (
            start,
            next_char_step(buf, end, *c, *place_before, *direction),
        ),
        MotionType::WholeLine => {
            let (first, len) = line_extent(buf, end);
            (first, first + len)
        },
        _ => (start, end),
    }
}

/// Steps a motion `count` times `times` times from the empty span at the
/// cursor.
fn step_repeatedly(buf: &Rope, mo: &MotionType, cursor_index: usize, count: usize, times: usize) -> (r: Range<
    usize,
>)
    requires
        cursor_index <= rope_text(buf).len(),
        is_stepped(*mo),
    ensures
        span_of(r) == repeated(rope_text(buf), *mo, (count * times) as nat, at(cursor_index as int)),
        r.end <= rope_text(buf).len(),
        !(mo is WholeLine) ==> r.start == cursor_index,
{
    let mut start: usize = cursor_index;
    let mut end: usize = cursor_index;
    let mut round: usize = 0;
    let ghost mut done: nat = 0;
    if count == 0 {
        assert(count * times == 0) by (nonlinear_arith)
            requires
                count == 0,
        ;
        return start..end;
    }
    while round < times
        invariant
            round <= times,
            is_stepped(*mo),
            end <= rope_text(buf).len(),
            !(mo is WholeLine) ==> start == cursor_index,
            done == count * round,
            repeated(rope_text(buf), *mo, done, at(cursor_index as int)) == (Span {
                start: start as int,
                end: end as int,
            }),
        decreases times - round,
    {
        let mut i: usize = 0;
        let ghost before: nat = done;
        while i < count
            invariant
                i <= count,
                is_stepped(*mo),
                end <= rope_text(buf).len(),
                !(mo is WholeLine) ==> start == cursor_index,
                done == before + i,
                repeated(rope_text(buf), *mo, done, at(cursor_index as int)) == (Span {
                    start: start as int,
                    end: end as int,
                }),
            decreases count - i,
        {
            let (s, e) = step_once(buf, mo, start, end);
            start = s;
            end = e;
            i += 1;
            proof {
                done = done + 1;
            }
        }
        assert(count * (round + 1) == count * round + count) by (nonlinear_arith);
        round += 1;
    }
    start..end
}

impl Motion {
    /// The motion that stands for a range already known.
    pub fn passthrough(r: &Range<usize>) -> (m: Motion)
        ensures
            m == (Motion { count: 1, mo: MotionType::Passthrough(r.start, r.end) }),
    {
        Motion { count: 1, mo: MotionType::Passthrough(r.start, r.end) }
    }

    /// Resolves the motion as [`Motion::range`] does, where the cursor lies
    /// within the buffer; else the motion is not resolved, and the record of
    /// the last character search stays as it is.
    pub fn try_range(
        &self,
        buf: &Rope,
        cursor_index: usize,
        multiplier: usize,
        last_char_query: &mut Option<CharQuery>,
    ) -> (r: Option<Result<Range<usize>, MotionError>>)
        ensures
            r.is_some() <==> cursor_index <= rope_text(buf).len(),
            r.is_some() ==> is_outcome(
                r.unwrap(),
                resolve(
                    rope_text(buf),
                    self.mo,
                    cursor_index as int,
                    self.total(multiplier),
                    *old(last_char_query),
                ),
            ) && *final(last_char_query) == query_after(
                self.mo,
                self.total(multiplier),
                *old(last_char_query),
            ),
            r.is_none() ==> *final(last_char_query) == *old(last_char_query),
    {
        if cursor_index > buf.len_chars() {
            return None;
        }
        Some(self.range(buf, cursor_index, multiplier, last_char_query))
    }

    /// The number of times the motion is made under a multiplier.
    pub open spec fn total(self, multiplier: usize) -> nat {
        (self.count * multiplier) as nat
    }

    /// Resolves the motion at `cursor_index`, made `count * multiplier`
    /// times, however many that is, and keeps the record of the last
    /// character search up to date.
    ///
    /// The range's start is the cursor for every stepped motion but
    /// `WholeLine`; its end is where the motion lands, which lies within the
    /// buffer for all but a `Passthrough`.
    pub fn range(
        &self,
        buf: &Rope,
        cursor_index: usize,
        multiplier: usize,
        last_char_query: &mut Option<CharQuery>,
    ) -> (r: Result<Range<usize>, MotionError>)
        requires
            cursor_index <= rope_text(buf).len(),
        ensures
            is_outcome(
                r,
                resolve(
                    rope_text(buf),
                    self.mo,
                    cursor_index as int,
                    self.total(multiplier),
                    *old(last_char_query),
                ),
            ),
            *final(last_char_query) == query_after(
                self.mo,
                self.total(multiplier),
                *old(last_char_query),
            ),
            r.is_err() <==> self.mo.is_unsupported(),
            r.is_ok() && !(self.mo is Passthrough) ==> r.unwrap().end <= rope_text(buf).len(),
            r.is_ok() && self.mo.keeps_start() ==> r.unwrap().start == cursor_index,
            self.mo == MotionType::Word(Direction::Forward) || self.mo == MotionType::BigWord(Direction::Forward)
                ==> r.is_ok() && cursor_index <= r.unwrap().end,
            self.mo == MotionType::Word(Direction::Backward) || self.mo == MotionType::BigWord(
                Direction::Backward,
            ) ==> r.is_ok() && r.unwrap().end <= cursor_index,
    {
        proof {
            let text = rope_text(buf);
            let bigword = self.mo is BigWord;
            crate::laws::lemma_word_forward_never_decreases(text, cursor_index as int, self.total(multiplier), bigword);
            crate::laws::lemma_word_backward_never_increases(
                text,
                cursor_index as int,
                self.total(multiplier),
                bigword,
            );
        }
        let some: bool = self.count > 0 && multiplier > 0;
        assert(some <==> self.count * multiplier > 0) by (nonlinear_arith)
            requires
                some <==> self.count > 0 && multiplier > 0,
        ;
        match &self.mo {
            MotionType::Passthrough(s, e) => Ok(*s..*e),
            MotionType::An(obj) => obj.range_times(buf, cursor_index, self.count, multiplier, true),
            MotionType::Inner(obj) => obj.range_times(buf, cursor_index, self.count, multiplier, false),
            MotionType::Paragraph => Err(MotionError::Unsupported),
            MotionType::NextSearchMatch(_) => Err(MotionError::Unsupported),
            MotionType::RepeatNextChar { opposite } => {
                match *last_char_query {
                    Some((c, place_before, direction)) => {
                        let replay = MotionType::NextChar {
                            c: c,
                            place_before: place_before,
                            direction: if *opposite {
                                direction.reverse()
                            } else {
                                direction
                            },
                        };
                        if some {
                            *last_char_query = Some(
                                (
                                    c,
                                    place_before,
                                    if *opposite {
                                        direction.reverse()
                                    } else {
                                        direction
                                    },
                                ),
                            );
                        }
                        Ok(step_repeatedly(buf, &replay, cursor_index, self.count, multiplier))
                    },
                    None => Ok(cursor_index..cursor_index),
                }
            },
            MotionType::NextChar { c, place_before, direction } => {
                if some {
                    *last_char_query = Some((*c, *place_before, *direction));
                }
                Ok(step_repeatedly(buf, &self.mo, cursor_index, self.count, multiplier))
            },
            _ => Ok(step_repeatedly(buf, &self.mo, cursor_index, self.count, multiplier)),
        }
    }
}

} // verus!
