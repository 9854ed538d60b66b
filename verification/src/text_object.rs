//! Text objects: spans of text picked out by their structure, such as the
//! word under the cursor or the bracketed block around it.

use vstd::prelude::*;
use std::ops::Range;
use ropey::Rope;
use crate::buffer::rope_text;
use crate::chars::{CharClass, class, class_with};
use crate::scan::{CharTest, find_backward, skip_backward, skip_forward, last_index_of, run_end, run_start};

verus! {

/// A pair of character indices, as mathematical integers.
pub struct Span {
    pub start: int,
    pub end: int,
}

/// Why a motion could not be resolved.
#[derive(Debug, PartialEq, Eq, Copy, Clone, Structural)]
pub enum MotionError {
    /// The motion or text object is known to the grammar but has no
    /// resolution.
    Unsupported,
    /// The character of a block object is not an opening delimiter.
    NotADelimiter,
}

/// The span that a range of indices stands for.
pub open spec fn span_of(r: Range<usize>) -> Span {
    Span { start: r.start as int, end: r.end as int }
}

/// Whether an outcome in machine integers is the given outcome.
pub open spec fn is_outcome(r: Result<Range<usize>, MotionError>, s: Result<Span, MotionError>) -> bool {
    match s {
        Ok(span) => r.is_ok() && span_of(r.unwrap()) == span,
        Err(e) => r.is_err() && r.unwrap_err() == e,
    }
}

/// A structurally defined span of text.
#[derive(Debug, PartialEq, Eq, Copy, Clone, Structural)]
pub enum TextObject {
    Word,
    BigWord,
    Paragraph,
    /// A delimited block, named by its opening delimiter.
    Block(char),
}

/// The closing delimiter that belongs to an opening one.
pub open spec fn closer_of(c: char) -> Option<char> {
    if c == '{' {
        Some('}')
    } else if c == '(' {
        Some(')')
    } else if c == '[' {
        Some(']')
    } else if c == '<' {
        Some('>')
    } else if c == '"' {
        Some('"')
    } else if c == '\'' {
        Some('\'')
    } else {
        None
    }
}

/// The closing delimiter for an opening one, or `None` for any other
/// character.
pub fn matching_block_char(c: char) -> (r: Option<char>)
    ensures
        r == closer_of(c),
{
    if c == '{' {
        Some('}')
    } else if c == '(' {
        Some(')')
    } else if c == '[' {
        Some(']')
    } else if c == '<' {
        Some('>')
    } else if c == '"' {
        Some('"')
    } else if c == '\'' {
        Some('\'')
    } else {
        None
    }
}

/// One unit of a word object, followed from `pos`: the rest of a run of
/// class `sc`, then, if `gap` is set, the run after it. After a word that
/// run is whitespace; after whitespace it is the word that comes next.
pub open spec fn unit_end(text: Seq<char>, sc: CharClass, bigword: bool, pos: int, gap: bool) -> int {
    let p = skip_forward(text, CharTest::InClass(sc, bigword), pos);
    if !gap {
        p
    } else if sc != CharClass::Whitespace {
        skip_forward(text, CharTest::InClass(CharClass::Whitespace, bigword), p)
    } else if 0 <= p < text.len() {
        skip_forward(text, CharTest::InClass(class_with(text[p], bigword), bigword), p)
    } else {
        p
    }
}

/// Where a word object has got to after `units` units, followed from
/// `from`. The first unit takes its gap only when `whole` is set; every
/// later one takes it.
pub open spec fn units_end(
    text: Seq<char>,
    sc: CharClass,
    bigword: bool,
    whole: bool,
    units: nat,
    from: int,
) -> int
    decreases units,
{
    if units == 0 {
        from
    } else {
        unit_end(
            text,
            sc,
            bigword,
            units_end(text, sc, bigword, whole, (units - 1) as nat, from),
            whole || units > 1,
        )
    }
}

/// The word (or, with `bigword`, the WORD) object at `cursor`.
///
/// It starts where the run of the cursor's class starts. An inner object on
/// whitespace is that run of whitespace, and ends on its last character.
/// Every other object covers `count` units and ends on the last character
/// of the last one. Past the end of the text there is no object, and the
/// span is empty at the cursor.
pub open spec fn word_object(text: Seq<char>, cursor: int, count: nat, whole: bool, bigword: bool) -> Span {
    if cursor < 0 || cursor >= text.len() {
        Span { start: cursor, end: cursor }
    } else {
        let sc = class_with(text[cursor], bigword);
        let start = skip_backward(text, CharTest::InClass(sc, bigword), cursor);
        if !whole && sc == CharClass::Whitespace {
            Span { start: start, end: skip_forward(text, CharTest::InClass(sc, bigword), cursor) - 1 }
        } else {
            Span { start: start, end: units_end(text, sc, bigword, whole, count, start + 1) - 1 }
        }
    }
}

/// The index of the closing delimiter that matches an opening one, sought
/// from `pos` on with `depth` blocks open; the length of the text if there
/// is none. A character that is both opener and closer closes.
pub open spec fn closer_index(text: Seq<char>, open: char, close: char, pos: int, depth: nat) -> int
    decreases text.len() - pos,
{
    if pos < 0 || pos >= text.len() {
        pos
    } else if text[pos] == close {
        if depth <= 1 {
            pos
        } else {
            closer_index(text, open, close, pos + 1, (depth - 1) as nat)
        }
    } else if text[pos] == open {
        closer_index(text, open, close, pos + 1, depth + 1)
    } else {
        closer_index(text, open, close, pos + 1, depth)
    }
}

/// The block object at `cursor`: from the nearest `open` at or left of the
/// cursor to the closer that matches it. With `whole` the span runs from
/// delimiter to delimiter, without it from the first to the last character
/// between them. Where the cursor is past the text or no opener is found,
/// the span is empty at the cursor.
pub open spec fn block_object(text: Seq<char>, cursor: int, open: char, close: char, whole: bool) -> Span {
    if cursor < 0 || cursor >= text.len() {
        Span { start: cursor, end: cursor }
    } else {
        match find_backward(text, CharTest::Is(open), cursor + 1) {
            None => Span { start: cursor, end: cursor },
            Some(s) => {
                let m = closer_index(text, open, close, s + 1, 1);
                if whole {
                    Span { start: s, end: m }
                } else {
                    Span { start: s + 1, end: m - 1 }
                }
            },
        }
    }
}

/// The span of a text object at `cursor`, or the reason why it has none.
pub open spec fn object_span(
    text: Seq<char>,
    obj: TextObject,
    cursor: int,
    count: nat,
    whole: bool,
) -> Result<Span, MotionError> {
    match obj {
        TextObject::Word => Ok(word_object(text, cursor, count, whole, false)),
        TextObject::BigWord => Ok(word_object(text, cursor, count, whole, true)),
        TextObject::Paragraph => Err(MotionError::Unsupported),
        TextObject::Block(open) => match closer_of(open) {
            Some(close) => Ok(block_object(text, cursor, open, close, whole)),
            None => Err(MotionError::NotADelimiter),
        },
    }
}

proof fn lemma_unit_end_bounds(text: Seq<char>, sc: CharClass, bigword: bool, pos: int, gap: bool)
    requires
        0 <= pos <= text.len(),
    ensures
        pos <= unit_end(text, sc, bigword, pos, gap) <= text.len(),
{
    let p = skip_forward(text, CharTest::InClass(sc, bigword), pos);
    crate::scan::lemma_skip_forward(text, CharTest::InClass(sc, bigword), pos);
    crate::scan::lemma_skip_forward(text, CharTest::InClass(CharClass::Whitespace, bigword), p);
    if 0 <= p < text.len() {
        crate::scan::lemma_skip_forward(text, CharTest::InClass(class_with(text[p], bigword), bigword), p);
    }
}

proof fn lemma_closer_bounds(text: Seq<char>, open: char, close: char, pos: int, depth: nat)
    requires
        0 <= pos <= text.len(),
    ensures
        pos <= closer_index(text, open, close, pos, depth) <= text.len(),
    decreases text.len() - pos,
{
    if pos < text.len() {
        if text[pos] == close {
            if depth > 1 {
                lemma_closer_bounds(text, open, close, pos + 1, (depth - 1) as nat);
            }
        } else if text[pos] == open {
            lemma_closer_bounds(text, open, close, pos + 1, depth + 1);
        } else {
            lemma_closer_bounds(text, open, close, pos + 1, depth);
        }
    }
}

fn word_range(buf: &Rope, cursor_index: usize, count: usize, times: usize, whole: bool, bigword: bool) -> (r:
    Range<usize>)
    ensures
        span_of(r) == word_object(rope_text(buf), cursor_index as int, (count * times) as nat, whole, bigword),
        cursor_index <= rope_text(buf).len() ==> r.start <= cursor_index && r.end <= rope_text(buf).len(),
{
    let ghost text = rope_text(buf);
    let n: usize = buf.len_chars();
    match buf.get_char(cursor_index) {
        None => cursor_index..cursor_index,
        Some(ch) => {
            let sc = class(ch, bigword);
            let t = CharTest::InClass(sc, bigword);
            let start: usize = run_start(buf, t, cursor_index);
            if !whole && sc == CharClass::Whitespace {
                proof {
                    assert(t.holds(text[cursor_index as int]));
                    crate::scan::lemma_skip_forward(text, t, cursor_index + 1);
                }
                return start..(run_end(buf, t, cursor_index) - 1);
            }
            let mut end: usize = start + 1;
            if count == 0 {
                assert(count * times == 0) by (nonlinear_arith)
                    requires
                        count == 0,
                ;
                return start..(end - 1);
            }
            let mut first: bool = true;
            let mut round: usize = 0;
            let ghost mut done: nat = 0;
            while round < times
                invariant
                    round <= times,
                    text == rope_text(buf),
                    t == CharTest::InClass(sc, bigword),
                    start < end <= text.len() == n,
                    done == count * round,
                    first <==> done == 0,
                    end == units_end(text, sc, bigword, whole, done, start + 1),
                decreases times - round,
            {
                let mut i: usize = 0;
                let ghost before: nat = done;
                while i < count
                    invariant
                        i <= count,
                        text == rope_text(buf),
                        t == CharTest::InClass(sc, bigword),
                        start < end <= text.len() == n,
                        done == before + i,
                        first <==> done == 0,
                        end == units_end(text, sc, bigword, whole, done, start + 1),
                    decreases count - i,
                {
                    proof {
                        lemma_unit_end_bounds(text, sc, bigword, end as int, whole || done > 0);
                    }
                    end = run_end(buf, t, end);
                    if !first || whole {
                        let gap_class = if sc == CharClass::Whitespace {
                            match buf.get_char(end) {
                                Some(x) => class(x, bigword),
                                None => CharClass::Whitespace,
                            }
                        } else {
                            CharClass::Whitespace
                        };
                        end = run_end(buf, CharTest::InClass(gap_class, bigword), end);
                    }
                    first = false;
                    i += 1;
                    proof {
                        done = done + 1;
                    }
                }
                assert(count * (round + 1) == count * round + count) by (nonlinear_arith);
                round += 1;
            }
            start..(end - 1)
        },
    }
}

fn closer_from(buf: &Rope, open: char, close: char, from: usize) -> (m: usize)
    requires
        from <= rope_text(buf).len(),
    ensures
        m == closer_index(rope_text(buf), open, close, from as int, 1),
        from <= m <= rope_text(buf).len(),
{
    let ghost text = rope_text(buf);
    let n: usize = buf.len_chars();
    let mut pos: usize = from;
    let mut nested: usize = 0;
    proof {
        lemma_closer_bounds(text, open, close, from as int, 1);
    }
    loop
        invariant
            text == rope_text(buf),
            n == text.len(),
            from <= pos <= n,
            nested <= pos - from,
            closer_index(text, open, close, from as int, 1) == closer_index(
                text,
                open,
                close,
                pos as int,
                (nested + 1) as nat,
            ),
        ensures
            pos == closer_index(text, open, close, from as int, 1),
            from <= pos <= n,
        decreases n - pos,
    {
        match buf.get_char(pos) {
            None => {
                break;
            },
            Some(ch) => {
                if ch == close {
                    if nested == 0 {
                        break;
                    }
                    nested -= 1;
                } else if ch == open {
                    nested += 1;
                }
            },
        }
        pos += 1;
    }
    pos
}

fn block_range(buf: &Rope, cursor_index: usize, open: char, close: char, whole: bool) -> (r: Range<usize>)
    ensures
        span_of(r) == block_object(rope_text(buf), cursor_index as int, open, close, whole),
        cursor_index <= rope_text(buf).len() ==> r.end <= rope_text(buf).len(),
{
    let ghost text = rope_text(buf);
    let n: usize = buf.len_chars();
    if cursor_index >= n {
        return cursor_index..cursor_index;
    }
    proof {
        crate::scan::lemma_find_backward(text, CharTest::Is(open), cursor_index + 1);
    }
    match last_index_of(buf, CharTest::Is(open), cursor_index + 1) {
        None => cursor_index..cursor_index,
        Some(s) => {
            let m: usize = closer_from(buf, open, close, s + 1);
            if whole {
                s..m
            } else {
                (s + 1)..(m - 1)
            }
        },
    }
}

impl TextObject {
    /// Whether the object has no range, whatever the buffer: a paragraph,
    /// and a block whose character is no opening delimiter.
    pub open spec fn is_unsupported(self) -> bool {
        match self {
            TextObject::Paragraph => true,
            TextObject::Block(open) => closer_of(open).is_none(),
            _ => false,
        }
    }

    /// The range of the object at `cursor_index`: the whole of it with
    /// `whole`, without its surroundings otherwise. `count` asks for that
    /// many units of a word object, and is not read for a block.
    pub fn range(&self, buf: &Rope, cursor_index: usize, count: usize, whole: bool) -> (r: Result<
        Range<usize>,
        MotionError,
    >)
        ensures
            is_outcome(r, object_span(rope_text(buf), *self, cursor_index as int, count as nat, whole)),
            r.is_ok() && cursor_index <= rope_text(buf).len() ==> r.unwrap().end <= rope_text(buf).len(),
            r.is_err() <==> self.is_unsupported(),
    {
        assert(count * 1 == count) by (nonlinear_arith);
        self.range_times(buf, cursor_index, count, 1, whole)
    }

    /// The range of the object as [`TextObject::range`] gives it, for
    /// `count * times` units, however many that is.
    pub fn range_times(&self, buf: &Rope, cursor_index: usize, count: usize, times: usize, whole: bool) -> (r:
        Result<Range<usize>, MotionError>)
        ensures
            is_outcome(r, object_span(rope_text(buf), *self, cursor_index as int, (count * times) as nat, whole)),
            r.is_ok() && cursor_index <= rope_text(buf).len() ==> r.unwrap().end <= rope_text(buf).len(),
            r.is_err() <==> self.is_unsupported(),
    {
        match self {
            TextObject::Word => Ok(word_range(buf, cursor_index, count, times, whole, false)),
            TextObject::BigWord => Ok(word_range(buf, cursor_index, count, times, whole, true)),
            TextObject::Paragraph => Err(MotionError::Unsupported),
            TextObject::Block(open) => match matching_block_char(*open) {
                Some(close) => Ok(block_range(buf, cursor_index, *open, close, whole)),
                None => Err(MotionError::NotADelimiter),
            },
        }
    }
}

} // verus!
