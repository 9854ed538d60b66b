//! Directional searches over a text: the first or last character that
//! passes a test, and the extent of a run of characters that all pass it.

use vstd::prelude::*;
use ropey::Rope;
use crate::buffer::rope_text;
use crate::chars::{CharClass, class_with, class};

verus! {

/// The two ways to walk a text.
#[derive(Debug, PartialEq, Eq, Copy, Clone, Structural)]
pub enum Direction {
    Forward,
    Backward,
}

impl Direction {
    /// The other direction.
    pub open spec fn reversed(self) -> Direction {
        match self {
            Direction::Forward => Direction::Backward,
            Direction::Backward => Direction::Forward,
        }
    }

    /// Flips the direction.
    pub fn reverse(&self) -> (d: Direction)
        ensures
            d == self.reversed(),
            d != *self,
            d.reversed() == *self,
    {
        match self {
            Direction::Forward => Direction::Backward,
            Direction::Backward => Direction::Forward,
        }
    }
}

/// A test on a single character.
#[derive(Debug, PartialEq, Eq, Copy, Clone, Structural)]
pub enum CharTest {
    /// The character is the given one.
    Is(char),
    /// The character has the given class; the flag merges punctuation into
    /// `Regular` first.
    InClass(CharClass, bool),
}

impl CharTest {
    /// Whether `c` passes the test.
    pub open spec fn holds(self, c: char) -> bool {
        match self {
            CharTest::Is(x) => c == x,
            CharTest::InClass(cc, bigword) => class_with(c, bigword) == cc,
        }
    }

    /// Applies the test to `c`.
    pub fn test(&self, c: char) -> (b: bool)
        ensures
            b == self.holds(c),
    {
        match self {
            CharTest::Is(x) => c == *x,
            CharTest::InClass(cc, bigword) => class(c, *bigword) == *cc,
        }
    }
}

/// The first index at or after `from` whose character passes `t`.
pub open spec fn find_forward(text: Seq<char>, t: CharTest, from: int) -> Option<int>
    decreases text.len() - from,
{
    if from < 0 || from >= text.len() {
        None
    } else if t.holds(text[from]) {
        Some(from)
    } else {
        find_forward(text, t, from + 1)
    }
}

/// The last index before `before` whose character passes `t`.
pub open spec fn find_backward(text: Seq<char>, t: CharTest, before: int) -> Option<int>
    decreases before,
{
    if before <= 0 || before > text.len() {
        None
    } else if t.holds(text[before - 1]) {
        Some(before - 1)
    } else {
        find_backward(text, t, before - 1)
    }
}

/// Where a run of characters that pass `t` ends when it is followed from
/// `from`: the first index at or after `from` whose character fails `t`, or
/// the length of the text.
pub open spec fn skip_forward(text: Seq<char>, t: CharTest, from: int) -> int
    decreases text.len() - from,
{
    if 0 <= from < text.len() && t.holds(text[from]) {
        skip_forward(text, t, from + 1)
    } else {
        from
    }
}

/// Where a run of characters that pass `t` starts when it is followed
/// leftwards from `before`: the least index from which every character up
/// to, but not including, `before` passes `t`.
pub open spec fn skip_backward(text: Seq<char>, t: CharTest, before: int) -> int
    decreases before,
{
    if 0 < before <= text.len() && t.holds(text[before - 1]) {
        skip_backward(text, t, before - 1)
    } else {
        before
    }
}

/// A search in either direction: forward from `start` on, backward from just
/// before `start`.
pub open spec fn find_toward(text: Seq<char>, t: CharTest, start: int, dir: Direction) -> Option<int> {
    match dir {
        Direction::Forward => find_forward(text, t, start),
        Direction::Backward => find_backward(text, t, start),
    }
}

/// An optional index as a mathematical integer.
pub open spec fn as_int(r: Option<usize>) -> Option<int> {
    match r {
        Some(i) => Some(i as int),
        None => None,
    }
}

/// What a forward search finds: the match is the first of its kind.
pub proof fn lemma_find_forward(text: Seq<char>, t: CharTest, from: int)
    requires
        0 <= from,
    ensures
        match find_forward(text, t, from) {
            Some(i) => from <= i < text.len() && t.holds(text[i]) && forall|j: int|
                from <= j < i ==> !t.holds(#[trigger] text[j]),
            None => forall|j: int| from <= j < text.len() ==> !t.holds(#[trigger] text[j]),
        },
    decreases text.len() - from,
{
    if from < text.len() && !t.holds(text[from]) {
        lemma_find_forward(text, t, from + 1);
    }
}

/// What a backward search finds: the match is the last of its kind.
pub proof fn lemma_find_backward(text: Seq<char>, t: CharTest, before: int)
    requires
        before <= text.len(),
    ensures
        match find_backward(text, t, before) {
            Some(i) => 0 <= i < before && t.holds(text[i]) && forall|j: int|
                i < j < before ==> !t.holds(#[trigger] text[j]),
            None => forall|j: int| 0 <= j < before ==> !t.holds(#[trigger] text[j]),
        },
    decreases before,
{
    if before > 0 && !t.holds(text[before - 1]) {
        lemma_find_backward(text, t, before - 1);
    }
}

/// Where a forward run ends: everything up to the end passes, and the
/// character at the end, if there is one, fails.
pub proof fn lemma_skip_forward(text: Seq<char>, t: CharTest, from: int)
    requires
        0 <= from <= text.len(),
    ensures
        from <= skip_forward(text, t, from) <= text.len(),
        forall|j: int| from <= j < skip_forward(text, t, from) ==> t.holds(#[trigger] text[j]),
        skip_forward(text, t, from) < text.len() ==> !t.holds(text[skip_forward(text, t, from)]),
    decreases text.len() - from,
{
    if from < text.len() && t.holds(text[from]) {
        lemma_skip_forward(text, t, from + 1);
    }
}

/// Where a backward run starts: everything from the start on passes, and
/// the character before the start, if there is one, fails.
pub proof fn lemma_skip_backward(text: Seq<char>, t: CharTest, before: int)
    requires
        0 <= before <= text.len(),
    ensures
        0 <= skip_backward(text, t, before) <= before,
        forall|j: int| skip_backward(text, t, before) <= j < before ==> t.holds(#[trigger] text[j]),
        skip_backward(text, t, before) > 0 ==> !t.holds(text[skip_backward(text, t, before) - 1]),
    decreases before,
{
    if before > 0 && t.holds(text[before - 1]) {
        lemma_skip_backward(text, t, before - 1);
    }
}

/// The first index from `start` on whose character passes `t`, if any.
pub fn index_of(buf: &Rope, t: CharTest, start: usize) -> (r: Option<usize>)
    ensures
        as_int(r) == find_forward(rope_text(buf), t, start as int),
{
    let n: usize = buf.len_chars();
    let mut i: usize = start;
    while i < n
        invariant
            start <= i,
            n == rope_text(buf).len(),
            find_forward(rope_text(buf), t, start as int) == find_forward(
                rope_text(buf),
                t,
                i as int,
            ),
        decreases n - i,
    {
        match buf.get_char(i) {
            Some(c) => {
                if t.test(c) {
                    return Some(i);
                }
            },
            None => {},
        }
        i += 1;
    }
    None
}

/// The last index before `start` whose character passes `t`, if any.
pub fn last_index_of(buf: &Rope, t: CharTest, start: usize) -> (r: Option<usize>)
    ensures
        as_int(r) == find_backward(rope_text(buf), t, start as int),
{
    let n: usize = buf.len_chars();
    if start > n {
        return None;
    }
    let mut i: usize = start;
    while i > 0
        invariant
            i <= start <= n,
            n == rope_text(buf).len(),
            find_backward(rope_text(buf), t, start as int) == find_backward(
                rope_text(buf),
                t,
                i as int,
            ),
        decreases i,
    {
        match buf.get_char(i - 1) {
            Some(c) => {
                if t.test(c) {
                    return Some(i - 1);
                }
            },
            None => {},
        }
        i -= 1;
    }
    None
}

/// A search in the given direction: see [`index_of`] and [`last_index_of`].
pub fn dir_index_of(buf: &Rope, t: CharTest, start: usize, dir: Direction) -> (r: Option<usize>)
    ensures
        as_int(r) == find_toward(rope_text(buf), t, start as int, dir),
{
    match dir {
        Direction::Forward => index_of(buf, t, start),
        Direction::Backward => last_index_of(buf, t, start),
    }
}

/// The end of the run of characters passing `t` that is followed from
/// `start`.
pub fn run_end(buf: &Rope, t: CharTest, start: usize) -> (r: usize)
    requires
        start <= rope_text(buf).len(),
    ensures
        r == skip_forward(rope_text(buf), t, start as int),
        start <= r <= rope_text(buf).len(),
{
    let n: usize = buf.len_chars();
    let mut i: usize = start;
    loop
        invariant
            start <= i <= n,
            n == rope_text(buf).len(),
            skip_forward(rope_text(buf), t, start as int) == skip_forward(
                rope_text(buf),
                t,
                i as int,
            ),
        ensures
            i == skip_forward(rope_text(buf), t, start as int),
            start <= i <= n,
        decreases n - i,
    {
        match buf.get_char(i) {
            Some(c) => {
                if !t.test(c) {
                    break;
                }
            },
            None => {
                break;
            },
        }
        i += 1;
    }
    i
}

/// The start of the run of characters passing `t` that is followed
/// leftwards from just before `before`.
pub fn run_start(buf: &Rope, t: CharTest, before: usize) -> (r: usize)
    requires
        before <= rope_text(buf).len(),
    ensures
        r == skip_backward(rope_text(buf), t, before as int),
        r <= before,
{
    let mut i: usize = before;
    loop
        invariant
            i <= before <= rope_text(buf).len(),
            skip_backward(rope_text(buf), t, before as int) == skip_backward(
                rope_text(buf),
                t,
                i as int,
            ),
        ensures
            i == skip_backward(rope_text(buf), t, before as int),
            i <= before,
        decreases i,
    {
        if i == 0 {
            break;
        }
        match buf.get_char(i - 1) {
            Some(c) => {
                if !t.test(c) {
                    break;
                }
            },
            None => {
                break;
            },
        }
        i -= 1;
    }
    i
}

} // verus!
