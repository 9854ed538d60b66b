//! Laws of the motions: what holds of them whatever the buffer.

use vstd::prelude::*;
use ropey::Rope;
use crate::buffer::rope_text;
use crate::chars::{CharClass, class_with};
use crate::motion::{CharQuery, MotionType, at, query_after, repeated, resolve, word_backward, word_forward};
use crate::scan::{CharTest, Direction, skip_backward, skip_forward, lemma_skip_backward, lemma_skip_forward};
use crate::text_object::{Span, TextObject, unit_end, units_end, word_object};

verus! {

/// A run that is followed forward gets past every stretch of characters
/// that pass the test.
pub proof fn lemma_skip_forward_covers(text: Seq<char>, t: CharTest, a: int, b: int)
    requires
        0 <= a <= b <= text.len(),
        forall|j: int| a <= j < b ==> t.holds(#[trigger] text[j]),
    ensures
        skip_forward(text, t, a) >= b,
{
    lemma_skip_forward(text, t, a);
    let s = skip_forward(text, t, a);
    if s < b {
        assert(t.holds(text[s]));
    }
}

/// A run that is followed backward gets past every stretch of characters
/// that pass the test.
pub proof fn lemma_skip_backward_covers(text: Seq<char>, t: CharTest, a: int, b: int)
    requires
        0 <= a <= b <= text.len(),
        forall|j: int| a <= j < b ==> t.holds(#[trigger] text[j]),
    ensures
        skip_backward(text, t, b) <= a,
{
    lemma_skip_backward(text, t, b);
    let s = skip_backward(text, t, b);
    if s > a {
        assert(t.holds(text[s - 1]));
    }
}

/// The later a run is taken up, the later it ends.
pub proof fn lemma_skip_forward_monotone(text: Seq<char>, t: CharTest, x: int, y: int)
    requires
        0 <= x <= y <= text.len(),
    ensures
        skip_forward(text, t, x) <= skip_forward(text, t, y),
{
    lemma_skip_forward(text, t, x);
    lemma_skip_forward(text, t, y);
    let sx = skip_forward(text, t, x);
    if sx >= y {
        lemma_skip_forward_covers(text, t, y, sx);
    }
}

/// A word motion forward never moves the cursor back, and stays within the
/// text.
pub proof fn lemma_word_forward_advances(text: Seq<char>, cursor: int, bigword: bool)
    requires
        0 <= cursor <= text.len(),
    ensures
        cursor <= word_forward(text, cursor, bigword) <= text.len(),
{
    if cursor < text.len() {
        let sc = class_with(text[cursor], bigword);
        lemma_skip_forward(text, CharTest::InClass(sc, bigword), cursor);
        let run_end = if sc == CharClass::Whitespace {
            cursor
        } else {
            skip_forward(text, CharTest::InClass(sc, bigword), cursor)
        };
        lemma_skip_forward(text, CharTest::InClass(CharClass::Whitespace, bigword), run_end);
    }
}

/// A word motion backward never moves the cursor forward.
pub proof fn lemma_word_backward_retreats(text: Seq<char>, cursor: int, bigword: bool)
    requires
        0 <= cursor <= text.len(),
    ensures
        0 <= word_backward(text, cursor, bigword) <= cursor,
{
    if cursor > 0 {
        let ws = CharTest::InClass(CharClass::Whitespace, bigword);
        lemma_skip_backward(text, ws, cursor);
        let word_end = skip_backward(text, ws, cursor);
        if word_end > 0 {
            lemma_skip_backward(text, CharTest::InClass(class_with(text[word_end - 1], bigword), bigword), word_end);
        }
    }
}

/// The motion that goes word by word: by words, or with `bigword` by
/// WORDs.
pub open spec fn word_motion(dir: Direction, bigword: bool) -> MotionType {
    if bigword {
        MotionType::BigWord(dir)
    } else {
        MotionType::Word(dir)
    }
}

/// However often `Word(Forward)` is repeated, the cursor never ends up
/// before the place it started from, nor, with one repetition more, before
/// the place it had got to. The same holds of `BigWord(Forward)`.
pub proof fn lemma_word_forward_never_decreases(text: Seq<char>, cursor: int, n: nat, bigword: bool)
    requires
        0 <= cursor <= text.len(),
    ensures
        repeated(text, word_motion(Direction::Forward, bigword), n, at(cursor)).start == cursor,
        cursor <= repeated(text, word_motion(Direction::Forward, bigword), n, at(cursor)).end <= text.len(),
        repeated(text, word_motion(Direction::Forward, bigword), n, at(cursor)).end <= repeated(
            text,
            word_motion(Direction::Forward, bigword),
            n + 1,
            at(cursor),
        ).end,
    decreases n,
{
    let mo = word_motion(Direction::Forward, bigword);
    if n > 0 {
        lemma_word_forward_never_decreases(text, cursor, (n - 1) as nat, bigword);
        let before = repeated(text, mo, (n - 1) as nat, at(cursor)).end;
        lemma_word_forward_advances(text, before, bigword);
        assert(repeated(text, mo, n, at(cursor)).end == word_forward(text, before, bigword));
    } else {
        assert(repeated(text, mo, 0, at(cursor)) == at(cursor));
    }
    let here = repeated(text, mo, n, at(cursor)).end;
    lemma_word_forward_advances(text, here, bigword);
    assert(repeated(text, mo, n + 1, at(cursor)).end == word_forward(text, here, bigword));
}

/// However often `Word(Backward)` is repeated, the cursor never ends up
/// after the place it started from. The same holds of `BigWord(Backward)`.
pub proof fn lemma_word_backward_never_increases(text: Seq<char>, cursor: int, n: nat, bigword: bool)
    requires
        0 <= cursor <= text.len(),
    ensures
        repeated(text, word_motion(Direction::Backward, bigword), n, at(cursor)).start == cursor,
        0 <= repeated(text, word_motion(Direction::Backward, bigword), n, at(cursor)).end <= cursor,
    decreases n,
{
    if n > 0 {
        lemma_word_backward_never_increases(text, cursor, (n - 1) as nat, bigword);
        let before = repeated(text, word_motion(Direction::Backward, bigword), (n - 1) as nat, at(cursor)).end;
        lemma_word_backward_retreats(text, before, bigword);
    }
}

/// What `Motion::range` gives for `Word(Forward)`, whatever the buffer, the
/// cursor in it, the count and the multiplier: a range that starts at the
/// cursor and ends between the cursor and the end of the text. The same
/// holds of `BigWord(Forward)`.
pub proof fn lemma_word_forward_range(text: Seq<char>, cursor: int, total: nat, bigword: bool, last: Option<CharQuery>)
    requires
        0 <= cursor <= text.len(),
    ensures
        resolve(text, word_motion(Direction::Forward, bigword), cursor, total, last) matches Ok(s) && s.start
            == cursor && cursor <= s.end <= text.len(),
{
    lemma_word_forward_never_decreases(text, cursor, total, bigword);
}

/// A word motion forward and then a word motion backward from where the
/// first landed never ends after the place the first started from: of
/// words and of WORDs, in every text and from every cursor in it.
pub proof fn lemma_word_round_trip(text: Seq<char>, cursor: int, bigword: bool)
    requires
        0 <= cursor <= text.len(),
    ensures
        word_backward(text, word_forward(text, cursor, bigword), bigword) <= cursor,
{
    let c = cursor;
    let len = text.len() as int;
    let ws = CharTest::InClass(CharClass::Whitespace, bigword);
    let landing = word_forward(text, c, bigword);
    lemma_word_forward_advances(text, c, bigword);
    lemma_word_backward_retreats(text, landing, bigword);
    if landing > c {
        let sc = class_with(text[c], bigword);
        let run = CharTest::InClass(sc, bigword);
        lemma_skip_forward(text, run, c);
        let run_end = if sc == CharClass::Whitespace {
            c
        } else {
            skip_forward(text, run, c)
        };
        lemma_skip_forward(text, ws, run_end);
        // between the end of the cursor's run and the landing place lies whitespace alone
        lemma_skip_backward(text, ws, landing);
        lemma_skip_backward_covers(text, ws, run_end, landing);
        let word_end = skip_backward(text, ws, landing);
        if sc != CharClass::Whitespace {
            assert(!ws.holds(text[run_end - 1]));
            if word_end < run_end {
                assert(ws.holds(text[run_end - 1]));
            }
            assert(word_end == run_end);
            assert(class_with(text[word_end - 1], bigword) == sc);
            lemma_skip_backward_covers(text, run, c, run_end);
        } else if word_end > 0 {
            lemma_skip_backward(text, CharTest::InClass(class_with(text[word_end - 1], bigword), bigword), word_end);
        }
    }
}

/// The same law, of the motions: where `Word(Forward)` lands from a cursor
/// in the text, `Word(Backward)` ends at or before that cursor.
pub proof fn lemma_round_trip_of_motions(text: Seq<char>, cursor: int, bigword: bool, last: Option<CharQuery>)
    requires
        0 <= cursor <= text.len(),
    ensures
        resolve(text, word_motion(Direction::Forward, bigword), cursor, 1, last) matches Ok(there) && (resolve(
            text,
            word_motion(Direction::Backward, bigword),
            there.end,
            1,
            last,
        ) matches Ok(back) && back.end <= cursor),
{
    lemma_word_round_trip(text, cursor, bigword);
    let fw = word_motion(Direction::Forward, bigword);
    let bw = word_motion(Direction::Backward, bigword);
    assert(repeated(text, fw, 0, at(cursor)) == at(cursor));
    assert(repeated(text, fw, 1, at(cursor)).end == word_forward(text, cursor, bigword));
    let there = word_forward(text, cursor, bigword);
    assert(repeated(text, bw, 0, at(there)) == at(there));
    assert(repeated(text, bw, 1, at(there)).end == word_backward(text, there, bigword));
}

/// The number of characters between the two indices of a span.
pub open spec fn extent(s: Span) -> int {
    s.end - s.start
}

/// One unit of a word object ends no earlier when it takes its gap, and no
/// earlier when it is taken up later.
proof fn lemma_unit_end_monotone(text: Seq<char>, sc: CharClass, bigword: bool, x: int, y: int, gap_x: bool, gap_y: bool)
    requires
        0 <= x <= y <= text.len(),
        sc != CharClass::Whitespace,
        gap_x ==> gap_y,
    ensures
        x <= unit_end(text, sc, bigword, x, gap_x) <= unit_end(text, sc, bigword, y, gap_y) <= text.len(),
{
    let run = CharTest::InClass(sc, bigword);
    let gap = CharTest::InClass(CharClass::Whitespace, bigword);
    lemma_skip_forward(text, run, x);
    lemma_skip_forward(text, run, y);
    lemma_skip_forward_monotone(text, run, x, y);
    let px = skip_forward(text, run, x);
    let py = skip_forward(text, run, y);
    lemma_skip_forward(text, gap, px);
    lemma_skip_forward(text, gap, py);
    lemma_skip_forward_monotone(text, gap, px, py);
}

/// After as many units, a whole word object has got at least as far as an
/// inner one.
proof fn lemma_units_end_whole_further(text: Seq<char>, sc: CharClass, bigword: bool, units: nat, from: int)
    requires
        0 <= from <= text.len(),
        sc != CharClass::Whitespace,
    ensures
        from <= units_end(text, sc, bigword, false, units, from) <= units_end(
            text,
            sc,
            bigword,
            true,
            units,
            from,
        ) <= text.len(),
    decreases units,
{
    if units > 0 {
        lemma_units_end_whole_further(text, sc, bigword, (units - 1) as nat, from);
        lemma_unit_end_monotone(
            text,
            sc,
            bigword,
            units_end(text, sc, bigword, false, (units - 1) as nat, from),
            units_end(text, sc, bigword, true, (units - 1) as nat, from),
            units > 1,
            true,
        );
    }
}

/// A word object on whitespace that takes its gap never ends before where
/// it was taken up.
proof fn lemma_units_end_grows(text: Seq<char>, sc: CharClass, bigword: bool, units: nat, from: int)
    requires
        0 <= from <= text.len(),
    ensures
        from <= units_end(text, sc, bigword, true, units, from) <= text.len(),
        units >= 1 ==> units_end(text, sc, bigword, true, units, from) >= skip_forward(
            text,
            CharTest::InClass(sc, bigword),
            from,
        ),
    decreases units,
{
    if units > 0 {
        lemma_units_end_grows(text, sc, bigword, (units - 1) as nat, from);
        let pos = units_end(text, sc, bigword, true, (units - 1) as nat, from);
        let run = CharTest::InClass(sc, bigword);
        lemma_skip_forward(text, run, pos);
        lemma_skip_forward(text, run, from);
        lemma_skip_forward_monotone(text, run, from, pos);
        let p = skip_forward(text, run, pos);
        lemma_skip_forward(text, CharTest::InClass(CharClass::Whitespace, bigword), p);
        if 0 <= p < text.len() {
            lemma_skip_forward(text, CharTest::InClass(class_with(text[p], bigword), bigword), p);
        }
    }
}

/// At one cursor and for one count of at least 1, a whole word object is
/// at least as long as the inner one. This holds of words and of WORDs.
pub proof fn lemma_a_word_covers_inner_word(text: Seq<char>, cursor: usize, count: nat, bigword: bool)
    requires
        count >= 1,
    ensures
        extent(word_object(text, cursor as int, count, true, bigword)) >= extent(
            word_object(text, cursor as int, count, false, bigword),
        ),
{
    let c = cursor as int;
    if c < text.len() {
        let sc = class_with(text[c], bigword);
        let run = CharTest::InClass(sc, bigword);
        lemma_skip_backward(text, run, c);
        let start = skip_backward(text, run, c);
        if sc == CharClass::Whitespace {
            lemma_units_end_grows(text, sc, bigword, count, start + 1);
            lemma_skip_forward(text, run, c);
            let run_end = skip_forward(text, run, c);
            assert forall|j: int| start + 1 <= j < run_end implies run.holds(#[trigger] text[j]) by {}
            lemma_skip_forward_covers(text, run, start + 1, run_end);
        } else {
            lemma_units_end_whole_further(text, sc, bigword, count, start + 1);
        }
    }
}

/// The same law, of the two motions: where both resolve, `An` of a word or
/// WORD spans at least as much as `Inner` of it.
pub proof fn lemma_an_covers_inner(text: Seq<char>, obj: TextObject, cursor: usize, count: nat, last: Option<CharQuery>)
    requires
        count >= 1,
        obj == TextObject::Word || obj == TextObject::BigWord,
    ensures
        resolve(text, MotionType::An(obj), cursor as int, count, last).is_ok(),
        resolve(text, MotionType::Inner(obj), cursor as int, count, last).is_ok(),
        extent(resolve(text, MotionType::An(obj), cursor as int, count, last).unwrap()) >= extent(
            resolve(text, MotionType::Inner(obj), cursor as int, count, last).unwrap(),
        ),
{
    lemma_a_word_covers_inner_word(text, cursor, count, obj == TextObject::BigWord);
}

/// Resolving a motion reads nothing but the characters of the buffer, the
/// cursor, the count and the last character search: against two buffers
/// that hold the same text, or twice against one that has not changed, it
/// gives the same.
pub proof fn lemma_resolution_repeats(
    a: &Rope,
    b: &Rope,
    m: MotionType,
    cursor: usize,
    total: nat,
    last: Option<CharQuery>,
)
    requires
        rope_text(a) == rope_text(b),
    ensures
        resolve(rope_text(a), m, cursor as int, total, last) == resolve(rope_text(b), m, cursor as int, total, last),
        query_after(m, total, last) == query_after(m, total, last),
{
}

} // verus!
