use std::ops::Range;

use ropey::Rope;
use ttt::motion::{Motion, MotionType};
use ttt::scan::Direction;
use ttt::text_object::TextObject;

fn create_line_test_buffer() -> Rope {
    Rope::from_str("abc\ndef\nghi\n")
}

fn create_word_test_buffer() -> Rope {
    Rope::from_str("word\nw0rd w##d ++++ word\n")
}

fn range_without_find(mo: &Motion, buf: &Rope, cursor_index: usize, multiplier: usize) -> Range<usize> {
    mo.range(buf, cursor_index, multiplier, &mut None).unwrap()
}

fn run_repeated_test<'a>(
    b: &Rope,
    cursor_index: &mut usize,
    mo: &Motion,
    correct_ends: impl Iterator<Item = &'a usize>,
    assert_msg: &str,
) {
    for (i, cwb) in correct_ends.enumerate() {
        let r = range_without_find(mo, b, *cursor_index, 1);
        if r.end != *cwb {
            panic!(
                "{} i={} ci={} actual={} expected={}",
                assert_msg, i, *cursor_index, r.end, *cwb
            );
        }
        *cursor_index = r.end;
    }
}

fn run_repeated_test_then_offset<'a>(
    b: &mut Rope,
    cursor_index: &mut usize,
    mo: &Motion,
    correct_ends: impl Iterator<Item = &'a usize>,
    offset: isize,
    assert_msg: &str,
) {
    for (i, cwb) in correct_ends.enumerate() {
        let r = range_without_find(mo, b, *cursor_index, 1);
        assert_eq!(r.end, *cwb, "{} i={}", assert_msg, i);
        *cursor_index = (r.end as isize + offset) as usize;
    }
}

#[test]
fn txo_char() {
    let b = create_line_test_buffer();
    let mo = Motion {
        mo: MotionType::Char(Direction::Forward),
        count: 1,
    };
    assert_eq!(range_without_find(&mo, &b, 4, 1), 4..5);
}

#[test]
fn txo_line() {
    let b = create_line_test_buffer();
    let mo = Motion {
        mo: MotionType::Line(Direction::Forward),
        count: 1,
    };
    assert_eq!(range_without_find(&mo, &b, 4, 1), 4..8);
}

#[test]
fn txo_start_of_line() {
    let b = create_line_test_buffer();
    let mo = Motion {
        mo: MotionType::StartOfLine,
        count: 1,
    };
    assert_eq!(range_without_find(&mo, &b, 4, 1), 4..4);
}

#[test]
fn txo_end_of_line() {
    let b = create_line_test_buffer();
    let mo = Motion {
        mo: MotionType::EndOfLine,
        count: 1,
    };
    assert_eq!(range_without_find(&mo, &b, 4, 1), 4..7);
}

#[test]
fn txo_line_backward() {
    let b = create_line_test_buffer();
    let mo = Motion {
        mo: MotionType::Line(Direction::Backward),
        count: 1,
    };
    assert_eq!(range_without_find(&mo, &b, 4, 1), 4..0);
}

#[test]
fn txo_word_no_spaces() {
    let mut b = Rope::from_str("word+++word+++ +ope");
    let mo = Motion {
        mo: MotionType::Word(Direction::Forward),
        count: 1,
    };
    let mut ci = 0;
    run_repeated_test(&mut b, &mut ci, &mo, [4, 7, 11, 15].iter(), "forward");
    let mo = Motion {
        mo: MotionType::Word(Direction::Backward),
        count: 1,
    };
    run_repeated_test(&mut b, &mut ci, &mo, [11, 7, 4, 0].iter(), "backward");
}

#[test]
fn txo_word() {
    let mut b = create_word_test_buffer();
    let mo = Motion {
        mo: MotionType::Word(Direction::Forward),
        count: 1,
    };
    let mut ci = 0;
    run_repeated_test(
        &mut b,
        &mut ci,
        &mo,
        [5, 10, 11, 13, 15, 20].iter(),
        "forward",
    );

    let mo = Motion {
        mo: MotionType::Word(Direction::Backward),
        count: 1,
    };
    run_repeated_test(
        &mut b,
        &mut ci,
        &mo,
        [15, 13, 11, 10, 5, 0].iter(),
        "backward",
    );
}

#[test]
fn txo_big_word() {
    let mut b = create_word_test_buffer();
    let mo = Motion {
        mo: MotionType::BigWord(Direction::Forward),
        count: 1,
    };
    let mut ci = 0;
    run_repeated_test(&mut b, &mut ci, &mo, [5, 10, 15].iter(), "forward");

    let mo = Motion {
        mo: MotionType::BigWord(Direction::Backward),
        count: 1,
    };
    run_repeated_test(&mut b, &mut ci, &mo, [10, 5, 0].iter(), "backward");
}

#[test]
fn txo_end_word() {
    let mut b = create_word_test_buffer();
    let mo = Motion {
        mo: MotionType::EndOfWord(Direction::Forward),
        count: 1,
    };
    let mut ci = 0;
    run_repeated_test(
        &mut b,
        &mut ci,
        &mo,
        [3, 8, 10, 12, 13, 18, 23].iter(),
        "forward",
    );

    let mo = Motion {
        mo: MotionType::EndOfWord(Direction::Backward),
        count: 1,
    };
    run_repeated_test(
        &mut b,
        &mut ci,
        &mo,
        [18, 13, 12, 10, 8, 3].iter(),
        "backward",
    );
}

#[test]
fn txo_end_big_word() {
    let mut b = create_word_test_buffer();
    let mo = Motion {
        mo: MotionType::EndOfBigWord(Direction::Forward),
        count: 1,
    };
    let mut ci = 0;
    run_repeated_test(&mut b, &mut ci, &mo, [3, 8, 13, 18, 23].iter(), "forward");

    let mo = Motion {
        mo: MotionType::EndOfBigWord(Direction::Backward),
        count: 1,
    };
    run_repeated_test(&mut b, &mut ci, &mo, [18, 13, 8, 3].iter(), "backward");
}

#[test]
fn txo_find_next_on() {
    let mut b = Rope::from_str("so!me s!ample tex!t");
    let correct = [2, 7, 17];
    let mo = Motion {
        mo: MotionType::NextChar {
            c: '!',
            place_before: false,
            direction: Direction::Forward,
        },
        count: 1,
    };
    let mut ci = 0;
    run_repeated_test(&mut b, &mut ci, &mo, correct.iter(), "forward, place on");

    let mo = Motion {
        mo: MotionType::NextChar {
            c: '!',
            place_before: false,
            direction: Direction::Backward,
        },
        count: 1,
    };
    run_repeated_test(
        &mut b,
        &mut ci,
        &mo,
        correct.iter().rev().skip(1),
        "backward, place on",
    );
}

#[test]
fn txo_find_next_before() {
    let mut b = Rope::from_str("so!me s!ample tex!t");
    let mo = Motion {
        mo: MotionType::NextChar {
            c: '!',
            place_before: true,
            direction: Direction::Forward,
        },
        count: 1,
    };
    let mut ci = 0;
    run_repeated_test_then_offset(
        &mut b,
        &mut ci,
        &mo,
        [1, 6, 16].iter(),
        1,
        "forward, place before",
    );

    let mo = Motion {
        mo: MotionType::NextChar {
            c: '!',
            place_before: true,
            direction: Direction::Backward,
        },
        count: 1,
    };
    run_repeated_test_then_offset(
        &mut b,
        &mut ci,
        &mo,
        [8, 3].iter(),
        -1,
        "backward, place before",
    );
}

#[test]
fn txo_object_a_word() {
    let b = Rope::from_str(" word   w0rd wr+d");
    let mut mo = Motion {
        mo: MotionType::An(TextObject::Word),
        count: 1,
    };
    assert_eq!(range_without_find(&mo, &b, 3, 1), 1..7);
    mo.count += 1;
    assert_eq!(range_without_find(&mo, &b, 3, 1), 1..12);
    mo.count += 1;
    assert_eq!(range_without_find(&mo, &b, 3, 1), 1..14);

    mo.count = 1;
    assert_eq!(range_without_find(&mo, &b, 6, 1), 5..11);
}

#[test]
fn txo_object_inner_word() {
    let b = Rope::from_str(" word  word+ ");
    let mut mo = Motion {
        mo: MotionType::Inner(TextObject::Word),
        count: 1,
    };
    assert_eq!(range_without_find(&mo, &b, 3, 1), 1..4);
    mo.count += 1;
    assert_eq!(range_without_find(&mo, &b, 3, 1), 1..6);
    mo.count += 1;
    assert_eq!(range_without_find(&mo, &b, 3, 1), 1..10);

    mo.count = 1;
    assert_eq!(range_without_find(&mo, &b, 6, 1), 5..6);
}

#[test]
fn txo_object_a_bigword() {
    let b = Rope::from_str(" wor+   w0rd wr+d");
    let mut mo = Motion {
        mo: MotionType::An(TextObject::BigWord),
        count: 1,
    };
    assert_eq!(range_without_find(&mo, &b, 3, 1), 1..7);
    mo.count += 1;
    assert_eq!(range_without_find(&mo, &b, 3, 1), 1..12);
    mo.count += 1;
    assert_eq!(range_without_find(&mo, &b, 3, 1), 1..16);

    mo.count = 1;
    assert_eq!(range_without_find(&mo, &b, 6, 1), 5..11);
}

#[test]
fn txo_object_inner_bigword() {
    let b = Rope::from_str(" w--d  w--d+ ");
    let mut mo = Motion {
        mo: MotionType::Inner(TextObject::BigWord),
        count: 1,
    };
    assert_eq!(range_without_find(&mo, &b, 3, 1), 1..4);
    mo.count += 1;
    assert_eq!(range_without_find(&mo, &b, 3, 1), 1..6);
    mo.count += 1;
    assert_eq!(range_without_find(&mo, &b, 3, 1), 1..12);

    mo.count = 1;
    assert_eq!(range_without_find(&mo, &b, 6, 1), 5..6);
}

#[test]
fn txo_object_a_block() {
    let b = Rope::from_str("<(bl(o)ck) {\nblock\n}>");
    let mut mo = Motion {
        mo: MotionType::An(TextObject::Block('<')),
        count: 1,
    };

    let mut cursor_index = 0;
    assert_eq!(range_without_find(&mo, &b, cursor_index, 1), 0..20, "on <");
    cursor_index += 3;
    assert_eq!(range_without_find(&mo, &b, cursor_index, 1), 0..20, "in <");

    cursor_index = 1;
    mo.mo = MotionType::An(TextObject::Block('('));
    assert_eq!(
        range_without_find(&mo, &b, cursor_index, 1),
        1..9,
        "on first ("
    );
    cursor_index += 2;
    assert_eq!(
        range_without_find(&mo, &b, cursor_index, 1),
        1..9,
        "in first ("
    );

    cursor_index += 2;
    assert_eq!(
        range_without_find(&mo, &b, cursor_index, 1),
        4..6,
        "in nested ("
    );

    cursor_index = 15;
    mo.mo = MotionType::An(TextObject::Block('{'));
    assert_eq!(range_without_find(&mo, &b, cursor_index, 1), 11..19, "in {{");
}

#[test]
fn txo_object_inner_block() {
    let b = Rope::from_str("<(bl(o)ck) {\nblock\n}>");
    let mut mo = Motion {
        mo: MotionType::Inner(TextObject::Block('<')),
        count: 1,
    };

    let mut cursor_index = 0;
    assert_eq!(range_without_find(&mo, &b, cursor_index, 1), 1..19, "on <");
    cursor_index += 3;
    assert_eq!(range_without_find(&mo, &b, cursor_index, 1), 1..19, "in <");

    cursor_index = 1;
    mo.mo = MotionType::Inner(TextObject::Block('('));
    assert_eq!(
        range_without_find(&mo, &b, cursor_index, 1),
        2..8,
        "on first ("
    );
    cursor_index += 2;
    assert_eq!(
        range_without_find(&mo, &b, cursor_index, 1),
        2..8,
        "in first ("
    );

    cursor_index += 2;
    assert_eq!(
        range_without_find(&mo, &b, cursor_index, 1),
        5..5,
        "in nested ("
    );

    cursor_index = 15;
    mo.mo = MotionType::Inner(TextObject::Block('{'));
    assert_eq!(range_without_find(&mo, &b, cursor_index, 1), 12..18, "in {{");
}
