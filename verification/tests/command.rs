use ttt::command::{Command, ParseError};
use ttt::motion::{Motion, MotionType};
use ttt::scan::Direction;
use ttt::text_object::TextObject;

fn once(mo: MotionType) -> Motion {
    Motion { count: 1, mo }
}

#[test]
fn operator_alone_is_incomplete() {
    assert_eq!(Command::parse("d"), Err(ParseError::Incomplete));
    assert_eq!(Command::parse("c"), Err(ParseError::Incomplete));
    assert_eq!(Command::parse("y"), Err(ParseError::Incomplete));
}

#[test]
fn operator_with_motion() {
    assert_eq!(
        Command::parse("dw"),
        Ok(Command::Delete(once(MotionType::Word(Direction::Forward))))
    );
    assert_eq!(
        Command::parse("cb"),
        Ok(Command::Change(once(MotionType::Word(Direction::Backward))))
    );
    assert_eq!(
        Command::parse("y$"),
        Ok(Command::Copy(once(MotionType::EndOfLine)))
    );
}

#[test]
fn doubled_operator_is_whole_line() {
    assert_eq!(Command::parse("dd"), Ok(Command::Delete(once(MotionType::WholeLine))));
    assert_eq!(Command::parse("cc"), Ok(Command::Change(once(MotionType::WholeLine))));
    assert_eq!(Command::parse("yy"), Ok(Command::Copy(once(MotionType::WholeLine))));
    assert_eq!(Command::parse("dc"), Err(ParseError::Unknown));
}

#[test]
fn count_after_operator() {
    assert_eq!(
        Command::parse("d3w"),
        Ok(Command::Delete(Motion {
            count: 3,
            mo: MotionType::Word(Direction::Forward)
        }))
    );
    assert_eq!(
        Command::parse("d12dd"),
        Ok(Command::Delete(Motion {
            count: 12,
            mo: MotionType::WholeLine
        }))
    );
}

#[test]
fn count_before_operator() {
    assert_eq!(
        Command::parse("3dw"),
        Ok(Command::Delete(Motion {
            count: 3,
            mo: MotionType::Word(Direction::Forward)
        }))
    );
    assert_eq!(
        Command::parse("12cc"),
        Ok(Command::Change(Motion {
            count: 12,
            mo: MotionType::WholeLine
        }))
    );
    assert_eq!(
        Command::parse("2yiw"),
        Ok(Command::Copy(Motion {
            count: 2,
            mo: MotionType::Inner(TextObject::Word)
        }))
    );
    assert_eq!(
        Command::parse("0dw"),
        Ok(Command::Delete(Motion {
            count: 0,
            mo: MotionType::Word(Direction::Forward)
        }))
    );
    assert_eq!(Command::parse("3"), Err(ParseError::Incomplete));
    assert_eq!(Command::parse("3d"), Err(ParseError::Incomplete));
    assert_eq!(Command::parse("3d2"), Err(ParseError::Incomplete));
    assert_eq!(Command::parse("3df"), Err(ParseError::Incomplete));
    assert_eq!(Command::parse("3dz"), Err(ParseError::Unknown));
    assert_eq!(Command::parse("3x"), Err(ParseError::Unknown));
    assert_eq!(Command::parse("3p"), Err(ParseError::Unknown));
}

#[test]
fn counts_before_and_after_an_operator_multiply() {
    assert_eq!(
        Command::parse("3d2w"),
        Ok(Command::Delete(Motion {
            count: 6,
            mo: MotionType::Word(Direction::Forward)
        }))
    );
    assert_eq!(
        Command::parse("3d0w"),
        Ok(Command::Delete(Motion {
            count: 0,
            mo: MotionType::Word(Direction::Forward)
        }))
    );
    let half = usize::MAX / 2 + 1;
    assert_eq!(
        Command::parse(&format!("2d{}w", half)),
        Err(ParseError::Invalid)
    );
    assert_eq!(
        Command::parse(&format!("1d{}w", usize::MAX)),
        Ok(Command::Delete(Motion {
            count: usize::MAX,
            mo: MotionType::Word(Direction::Forward)
        }))
    );
    assert_eq!(
        Command::parse("99999999999999999999999999dw"),
        Err(ParseError::Invalid)
    );
    assert_eq!(
        Command::parse("2d99999999999999999999999999w"),
        Err(ParseError::Invalid)
    );
}

#[test]
fn bare_motion_is_a_move() {
    assert_eq!(
        Command::parse("w"),
        Ok(Command::Move(once(MotionType::Word(Direction::Forward))))
    );
    assert_eq!(
        Command::parse("3w"),
        Ok(Command::Move(Motion {
            count: 3,
            mo: MotionType::Word(Direction::Forward)
        }))
    );
    assert_eq!(
        Command::parse("0w"),
        Ok(Command::Move(Motion {
            count: 0,
            mo: MotionType::Word(Direction::Forward)
        }))
    );
    assert_eq!(
        Command::parse("007j"),
        Ok(Command::Move(Motion {
            count: 7,
            mo: MotionType::Line(Direction::Forward)
        }))
    );
}

#[test]
fn insert_commands() {
    assert_eq!(
        Command::parse("i"),
        Ok(Command::Insert {
            at: None,
            new_line: false
        })
    );
    assert_eq!(
        Command::parse("a"),
        Ok(Command::Insert {
            at: Some(once(MotionType::Char(Direction::Forward))),
            new_line: false
        })
    );
    assert_eq!(
        Command::parse("I"),
        Ok(Command::Insert {
            at: Some(once(MotionType::StartOfLine)),
            new_line: false
        })
    );
    assert_eq!(
        Command::parse("A"),
        Ok(Command::Insert {
            at: Some(once(MotionType::EndOfLine)),
            new_line: false
        })
    );
    assert_eq!(
        Command::parse("iw"),
        Ok(Command::Insert {
            at: None,
            new_line: false
        })
    );
}

#[test]
fn put_replace_and_x() {
    assert_eq!(Command::parse("p"), Ok(Command::Put { consume: true }));
    assert_eq!(Command::parse("P"), Ok(Command::Put { consume: false }));
    assert_eq!(Command::parse("r"), Err(ParseError::Incomplete));
    assert_eq!(Command::parse("rq"), Ok(Command::ReplaceChar('q')));
    assert_eq!(Command::parse("r\u{e9}x"), Ok(Command::ReplaceChar('\u{e9}')));
    assert_eq!(
        Command::parse("x"),
        Ok(Command::Delete(once(MotionType::Char(Direction::Forward))))
    );
}

#[test]
fn empty_and_unknown() {
    assert_eq!(Command::parse(""), Err(ParseError::Incomplete));
    assert_eq!(Command::parse("z"), Err(ParseError::Unknown));
    assert_eq!(Command::parse("o"), Err(ParseError::Unknown));
    assert_eq!(Command::parse("dz"), Err(ParseError::Unknown));
}

#[test]
fn count_alone_is_incomplete() {
    assert_eq!(Command::parse("3"), Err(ParseError::Incomplete));
    assert_eq!(Command::parse("d42"), Err(ParseError::Incomplete));
    assert_eq!(Motion::parse("12", None), Err(ParseError::Incomplete));
}

#[test]
fn count_too_large_is_invalid() {
    assert_eq!(
        Command::parse("99999999999999999999999999w"),
        Err(ParseError::Invalid)
    );
    assert_eq!(
        Command::parse("d99999999999999999999999999"),
        Err(ParseError::Invalid)
    );
    let max = format!("{}w", usize::MAX);
    assert_eq!(
        Motion::parse(&max, None),
        Ok(Motion {
            count: usize::MAX,
            mo: MotionType::Word(Direction::Forward)
        })
    );
    let over = format!("{}0w", usize::MAX);
    assert_eq!(Motion::parse(&over, None), Err(ParseError::Invalid));
}

#[test]
fn single_key_motions() {
    let table = [
        ("h", MotionType::Char(Direction::Backward)),
        ("j", MotionType::Line(Direction::Forward)),
        ("k", MotionType::Line(Direction::Backward)),
        ("l", MotionType::Char(Direction::Forward)),
        ("w", MotionType::Word(Direction::Forward)),
        ("b", MotionType::Word(Direction::Backward)),
        ("W", MotionType::BigWord(Direction::Forward)),
        ("B", MotionType::BigWord(Direction::Backward)),
        ("e", MotionType::EndOfWord(Direction::Forward)),
        ("E", MotionType::EndOfBigWord(Direction::Forward)),
        ("n", MotionType::NextSearchMatch(Direction::Forward)),
        ("N", MotionType::NextSearchMatch(Direction::Backward)),
        ("^", MotionType::StartOfLine),
        ("$", MotionType::EndOfLine),
        ("_", MotionType::WholeLine),
        (";", MotionType::RepeatNextChar { opposite: false }),
        (",", MotionType::RepeatNextChar { opposite: true }),
    ];
    for (keys, mo) in table.iter() {
        assert_eq!(Motion::parse(keys, None), Ok(once(*mo)), "{}", keys);
    }
}

#[test]
fn two_key_motions() {
    assert_eq!(Motion::parse("g", None), Err(ParseError::Incomplete));
    assert_eq!(
        Motion::parse("ge", None),
        Ok(once(MotionType::EndOfWord(Direction::Backward)))
    );
    assert_eq!(
        Motion::parse("gE", None),
        Ok(once(MotionType::EndOfBigWord(Direction::Backward)))
    );
    assert_eq!(
        Motion::parse("g;", None),
        Ok(once(MotionType::RepeatNextChar { opposite: true }))
    );
    assert_eq!(Motion::parse("gg", None), Err(ParseError::Unknown));
}

#[test]
fn find_char_motions() {
    assert_eq!(Motion::parse("f", None), Err(ParseError::Incomplete));
    assert_eq!(
        Motion::parse("fx", None),
        Ok(once(MotionType::NextChar {
            c: 'x',
            place_before: false,
            direction: Direction::Forward
        }))
    );
    assert_eq!(
        Motion::parse("Fx", None),
        Ok(once(MotionType::NextChar {
            c: 'x',
            place_before: false,
            direction: Direction::Backward
        }))
    );
    assert_eq!(
        Motion::parse("tx", None),
        Ok(once(MotionType::NextChar {
            c: 'x',
            place_before: true,
            direction: Direction::Forward
        }))
    );
    assert_eq!(
        Motion::parse("2T.", None),
        Ok(Motion {
            count: 2,
            mo: MotionType::NextChar {
                c: '.',
                place_before: true,
                direction: Direction::Backward
            }
        })
    );
}

#[test]
fn text_objects_need_an_operator() {
    assert_eq!(Motion::parse("iw", None), Err(ParseError::Unknown));
    assert_eq!(Motion::parse("aw", None), Err(ParseError::Unknown));
    assert_eq!(
        Motion::parse("iw", Some('d')),
        Ok(once(MotionType::Inner(TextObject::Word)))
    );
    assert_eq!(
        Motion::parse("aW", Some('d')),
        Ok(once(MotionType::An(TextObject::BigWord)))
    );
    assert_eq!(
        Motion::parse("ip", Some('y')),
        Ok(once(MotionType::Inner(TextObject::Paragraph)))
    );
    assert_eq!(Motion::parse("i", Some('d')), Err(ParseError::Incomplete));
    assert_eq!(Motion::parse("iz", Some('d')), Err(ParseError::Unknown));
}

#[test]
fn block_selectors() {
    let pairs = [
        ('{', '{'),
        ('}', '{'),
        ('(', '('),
        (')', '('),
        ('[', '['),
        (']', '['),
        ('<', '<'),
        ('>', '<'),
        ('"', '"'),
        ('\'', '\''),
    ];
    for (sel, open) in pairs.iter() {
        let keys = format!("di{}", sel);
        assert_eq!(
            Command::parse(&keys),
            Ok(Command::Delete(once(MotionType::Inner(TextObject::Block(
                *open
            ))))),
            "{}",
            keys
        );
        let keys = format!("ca{}", sel);
        assert_eq!(
            Command::parse(&keys),
            Ok(Command::Change(once(MotionType::An(TextObject::Block(
                *open
            ))))),
            "{}",
            keys
        );
    }
}

#[test]
fn what_follows_a_command_is_not_read() {
    assert_eq!(
        Command::parse("dwzzz"),
        Ok(Command::Delete(once(MotionType::Word(Direction::Forward))))
    );
    assert_eq!(Command::parse("pq"), Ok(Command::Put { consume: true }));
}

#[test]
fn operator_character_after_other_operator() {
    assert_eq!(
        Motion::parse("h", Some('h')),
        Ok(once(MotionType::Char(Direction::Backward)))
    );
    assert_eq!(Motion::parse("q", Some('q')), Ok(once(MotionType::WholeLine)));
}
