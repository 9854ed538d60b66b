//! The command grammar: a key sequence is read, from its first character
//! on, as a motion or as a whole editing command.

use vstd::prelude::*;
use vstd::string::StrSliceExecFns;
use crate::motion::{Motion, MotionType};
use crate::scan::Direction;
use crate::text_object::TextObject;

verus! {

/// Why a key sequence is not a command.
#[derive(Debug, PartialEq, Eq, Copy, Clone, Structural)]
pub enum ParseError {
    /// The sequence is the beginning of a command: more keys are needed.
    Incomplete,
    /// The sequence has the shape of a command but cannot be one: its count
    /// is too large to be held.
    Invalid,
    /// The sequence begins no command.
    Unknown,
}

/// An editing command.
#[derive(Debug, PartialEq, Eq, Copy, Clone, Structural)]
pub enum Command {
    Move(Motion),
    /// Enter insertion, after moving by `at` if it is given, and on a new
    /// line below if `new_line` is set.
    Insert { at: Option<Motion>, new_line: bool },
    ReplaceChar(char),
    Change(Motion),
    Delete(Motion),
    Copy(Motion),
    /// Put back what was last cut or copied, taking it off the stack with
    /// `consume`.
    Put { consume: bool },
}

/// The value of a decimal digit.
pub open spec fn digit_value(c: char) -> Option<nat> {
    if '0' <= c && c <= '9' {
        Some((c as int - '0' as int) as nat)
    } else {
        None
    }
}

/// The number of decimal digits that `s` begins with from index `from` on.
pub open spec fn digits_end(s: Seq<char>, from: int) -> int
    decreases s.len() - from,
{
    if 0 <= from < s.len() && digit_value(s[from]).is_some() {
        digits_end(s, from + 1)
    } else {
        from
    }
}

/// The number that the first `k` characters of `s` spell in decimal, where
/// they are digits.
pub open spec fn decimal(s: Seq<char>, k: int) -> nat
    decreases k,
{
    if k <= 0 || k > s.len() {
        0
    } else {
        decimal(s, k - 1) * 10 + match digit_value(s[k - 1]) {
            Some(d) => d,
            None => 0,
        }
    }
}

/// The character at an index, if the sequence is that long.
pub open spec fn char_at(s: Seq<char>, i: int) -> Option<char> {
    if 0 <= i < s.len() {
        Some(s[i])
    } else {
        None
    }
}

/// The text object that a selector character names.
pub open spec fn object_for(c: char) -> Option<TextObject> {
    if c == 'w' {
        Some(TextObject::Word)
    } else if c == 'W' {
        Some(TextObject::BigWord)
    } else if c == 'p' {
        Some(TextObject::Paragraph)
    } else if c == '{' || c == '}' {
        Some(TextObject::Block('{'))
    } else if c == '(' || c == ')' {
        Some(TextObject::Block('('))
    } else if c == '[' || c == ']' {
        Some(TextObject::Block('['))
    } else if c == '<' || c == '>' {
        Some(TextObject::Block('<'))
    } else if c == '"' {
        Some(TextObject::Block('"'))
    } else if c == '\'' {
        Some(TextObject::Block('\''))
    } else {
        None
    }
}

/// The kind of motion that is spelt at index `i` of `s`: by one character,
/// or by one character and the one after it. After an operator (`opchar`),
/// `i` and `a` begin a text object, and the operator's own character stands
/// for the whole line. A sequence that stops short is `Incomplete`; what
/// comes after the motion is not read.
pub open spec fn kind_at(s: Seq<char>, i: int, opchar: Option<char>) -> Result<MotionType, ParseError> {
    let ch = s[i];
    let next = char_at(s, i + 1);
    if ch == 'h' {
        Ok(MotionType::Char(Direction::Backward))
    } else if ch == 'j' {
        Ok(MotionType::Line(Direction::Forward))
    } else if ch == 'k' {
        Ok(MotionType::Line(Direction::Backward))
    } else if ch == 'l' {
        Ok(MotionType::Char(Direction::Forward))
    } else if ch == 'w' {
        Ok(MotionType::Word(Direction::Forward))
    } else if ch == 'b' {
        Ok(MotionType::Word(Direction::Backward))
    } else if ch == 'W' {
        Ok(MotionType::BigWord(Direction::Forward))
    } else if ch == 'B' {
        Ok(MotionType::BigWord(Direction::Backward))
    } else if ch == 'e' {
        Ok(MotionType::EndOfWord(Direction::Forward))
    } else if ch == 'E' {
        Ok(MotionType::EndOfBigWord(Direction::Forward))
    } else if ch == 'n' {
        Ok(MotionType::NextSearchMatch(Direction::Forward))
    } else if ch == 'N' {
        Ok(MotionType::NextSearchMatch(Direction::Backward))
    } else if ch == 'g' {
        match next {
            None => Err(ParseError::Incomplete),
            Some(x) => if x == 'e' {
                Ok(MotionType::EndOfWord(Direction::Backward))
            } else if x == 'E' {
                Ok(MotionType::EndOfBigWord(Direction::Backward))
            } else if x == ';' {
                Ok(MotionType::RepeatNextChar { opposite: true })
            } else {
                Err(ParseError::Unknown)
            },
        }
    } else if ch == '^' {
        Ok(MotionType::StartOfLine)
    } else if ch == '$' {
        Ok(MotionType::EndOfLine)
    } else if ch == '_' {
        Ok(MotionType::WholeLine)
    } else if ch == 'f' || ch == 'F' || ch == 't' || ch == 'T' {
        match next {
            None => Err(ParseError::Incomplete),
            Some(x) => Ok(
                MotionType::NextChar {
                    c: x,
                    place_before: ch == 't' || ch == 'T',
                    direction: if ch == 'f' || ch == 't' {
                        Direction::Forward
                    } else {
                        Direction::Backward
                    },
                },
            ),
        }
    } else if (ch == 'i' || ch == 'a') && opchar.is_some() {
        match next {
            None => Err(ParseError::Incomplete),
            Some(x) => match object_for(x) {
                None => Err(ParseError::Unknown),
                Some(obj) => if ch == 'i' {
                    Ok(MotionType::Inner(obj))
                } else {
                    Ok(MotionType::An(obj))
                },
            },
        }
    } else if ch == ';' {
        Ok(MotionType::RepeatNextChar { opposite: false })
    } else if ch == ',' {
        Ok(MotionType::RepeatNextChar { opposite: true })
    } else if opchar == Some(ch) {
        Ok(MotionType::WholeLine)
    } else {
        Err(ParseError::Unknown)
    }
}

/// The motion that a key sequence spells: an optional count in decimal,
/// which is 1 where it is left out, and then the kind of motion.
///
/// The empty sequence and a count with nothing after it are `Incomplete`. A
/// count that does not fit in a `usize` is `Invalid`.
pub open spec fn parse_motion(s: Seq<char>, opchar: Option<char>) -> Result<Motion, ParseError> {
    let k = digits_end(s, 0);
    if s.len() == 0 {
        Err(ParseError::Incomplete)
    } else if decimal(s, k) > usize::MAX {
        Err(ParseError::Invalid)
    } else if k >= s.len() {
        Err(ParseError::Incomplete)
    } else {
        match kind_at(s, k, opchar) {
            Err(e) => Err(e),
            Ok(mo) => Ok(
                Motion {
                    count: if k == 0 {
                        1
                    } else {
                        decimal(s, k) as usize
                    },
                    mo: mo,
                },
            ),
        }
    }
}

/// A motion made once.
pub open spec fn once(mo: MotionType) -> Motion {
    Motion { count: 1, mo: mo }
}

/// Whether a character is an operator: `d`, `c` or `y`.
pub open spec fn is_operator(c: char) -> bool {
    c == 'd' || c == 'c' || c == 'y'
}

/// The command of an operator on a motion.
pub open spec fn operator_on(op: char, m: Motion) -> Command {
    if op == 'd' {
        Command::Delete(m)
    } else if op == 'c' {
        Command::Change(m)
    } else {
        Command::Copy(m)
    }
}

/// The command of an operator that is made `times` times, on the motion
/// that the keys after the operator spell: the motion's own count is
/// multiplied by `times`, and a count that does not fit in a `usize` is
/// `Invalid`.
pub open spec fn operator_command(op: char, times: nat, rest: Seq<char>) -> Result<Command, ParseError> {
    match parse_motion(rest, Some(op)) {
        Err(e) => Err(e),
        Ok(m) => if times * m.count > usize::MAX {
            Err(ParseError::Invalid)
        } else {
            Ok(operator_on(op, Motion { count: (times * m.count) as usize, mo: m.mo }))
        },
    }
}

/// The command that a key sequence spells, decided by its first character:
/// the ways into insertion, `p` and `P`, `r` and the character to put in,
/// `x`, an operator (`d`, `c` or `y`) and the motion it acts on, a count
/// and an operator with its motion, or else a bare motion.
pub open spec fn parse_command(s: Seq<char>) -> Result<Command, ParseError> {
    if s.len() == 0 {
        Err(ParseError::Incomplete)
    } else {
        let first = s[0];
        let k = digits_end(s, 0);
        if first == 'i' {
            Ok(Command::Insert { at: None, new_line: false })
        } else if first == 'a' {
            Ok(Command::Insert { at: Some(once(MotionType::Char(Direction::Forward))), new_line: false })
        } else if first == 'I' {
            Ok(Command::Insert { at: Some(once(MotionType::StartOfLine)), new_line: false })
        } else if first == 'A' {
            Ok(Command::Insert { at: Some(once(MotionType::EndOfLine)), new_line: false })
        } else if first == 'p' {
            Ok(Command::Put { consume: true })
        } else if first == 'P' {
            Ok(Command::Put { consume: false })
        } else if first == 'r' {
            match char_at(s, 1) {
                Some(c) => Ok(Command::ReplaceChar(c)),
                None => Err(ParseError::Incomplete),
            }
        } else if first == 'x' {
            Ok(Command::Delete(once(MotionType::Char(Direction::Forward))))
        } else if is_operator(first) {
            operator_command(first, 1, s.subrange(1, s.len() as int))
        } else if 0 < k < s.len() && decimal(s, k) <= usize::MAX && is_operator(s[k]) {
            operator_command(s[k], decimal(s, k), s.subrange(k + 1, s.len() as int))
        } else {
            match parse_motion(s, None) {
                Err(e) => Err(e),
                Ok(m) => Ok(Command::Move(m)),
            }
        }
    }
}

/// The value of a decimal digit, if `c` is one.
pub fn digit_of(c: char) -> (d: Option<usize>)
    ensures
        match digit_value(c) {
            Some(v) => d == Some(v as usize) && v <= 9,
            None => d.is_none(),
        },
{
    if c >= '0' && c <= '9' {
        Some((c as u32 - '0' as u32) as usize)
    } else {
        None
    }
}

/// A longer run of digits spells no smaller number.
proof fn lemma_decimal_grows(s: Seq<char>, j: int, k: int)
    requires
        0 <= j <= k <= s.len(),
    ensures
        decimal(s, j) <= decimal(s, k),
    decreases k - j,
{
    if j < k {
        lemma_decimal_grows(s, j, k - 1);
        assert(decimal(s, k - 1) * 10 >= decimal(s, k - 1)) by (nonlinear_arith);
    }
}

proof fn lemma_digits_end_bounds(s: Seq<char>, from: int)
    requires
        0 <= from <= s.len(),
    ensures
        from <= digits_end(s, from) <= s.len(),
    decreases s.len() - from,
{
    if from < s.len() && digit_value(s[from]).is_some() {
        lemma_digits_end_bounds(s, from + 1);
    }
}

fn object_selector(c: char) -> (r: Option<TextObject>)
    ensures
        r == object_for(c),
{
    if c == 'w' {
        Some(TextObject::Word)
    } else if c == 'W' {
        Some(TextObject::BigWord)
    } else if c == 'p' {
        Some(TextObject::Paragraph)
    } else if c == '{' || c == '}' {
        Some(TextObject::Block('{'))
    } else if c == '(' || c == ')' {
        Some(TextObject::Block('('))
    } else if c == '[' || c == ']' {
        Some(TextObject::Block('['))
    } else if c == '<' || c == '>' {
        Some(TextObject::Block('<'))
    } else if c == '"' {
        Some(TextObject::Block('"'))
    } else if c == '\'' {
        Some(TextObject::Block('\''))
    } else {
        None
    }
}

fn kind_from(s: &str, len: usize, i: usize, opchar: Option<char>) -> (r: Result<MotionType, ParseError>)
    requires
        len == s@.len(),
        i < len,
    ensures
        r == kind_at(s@, i as int, opchar),
{
    let ch = s.get_char(i);
    let next: Option<char> = if i + 1 < len {
        Some(s.get_char(i + 1))
    } else {
        None
    };
    if ch == 'h' {
        Ok(MotionType::Char(Direction::Backward))
    } else if ch == 'j' {
        Ok(MotionType::Line(Direction::Forward))
    } else if ch == 'k' {
        Ok(MotionType::Line(Direction::Backward))
    } else if ch == 'l' {
        Ok(MotionType::Char(Direction::Forward))
    } else if ch == 'w' {
        Ok(MotionType::Word(Direction::Forward))
    } else if ch == 'b' {
        Ok(MotionType::Word(Direction::Backward))
    } else if ch == 'W' {
        Ok(MotionType::BigWord(Direction::Forward))
    } else if ch == 'B' {
        Ok(MotionType::BigWord(Direction::Backward))
    } else if ch == 'e' {
        Ok(MotionType::EndOfWord(Direction::Forward))
    } else if ch == 'E' {
        Ok(MotionType::EndOfBigWord(Direction::Forward))
    } else if ch == 'n' {
        Ok(MotionType::NextSearchMatch(Direction::Forward))
    } else if ch == 'N' {
        Ok(MotionType::NextSearchMatch(Direction::Backward))
    } else if ch == 'g' {
        match next {
            None => Err(ParseError::Incomplete),
            Some(x) => if x == 'e' {
                Ok(MotionType::EndOfWord(Direction::Backward))
            } else if x == 'E' {
                Ok(MotionType::EndOfBigWord(Direction::Backward))
            } else if x == ';' {
                Ok(MotionType::RepeatNextChar { opposite: true })
            } else {
                Err(ParseError::Unknown)
            },
        }
    } else if ch == '^' {
        Ok(MotionType::StartOfLine)
    } else if ch == '$' {
        Ok(MotionType::EndOfLine)
    } else if ch == '_' {
        Ok(MotionType::WholeLine)
    } else if ch == 'f' || ch == 'F' || ch == 't' || ch == 'T' {
        match next {
            None => Err(ParseError::Incomplete),
            Some(x) => Ok(
                MotionType::NextChar {
                    c: x,
                    place_before: ch == 't' || ch == 'T',
                    direction: if ch == 'f' || ch == 't' {
                        Direction::Forward
                    } else {
                        Direction::Backward
                    },
                },
            ),
        }
    } else if (ch == 'i' || ch == 'a') && opchar.is_some() {
        match next {
            None => Err(ParseError::Incomplete),
            Some(x) => match object_selector(x) {
                None => Err(ParseError::Unknown),
                Some(obj) => if ch == 'i' {
                    Ok(MotionType::Inner(obj))
                } else {
                    Ok(MotionType::An(obj))
                },
            },
        }
    } else if ch == ';' {
        Ok(MotionType::RepeatNextChar { opposite: false })
    } else if ch == ',' {
        Ok(MotionType::RepeatNextChar { opposite: true })
    } else {
        match opchar {
            Some(op) => if op == ch {
                Ok(MotionType::WholeLine)
            } else {
                Err(ParseError::Unknown)
            },
            None => Err(ParseError::Unknown),
        }
    }
}

/// Reads the decimal count that a key sequence begins with: the number of
/// its digits, and the count, or `None` where the count does not fit in a
/// `usize`, in which case the number of digits is not told.
fn read_count(c: &str, len: usize) -> (r: (usize, Option<usize>))
    requires
        len == c@.len(),
    ensures
        match r.1 {
            Some(n) => r.0 == digits_end(c@, 0) && n == decimal(c@, digits_end(c@, 0)) && r.0 <= len,
            None => decimal(c@, digits_end(c@, 0)) > usize::MAX,
        },
{
    let ghost k = digits_end(c@, 0);
    proof {
        lemma_digits_end_bounds(c@, 0);
    }
    let mut i: usize = 0;
    let mut num: usize = 0;
    while i < len
        invariant
            i <= len == c@.len(),
            i <= k <= len,
            k == digits_end(c@, 0),
            digits_end(c@, i as int) == k,
            num == decimal(c@, i as int),
        ensures
            i == k,
            num == decimal(c@, k),
        decreases len - i,
    {
        match digit_of(c.get_char(i)) {
            None => {
                break;
            },
            Some(d) => {
                proof {
                    lemma_digits_end_bounds(c@, i + 1);
                    lemma_decimal_grows(c@, i + 1, k);
                }
                if num > (usize::MAX - d) / 10 {
                    assert(num * 10 + d > usize::MAX) by (nonlinear_arith)
                        requires
                            num > (usize::MAX - d) / 10,
                            d <= 9,
                    ;
                    return (i, None);
                }
                assert(num * 10 + d <= usize::MAX) by (nonlinear_arith)
                    requires
                        num <= (usize::MAX - d) / 10,
                        d <= 9,
                ;
                num = num * 10 + d;
                i += 1;
            },
        }
    }
    (i, Some(num))
}

fn operator_of(op: char, m: Motion) -> (c: Command)
    ensures
        c == operator_on(op, m),
{
    if op == 'd' {
        Command::Delete(m)
    } else if op == 'c' {
        Command::Change(m)
    } else {
        Command::Copy(m)
    }
}

/// Reads the motion after an operator and makes the operator's command of
/// it: see [`operator_command`].
fn read_operator(op: char, times: usize, rest: &str) -> (r: Result<Command, ParseError>)
    ensures
        r == operator_command(op, times as nat, rest@),
{
    match Motion::parse(rest, Some(op)) {
        Err(e) => Err(e),
        Ok(m) => {
            if times != 0 && m.count > usize::MAX / times {
                assert(times * m.count > usize::MAX) by (nonlinear_arith)
                    requires
                        times > 0,
                        m.count > usize::MAX / times,
                ;
                Err(ParseError::Invalid)
            } else {
                assert(0 <= times * m.count <= usize::MAX) by (nonlinear_arith)
                    requires
                        times == 0 || m.count <= usize::MAX / times,
                ;
                Ok(operator_of(op, Motion { count: times * m.count, mo: m.mo }))
            }
        },
    }
}

impl Motion {
    /// Reads a motion from the beginning of `c`. `opchar` is the operator
    /// that the motion follows, if it follows one.
    pub fn parse(c: &str, opchar: Option<char>) -> (r: Result<Motion, ParseError>)
        ensures
            r == parse_motion(c@, opchar),
    {
        let len: usize = c.unicode_len();
        if len == 0 {
            return Err(ParseError::Incomplete);
        }
        let (i, count) = read_count(c, len);
        match count {
            None => Err(ParseError::Invalid),
            Some(num) => {
                if i >= len {
                    return Err(ParseError::Incomplete);
                }
                match kind_from(c, len, i, opchar) {
                    Err(e) => Err(e),
                    Ok(mo) => Ok(
                        Motion {
                            count: if i == 0 {
                                1
                            } else {
                                num
                            },
                            mo: mo,
                        },
                    ),
                }
            },
        }
    }
}

impl Command {
    /// Reads a command from the keys typed so far. The whole sequence is
    /// read anew on each call.
    pub fn parse(cmd: &str) -> (r: Result<Command, ParseError>)
        ensures
            r == parse_command(cmd@),
    {
        let len: usize = cmd.unicode_len();
        if len == 0 {
            return Err(ParseError::Incomplete);
        }
        let first = cmd.get_char(0);
        if first == 'i' {
            Ok(Command::Insert { at: None, new_line: false })
        } else if first == 'a' {
            Ok(
                Command::Insert {
                    at: Some(Motion { count: 1, mo: MotionType::Char(Direction::Forward) }),
                    new_line: false,
                },
            )
        } else if first == 'I' {
            Ok(Command::Insert { at: Some(Motion { count: 1, mo: MotionType::StartOfLine }), new_line: false })
        } else if first == 'A' {
            Ok(Command::Insert { at: Some(Motion { count: 1, mo: MotionType::EndOfLine }), new_line: false })
        } else if first == 'p' {
            Ok(Command::Put { consume: true })
        } else if first == 'P' {
            Ok(Command::Put { consume: false })
        } else if first == 'r' {
            if len > 1 {
                Ok(Command::ReplaceChar(cmd.get_char(1)))
            } else {
                Err(ParseError::Incomplete)
            }
        } else if first == 'x' {
            Ok(Command::Delete(Motion { count: 1, mo: MotionType::Char(Direction::Forward) }))
        } else if first == 'd' || first == 'c' || first == 'y' {
            read_operator(first, 1, cmd.substring_char(1, len))
        } else {
            let (k, count) = read_count(cmd, len);
            match count {
                Some(times) => {
                    if 0 < k && k < len {
                        let op = cmd.get_char(k);
                        if op == 'd' || op == 'c' || op == 'y' {
                            return read_operator(op, times, cmd.substring_char(k + 1, len));
                        }
                    }
                },
                None => {},
            }
            match Motion::parse(cmd, None) {
                Err(e) => Err(e),
                Ok(m) => Ok(Command::Move(m)),
            }
        }
    }
}

} // verus!
