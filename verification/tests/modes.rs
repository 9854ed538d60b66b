use ttt::command::{Command, ParseError};
use ttt::model::Tree;
use ttt::modes::{
    is_control_char, CmdMode, CursorShape, EditMode, InsertMode, KeyCode, KeyInput, ModeKind,
    Modifiers, TreeAction, TreeMode,
};
use ttt::motion::{Motion, MotionType};
use ttt::presenter::{Presenter, StorageAction};
use ttt::scan::Direction;
use ttt::view_state::{ViewError, ViewState};

const NONE: Modifiers = Modifiers {
    shift: false,
    control: false,
    alt: false,
    logo: false,
};
const SHIFT: Modifiers = Modifiers {
    shift: true,
    control: false,
    alt: false,
    logo: false,
};
const CONTROL: Modifiers = Modifiers {
    shift: false,
    control: true,
    alt: false,
    logo: false,
};
const ALT: Modifiers = Modifiers {
    shift: false,
    control: false,
    alt: true,
    logo: false,
};

fn key(code: KeyCode) -> KeyInput {
    KeyInput {
        code,
        text: None,
        pressed: true,
    }
}

fn typed(text: &str) -> KeyInput {
    KeyInput {
        code: KeyCode::Other,
        text: Some(text.to_string()),
        pressed: true,
    }
}

fn outline() -> ViewState {
    // 1: root, children [2, 3]; 2: children [4]
    let mut t = Tree::default();
    t.add_node("a".to_string(), 1);
    t.add_node("b".to_string(), 1);
    t.add_node("c".to_string(), 2);
    ViewState::new(Presenter::new(t, None))
}

fn editing(text: &str) -> ViewState {
    let mut v = outline();
    v.presenter.update_node_text(1, text.to_string());
    v.begin_editing(false);
    v
}

fn edit(v: &ViewState) -> (usize, String) {
    let (cursor, buf) = v.cur_edit.as_ref().unwrap();
    (*cursor, buf.to_string())
}

#[test]
fn names_and_cursors() {
    assert_eq!(TreeMode.name(), "TREE");
    assert_eq!(EditMode::new().name(), "EDIT");
    assert_eq!(InsertMode.name(), "INSERT");
    assert_eq!(CmdMode {}.name(), "CMD");
    assert_eq!(TreeMode.cursor_shape(), None);
    assert_eq!(EditMode::new().cursor_shape(), Some(CursorShape::Block));
    assert_eq!(InsertMode.cursor_shape(), Some(CursorShape::Line));
    assert_eq!(CmdMode {}.cursor_shape(), Some(CursorShape::Line));
    assert_eq!(ModeKind::Tree(TreeMode).name(), "TREE");
    assert_eq!(ModeKind::Edit(EditMode::new()).name(), "EDIT");
    assert_eq!(ModeKind::Insert(InsertMode).name(), "INSERT");
    assert_eq!(ModeKind::Cmd(CmdMode {}).name(), "CMD");
    assert_eq!(ModeKind::Tree(TreeMode).cursor_shape(), None);
    assert_eq!(
        ModeKind::Insert(InsertMode).cursor_shape(),
        Some(CursorShape::Line)
    );
}

#[test]
fn modifiers() {
    assert!(NONE.is_empty());
    assert!(!SHIFT.is_empty());
    assert!(!CONTROL.is_empty());
    assert!(!ALT.is_empty());
    assert!(!Modifiers {
        shift: false,
        control: false,
        alt: false,
        logo: true
    }
    .is_empty());
}

#[test]
fn control_characters() {
    assert!(is_control_char('\u{0}'));
    assert!(is_control_char('\u{1b}'));
    assert!(is_control_char('\n'));
    assert!(is_control_char('\u{7f}'));
    assert!(is_control_char('\u{9f}'));
    assert!(!is_control_char(' '));
    assert!(!is_control_char('a'));
    assert!(!is_control_char('\u{a0}'));
    for c in ['\u{0}', '\u{1f}', ' ', '~', '\u{7f}', '\u{80}', '\u{9f}', '\u{a0}', '\u{e9}'] {
        assert_eq!(is_control_char(c), c.is_control());
    }
}

#[test]
fn keys_are_recognised_one_by_one() {
    let mut m = EditMode::new();
    assert_eq!(m.feed("d"), None);
    assert_eq!(m.cmd_buffer, "d");
    assert_eq!(
        m.feed("w"),
        Some(Ok(Command::Delete(Motion {
            count: 1,
            mo: MotionType::Word(Direction::Forward)
        })))
    );
    assert_eq!(m.cmd_buffer, "");
    assert_eq!(m.feed("3"), None);
    assert_eq!(m.feed("1"), None);
    assert_eq!(m.cmd_buffer, "31");
    assert_eq!(
        m.feed("j"),
        Some(Ok(Command::Move(Motion {
            count: 31,
            mo: MotionType::Line(Direction::Forward)
        })))
    );
    assert_eq!(m.cmd_buffer, "");
    assert_eq!(m.feed("z"), Some(Err(ParseError::Unknown)));
    assert_eq!(m.cmd_buffer, "");
    assert_eq!(m.feed("d"), None);
    assert_eq!(m.feed("z"), Some(Err(ParseError::Unknown)));
    assert_eq!(m.cmd_buffer, "");
    assert_eq!(m.feed(""), None);
    assert_eq!(m.feed("dd"), Some(Ok(Command::Delete(Motion {
        count: 1,
        mo: MotionType::WholeLine
    }))));
    assert_eq!(m.feed("9999999999999999999"), None);
    assert_eq!(m.feed("9"), Some(Err(ParseError::Invalid)));
    assert_eq!(m.cmd_buffer, "");
}

#[test]
fn edit_mode_runs_commands() {
    let mut v = editing("hello world");
    let mut m = EditMode::new();
    assert_eq!(m.process_key(&typed("d"), &NONE, &mut v), None);
    assert_eq!(edit(&v), (0, "hello world".to_string()));
    assert_eq!(m.process_key(&typed("w"), &NONE, &mut v), None);
    assert_eq!(edit(&v), (0, "world".to_string()));
    assert_eq!(
        m.process_key(&typed("i"), &NONE, &mut v),
        Some(ModeKind::Insert(InsertMode))
    );
    assert_eq!(m.process_key(&typed("g"), &NONE, &mut v), None);
    assert_eq!(m.process_key(&typed("x"), &NONE, &mut v), None);
    assert_eq!(v.prev_error, Some(ViewError::BadKeys("gx".to_string())));
    assert_eq!(m.cmd_buffer, "");
    assert_eq!(edit(&v), (0, "world".to_string()));
}

#[test]
fn edit_mode_leaves_other_keys_alone() {
    let mut v = editing("hello world");
    let mut m = EditMode::new();
    assert_eq!(m.process_key(&typed("x"), &SHIFT, &mut v), None);
    assert_eq!(m.process_key(&typed("x"), &CONTROL, &mut v), None);
    let mut up = typed("x");
    up.pressed = false;
    assert_eq!(m.process_key(&up, &NONE, &mut v), None);
    assert_eq!(m.process_key(&key(KeyCode::Enter), &NONE, &mut v), None);
    assert_eq!(edit(&v), (0, "hello world".to_string()));
    assert_eq!(m.cmd_buffer, "");
    assert_eq!(m.process_key(&key(KeyCode::Escape), &SHIFT, &mut v), None);
    assert!(v.cur_edit.is_some());
}

#[test]
fn edit_mode_escape_ends_the_edit() {
    let mut v = editing("hello world");
    let mut m = EditMode::new();
    m.process_key(&typed("x"), &NONE, &mut v);
    assert_eq!(
        m.process_key(&key(KeyCode::Escape), &NONE, &mut v),
        Some(ModeKind::Tree(TreeMode))
    );
    assert!(v.cur_edit.is_none());
    assert_eq!(v.presenter.model().node(1).text, "ello world");
}

#[test]
fn insert_mode_keys() {
    let mut v = editing("ab");
    let mut m = InsertMode;
    assert_eq!(m.process_key(&key(KeyCode::ArrowRight), &NONE, &mut v), None);
    assert_eq!(edit(&v), (1, "ab".to_string()));
    assert_eq!(m.process_key(&key(KeyCode::Enter), &NONE, &mut v), None);
    assert_eq!(edit(&v), (2, "a\nb".to_string()));
    assert_eq!(m.process_key(&key(KeyCode::Backspace), &NONE, &mut v), None);
    assert_eq!(edit(&v), (1, "ab".to_string()));
    assert_eq!(m.process_key(&key(KeyCode::ArrowLeft), &NONE, &mut v), None);
    assert_eq!(m.process_key(&key(KeyCode::ArrowLeft), &NONE, &mut v), None);
    assert_eq!(m.process_key(&key(KeyCode::Backspace), &NONE, &mut v), None);
    assert_eq!(edit(&v), (0, "ab".to_string()));
    for _ in 0..5 {
        m.process_key(&key(KeyCode::ArrowRight), &NONE, &mut v);
    }
    assert_eq!(edit(&v), (2, "ab".to_string()));
    assert_eq!(m.process_key(&key(KeyCode::KeyJ), &NONE, &mut v), None);
    assert_eq!(m.process_key(&key(KeyCode::Backspace), &SHIFT, &mut v), None);
    let mut up = key(KeyCode::Backspace);
    up.pressed = false;
    assert_eq!(m.process_key(&up, &NONE, &mut v), None);
    assert_eq!(edit(&v), (2, "ab".to_string()));
    assert_eq!(
        m.process_key(&key(KeyCode::Tab), &NONE, &mut v),
        Some(ModeKind::Edit(EditMode::new()))
    );
    assert!(v.cur_edit.is_some());
    assert_eq!(
        m.process_key(&key(KeyCode::Escape), &NONE, &mut v),
        Some(ModeKind::Tree(TreeMode))
    );
    assert!(v.cur_edit.is_none());
    assert_eq!(v.presenter.model().node(1).text, "ab");
}

#[test]
fn insert_mode_characters() {
    let mut v = editing("ab");
    let mut m = InsertMode;
    assert_eq!(m.process_char('x', &NONE, &mut v), None);
    assert_eq!(m.process_char('\u{8}', &NONE, &mut v), None);
    assert_eq!(m.process_char('\u{1b}', &NONE, &mut v), None);
    assert_eq!(m.process_char('\n', &NONE, &mut v), None);
    assert_eq!(m.process_char('\u{e9}', &SHIFT, &mut v), None);
    assert_eq!(edit(&v), (3, "x\n\u{e9}ab".to_string()));
}

#[test]
fn command_mode_keys() {
    let mut v = outline();
    v.begin_command_edit();
    let mut m = CmdMode {};
    assert_eq!(
        m.process_key(&typed("s"), &NONE, &mut v),
        (None, StorageAction::Nothing)
    );
    assert_eq!(
        m.process_key(&typed(" "), &SHIFT, &mut v),
        (None, StorageAction::Nothing)
    );
    assert_eq!(
        m.process_key(&typed("ab"), &NONE, &mut v),
        (None, StorageAction::Nothing)
    );
    assert_eq!(
        m.process_key(&key(KeyCode::Backspace), &NONE, &mut v),
        (None, StorageAction::Nothing)
    );
    let mut up = typed("zzz");
    up.pressed = false;
    assert_eq!(
        m.process_key(&up, &NONE, &mut v),
        (None, StorageAction::Nothing)
    );
    assert_eq!(
        m.process_key(&key(KeyCode::Tab), &NONE, &mut v),
        (None, StorageAction::Nothing)
    );
    {
        let (cursor, buf) = v.cur_cmd.as_ref().unwrap();
        assert_eq!((*cursor, buf.to_string()), (3, "s a".to_string()));
    }
    assert_eq!(
        m.process_key(&key(KeyCode::Enter), &NONE, &mut v),
        (
            Some(ModeKind::Tree(TreeMode)),
            StorageAction::Sync(Some("a".to_string()))
        )
    );
    assert!(v.cur_cmd.is_none());
    v.begin_command_edit();
    m.process_key(&typed("q"), &NONE, &mut v);
    assert_eq!(
        m.process_key(&key(KeyCode::Escape), &NONE, &mut v),
        (Some(ModeKind::Tree(TreeMode)), StorageAction::Nothing)
    );
    assert!(v.cur_cmd.is_none());
    assert!(!v.presenter.should_exit());
}

#[test]
fn tree_actions() {
    let table = [
        (KeyCode::KeyJ, NONE, TreeAction::Down),
        (KeyCode::KeyK, NONE, TreeAction::Up),
        (KeyCode::KeyL, NONE, TreeAction::In),
        (KeyCode::KeyH, NONE, TreeAction::Out),
        (KeyCode::KeyJ, CONTROL, TreeAction::SwapDown),
        (KeyCode::KeyK, CONTROL, TreeAction::SwapUp),
        (KeyCode::KeyH, CONTROL, TreeAction::Raise),
        (KeyCode::KeyL, CONTROL, TreeAction::Nothing),
        (KeyCode::KeyX, CONTROL, TreeAction::Nothing),
        (KeyCode::KeyI, NONE, TreeAction::Insert { at_end: true }),
        (KeyCode::KeyI, SHIFT, TreeAction::Insert { at_end: false }),
        (KeyCode::KeyE, NONE, TreeAction::Edit),
        (KeyCode::KeyC, NONE, TreeAction::NewChild),
        (KeyCode::KeyO, NONE, TreeAction::NewSibling),
        (KeyCode::KeyX, NONE, TreeAction::Delete),
        (KeyCode::KeyY, NONE, TreeAction::Copy),
        (
            KeyCode::KeyP,
            NONE,
            TreeAction::Put {
                consume: false,
                as_child: false,
            },
        ),
        (
            KeyCode::KeyP,
            SHIFT,
            TreeAction::Put {
                consume: true,
                as_child: false,
            },
        ),
        (
            KeyCode::KeyP,
            ALT,
            TreeAction::Put {
                consume: false,
                as_child: true,
            },
        ),
        (KeyCode::KeyF, NONE, TreeAction::Fold),
        (KeyCode::Minus, NONE, TreeAction::Strike),
        (KeyCode::KeyR, NONE, TreeAction::Root),
        (KeyCode::Semicolon, SHIFT, TreeAction::CommandLine),
        (KeyCode::Semicolon, NONE, TreeAction::Nothing),
        (KeyCode::Escape, NONE, TreeAction::Nothing),
        (KeyCode::Other, NONE, TreeAction::Nothing),
    ];
    for (code, mods, action) in table {
        assert_eq!(TreeAction::decide(&key(code), &mods), action, "{:?}", code);
        let mut up = key(code);
        up.pressed = false;
        assert_eq!(TreeAction::decide(&up, &mods), TreeAction::Nothing);
    }
}

#[test]
fn tree_mode_walks() {
    let mut v = outline();
    let mut m = TreeMode;
    assert_eq!(m.process_key(&key(KeyCode::KeyJ), &NONE, &mut v), None);
    assert_eq!(v.cur_node, 2);
    assert_eq!(m.process_key(&key(KeyCode::KeyL), &NONE, &mut v), None);
    assert_eq!(v.cur_node, 4);
    assert_eq!(m.process_key(&key(KeyCode::KeyH), &NONE, &mut v), None);
    assert_eq!(v.cur_node, 2);
    assert_eq!(m.process_key(&key(KeyCode::KeyJ), &NONE, &mut v), None);
    assert_eq!(v.cur_node, 3);
    assert_eq!(m.process_key(&key(KeyCode::KeyK), &NONE, &mut v), None);
    assert_eq!(v.cur_node, 2);
    let mut up = key(KeyCode::KeyJ);
    up.pressed = false;
    assert_eq!(m.process_key(&up, &NONE, &mut v), None);
    assert_eq!(v.cur_node, 2);
}

#[test]
fn tree_mode_rearranges() {
    let mut v = outline();
    let mut m = TreeMode;
    v.cur_node = 2;
    m.process_key(&key(KeyCode::KeyJ), &CONTROL, &mut v);
    assert_eq!(v.presenter.model().node(1).children, vec![3, 2]);
    assert_eq!(v.cur_node, 2);
    m.process_key(&key(KeyCode::KeyK), &CONTROL, &mut v);
    assert_eq!(v.presenter.model().node(1).children, vec![2, 3]);
    v.cur_node = 4;
    m.process_key(&key(KeyCode::KeyH), &CONTROL, &mut v);
    assert_eq!(v.presenter.model().node(1).children, vec![4, 2, 3]);
    m.process_key(&key(KeyCode::Minus), &NONE, &mut v);
    assert!(v.presenter.model().node(4).struckout);
    m.process_key(&key(KeyCode::KeyR), &NONE, &mut v);
    assert_eq!(v.presenter.current_root(), 4);
    v.cur_node = 1;
    m.process_key(&key(KeyCode::KeyF), &NONE, &mut v);
    assert!(v.folded_nodes.contains(&1));
}

#[test]
fn tree_mode_cuts_copies_and_puts() {
    let mut v = outline();
    let mut m = TreeMode;
    v.cur_node = 2;
    assert_eq!(m.process_key(&key(KeyCode::KeyX), &NONE, &mut v), None);
    assert_eq!(v.cur_node, 3);
    assert_eq!(v.presenter.model().node(1).children, vec![3]);
    assert_eq!(m.process_key(&key(KeyCode::KeyP), &SHIFT, &mut v), None);
    assert_eq!(v.cur_node, 2);
    assert_eq!(v.presenter.model().node(1).children, vec![3, 2]);
    assert_eq!(m.process_key(&key(KeyCode::KeyX), &NONE, &mut v), None);
    assert_eq!(v.cur_node, 1);
    assert_eq!(m.process_key(&key(KeyCode::KeyX), &NONE, &mut v), None);
    assert_eq!(v.cur_node, 1);
    v.cur_node = 3;
    assert_eq!(m.process_key(&key(KeyCode::KeyY), &NONE, &mut v), None);
    assert_eq!(m.process_key(&key(KeyCode::KeyP), &ALT, &mut v), None);
    assert_eq!(v.presenter.model().node(3).children, vec![v.cur_node]);
    assert_eq!(v.presenter.model().node(v.cur_node).text, "b");
}

#[test]
fn tree_mode_begins_edits() {
    let mut v = outline();
    let mut m = TreeMode;
    v.presenter.update_node_text(1, "top".to_string());
    assert_eq!(
        m.process_key(&key(KeyCode::KeyI), &NONE, &mut v),
        Some(ModeKind::Insert(InsertMode))
    );
    assert_eq!(edit(&v), (3, "top".to_string()));
    v.finish_editing();
    assert_eq!(
        m.process_key(&key(KeyCode::KeyI), &SHIFT, &mut v),
        Some(ModeKind::Insert(InsertMode))
    );
    assert_eq!(edit(&v), (0, "top".to_string()));
    v.finish_editing();
    assert_eq!(
        m.process_key(&key(KeyCode::KeyE), &NONE, &mut v),
        Some(ModeKind::Edit(EditMode::new()))
    );
    assert_eq!(edit(&v), (0, "top".to_string()));
    v.finish_editing();
    assert_eq!(
        m.process_key(&key(KeyCode::KeyC), &NONE, &mut v),
        Some(ModeKind::Insert(InsertMode))
    );
    assert_eq!(v.cur_node, 5);
    assert_eq!(v.presenter.model().node(1).children, vec![2, 3, 5]);
    assert_eq!(edit(&v), (0, "".to_string()));
    v.finish_editing();
    assert_eq!(
        m.process_key(&key(KeyCode::KeyO), &NONE, &mut v),
        Some(ModeKind::Insert(InsertMode))
    );
    assert_eq!(v.cur_node, 6);
    assert_eq!(v.presenter.model().node(1).children, vec![2, 3, 5, 6]);
    v.finish_editing();
    v.cur_node = 1;
    assert_eq!(m.process_key(&key(KeyCode::KeyO), &NONE, &mut v), None);
    assert!(v.cur_edit.is_none());
    assert_eq!(
        m.process_key(&key(KeyCode::Semicolon), &SHIFT, &mut v),
        Some(ModeKind::Cmd(CmdMode {}))
    );
    assert!(v.cur_cmd.is_some());
}

#[test]
fn a_mode_hands_keys_on() {
    let mut v = outline();
    let mut mode = ModeKind::Tree(TreeMode);
    let (next, action) = mode.process_key(&key(KeyCode::KeyE), &NONE, &mut v);
    assert_eq!(action, StorageAction::Nothing);
    let mut mode = next.unwrap();
    assert_eq!(mode.name(), "EDIT");
    assert_eq!(
        mode.process_key(&typed("A"), &NONE, &mut v),
        (Some(ModeKind::Insert(InsertMode)), StorageAction::Nothing)
    );
    let mut mode = ModeKind::Insert(InsertMode);
    assert_eq!(
        mode.process_key(&key(KeyCode::Escape), &NONE, &mut v),
        (Some(ModeKind::Tree(TreeMode)), StorageAction::Nothing)
    );
    let mut mode = ModeKind::Tree(TreeMode);
    let (next, _) = mode.process_key(&key(KeyCode::Semicolon), &SHIFT, &mut v);
    let mut mode = next.unwrap();
    mode.process_key(&typed("q"), &NONE, &mut v);
    assert_eq!(
        mode.process_key(&key(KeyCode::Enter), &NONE, &mut v),
        (Some(ModeKind::Tree(TreeMode)), StorageAction::Nothing)
    );
    assert!(v.presenter.should_exit());
}
