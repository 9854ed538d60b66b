use ttt::editor::{Editor, UiEvent};
use ttt::model::Tree;
use ttt::modes::{KeyCode, KeyInput, Modifiers};
use ttt::presenter::{trunc_str, Presenter, StorageAction};
use ttt::view_state::ViewError;

const NONE: Modifiers = Modifiers {
    shift: false,
    control: false,
    alt: false,
    logo: false,
};
const SHIFT: Modifiers = Modifiers {
    shift: true,
    control: false,
    alt: false,
    logo: false,
};

fn editor(storage: Option<&str>) -> Editor {
    // 1: root, children [2, 3]; 2: children [4]
    let mut t = Tree::default();
    t.add_node("a".to_string(), 1);
    t.add_node("b".to_string(), 1);
    t.add_node("c".to_string(), 2);
    Editor::new(Presenter::new(t, storage.map(|s| s.to_string())))
}

fn press(e: &mut Editor, code: KeyCode, text: Option<&str>) -> StorageAction {
    let outcome = e.process_event(&UiEvent::Key(KeyInput {
        code,
        text: text.map(|t| t.to_string()),
        pressed: true,
    }));
    outcome.storage
}

fn type_keys(e: &mut Editor, keys: &str) {
    for c in keys.chars() {
        press(e, KeyCode::Other, Some(&c.to_string()));
    }
}

fn text(e: &Editor) -> (usize, String) {
    let (cursor, buf) = e.state.cur_edit.as_ref().unwrap();
    (*cursor, buf.to_string())
}

#[test]
fn labels_are_cut_short() {
    assert_eq!(trunc_str(""), "");
    assert_eq!(trunc_str("short"), "short");
    assert_eq!(trunc_str("exactly15chars!"), "exactly15chars!");
    assert_eq!(trunc_str("sixteen chars!!!"), "sixteen chars!!\u{2026}");
    assert_eq!(trunc_str("two\nlines"), "two");
    assert_eq!(trunc_str("a long first line\nand more"), "a long first li\u{2026}");
    assert_eq!(trunc_str("short\nbut long enough"), "short\u{2026}");
    assert_eq!(trunc_str("\nabc"), "");
    assert_eq!(
        trunc_str("\u{e9}\u{e9}\u{e9}\u{e9}\u{e9}\u{e9}\u{e9}\u{e9}\u{e9}\u{e9}\u{e9}\u{e9}\u{e9}\u{e9}\u{e9}\u{e9}"),
        "\u{e9}\u{e9}\u{e9}\u{e9}\u{e9}\u{e9}\u{e9}\u{e9}\u{e9}\u{e9}\u{e9}\u{e9}\u{e9}\u{e9}\u{e9}\u{2026}"
    );
}

#[test]
fn path_to_the_current_root() {
    let mut e = editor(None);
    e.state.presenter.update_node_text(1, "top".to_string());
    assert_eq!(e.state.presenter.root_path(), vec!["top".to_string()]);
    e.state.presenter.set_current_root(4);
    assert_eq!(
        e.state.presenter.root_path(),
        vec!["c".to_string(), "a".to_string(), "top".to_string()]
    );
}

#[test]
fn a_new_editor_is_in_tree_mode() {
    let e = editor(None);
    assert_eq!(e.cur_mode.name(), "TREE");
    assert_eq!(e.state.cur_node, 1);
    assert!(!e.focused);
    assert!(!e.mode_just_switched);
    assert!(e.mods.is_empty());
}

#[test]
fn modifiers_and_focus_are_recorded() {
    let mut e = editor(None);
    let r = e.process_event(&UiEvent::ModifiersChanged(SHIFT));
    assert_eq!(r.storage, StorageAction::Nothing);
    assert!(!r.exit);
    assert_eq!(e.mods, SHIFT);
    let r = e.process_event(&UiEvent::Focused(true));
    assert_eq!(r.storage, StorageAction::Nothing);
    assert!(e.focused);
    let r = e.process_event(&UiEvent::Focused(false));
    assert_eq!(r.storage, StorageAction::Nothing);
    assert!(!e.focused);
}

#[test]
fn losing_the_focus_writes_the_outline_out() {
    let mut e = editor(Some("./notes"));
    assert_eq!(
        e.process_event(&UiEvent::Focused(true)).storage,
        StorageAction::Nothing
    );
    assert_eq!(
        e.process_event(&UiEvent::Focused(false)).storage,
        StorageAction::Sync(None)
    );
}

#[test]
fn a_session() {
    let mut e = editor(None);
    // down to the first child, and into insertion at the end of its text
    press(&mut e, KeyCode::KeyJ, Some("j"));
    assert_eq!(e.state.cur_node, 2);
    assert!(!e.mode_just_switched);
    press(&mut e, KeyCode::KeyI, Some("i"));
    assert_eq!(e.cur_mode.name(), "INSERT");
    assert!(e.mode_just_switched);
    assert_eq!(text(&e), (1, "a".to_string()));
    type_keys(&mut e, " b");
    assert!(!e.mode_just_switched);
    press(&mut e, KeyCode::Enter, Some("\r"));
    e.process_event(&UiEvent::ModifiersChanged(SHIFT));
    press(&mut e, KeyCode::Other, Some("C"));
    e.process_event(&UiEvent::ModifiersChanged(NONE));
    assert_eq!(text(&e), (5, "a b\nC".to_string()));
    press(&mut e, KeyCode::Backspace, Some("\u{8}"));
    assert_eq!(text(&e), (4, "a b\n".to_string()));
    // over to edit mode, and a command
    press(&mut e, KeyCode::Tab, Some("\t"));
    assert_eq!(e.cur_mode.name(), "EDIT");
    assert_eq!(text(&e), (4, "a b\n".to_string()));
    type_keys(&mut e, "kd");
    assert_eq!(text(&e), (0, "a b\n".to_string()));
    type_keys(&mut e, "w");
    assert_eq!(text(&e), (0, "b\n".to_string()));
    type_keys(&mut e, "q");
    assert_eq!(e.state.prev_error, Some(ViewError::BadKeys("q".to_string())));
    type_keys(&mut e, "A");
    assert_eq!(e.state.prev_error, None);
    assert_eq!(e.cur_mode.name(), "INSERT");
    assert_eq!(text(&e), (1, "b\n".to_string()));
    press(&mut e, KeyCode::Escape, Some("\u{1b}"));
    assert_eq!(e.cur_mode.name(), "TREE");
    assert_eq!(e.state.presenter.model().node(2).text, "b\n");
    assert!(e.state.presenter.tree_modified());
    // a command line
    e.process_event(&UiEvent::ModifiersChanged(SHIFT));
    press(&mut e, KeyCode::Semicolon, Some(":"));
    e.process_event(&UiEvent::ModifiersChanged(NONE));
    assert_eq!(e.cur_mode.name(), "CMD");
    type_keys(&mut e, "s ./out");
    assert_eq!(
        press(&mut e, KeyCode::Enter, Some("\r")),
        StorageAction::Sync(Some("./out".to_string()))
    );
    assert_eq!(e.cur_mode.name(), "TREE");
    e.process_event(&UiEvent::ModifiersChanged(SHIFT));
    press(&mut e, KeyCode::Semicolon, Some(":"));
    e.process_event(&UiEvent::ModifiersChanged(NONE));
    type_keys(&mut e, "q");
    let r = e.process_event(&UiEvent::Key(KeyInput {
        code: KeyCode::Enter,
        text: Some("\r".to_string()),
        pressed: true,
    }));
    assert!(r.exit);
    assert_eq!(r.storage, StorageAction::Nothing);
}

#[test]
fn a_key_that_goes_up_keeps_the_error() {
    let mut e = editor(None);
    e.state.prev_error = Some(ViewError::MissingUrl);
    e.process_event(&UiEvent::Key(KeyInput {
        code: KeyCode::KeyJ,
        text: None,
        pressed: false,
    }));
    assert_eq!(e.state.prev_error, Some(ViewError::MissingUrl));
    assert_eq!(e.state.cur_node, 1);
    press(&mut e, KeyCode::Other, None);
    assert_eq!(e.state.prev_error, None);
}
