//! The modes of the editor, the keys they take, and what each key does in
//! each mode.

use vstd::prelude::*;
use vstd::string::{StringExecFns};
use crate::command::{Command, ParseError, parse_command};
use crate::model::NodeId;
use crate::presenter::{StorageAction};
use crate::view_state::{ViewError, ViewState, text_of, cursor_of};

verus! {

/// The shape of the cursor.
#[derive(Debug, PartialEq, Eq, Copy, Clone, Structural)]
pub enum CursorShape {
    Block,
    Line,
}

/// The keys that the modes tell apart.
#[derive(Debug, PartialEq, Eq, Copy, Clone, Structural)]
pub enum KeyCode {
    KeyC,
    KeyE,
    KeyF,
    KeyH,
    KeyI,
    KeyJ,
    KeyK,
    KeyL,
    KeyO,
    KeyP,
    KeyR,
    KeyX,
    KeyY,
    Minus,
    Semicolon,
    Escape,
    Backspace,
    Enter,
    Tab,
    ArrowLeft,
    ArrowRight,
    /// Any other key.
    Other,
}

/// The modifier keys that are held down.
#[derive(Debug, PartialEq, Eq, Copy, Clone, Structural)]
pub struct Modifiers {
    pub shift: bool,
    pub control: bool,
    pub alt: bool,
    pub logo: bool,
}

impl Modifiers {
    /// No modifier key is held down.
    pub open spec fn none(self) -> bool {
        !self.shift && !self.control && !self.alt && !self.logo
    }

    /// Whether no modifier key is held down.
    pub fn is_empty(&self) -> (b: bool)
        ensures
            b == self.none(),
    {
        !self.shift && !self.control && !self.alt && !self.logo
    }
}

/// A key that went down or up: the key, the text it types, if it types
/// any, and whether it went down.
#[derive(Debug, PartialEq, Eq, Clone)]
pub struct KeyInput {
    pub code: KeyCode,
    pub text: Option<String>,
    pub pressed: bool,
}

/// The mode in which the outline is walked and rearranged.
#[derive(Debug, Default, PartialEq, Eq, Copy, Clone, Structural)]
pub struct TreeMode;

/// The mode in which characters typed go into the text.
#[derive(Debug, PartialEq, Eq, Copy, Clone, Structural)]
pub struct InsertMode;

/// The mode in which a command line is typed.
#[derive(Debug, Default, PartialEq, Eq, Copy, Clone, Structural)]
pub struct CmdMode {}

/// The mode in which keys spell commands on the text. It holds the keys
/// typed so far that do not yet make a command.
#[derive(Debug, PartialEq, Eq, Clone)]
pub struct EditMode {
    pub cmd_buffer: String,
}

/// A mode of the editor.
#[derive(Debug, PartialEq, Eq, Clone)]
pub enum ModeKind {
    Tree(TreeMode),
    Edit(EditMode),
    Insert(InsertMode),
    Cmd(CmdMode),
}

/// What a key asks for in tree mode.
#[derive(Debug, PartialEq, Eq, Copy, Clone, Structural)]
pub enum TreeAction {
    Nothing,
    SwapDown,
    SwapUp,
    Raise,
    Down,
    Up,
    In,
    Out,
    Insert { at_end: bool },
    Edit,
    NewChild,
    NewSibling,
    Delete,
    Copy,
    Put { consume: bool, as_child: bool },
    Fold,
    Strike,
    Root,
    CommandLine,
}

impl TreeAction {
    /// What a key asks for in tree mode: with Control held, J and K exchange
    /// the node with a sibling and H raises it beside its parent; without, the
    /// letters walk, edit and rearrange the outline, and Shift with the
    /// semicolon opens the command line. A key that goes up asks for
    /// nothing.
    pub open spec fn of(code: KeyCode, pressed: bool, mods: Modifiers) -> TreeAction {
        if !pressed {
            TreeAction::Nothing
        } else if mods.control {
            match code {
                KeyCode::KeyJ => TreeAction::SwapDown,
                KeyCode::KeyK => TreeAction::SwapUp,
                KeyCode::KeyH => TreeAction::Raise,
                _ => TreeAction::Nothing,
            }
        } else {
            match code {
                KeyCode::KeyJ => TreeAction::Down,
                KeyCode::KeyK => TreeAction::Up,
                KeyCode::KeyL => TreeAction::In,
                KeyCode::KeyH => TreeAction::Out,
                KeyCode::KeyI => TreeAction::Insert { at_end: !mods.shift },
                KeyCode::KeyE => TreeAction::Edit,
                KeyCode::KeyC => TreeAction::NewChild,
                KeyCode::KeyO => TreeAction::NewSibling,
                KeyCode::KeyX => TreeAction::Delete,
                KeyCode::KeyY => TreeAction::Copy,
                KeyCode::KeyP => TreeAction::Put { consume: mods.shift, as_child: mods.alt },
                KeyCode::KeyF => TreeAction::Fold,
                KeyCode::Minus => TreeAction::Strike,
                KeyCode::KeyR => TreeAction::Root,
                KeyCode::Semicolon => if mods.shift {
                    TreeAction::CommandLine
                } else {
                    TreeAction::Nothing
                },
                _ => TreeAction::Nothing,
            }
        }
    }

    /// Decides what a key asks for in tree mode.
    pub fn decide(input: &KeyInput, mods: &Modifiers) -> (a: TreeAction)
        ensures
            a == TreeAction::of(input.code, input.pressed, *mods),
    {
        if !input.pressed {
            TreeAction::Nothing
        } else if mods.control {
            match input.code {
                KeyCode::KeyJ => TreeAction::SwapDown,
                KeyCode::KeyK => TreeAction::SwapUp,
                KeyCode::KeyH => TreeAction::Raise,
                _ => TreeAction::Nothing,
            }
        } else {
            match input.code {
                KeyCode::KeyJ => TreeAction::Down,
                KeyCode::KeyK => TreeAction::Up,
                KeyCode::KeyL => TreeAction::In,
                KeyCode::KeyH => TreeAction::Out,
                KeyCode::KeyI => TreeAction::Insert { at_end: !mods.shift },
                KeyCode::KeyE => TreeAction::Edit,
                KeyCode::KeyC => TreeAction::NewChild,
                KeyCode::KeyO => TreeAction::NewSibling,
                KeyCode::KeyX => TreeAction::Delete,
                KeyCode::KeyY => TreeAction::Copy,
                KeyCode::KeyP => TreeAction::Put { consume: mods.shift, as_child: mods.alt },
                KeyCode::KeyF => TreeAction::Fold,
                KeyCode::Minus => TreeAction::Strike,
                KeyCode::KeyR => TreeAction::Root,
                KeyCode::Semicolon => if mods.shift {
                    TreeAction::CommandLine
                } else {
                    TreeAction::Nothing
                },
                _ => TreeAction::Nothing,
            }
        }
    }
}

/// Whether nothing but the presenter has changed between two states.
pub open spec fn same_but_presenter(new: &ViewState, old: &ViewState) -> bool {
    &&& new.cur_node == old.cur_node
    &&& new.cur_edit == old.cur_edit
    &&& new.cur_cmd == old.cur_cmd
    &&& new.prev_error == old.prev_error
    &&& new.folded_nodes == old.folded_nodes
    &&& new.last_char_query == old.last_char_query
}

/// Whether an edit has begun on the node under the cursor, at the start of
/// its text, and nothing else but the presenter and the cursor's node has
/// changed.
pub open spec fn editing_from_start(new: &ViewState, old: &ViewState) -> bool {
    &&& new.cur_edit.is_some()
    &&& text_of(new.cur_edit) == new.presenter@.tree.nodes[new.cur_node].text
    &&& cursor_of(new.cur_edit) == 0
    &&& new.cur_cmd == old.cur_cmd
    &&& new.prev_error == old.prev_error
    &&& new.folded_nodes == old.folded_nodes
    &&& new.last_char_query == old.last_char_query
}

/// The node that the cursor goes to when the node under it is cut out: the
/// sibling after it, or else its parent.
pub open spec fn after_delete(old: &ViewState) -> NodeId {
    let t = old.presenter@.tree;
    match t.nodes[old.cur_node].parent_link() {
        Some(p) => match t.next_sibling(old.cur_node) {
            Some(n) => n,
            None => p,
        },
        None => old.cur_node,
    }
}

/// What an action of tree mode does to the state, and the mode that
/// follows it.
pub open spec fn tree_step(old: &ViewState, new: &ViewState, action: TreeAction, next: Option<ModeKind>) -> bool {
    let before = old.presenter@;
    let after = new.presenter@;
    match action {
        TreeAction::Nothing => *new == *old && next.is_none(),
        TreeAction::SwapDown => after.swapped(before, old.cur_node, 1isize) && same_but_presenter(new, old)
            && next.is_none(),
        TreeAction::SwapUp => after.swapped(before, old.cur_node, -1isize) && same_but_presenter(new, old)
            && next.is_none(),
        TreeAction::Raise => (if before.tree.nodes[old.cur_node].parent != old.cur_node {
            after.raised(before, old.cur_node)
        } else {
            new.presenter == old.presenter
        }) && same_but_presenter(new, old) && next.is_none(),
        TreeAction::Down => new.moved_down(old) && next.is_none(),
        TreeAction::Up => new.moved_up(old) && next.is_none(),
        TreeAction::In => new.entered(old) && next.is_none(),
        TreeAction::Out => new.exited(old) && next.is_none(),
        TreeAction::Insert { at_end } => new.began_editing(old, at_end) && next matches Some(ModeKind::Insert(_)),
        TreeAction::Edit => new.began_editing(old, false) && (next matches Some(ModeKind::Edit(m))
            && m.cmd_buffer@.len() == 0),
        TreeAction::NewChild => after.gave_child(before, old.cur_node, new.cur_node) && editing_from_start(
            new,
            old,
        ) && next matches Some(ModeKind::Insert(_)),
        TreeAction::NewSibling => match before.tree.nodes[old.cur_node].parent_link() {
            Some(_) => after.gave_sibling(before, old.cur_node, Some(new.cur_node)) && editing_from_start(
                new,
                old,
            ) && next matches Some(ModeKind::Insert(_)),
            None => after.gave_sibling(before, old.cur_node, None) && same_but_presenter(new, old)
                && next.is_none(),
        },
        TreeAction::Delete => after.deleted(before, old.cur_node, before.tree.nodes[old.cur_node].parent_link())
            && new.cur_node == after_delete(old) && new.cur_edit == old.cur_edit && new.cur_cmd == old.cur_cmd
            && new.prev_error == old.prev_error && new.folded_nodes == old.folded_nodes
            && new.last_char_query == old.last_char_query && next.is_none(),
        TreeAction::Copy => after.copied(before, old.cur_node) && same_but_presenter(new, old) && next.is_none(),
        TreeAction::Put { consume, as_child } => (if before.snip_nodes.len() > 0 {
            after.put(before, old.cur_node, consume, as_child, Some(new.cur_node))
        } else {
            after.put(before, old.cur_node, consume, as_child, None) && new.cur_node == old.cur_node
        }) && new.cur_edit == old.cur_edit && new.cur_cmd == old.cur_cmd && new.prev_error == old.prev_error
            && new.folded_nodes == old.folded_nodes && new.last_char_query == old.last_char_query
            && next.is_none(),
        TreeAction::Fold => new.toggled_fold(old) && next.is_none(),
        TreeAction::Strike => after.struck(before, old.cur_node) && same_but_presenter(new, old) && next.is_none(),
        TreeAction::Root => after.rerooted(before, old.cur_node) && same_but_presenter(new, old) && next.is_none(),
        TreeAction::CommandLine => new.began_command(old) && next matches Some(ModeKind::Cmd(_)),
    }
}

impl TreeMode {
    /// Carries out what a key asks for in tree mode, and gives the mode to
    /// go to, if the key leaves tree mode. A node that is its own parent is
    /// not raised.
    pub fn process_key(&mut self, input: &KeyInput, mods: &Modifiers, view_state: &mut ViewState) -> (next: Option<
        ModeKind,
    >)
        requires
            old(view_state).wf(),
            old(view_state).cur_edit.is_none(),
            old(view_state).cur_cmd.is_none(),
            old(view_state).presenter@.ids_left(),
        ensures
            final(view_state).wf(),
            tree_step(
                old(view_state),
                final(view_state),
                TreeAction::of(input.code, input.pressed, *mods),
                next,
            ),
    {
        let cur = view_state.cur_node;
        match TreeAction::decide(input, mods) {
            TreeAction::Nothing => None,
            TreeAction::SwapDown => {
                view_state.presenter.swap_node(cur, 1);
                None
            },
            TreeAction::SwapUp => {
                view_state.presenter.swap_node(cur, -1);
                None
            },
            TreeAction::Raise => {
                if view_state.presenter.model().node(cur).parent != cur {
                    view_state.presenter.make_child_sibling(cur);
                }
                None
            },
            TreeAction::Down => {
                view_state.move_to_next_child();
                None
            },
            TreeAction::Up => {
                view_state.move_to_prev_child();
                None
            },
            TreeAction::In => {
                view_state.enter_node();
                None
            },
            TreeAction::Out => {
                view_state.exit_node();
                None
            },
            TreeAction::Insert { at_end } => {
                view_state.begin_editing(at_end);
                Some(ModeKind::Insert(InsertMode))
            },
            TreeAction::Edit => {
                view_state.begin_editing(false);
                Some(ModeKind::Edit(EditMode::new()))
            },
            TreeAction::NewChild => {
                view_state.cur_node = view_state.presenter.insert_node_as_child(cur);
                view_state.begin_editing(false);
                Some(ModeKind::Insert(InsertMode))
            },
            TreeAction::NewSibling => {
                match view_state.presenter.insert_node_in_parent(cur) {
                    Some(nn) => {
                        view_state.cur_node = nn;
                        view_state.begin_editing(false);
                        Some(ModeKind::Insert(InsertMode))
                    },
                    None => None,
                }
            },
            TreeAction::Delete => {
                let nc = view_state.presenter.model().next_child(cur);
                proof {
                    let t = view_state.presenter@.tree;
                    assert(t.has(cur));
                    let p = t.nodes[cur].parent;
                    if p != crate::model::ROOT_PARENT_ID {
                        assert(t.has(p));
                        crate::model::lemma_position(t.nodes[p].children, cur, 0);
                        match crate::model::position(t.nodes[p].children, cur) {
                            Some(ix) => {
                                if ix + 1 < t.nodes[p].children.len() {
                                    assert(t.has(t.nodes[p].children[ix + 1]));
                                }
                            },
                            None => {},
                        }
                    }
                }
                match view_state.presenter.delete_node(cur) {
                    Some(nn) => {
                        view_state.cur_node = match nc {
                            Some(n) => n,
                            None => nn,
                        };
                    },
                    None => {},
                }
                None
            },
            TreeAction::Copy => {
                view_state.presenter.copy_node(cur);
                None
            },
            TreeAction::Put { consume, as_child } => {
                match view_state.presenter.put_node(cur, consume, as_child) {
                    Some(nn) => {
                        view_state.cur_node = nn;
                    },
                    None => {},
                }
                None
            },
            TreeAction::Fold => {
                view_state.toggle_folded();
                None
            },
            TreeAction::Strike => {
                view_state.presenter.toggle_strikeout(cur);
                None
            },
            TreeAction::Root => {
                view_state.presenter.set_current_root(cur);
                None
            },
            TreeAction::CommandLine => {
                view_state.begin_command_edit();
                Some(ModeKind::Cmd(CmdMode {  }))
            },
        }
    }

    /// The name of the mode.
    pub fn name(&self) -> (n: &'static str)
        ensures
            n@ == "TREE"@,
    {
        "TREE"
    }

    /// Tree mode shows no cursor of its own.
    pub fn cursor_shape(&self) -> (s: Option<CursorShape>)
        ensures
            s.is_none(),
    {
        None
    }
}

/// What the keys typed so far come to with the keys typed now: a command,
/// an error, or `None` while they are the beginning of a command.
pub open spec fn recognized(buffer: Seq<char>, keys: Seq<char>) -> Option<Result<Command, ParseError>> {
    match parse_command(buffer + keys) {
        Ok(c) => Some(Ok(c)),
        Err(ParseError::Incomplete) => None,
        Err(e) => Some(Err(e)),
    }
}

/// The keys that are kept for the next key: all of them while they are the
/// beginning of a command, none once they have come to a command or to an
/// error.
pub open spec fn kept_keys(buffer: Seq<char>, keys: Seq<char>) -> Seq<char> {
    if recognized(buffer, keys).is_none() {
        buffer + keys
    } else {
        Seq::empty()
    }
}

/// What a key does to the state in edit mode, and the mode that follows.
pub open spec fn edit_step(
    old: &ViewState,
    new: &ViewState,
    buffer: Seq<char>,
    input: KeyInput,
    mods: Modifiers,
    next: Option<ModeKind>,
) -> bool {
    if !mods.none() || !input.pressed {
        *new == *old && next.is_none()
    } else if input.code == KeyCode::Escape {
        new.finished_editing(old) && next matches Some(ModeKind::Tree(_))
    } else {
        match input.text {
            Some(keys) => match recognized(buffer, keys@) {
                Some(Ok(cmd)) => new.ran_normal_cmd(old, cmd, next),
                Some(Err(_)) => (new.prev_error matches Some(ViewError::BadKeys(k)) && k@ == buffer + keys@)
                    && new.presenter == old.presenter && new.cur_node == old.cur_node && new.cur_edit
                    == old.cur_edit && new.cur_cmd == old.cur_cmd && new.folded_nodes == old.folded_nodes
                    && new.last_char_query == old.last_char_query && next.is_none(),
                None => *new == *old && next.is_none(),
            },
            None => *new == *old && next.is_none(),
        }
    }
}

impl EditMode {
    /// Edit mode with no keys typed yet.
    pub fn new() -> (m: EditMode)
        ensures
            m.cmd_buffer@ == Seq::<char>::empty(),
    {
        EditMode { cmd_buffer: String::new() }
    }

    /// Takes the keys typed now after those typed so far, and reads all of
    /// them as a command. A command or an error is handed out and the keys
    /// are dropped; the beginning of a command is kept for the next key.
    pub fn feed(&mut self, keys: &str) -> (r: Option<Result<Command, ParseError>>)
        ensures
            r == recognized(old(self).cmd_buffer@, keys@),
            final(self).cmd_buffer@ == kept_keys(old(self).cmd_buffer@, keys@),
    {
        self.cmd_buffer.append(keys);
        match Command::parse(self.cmd_buffer.as_str()) {
            Ok(cmd) => {
                self.cmd_buffer = String::new();
                Some(Ok(cmd))
            },
            Err(ParseError::Incomplete) => None,
            Err(e) => {
                self.cmd_buffer = String::new();
                Some(Err(e))
            },
        }
    }

    /// Takes a key in edit mode: Escape ends the edit, and a key that
    /// types is read, with the keys before it, as a command on the text.
    /// Keys with a modifier, and keys that go up, do nothing.
    pub fn process_key(&mut self, input: &KeyInput, mods: &Modifiers, view_state: &mut ViewState) -> (next: Option<
        ModeKind,
    >)
        requires
            old(view_state).wf(),
            old(view_state).cur_edit.is_some(),
        ensures
            final(view_state).wf(),
            edit_step(old(view_state), final(view_state), old(self).cmd_buffer@, *input, *mods, next),
            final(self).cmd_buffer@ == (if mods.none() && input.pressed && input.code != KeyCode::Escape
                && input.text.is_some() {
                kept_keys(old(self).cmd_buffer@, input.text.unwrap()@)
            } else {
                old(self).cmd_buffer@
            }),
    {
        if !mods.is_empty() || !input.pressed {
            return None;
        }
        if input.code == KeyCode::Escape {
            view_state.finish_editing();
            return Some(ModeKind::Tree(TreeMode));
        }
        match &input.text {
            Some(keys) => {
                let mut typed = self.cmd_buffer.clone();
                typed.append(keys.as_str());
                match self.feed(keys.as_str()) {
                    Some(Ok(cmd)) => view_state.process_normal_cmd(cmd),
                    Some(Err(_)) => {
                        view_state.prev_error = Some(ViewError::BadKeys(typed));
                        None
                    },
                    None => None,
                }
            },
            None => None,
        }
    }

    /// The name of the mode.
    pub fn name(&self) -> (n: &'static str)
        ensures
            n@ == "EDIT"@,
    {
        "EDIT"
    }

    /// Edit mode shows a block cursor.
    pub fn cursor_shape(&self) -> (s: Option<CursorShape>)
        ensures
            s == Some(CursorShape::Block),
    {
        Some(CursorShape::Block)
    }
}

/// A control character: one of the general category `Cc`.
pub open spec fn control_char(c: char) -> bool {
    c <= '\u{1f}' || ('\u{7f}' <= c && c <= '\u{9f}')
}

/// Whether `c` is a control character.
pub fn is_control_char(c: char) -> (b: bool)
    ensures
        b == control_char(c),
{
    c <= '\u{1f}' || ('\u{7f}' <= c && c <= '\u{9f}')
}

/// What a key does to the state in insert mode, and the mode that follows.
pub open spec fn insert_step(
    old: &ViewState,
    new: &ViewState,
    code: KeyCode,
    pressed: bool,
    mods: Modifiers,
    next: Option<ModeKind>,
) -> bool {
    if !mods.none() || !pressed {
        *new == *old && next.is_none()
    } else {
        match code {
            KeyCode::Tab => *new == *old && (next matches Some(ModeKind::Edit(m)) && m.cmd_buffer@.len() == 0),
            KeyCode::Escape => new.finished_editing(old) && next matches Some(ModeKind::Tree(_)),
            KeyCode::Backspace => new.erased(old) && next.is_none(),
            KeyCode::Enter => new.typed(old, '\n') && next.is_none(),
            KeyCode::ArrowLeft => new.moved_cursor(old, false) && next.is_none(),
            KeyCode::ArrowRight => new.moved_cursor(old, true) && next.is_none(),
            _ => *new == *old && next.is_none(),
        }
    }
}

impl InsertMode {
    /// Takes a key in insert mode: Tab goes to edit mode, Escape ends the
    /// edit, Backspace erases, Enter breaks the line, and the arrows move
    /// the cursor. Keys with a modifier, and keys that go up, do nothing.
    pub fn process_key(&mut self, input: &KeyInput, mods: &Modifiers, view_state: &mut ViewState) -> (next: Option<
        ModeKind,
    >)
        requires
            old(view_state).wf(),
            old(view_state).cur_edit.is_some(),
        ensures
            final(view_state).wf(),
            insert_step(old(view_state), final(view_state), input.code, input.pressed, *mods, next),
    {
        if !mods.is_empty() || !input.pressed {
            return None;
        }
        match input.code {
            KeyCode::Tab => Some(ModeKind::Edit(EditMode::new())),
            KeyCode::Escape => {
                view_state.finish_editing();
                Some(ModeKind::Tree(TreeMode))
            },
            KeyCode::Backspace => {
                view_state.delete_before_cursor();
                None
            },
            KeyCode::Enter => {
                view_state.insert_at_cursor('\n');
                None
            },
            KeyCode::ArrowLeft => {
                view_state.move_cursor(false);
                None
            },
            KeyCode::ArrowRight => {
                view_state.move_cursor(true);
                None
            },
            _ => None,
        }
    }

    /// Takes a character that was typed in insert mode: it goes into the
    /// text at the cursor, unless it is a control character other than the
    /// line feed.
    pub fn process_char(&mut self, c: char, mods: &Modifiers, view_state: &mut ViewState) -> (next: Option<
        ModeKind,
    >)
        requires
            old(view_state).wf(),
            old(view_state).cur_edit.is_some(),
        ensures
            final(view_state).wf(),
            next.is_none(),
            if control_char(c) && c != '\n' {
                *final(view_state) == *old(view_state)
            } else {
                final(view_state).typed(old(view_state), c)
            },
    {
        if is_control_char(c) && c != '\n' {
            return None;
        }
        view_state.insert_at_cursor(c);
        None
    }

    /// The name of the mode.
    pub fn name(&self) -> (n: &'static str)
        ensures
            n@ == "INSERT"@,
    {
        "INSERT"
    }

    /// Insert mode shows a line cursor.
    pub fn cursor_shape(&self) -> (s: Option<CursorShape>)
        ensures
            s == Some(CursorShape::Line),
    {
        Some(CursorShape::Line)
    }
}

/// What a key does to the state in command mode, the mode that follows,
/// and what is asked of the storage.
pub open spec fn cmd_step(
    old: &ViewState,
    new: &ViewState,
    input: KeyInput,
    next: Option<ModeKind>,
    action: StorageAction,
) -> bool {
    if !input.pressed {
        *new == *old && next.is_none() && action is Nothing
    } else {
        match input.code {
            KeyCode::Escape => new.aborted_command(old) && (next matches Some(ModeKind::Tree(_)))
                && action is Nothing,
            KeyCode::Backspace => new.erased_in_command(old) && next.is_none() && action is Nothing,
            KeyCode::Enter => new.ran_command(old, action) && next matches Some(ModeKind::Tree(_)),
            _ => match input.text {
                Some(typed) => new.typed_in_command(old, typed@) && next.is_none() && action is Nothing,
                None => *new == *old && next.is_none() && action is Nothing,
            },
        }
    }
}

impl CmdMode {
    /// Takes a key in command mode: Escape drops the command line, Enter
    /// carries it out, Backspace erases, and a key that types goes into the
    /// line. Keys that go up do nothing. Beside the mode to go to, what the
    /// command line asks of the storage is handed back.
    pub fn process_key(&mut self, input: &KeyInput, mods: &Modifiers, view_state: &mut ViewState) -> (r: (
        Option<ModeKind>,
        StorageAction,
    ))
        requires
            old(view_state).wf(),
            old(view_state).cur_cmd.is_some(),
        ensures
            final(view_state).wf(),
            cmd_step(old(view_state), final(view_state), *input, r.0, r.1),
    {
        if !input.pressed {
            return (None, StorageAction::Nothing);
        }
        match input.code {
            KeyCode::Escape => {
                view_state.abort_command_edit();
                (Some(ModeKind::Tree(TreeMode)), StorageAction::Nothing)
            },
            KeyCode::Backspace => {
                view_state.delete_in_command();
                (None, StorageAction::Nothing)
            },
            KeyCode::Enter => {
                let action = view_state.process_command();
                (Some(ModeKind::Tree(TreeMode)), action)
            },
            _ => {
                match &input.text {
                    Some(typed) => {
                        view_state.type_in_command(typed.as_str());
                    },
                    None => {},
                }
                (None, StorageAction::Nothing)
            },
        }
    }

    /// The name of the mode.
    pub fn name(&self) -> (n: &'static str)
        ensures
            n@ == "CMD"@,
    {
        "CMD"
    }

    /// Command mode shows a line cursor.
    pub fn cursor_shape(&self) -> (s: Option<CursorShape>)
        ensures
            s == Some(CursorShape::Line),
    {
        Some(CursorShape::Line)
    }
}

impl ModeKind {
    /// The name of the mode.
    pub fn name(&self) -> (n: &'static str)
        ensures
            n@ == (match self {
                ModeKind::Tree(_) => "TREE"@,
                ModeKind::Edit(_) => "EDIT"@,
                ModeKind::Insert(_) => "INSERT"@,
                ModeKind::Cmd(_) => "CMD"@,
            }),
    {
        match self {
            ModeKind::Tree(m) => m.name(),
            ModeKind::Edit(m) => m.name(),
            ModeKind::Insert(m) => m.name(),
            ModeKind::Cmd(m) => m.name(),
        }
    }

    /// The shape of the cursor in the mode.
    pub fn cursor_shape(&self) -> (s: Option<CursorShape>)
        ensures
            s == (match self {
                ModeKind::Tree(_) => None,
                ModeKind::Edit(_) => Some(CursorShape::Block),
                ModeKind::Insert(_) => Some(CursorShape::Line),
                ModeKind::Cmd(_) => Some(CursorShape::Line),
            }),
    {
        match self {
            ModeKind::Tree(m) => m.cursor_shape(),
            ModeKind::Edit(m) => m.cursor_shape(),
            ModeKind::Insert(m) => m.cursor_shape(),
            ModeKind::Cmd(m) => m.cursor_shape(),
        }
    }

    /// Whether the state fits the mode: a text is being edited in edit and
    /// insert mode and nothing else, a command line is being typed in
    /// command mode and nothing else, and neither in tree mode.
    pub open spec fn fits(&self, v: &ViewState) -> bool {
        &&& v.wf()
        &&& match self {
            ModeKind::Tree(_) => v.cur_edit.is_none() && v.cur_cmd.is_none(),
            ModeKind::Edit(_) => v.cur_edit.is_some() && v.cur_cmd.is_none(),
            ModeKind::Insert(_) => v.cur_edit.is_some() && v.cur_cmd.is_none(),
            ModeKind::Cmd(_) => v.cur_cmd.is_some() && v.cur_edit.is_none(),
        }
    }

    /// Hands a key to the mode: see the `process_key` of each mode. Gives
    /// the mode to go to, if the key leaves the mode, and what is asked of
    /// the storage.
    pub fn process_key(&mut self, input: &KeyInput, mods: &Modifiers, view_state: &mut ViewState) -> (r: (
        Option<ModeKind>,
        StorageAction,
    ))
        requires
            old(self).fits(old(view_state)),
            (*old(self) is Tree) ==> old(view_state).presenter@.ids_left(),
        ensures
            final(view_state).wf(),
            match r.0 {
                Some(next) => next.fits(final(view_state)),
                None => final(self).fits(final(view_state)),
            },
            match *old(self) {
                ModeKind::Tree(_) => tree_step(
                    old(view_state),
                    final(view_state),
                    TreeAction::of(input.code, input.pressed, *mods),
                    r.0,
                ) && r.1 is Nothing,
                ModeKind::Edit(m) => edit_step(
                    old(view_state),
                    final(view_state),
                    m.cmd_buffer@,
                    *input,
                    *mods,
                    r.0,
                ) && r.1 is Nothing,
                ModeKind::Insert(_) => insert_step(
                    old(view_state),
                    final(view_state),
                    input.code,
                    input.pressed,
                    *mods,
                    r.0,
                ) && r.1 is Nothing,
                ModeKind::Cmd(_) => cmd_step(old(view_state), final(view_state), *input, r.0, r.1),
            },
    {
        match self {
            ModeKind::Tree(m) => (m.process_key(input, mods, view_state), StorageAction::Nothing),
            ModeKind::Edit(m) => (m.process_key(input, mods, view_state), StorageAction::Nothing),
            ModeKind::Insert(m) => (m.process_key(input, mods, view_state), StorageAction::Nothing),
            ModeKind::Cmd(m) => m.process_key(input, mods, view_state),
        }
    }
}

} // verus!
