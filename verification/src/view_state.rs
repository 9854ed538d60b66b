//! The state of the view: the presenter, the node the cursor is on, and
//! the text that is being edited, with the commands that change it.

use vstd::prelude::*;
use vstd::string::{StrSliceExecFns, StringExecFns};
use std::collections::HashSet;
use std::ops::Range;
use ropey::Rope;
use crate::buffer::{rope_text, remove_range, slice_to_string, rope_to_string};
use crate::command::Command;
use crate::model::{NodeId, ROOT_PARENT_ID};
use crate::modes::ModeKind;
use crate::motion::{CharQuery, MotionType, resolve, query_after};
use crate::presenter::{Presenter, PresenterView, StorageAction, CommandError, ParsedLine, parsed_line};
use crate::text_object::{MotionError, Span};

verus! {

broadcast use vstd::std_specs::hash::group_hash_axioms;

/// What went wrong last, for the status line.
#[derive(Debug, PartialEq, Eq, Clone)]
pub enum ViewError {
    /// A motion that has no resolution was asked for.
    UnsupportedMotion,
    /// A block object was asked for with a character that opens no block.
    NotADelimiter,
    /// The keys typed are no command.
    BadKeys(String),
    /// `e` was given no place to open.
    MissingUrl,
    /// The first word of a command line is no command.
    UnknownCommand(String),
    /// The storage failed; the text says how.
    Storage(String),
    /// The outline has handed out every id there is.
    OutOfIds,
}

impl ViewError {
    /// The error of a motion as an error of the view.
    pub open spec fn of_motion(e: MotionError) -> ViewError {
        match e {
            MotionError::Unsupported => ViewError::UnsupportedMotion,
            MotionError::NotADelimiter => ViewError::NotADelimiter,
        }
    }

    /// The text of the message.
    pub open spec fn message_text(self) -> Seq<char> {
        match self {
            ViewError::UnsupportedMotion => "unsupported motion"@,
            ViewError::NotADelimiter => "no such block"@,
            ViewError::BadKeys(keys) => "unknown/invalid command: "@ + keys@,
            ViewError::MissingUrl => "missing URL"@,
            ViewError::UnknownCommand(cmd) => "unknown command: "@ + cmd@,
            ViewError::Storage(text) => text@,
            ViewError::OutOfIds => "the outline is out of ids"@,
        }
    }

    /// The message to show.
    pub fn message(&self) -> (m: String)
        ensures
            m@ == self.message_text(),
    {
        match self {
            ViewError::UnsupportedMotion => String::from_str("unsupported motion"),
            ViewError::NotADelimiter => String::from_str("no such block"),
            ViewError::BadKeys(keys) => String::from_str("unknown/invalid command: ").concat(keys.as_str()),
            ViewError::MissingUrl => String::from_str("missing URL"),
            ViewError::UnknownCommand(cmd) => String::from_str("unknown command: ").concat(cmd.as_str()),
            ViewError::Storage(text) => text.clone(),
            ViewError::OutOfIds => String::from_str("the outline is out of ids"),
        }
    }

    fn from_motion(e: MotionError) -> (v: ViewError)
        ensures
            v == ViewError::of_motion(e),
    {
        match e {
            MotionError::Unsupported => ViewError::UnsupportedMotion,
            MotionError::NotADelimiter => ViewError::NotADelimiter,
        }
    }
}

/// The lesser of an index and a length.
pub open spec fn clamped(i: int, len: int) -> int {
    if i <= len {
        i
    } else {
        len
    }
}

/// The part of a text that an operator acts on for the span that a motion
/// resolved to: from the span's start up to, not including, its end, both
/// kept within the text. Where a motion that moves the cursor has landed
/// before it, the part runs from the landing place up to the cursor. Any
/// other span whose end lies before its start is empty, and so is the part.
pub open spec fn operand(mo: MotionType, s: Span, len: int) -> Span {
    if s.start <= s.end {
        Span { start: clamped(s.start, len), end: clamped(s.end, len) }
    } else if mo.keeps_start() {
        Span { start: clamped(s.end, len), end: clamped(s.start, len) }
    } else {
        Span { start: clamped(s.start, len), end: clamped(s.start, len) }
    }
}

/// A text without the characters of a span.
pub open spec fn without_span(text: Seq<char>, s: Span) -> Seq<char> {
    text.subrange(0, s.start) + text.subrange(s.end, text.len() as int)
}

/// A text with another text put in at an index.
pub open spec fn with_text_at(text: Seq<char>, at: int, put: Seq<char>) -> Seq<char> {
    text.subrange(0, at) + put + text.subrange(at, text.len() as int)
}

/// What a command does to a text that is being edited.
pub struct Applied {
    /// The text after the command.
    pub text: Seq<char>,
    /// The cursor after the command.
    pub cursor: int,
    /// The record of the last character search after the command.
    pub last: Option<CharQuery>,
    /// What the command put on the stack of texts.
    pub copied: Option<Seq<char>>,
    /// Whether the command took the top of the stack of texts off it.
    pub popped: bool,
    /// Why the command's motion had no resolution, if it had none.
    pub failed: Option<MotionError>,
    /// Whether insertion follows the command.
    pub inserting: bool,
}

/// What `cmd` does to `text` with the cursor at `cursor`, the last character
/// search `last` and the text `top` on top of the stack of texts.
///
/// A motion that has no resolution fails the command, which then changes
/// nothing. A move puts the cursor where the motion lands. Change, delete
/// and copy put the operand of the motion on the stack, and the first two
/// take it out of the text; change goes on to insertion. Replacing puts a
/// character in the place of the one under the cursor, where there is one.
/// Put takes the top of the stack and puts it in at the cursor. Insert
/// moves first, if it has a motion, then opens a line below where it is
/// asked to, and goes on to insertion. The cursor stays within the text.
pub open spec fn applied(
    text: Seq<char>,
    cursor: int,
    last: Option<CharQuery>,
    top: Option<Seq<char>>,
    cmd: Command,
) -> Applied {
    let len = text.len() as int;
    let same = Applied {
        text: text,
        cursor: cursor,
        last: last,
        copied: None,
        popped: false,
        failed: None,
        inserting: false,
    };
    match cmd {
        Command::Move(m) => match resolve(text, m.mo, cursor, m.count as nat, last) {
            Ok(s) => Applied { cursor: clamped(s.end, len), last: query_after(m.mo, m.count as nat, last), ..same },
            Err(e) => Applied { failed: Some(e), last: query_after(m.mo, m.count as nat, last), ..same },
        },
        Command::ReplaceChar(c) => if cursor < len {
            Applied { text: text.update(cursor, c), ..same }
        } else {
            same
        },
        Command::Change(m) => match resolve(text, m.mo, cursor, m.count as nat, last) {
            Ok(s) => {
                let op = operand(m.mo, s, len);
                Applied {
                    text: without_span(text, op),
                    cursor: clamped(cursor, without_span(text, op).len() as int),
                    last: query_after(m.mo, m.count as nat, last),
                    copied: Some(text.subrange(op.start, op.end)),
                    inserting: true,
                    ..same
                }
            },
            Err(e) => Applied { failed: Some(e), last: query_after(m.mo, m.count as nat, last), ..same },
        },
        Command::Delete(m) => match resolve(text, m.mo, cursor, m.count as nat, last) {
            Ok(s) => {
                let op = operand(m.mo, s, len);
                Applied {
                    text: without_span(text, op),
                    cursor: clamped(cursor, without_span(text, op).len() as int),
                    last: query_after(m.mo, m.count as nat, last),
                    copied: Some(text.subrange(op.start, op.end)),
                    ..same
                }
            },
            Err(e) => Applied { failed: Some(e), last: query_after(m.mo, m.count as nat, last), ..same },
        },
        Command::Copy(m) => match resolve(text, m.mo, cursor, m.count as nat, last) {
            Ok(s) => {
                let op = operand(m.mo, s, len);
                Applied {
                    last: query_after(m.mo, m.count as nat, last),
                    copied: Some(text.subrange(op.start, op.end)),
                    ..same
                }
            },
            Err(e) => Applied { failed: Some(e), last: query_after(m.mo, m.count as nat, last), ..same },
        },
        Command::Put { consume } => match top {
            Some(put) => Applied { text: with_text_at(text, cursor, put), popped: true, ..same },
            None => same,
        },
        Command::Insert { at, new_line } => {
            let moved = match at {
                Some(m) => match resolve(text, m.mo, cursor, m.count as nat, last) {
                    Ok(s) => Applied {
                        cursor: clamped(s.end, len),
                        last: query_after(m.mo, m.count as nat, last),
                        ..same
                    },
                    Err(e) => Applied { failed: Some(e), last: query_after(m.mo, m.count as nat, last), ..same },
                },
                None => same,
            };
            if moved.failed.is_some() {
                moved
            } else if new_line {
                let at_line = clamped(moved.cursor + 1, len);
                Applied { text: text.insert(at_line, '\n'), cursor: at_line + 1, inserting: true, ..moved }
            } else {
                Applied { inserting: true, ..moved }
            }
        },
    }
}

/// The state of the view.
pub struct ViewState {
    pub presenter: Presenter,
    /// The node that the cursor is on.
    pub cur_node: NodeId,
    /// The text that is being edited, with the index of the cursor in it.
    pub cur_edit: Option<(usize, Rope)>,
    /// The command line that is being typed, with the cursor in it.
    pub cur_cmd: Option<(usize, Rope)>,
    /// What went wrong last.
    pub prev_error: Option<ViewError>,
    /// The nodes whose children are hidden.
    pub folded_nodes: HashSet<NodeId>,
    /// The last character search of the editing session.
    pub last_char_query: Option<CharQuery>,
}

/// Whether a cursor lies within the text it belongs to, where there is one.
pub open spec fn cursor_inside(edit: Option<(usize, Rope)>) -> bool {
    match edit {
        Some((cursor, buf)) => cursor <= rope_text(&buf).len(),
        None => true,
    }
}

/// The text of an edit, where there is one.
pub open spec fn text_of(edit: Option<(usize, Rope)>) -> Seq<char> {
    match edit {
        Some((cursor, buf)) => rope_text(&buf),
        None => Seq::empty(),
    }
}

/// The cursor of an edit, where there is one.
pub open spec fn cursor_of(edit: Option<(usize, Rope)>) -> int {
    match edit {
        Some((cursor, buf)) => cursor as int,
        None => 0,
    }
}

fn least(a: usize, b: usize) -> (r: usize)
    ensures
        r == clamped(a as int, b as int),
{
    if a <= b {
        a
    } else {
        b
    }
}

fn operand_of(mo: &MotionType, r: &Range<usize>, len: usize) -> (op: (usize, usize))
    ensures
        (Span { start: op.0 as int, end: op.1 as int }) == operand(*mo, crate::text_object::span_of(*r), len as int),
        op.0 <= op.1 <= len,
{
    if r.start <= r.end {
        (least(r.start, len), least(r.end, len))
    } else if mo.moves_cursor() {
        (least(r.end, len), least(r.start, len))
    } else {
        (least(r.start, len), least(r.start, len))
    }
}

impl ViewState {
    /// The state is well formed: so is the presenter, whose outline holds
    /// the node the cursor is on, and the cursors of the text and of the
    /// command line lie within them.
    pub open spec fn wf(&self) -> bool {
        &&& self.presenter@.wf()
        &&& self.presenter@.tree.has(self.cur_node)
        &&& cursor_inside(self.cur_edit)
        &&& cursor_inside(self.cur_cmd)
    }

    /// The state of a view that has just been opened on a presenter: the
    /// cursor is on the root of its outline.
    pub fn new(presenter: Presenter) -> (v: ViewState)
        requires
            presenter@.wf(),
        ensures
            v.wf(),
            v.presenter == presenter,
            v.cur_node == presenter@.tree.root_id,
            v.cur_edit.is_none(),
            v.cur_cmd.is_none(),
            v.prev_error.is_none(),
            v.folded_nodes@ == Set::<NodeId>::empty(),
            v.last_char_query.is_none(),
    {
        ViewState {
            cur_node: presenter.model().root_id(),
            presenter: presenter,
            cur_edit: None,
            cur_cmd: None,
            prev_error: None,
            folded_nodes: HashSet::new(),
            last_char_query: None,
        }
    }

    /// The node that moving down goes to: the next sibling, or else the
    /// first child, or else none.
    pub open spec fn below(&self) -> Option<NodeId> {
        let t = self.presenter@.tree;
        match t.next_sibling(self.cur_node) {
            Some(n) => Some(n),
            None => if t.nodes[self.cur_node].children.len() > 0 {
                Some(t.nodes[self.cur_node].children[0])
            } else {
                None
            },
        }
    }

    /// What moving down does to the state.
    pub open spec fn moved_down(&self, before: &ViewState) -> bool {
        &&& self.wf()
        &&& (self.cur_node == match before.below() {
                Some(n) => n,
                None => before.cur_node,
            })
        &&& self.same_but_node(before)
    }

    /// Moves the cursor down: to the next sibling, or else to the first
    /// child, if there is either.
    pub fn move_to_next_child(&mut self)
        requires
            old(self).wf(),
        ensures
            final(self).moved_down(old(self)),
    {
        let tree = self.presenter.model();
        let node = tree.node(self.cur_node);
        let next: Option<NodeId> = match tree.next_child(self.cur_node) {
            Some(n) => Some(n),
            None => if node.children.len() > 0 {
                Some(node.children[0])
            } else {
                None
            },
        };
        proof {
            let t = self.presenter@.tree;
            assert(t.has(self.cur_node));
            if t.nodes[self.cur_node].children.len() > 0 {
                assert(t.has(t.nodes[self.cur_node].children[0]));
            }
            if t.nodes[self.cur_node].parent != ROOT_PARENT_ID {
                let p = t.nodes[self.cur_node].parent;
                assert(t.has(p));
                crate::model::lemma_position(t.nodes[p].children, self.cur_node, 0);
                match crate::model::position(t.nodes[p].children, self.cur_node) {
                    Some(ix) => {
                        if ix + 1 < t.nodes[p].children.len() {
                            assert(t.has(t.nodes[p].children[ix + 1]));
                        }
                    },
                    None => {},
                }
            }
        }
        match next {
            Some(n) => {
                self.cur_node = n;
            },
            None => {},
        }
    }

    /// Whether everything but the node under the cursor, and the current
    /// root, is as it is in `other`.
    pub open spec fn same_but_node(&self, other: &ViewState) -> bool {
        &&& self.presenter@ == (PresenterView { current_root: self.presenter@.current_root, ..other.presenter@ })
        &&& self.cur_edit == other.cur_edit
        &&& self.cur_cmd == other.cur_cmd
        &&& self.prev_error == other.prev_error
        &&& self.folded_nodes == other.folded_nodes
        &&& self.last_char_query == other.last_char_query
    }

    /// What moving up does to the state.
    pub open spec fn moved_up(&self, before: &ViewState) -> bool {
        &&& self.wf()
        &&& (self.cur_node == match before.presenter@.tree.prev_sibling(before.cur_node) {
                Some(n) => n,
                None => match before.presenter@.tree.nodes[before.cur_node].parent_link() {
                    Some(p) => p,
                    None => before.cur_node,
                },
            })
        &&& self.same_but_node(before)
        &&& (self.presenter@.current_root == (if before.presenter@.tree.prev_sibling(
                before.cur_node,
            ).is_none() {
                before.root_after_exit()
            } else {
                before.presenter@.current_root
            }))
    }

    /// Moves the cursor up: to the sibling before, or else out to the
    /// parent.
    pub fn move_to_prev_child(&mut self)
        requires
            old(self).wf(),
        ensures
            final(self).moved_up(old(self)),
    {
        match self.presenter.model().prev_child(self.cur_node) {
            Some(prev) => {
                proof {
                    let t = self.presenter@.tree;
                    assert(t.has(self.cur_node));
                    let p = t.nodes[self.cur_node].parent;
                    assert(t.has(p));
                    crate::model::lemma_position(t.nodes[p].children, self.cur_node, 0);
                    let ix = crate::model::position(t.nodes[p].children, self.cur_node).unwrap();
                    assert(t.has(t.nodes[p].children[ix - 1]));
                }
                self.cur_node = prev;
            },
            None => {
                self.exit_node();
            },
        }
    }

    /// What moving in does to the state.
    pub open spec fn entered(&self, before: &ViewState) -> bool {
        &&& self.wf()
        &&& (self.cur_node == (if before.presenter@.tree.nodes[before.cur_node].children.len() > 0 {
                before.presenter@.tree.nodes[before.cur_node].children[0]
            } else {
                before.cur_node
            }))
        &&& self.same_but_node(before)
        &&& self.presenter@.current_root == before.presenter@.current_root
    }

    /// Moves the cursor in, to the first child, if there is one.
    pub fn enter_node(&mut self)
        requires
            old(self).wf(),
        ensures
            final(self).entered(old(self)),
    {
        let node = self.presenter.model().node(self.cur_node);
        if node.children.len() > 0 {
            proof {
                let t = self.presenter@.tree;
                assert(t.has(self.cur_node));
                assert(t.has(t.nodes[self.cur_node].children[0]));
            }
            self.cur_node = node.children[0];
        }
    }

    /// The current root after the cursor has moved out of its node: the
    /// parent, where the cursor was on the current root and that has a
    /// parent.
    pub open spec fn root_after_exit(&self) -> NodeId {
        match self.presenter@.tree.nodes[self.cur_node].parent_link() {
            Some(p) => if self.cur_node == self.presenter@.current_root {
                p
            } else {
                self.presenter@.current_root
            },
            None => self.presenter@.current_root,
        }
    }

    /// What moving out does to the state.
    pub open spec fn exited(&self, before: &ViewState) -> bool {
        &&& self.wf()
        &&& (self.cur_node == match before.presenter@.tree.nodes[before.cur_node].parent_link() {
                Some(p) => p,
                None => before.cur_node,
            })
        &&& self.presenter@.current_root == before.root_after_exit()
        &&& self.same_but_node(before)
    }

    /// Moves the cursor out, to the parent, if there is one. Where the
    /// cursor was on the current root, the parent becomes the current root.
    pub fn exit_node(&mut self)
        requires
            old(self).wf(),
        ensures
            final(self).exited(old(self)),
    {
        match self.presenter.model().node(self.cur_node).parent() {
            Some(exit_node) => {
                proof {
                    let t = self.presenter@.tree;
                    assert(t.has(self.cur_node));
                }
                if self.cur_node == self.presenter.current_root() {
                    self.presenter.set_current_root(exit_node);
                }
                self.cur_node = exit_node;
            },
            None => {},
        }
    }

    /// What beginning an edit does to the state.
    pub open spec fn began_editing(&self, before: &ViewState, start_at_end: bool) -> bool {
        &&& self.wf()
        &&& self.cur_edit.is_some()
        &&& text_of(self.cur_edit) == before.presenter@.tree.nodes[before.cur_node].text
        &&& (cursor_of(self.cur_edit) == (if start_at_end {
                before.presenter@.tree.nodes[before.cur_node].text.len() as int
            } else {
                0
            }))
        &&& self.presenter == before.presenter
        &&& self.cur_node == before.cur_node
        &&& self.cur_cmd == before.cur_cmd
        &&& self.prev_error == before.prev_error
        &&& self.folded_nodes == before.folded_nodes
        &&& self.last_char_query == before.last_char_query
    }

    /// Begins to edit the text of the node under the cursor, with the
    /// cursor at the end of the text or at its beginning.
    pub fn begin_editing(&mut self, start_at_end: bool)
        requires
            old(self).wf(),
            old(self).cur_edit.is_none(),
        ensures
            final(self).began_editing(old(self), start_at_end),
    {
        let buf = Rope::from_str(self.presenter.model().node(self.cur_node).text.as_str());
        let cursor: usize = if start_at_end {
            buf.len_chars()
        } else {
            0
        };
        self.cur_edit = Some((cursor, buf));
    }

    /// What ending an edit does to the state.
    pub open spec fn finished_editing(&self, before: &ViewState) -> bool {
        &&& self.wf()
        &&& self.cur_edit.is_none()
        &&& (self.presenter@ == before.presenter@.edited(
                before.presenter@.tree.set_text(before.cur_node, text_of(before.cur_edit)),
            ))
        &&& self.cur_node == before.cur_node
        &&& self.cur_cmd == before.cur_cmd
        &&& self.prev_error == before.prev_error
        &&& self.folded_nodes == before.folded_nodes
        &&& self.last_char_query == before.last_char_query
    }

    /// Ends the edit: the text becomes the text of the node under the
    /// cursor.
    pub fn finish_editing(&mut self)
        requires
            old(self).wf(),
            old(self).cur_edit.is_some(),
        ensures
            final(self).finished_editing(old(self)),
    {
        match self.cur_edit.take() {
            Some((_, new_text)) => {
                self.presenter.update_node_text(self.cur_node, rope_to_string(&new_text));
            },
            None => {},
        }
    }

    /// What beginning a command line does to the state.
    pub open spec fn began_command(&self, before: &ViewState) -> bool {
        &&& self.wf()
        &&& self.cur_cmd.is_some()
        &&& text_of(self.cur_cmd) == Seq::<char>::empty()
        &&& cursor_of(self.cur_cmd) == 0
        &&& self.presenter == before.presenter
        &&& self.cur_node == before.cur_node
        &&& self.cur_edit == before.cur_edit
        &&& self.prev_error == before.prev_error
        &&& self.folded_nodes == before.folded_nodes
        &&& self.last_char_query == before.last_char_query
    }

    /// Begins an empty command line.
    pub fn begin_command_edit(&mut self)
        requires
            old(self).wf(),
            old(self).cur_cmd.is_none(),
        ensures
            final(self).began_command(old(self)),
    {
        self.cur_cmd = Some((0, Rope::new()));
    }

    /// What dropping the command line does to the state.
    pub open spec fn aborted_command(&self, before: &ViewState) -> bool {
        &&& self.cur_cmd.is_none()
        &&& self.presenter == before.presenter
        &&& self.cur_node == before.cur_node
        &&& self.cur_edit == before.cur_edit
        &&& self.prev_error == before.prev_error
        &&& self.folded_nodes == before.folded_nodes
        &&& self.last_char_query == before.last_char_query
        &&& (before.wf() ==> self.wf())
    }

    /// Drops the command line.
    pub fn abort_command_edit(&mut self)
        ensures
            final(self).aborted_command(old(self)),
    {
        self.cur_cmd = None;
    }

    /// What carrying out the command line does to the state, and what it asks of the storage.
    pub open spec fn ran_command(&self, before: &ViewState, action: StorageAction) -> bool {
        &&& self.wf()
        &&& self.cur_cmd.is_none()
        &&& (match parsed_line(text_of(before.cur_cmd)) {
                ParsedLine::Open(url) => action matches StorageAction::Open(u) && u@ == url && self.prev_error == before.prev_error,
                ParsedLine::Sync(Some(path)) => action matches StorageAction::Sync(Some(q)) && q@ == path
                    && self.prev_error == before.prev_error,
                ParsedLine::Sync(None) => action matches StorageAction::Sync(None) && self.prev_error
                    == before.prev_error,
                ParsedLine::Quit => action is Nothing && self.prev_error == before.prev_error,
                ParsedLine::MissingUrl => action is Nothing && self.prev_error == Some(
                    ViewError::MissingUrl,
                ),
                ParsedLine::Unknown(w) => action is Nothing && (self.prev_error matches Some(
                    ViewError::UnknownCommand(c),
                ) && c@ == w),
            })
        &&& (self.presenter@ == (PresenterView {
                should_exit: before.presenter@.should_exit || parsed_line(text_of(before.cur_cmd)) is Quit,
                ..before.presenter@
            }))
        &&& self.cur_node == before.cur_node
        &&& self.cur_edit == before.cur_edit
        &&& self.folded_nodes == before.folded_nodes
        &&& self.last_char_query == before.last_char_query
    }

    /// Carries out the command line and drops it. What is to be done with
    /// the storage is handed back; a line that is in error leaves the error
    /// behind and asks for nothing.
    pub fn process_command(&mut self) -> (action: StorageAction)
        requires
            old(self).wf(),
            old(self).cur_cmd.is_some(),
        ensures
            final(self).ran_command(old(self), action),
    {
        match self.cur_cmd.take() {
            Some((_, cmd_rope)) => {
                match self.presenter.process_command(rope_to_string(&cmd_rope)) {
                    Ok(action) => action,
                    Err(CommandError::MissingUrl) => {
                        self.prev_error = Some(ViewError::MissingUrl);
                        StorageAction::Nothing
                    },
                    Err(CommandError::UnknownCommand(c)) => {
                        self.prev_error = Some(ViewError::UnknownCommand(c));
                        StorageAction::Nothing
                    },
                }
            },
            None => StorageAction::Nothing,
        }
    }

    /// Shows the outline that was opened from a storage: see
    /// [`Presenter::storage_opened`]. The cursor goes to its root and no
    /// node is folded.
    pub fn storage_opened(&mut self, tree: Option<crate::model::Tree>, name: String)
        requires
            old(self).wf(),
            tree.is_some() ==> tree.unwrap()@.wf() && tree.unwrap()@.has(tree.unwrap()@.root_id),
        ensures
            final(self).wf(),
            tree.is_some() ==> final(self).presenter@.tree == tree.unwrap()@,
            final(self).presenter@.storage_name == Some(name@),
            final(self).presenter@.current_root == final(self).presenter@.tree.root_id,
            final(self).presenter@.snip_nodes == Seq::<NodeId>::empty(),
            final(self).presenter@.snip_strs == old(self).presenter@.snip_strs,
            !final(self).presenter@.tree_modified,
            final(self).presenter@.should_exit == old(self).presenter@.should_exit,
            final(self).cur_node == final(self).presenter@.tree.root_id,
            final(self).folded_nodes@ == Set::<NodeId>::empty(),
            final(self).cur_edit == old(self).cur_edit,
            final(self).cur_cmd == old(self).cur_cmd,
            final(self).prev_error == old(self).prev_error,
            final(self).last_char_query == old(self).last_char_query,
    {
        self.presenter.storage_opened(tree, name);
        self.cur_node = self.presenter.current_root();
        self.folded_nodes = HashSet::new();
    }

    /// Whether everything but the text that is being edited is as it is in
    /// `other`.
    pub open spec fn same_but_edit(&self, other: &ViewState) -> bool {
        &&& self.presenter == other.presenter
        &&& self.cur_node == other.cur_node
        &&& self.cur_cmd == other.cur_cmd
        &&& self.prev_error == other.prev_error
        &&& self.folded_nodes == other.folded_nodes
        &&& self.last_char_query == other.last_char_query
    }

    /// Whether everything but the command line is as it is in `other`.
    pub open spec fn same_but_cmd(&self, other: &ViewState) -> bool {
        &&& self.presenter == other.presenter
        &&& self.cur_node == other.cur_node
        &&& self.cur_edit == other.cur_edit
        &&& self.prev_error == other.prev_error
        &&& self.folded_nodes == other.folded_nodes
        &&& self.last_char_query == other.last_char_query
    }

    /// What typing a character into the text does to the state.
    pub open spec fn typed(&self, before: &ViewState, c: char) -> bool {
        &&& self.wf()
        &&& self.cur_edit.is_some()
        &&& text_of(self.cur_edit) == text_of(before.cur_edit).insert(cursor_of(before.cur_edit), c)
        &&& cursor_of(self.cur_edit) == cursor_of(before.cur_edit) + 1
        &&& self.same_but_edit(before)
    }

    /// Puts a character into the text at the cursor, which moves past it.
    pub fn insert_at_cursor(&mut self, c: char)
        requires
            old(self).wf(),
            old(self).cur_edit.is_some(),
        ensures
            final(self).typed(old(self), c),
    {
        match self.cur_edit.take() {
            Some((cursor, mut buf)) => {
                buf.insert_char(cursor, c);
                let grown: usize = buf.len_chars();
                self.cur_edit = Some((cursor + 1, buf));
            },
            None => {},
        }
    }

    /// What erasing the character before the cursor does to the state.
    pub open spec fn erased(&self, before: &ViewState) -> bool {
        &&& self.wf()
        &&& self.cur_edit.is_some()
        &&& (text_of(self.cur_edit) == (if cursor_of(before.cur_edit) > 0 {
                text_of(before.cur_edit).remove(cursor_of(before.cur_edit) - 1)
            } else {
                text_of(before.cur_edit)
            }))
        &&& (cursor_of(self.cur_edit) == (if cursor_of(before.cur_edit) > 0 {
                cursor_of(before.cur_edit) - 1
            } else {
                0
            }))
        &&& self.same_but_edit(before)
    }

    /// Takes the character before the cursor out of the text, if there is
    /// one, and moves the cursor back onto its place.
    pub fn delete_before_cursor(&mut self)
        requires
            old(self).wf(),
            old(self).cur_edit.is_some(),
        ensures
            final(self).erased(old(self)),
    {
        match self.cur_edit.take() {
            Some((cursor, mut buf)) => {
                let ghost text = rope_text(&buf);
                if buf.len_chars() > 0 && cursor > 0 {
                    remove_range(&mut buf, cursor - 1, cursor);
                    assert(rope_text(&buf) =~= text.remove(cursor - 1));
                    self.cur_edit = Some((cursor - 1, buf));
                } else {
                    self.cur_edit = Some((cursor, buf));
                }
            },
            None => {},
        }
    }

    /// What moving the cursor of the text does to the state.
    pub open spec fn moved_cursor(&self, before: &ViewState, right: bool) -> bool {
        &&& self.wf()
        &&& self.cur_edit.is_some()
        &&& text_of(self.cur_edit) == text_of(before.cur_edit)
        &&& (cursor_of(self.cur_edit) == (if right {
                clamped(cursor_of(before.cur_edit) + 1, text_of(before.cur_edit).len() as int)
            } else if cursor_of(before.cur_edit) > 0 {
                cursor_of(before.cur_edit) - 1
            } else {
                0
            }))
        &&& self.same_but_edit(before)
    }

    /// Moves the cursor of the text one character to the left or to the
    /// right, as far as the text goes.
    pub fn move_cursor(&mut self, right: bool)
        requires
            old(self).wf(),
            old(self).cur_edit.is_some(),
        ensures
            final(self).moved_cursor(old(self), right),
    {
        match self.cur_edit.take() {
            Some((cursor, buf)) => {
                let len: usize = buf.len_chars();
                let moved: usize = if right {
                    if cursor < len {
                        cursor + 1
                    } else {
                        len
                    }
                } else if cursor > 0 {
                    cursor - 1
                } else {
                    0
                };
                self.cur_edit = Some((moved, buf));
            },
            None => {},
        }
    }

    /// What typing into the command line does to the state.
    pub open spec fn typed_in_command(&self, before: &ViewState, typed: Seq<char>) -> bool {
        &&& self.wf()
        &&& self.cur_cmd.is_some()
        &&& (text_of(self.cur_cmd) == with_text_at(
                text_of(before.cur_cmd),
                cursor_of(before.cur_cmd),
                typed,
            ))
        &&& cursor_of(self.cur_cmd) == cursor_of(before.cur_cmd) + typed.len()
        &&& self.same_but_cmd(before)
    }

    /// Puts what was typed into the command line at the cursor, which
    /// moves past it.
    pub fn type_in_command(&mut self, typed: &str)
        requires
            old(self).wf(),
            old(self).cur_cmd.is_some(),
        ensures
            final(self).typed_in_command(old(self), typed@),
    {
        match self.cur_cmd.take() {
            Some((cursor, mut buf)) => {
                buf.insert(cursor, typed);
                let grown: usize = buf.len_chars();
                let n: usize = typed.unicode_len();
                self.cur_cmd = Some((cursor + n, buf));
            },
            None => {},
        }
    }

    /// What erasing in the command line does to the state.
    pub open spec fn erased_in_command(&self, before: &ViewState) -> bool {
        &&& self.wf()
        &&& self.cur_cmd.is_some()
        &&& (text_of(self.cur_cmd) == (if cursor_of(before.cur_cmd) > 0 {
                text_of(before.cur_cmd).remove(cursor_of(before.cur_cmd) - 1)
            } else {
                text_of(before.cur_cmd)
            }))
        &&& (cursor_of(self.cur_cmd) == (if cursor_of(before.cur_cmd) > 0 {
                cursor_of(before.cur_cmd) - 1
            } else {
                0
            }))
        &&& self.same_but_cmd(before)
    }

    /// Takes the character before the cursor out of the command line, if
    /// there is one, and moves the cursor back onto its place.
    pub fn delete_in_command(&mut self)
        requires
            old(self).wf(),
            old(self).cur_cmd.is_some(),
        ensures
            final(self).erased_in_command(old(self)),
    {
        match self.cur_cmd.take() {
            Some((cursor, mut buf)) => {
                let ghost text = rope_text(&buf);
                if buf.len_chars() > 0 && cursor > 0 {
                    remove_range(&mut buf, cursor - 1, cursor);
                    assert(rope_text(&buf) =~= text.remove(cursor - 1));
                    self.cur_cmd = Some((cursor - 1, buf));
                } else {
                    self.cur_cmd = Some((cursor, buf));
                }
            },
            None => {},
        }
    }

    /// What a command on the text does to the state, and the mode that follows.
    pub open spec fn ran_normal_cmd(&self, before: &ViewState, cmd: Command, next: Option<ModeKind>) -> bool {
        &&& self.wf()
        &&& self.cur_edit.is_some()
        &&& text_of(self.cur_edit) == before.outcome(cmd).text
        &&& cursor_of(self.cur_edit) == before.outcome(cmd).cursor
        &&& self.last_char_query == before.outcome(cmd).last
        &&& (self.presenter@ == (PresenterView {
                snip_strs: before.strs_after(before.outcome(cmd)),
                ..before.presenter@
            }))
        &&& (self.prev_error == match before.outcome(cmd).failed {
                Some(e) => Some(ViewError::of_motion(e)),
                None => before.prev_error,
            })
        &&& (before.outcome(cmd).inserting ==> next matches Some(ModeKind::Insert(_)))
        &&& (!before.outcome(cmd).inserting ==> next.is_none())
        &&& self.cur_node == before.cur_node
        &&& self.cur_cmd == before.cur_cmd
        &&& self.folded_nodes == before.folded_nodes
    }

    /// Carries out a command on the text that is being edited, and says
    /// whether insertion follows. What the command does is [`applied`]. A
    /// command whose motion has no resolution leaves the error behind.
    pub fn process_normal_cmd(&mut self, cmd: Command) -> (next: Option<ModeKind>)
        requires
            old(self).wf(),
            old(self).cur_edit.is_some(),
        ensures
            final(self).ran_normal_cmd(old(self), cmd, next),
    {
        let (mut cursor, mut buf) = match self.cur_edit.take() {
            Some(e) => e,
            None => vstd::pervasive::unreached(),
        };
        let ghost text = rope_text(&buf);
        let len: usize = buf.len_chars();
        let mut next: Option<ModeKind> = None;
        match cmd {
            Command::Move(m) => {
                assert(m.count * 1 == m.count) by (nonlinear_arith);
                match m.range(&buf, cursor, 1, &mut self.last_char_query) {
                    Ok(r) => {
                        cursor = least(r.end, len);
                    },
                    Err(e) => {
                        self.prev_error = Some(ViewError::from_motion(e));
                    },
                }
            },
            Command::ReplaceChar(c) => {
                if cursor < len {
                    remove_range(&mut buf, cursor, cursor + 1);
                    buf.insert_char(cursor, c);
                    assert(rope_text(&buf) =~= text.update(cursor as int, c));
                }
            },
            Command::Change(m) => {
                assert(m.count * 1 == m.count) by (nonlinear_arith);
                match m.range(&buf, cursor, 1, &mut self.last_char_query) {
                    Ok(r) => {
                        let (lo, hi) = operand_of(&m.mo, &r, len);
                        self.presenter.copy_str(slice_to_string(&buf, lo, hi));
                        remove_range(&mut buf, lo, hi);
                        cursor = least(cursor, buf.len_chars());
                        next = Some(ModeKind::Insert(crate::modes::InsertMode));
                    },
                    Err(e) => {
                        self.prev_error = Some(ViewError::from_motion(e));
                    },
                }
            },
            Command::Delete(m) => {
                assert(m.count * 1 == m.count) by (nonlinear_arith);
                match m.range(&buf, cursor, 1, &mut self.last_char_query) {
                    Ok(r) => {
                        let (lo, hi) = operand_of(&m.mo, &r, len);
                        self.presenter.copy_str(slice_to_string(&buf, lo, hi));
                        remove_range(&mut buf, lo, hi);
                        cursor = least(cursor, buf.len_chars());
                    },
                    Err(e) => {
                        self.prev_error = Some(ViewError::from_motion(e));
                    },
                }
            },
            Command::Copy(m) => {
                assert(m.count * 1 == m.count) by (nonlinear_arith);
                match m.range(&buf, cursor, 1, &mut self.last_char_query) {
                    Ok(r) => {
                        let (lo, hi) = operand_of(&m.mo, &r, len);
                        self.presenter.copy_str(slice_to_string(&buf, lo, hi));
                    },
                    Err(e) => {
                        self.prev_error = Some(ViewError::from_motion(e));
                    },
                }
            },
            Command::Put { consume: _ } => {
                match self.presenter.pop_snip_str() {
                    Some(s) => {
                        buf.insert(cursor, s.as_str());
                    },
                    None => {},
                }
            },
            Command::Insert { at, new_line } => {
                let mut failed = false;
                match at {
                    Some(m) => {
                        assert(m.count * 1 == m.count) by (nonlinear_arith);
                        match m.range(&buf, cursor, 1, &mut self.last_char_query) {
                            Ok(r) => {
                                cursor = least(r.end, len);
                            },
                            Err(e) => {
                                self.prev_error = Some(ViewError::from_motion(e));
                                failed = true;
                            },
                        }
                    },
                    None => {},
                }
                if !failed {
                    if new_line {
                        cursor = if cursor < len {
                            cursor + 1
                        } else {
                            len
                        };
                        buf.insert_char(cursor, '\n');
                        let grown: usize = buf.len_chars();
                        cursor = least(cursor + 1, grown);
                    }
                    next = Some(ModeKind::Insert(crate::modes::InsertMode));
                }
            },
        }
        self.cur_edit = Some((cursor, buf));
        next
    }

    /// What a command does to the text that is being edited.
    pub open spec fn outcome(&self, cmd: Command) -> Applied {
        applied(
            text_of(self.cur_edit),
            cursor_of(self.cur_edit),
            self.last_char_query,
            if self.presenter@.snip_strs.len() > 0 {
                Some(self.presenter@.snip_strs.last())
            } else {
                None
            },
            cmd,
        )
    }

    /// The stack of texts after a command.
    pub open spec fn strs_after(&self, a: Applied) -> Seq<Seq<char>> {
        let strs = self.presenter@.snip_strs;
        match a.copied {
            Some(s) => strs.push(s),
            None => if a.popped {
                strs.drop_last()
            } else {
                strs
            },
        }
    }

    /// What folding or unfolding does to the state.
    pub open spec fn toggled_fold(&self, before: &ViewState) -> bool {
        &&& self.wf()
        &&& (self.folded_nodes@ == (if before.presenter@.tree.nodes[before.cur_node].children.len()
                == 0 {
                before.folded_nodes@
            } else if before.folded_nodes@.contains(before.cur_node) {
                before.folded_nodes@.remove(before.cur_node)
            } else {
                before.folded_nodes@.insert(before.cur_node)
            }))
        &&& self.presenter == before.presenter
        &&& self.cur_node == before.cur_node
        &&& self.cur_edit == before.cur_edit
        &&& self.cur_cmd == before.cur_cmd
        &&& self.prev_error == before.prev_error
        &&& self.last_char_query == before.last_char_query
    }

    /// Folds the node under the cursor if it has children and is not
    /// folded, and unfolds it if it is folded.
    pub fn toggle_folded(&mut self)
        requires
            old(self).wf(),
        ensures
            final(self).toggled_fold(old(self)),
    {
        if self.presenter.model().node(self.cur_node).children.len() != 0 {
            let id = self.cur_node;
            if !self.folded_nodes.remove(&id) {
                self.folded_nodes.insert(id);
                assert(self.folded_nodes@ =~= old(self).folded_nodes@.insert(id));
            } else {
                assert(self.folded_nodes@ =~= old(self).folded_nodes@.remove(id));
            }
        }
    }
}

} // verus!
