//! The editor: the state of the view, the mode that takes the keys, and
//! what each event does to both.

use vstd::prelude::*;
use crate::modes::{
    InsertMode, KeyInput, ModeKind, Modifiers, TreeAction, TreeMode, cmd_step, edit_step,
    insert_step, tree_step, control_char,
};
use crate::presenter::{Presenter, StorageAction};
use crate::view_state::{ViewError, ViewState};

verus! {

/// What happens at the window.
pub enum UiEvent {
    /// A key went down or up.
    Key(KeyInput),
    /// The modifier keys that are held down have changed.
    ModifiersChanged(Modifiers),
    /// The window got the focus, or lost it.
    Focused(bool),
}

/// What the shell is to do after an event.
pub struct EventOutcome {
    /// Whether to quit.
    pub exit: bool,
    /// What to do with the storage.
    pub storage: StorageAction,
}

/// The editor.
pub struct Editor {
    pub state: ViewState,
    pub cur_mode: ModeKind,
    /// The modifier keys that are held down.
    pub mods: Modifiers,
    /// Whether the window has the focus.
    pub focused: bool,
    /// Whether the last key changed the mode.
    pub mode_just_switched: bool,
}

/// The state in which a key finds the view: a key that goes down clears
/// the error that was shown.
pub open spec fn cleared(v: ViewState, pressed: bool) -> ViewState {
    if pressed {
        ViewState { prev_error: None, ..v }
    } else {
        v
    }
}

/// The text that a key types into the text being edited in insert mode:
/// none where the key has left insert mode.
pub open spec fn typed_after(input: KeyInput, next: Option<ModeKind>) -> Seq<char> {
    match input.text {
        Some(t) => if input.pressed && next.is_none() {
            t@
        } else {
            Seq::empty()
        },
        None => Seq::empty(),
    }
}

/// What typing the characters of `text` from index `from` on does to the
/// state, one character after the other: each goes into the text at the
/// cursor unless it is a control character other than the line feed.
pub open spec fn typed_all(old: &ViewState, new: &ViewState, text: Seq<char>, from: int) -> bool
    decreases text.len() - from,
{
    if from < 0 || from >= text.len() {
        *new == *old
    } else if control_char(text[from]) && text[from] != '\n' {
        typed_all(old, new, text, from + 1)
    } else {
        exists|mid: ViewState| #[trigger] mid.typed(old, text[from]) && typed_all(&mid, new, text, from + 1)
    }
}

impl Editor {
    /// The editor is well formed: the state fits the mode.
    pub open spec fn wf(&self) -> bool {
        self.cur_mode.fits(&self.state)
    }

    /// An editor on a presenter, in tree mode.
    pub fn new(presenter: Presenter) -> (e: Editor)
        requires
            presenter@.wf(),
        ensures
            e.wf(),
            e.cur_mode is Tree,
            e.state.presenter == presenter,
            e.state.cur_node == presenter@.tree.root_id,
            e.mods.none(),
            !e.focused,
            !e.mode_just_switched,
    {
        Editor {
            state: ViewState::new(presenter),
            cur_mode: ModeKind::Tree(TreeMode),
            mods: Modifiers { shift: false, control: false, alt: false, logo: false },
            focused: false,
            mode_just_switched: false,
        }
    }

    /// What a key does to the editor. The key first clears the error that
    /// was shown, if it goes down, and then goes to the mode; in insert
    /// mode, what the key types goes into the text after that. In tree
    /// mode, a key that finds the outline out of ids is an error and does
    /// nothing else. A key that changes the mode is marked.
    pub open spec fn key_step(
        &self,
        old: &Editor,
        input: KeyInput,
        storage: StorageAction,
    ) -> bool {
        let found = cleared(old.state, input.pressed);
        match old.cur_mode {
            ModeKind::Tree(_) => if old.state.presenter@.ids_left() {
                exists|next: Option<ModeKind>|
                    {
                        &&& #[trigger] tree_step(
                            &found,
                            &self.state,
                            TreeAction::of(input.code, input.pressed, old.mods),
                            next,
                        )
                        &&& self.switched(old, next)
                        &&& storage is Nothing
                    }
            } else {
                &&& self.state.prev_error == Some(ViewError::OutOfIds)
                &&& self.state.presenter == old.state.presenter
                &&& self.state.cur_node == old.state.cur_node
                &&& self.state.cur_edit == old.state.cur_edit
                &&& self.state.cur_cmd == old.state.cur_cmd
                &&& self.state.folded_nodes == old.state.folded_nodes
                &&& self.state.last_char_query == old.state.last_char_query
                &&& self.cur_mode == old.cur_mode
                &&& self.mode_just_switched == old.mode_just_switched
                &&& storage is Nothing
            },
            ModeKind::Edit(m) => exists|next: Option<ModeKind>|
                {
                    &&& #[trigger] edit_step(&found, &self.state, m.cmd_buffer@, input, old.mods, next)
                    &&& (next.is_some() ==> self.switched(old, next))
                    &&& (next.is_none() ==> self.cur_mode is Edit && !self.mode_just_switched)
                    &&& storage is Nothing
                },
            ModeKind::Insert(_) => exists|next: Option<ModeKind>, mid: ViewState|
                {
                    &&& #[trigger] insert_step(&found, &mid, input.code, input.pressed, old.mods, next)
                    &&& typed_all(&mid, &self.state, typed_after(input, next), 0)
                    &&& self.switched(old, next)
                    &&& storage is Nothing
                },
            ModeKind::Cmd(_) => exists|next: Option<ModeKind>|
                {
                    &&& #[trigger] cmd_step(&found, &self.state, input, next, storage)
                    &&& self.switched(old, next)
                },
        }
    }

    /// Whether the mode is the one that follows a key: the mode that the
    /// key asked for, marked as just switched to, or the mode as it was.
    pub open spec fn switched(&self, old: &Editor, next: Option<ModeKind>) -> bool {
        match next {
            Some(mode) => self.cur_mode == mode && self.mode_just_switched,
            None => self.cur_mode == old.cur_mode && !self.mode_just_switched,
        }
    }

    fn type_text(&mut self, text: &str)
        requires
            old(self).state.wf(),
            old(self).state.cur_edit.is_some(),
            old(self).state.cur_cmd.is_none(),
        ensures
            final(self).state.wf(),
            final(self).state.cur_edit.is_some(),
            final(self).state.cur_cmd.is_none(),
            typed_all(&old(self).state, &final(self).state, text@, 0),
            final(self).cur_mode == old(self).cur_mode,
            final(self).mods == old(self).mods,
            final(self).focused == old(self).focused,
            final(self).mode_just_switched == old(self).mode_just_switched,
    {
        let len: usize = vstd::string::StrSliceExecFns::unicode_len(text);
        self.type_from(text, len, 0);
    }

    fn type_from(&mut self, text: &str, len: usize, from: usize)
        requires
            len == text@.len(),
            from <= len,
            old(self).state.wf(),
            old(self).state.cur_edit.is_some(),
            old(self).state.cur_cmd.is_none(),
        ensures
            final(self).state.wf(),
            final(self).state.cur_edit.is_some(),
            final(self).state.cur_cmd.is_none(),
            typed_all(&old(self).state, &final(self).state, text@, from as int),
            final(self).cur_mode == old(self).cur_mode,
            final(self).mods == old(self).mods,
            final(self).focused == old(self).focused,
            final(self).mode_just_switched == old(self).mode_just_switched,
        decreases len - from,
    {
        if from < len {
            let c = vstd::string::StrSliceExecFns::get_char(text, from);
            let mut mode = InsertMode;
            let mods = self.mods;
            mode.process_char(c, &mods, &mut self.state);
            let ghost mid = self.state;
            self.type_from(text, len, from + 1);
            proof {
                if !(control_char(c) && c != '\n') {
                    assert(mid.typed(&old(self).state, text@[from as int]) && typed_all(
                        &mid,
                        &self.state,
                        text@,
                        from + 1,
                    ));
                }
            }
        }
    }

    fn switch(&mut self, next: Option<ModeKind>)
        ensures
            final(self).switched(old(self), next),
            final(self).state == old(self).state,
            final(self).mods == old(self).mods,
            final(self).focused == old(self).focused,
    {
        match next {
            Some(mode) => {
                self.cur_mode = mode;
                self.mode_just_switched = true;
            },
            None => {
                self.mode_just_switched = false;
            },
        }
    }

    fn process_key(&mut self, input: &KeyInput) -> (storage: StorageAction)
        requires
            old(self).wf(),
        ensures
            final(self).wf(),
            final(self).key_step(old(self), *input, storage),
            final(self).mods == old(self).mods,
            final(self).focused == old(self).focused,
    {
        if input.pressed {
            self.state.prev_error = None;
        }
        let ghost found = self.state;
        let mods = self.mods;
        let mut storage = StorageAction::Nothing;
        match &mut self.cur_mode {
            ModeKind::Tree(m) => {
                if self.state.presenter.model().has_free_id() {
                    let next = m.process_key(input, &mods, &mut self.state);
                    self.switch(next);
                    assert(tree_step(
                        &found,
                        &self.state,
                        TreeAction::of(input.code, input.pressed, old(self).mods),
                        next,
                    ) && self.switched(old(self), next));
                } else {
                    self.state.prev_error = Some(ViewError::OutOfIds);
                }
            },
            ModeKind::Edit(m) => {
                let next = m.process_key(input, &mods, &mut self.state);
                match next {
                    Some(mode) => {
                        self.cur_mode = mode;
                        self.mode_just_switched = true;
                    },
                    None => {
                        self.mode_just_switched = false;
                    },
                }
                assert(edit_step(
                    &found,
                    &self.state,
                    old(self).cur_mode->Edit_0.cmd_buffer@,
                    *input,
                    old(self).mods,
                    next,
                ));
            },
            ModeKind::Insert(m) => {
                let next = m.process_key(input, &mods, &mut self.state);
                let ghost mid = self.state;
                let typing = next.is_none() && input.pressed;
                self.switch(next);
                match &input.text {
                    Some(t) => {
                        if typing {
                            self.type_text(t.as_str());
                        }
                    },
                    None => {},
                }
                assert(insert_step(&found, &mid, input.code, input.pressed, old(self).mods, next) && typed_all(
                    &mid,
                    &self.state,
                    typed_after(*input, next),
                    0,
                ));
            },
            ModeKind::Cmd(m) => {
                let (next, action) = m.process_key(input, &mods, &mut self.state);
                self.switch(next);
                storage = action;
                assert(cmd_step(&found, &self.state, *input, next, storage) && self.switched(old(self), next));
            },
        }
        storage
    }

    /// Takes an event. A key goes the way of [`Editor::key_step`]; a change
    /// of the modifier keys and of the focus is recorded. When the window
    /// loses the focus and the presenter has a storage, the outline is to
    /// be written out. Says also whether to quit.
    pub fn process_event(&mut self, e: &UiEvent) -> (r: EventOutcome)
        requires
            old(self).wf(),
        ensures
            final(self).wf(),
            r.exit == final(self).state.presenter@.should_exit,
            match *e {
                UiEvent::Key(input) => final(self).key_step(old(self), input, r.storage) && final(self).mods == old(
                    self,
                ).mods && final(self).focused == old(self).focused,
                UiEvent::ModifiersChanged(mods) => final(self).mods == mods && final(self).state == old(self).state
                    && final(self).cur_mode == old(self).cur_mode && final(self).focused == old(self).focused
                    && final(self).mode_just_switched == old(self).mode_just_switched && r.storage is Nothing,
                UiEvent::Focused(focused) => final(self).focused == focused && final(self).state == old(
                    self,
                ).state && final(self).cur_mode == old(self).cur_mode && final(self).mods == old(self).mods
                    && final(self).mode_just_switched == old(self).mode_just_switched && (if !focused && old(
                    self,
                ).state.presenter@.storage_name.is_some() {
                    r.storage matches StorageAction::Sync(None)
                } else {
                    r.storage is Nothing
                }),
            },
    {
        let storage = match e {
            UiEvent::Key(input) => self.process_key(input),
            UiEvent::ModifiersChanged(mods) => {
                self.mods = *mods;
                StorageAction::Nothing
            },
            UiEvent::Focused(focused) => {
                self.focused = *focused;
                if !*focused && self.state.presenter.manual_sync() {
                    StorageAction::Sync(None)
                } else {
                    StorageAction::Nothing
                }
            },
        };
        EventOutcome { exit: self.state.presenter.should_exit(), storage: storage }
    }
}

} // verus!
