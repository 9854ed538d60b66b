//! The presenter: the outline that is being edited, the node shown as its
//! root, and the stacks of what was cut or copied.

use vstd::prelude::*;
use vstd::string::{StrSliceExecFns, StringExecFns};
use crate::model::{NodeId, NodeView, Tree, TreeView, ROOT_PARENT_ID};
use crate::scan::{CharTest, find_forward, lemma_find_forward};

verus! {

/// The presenter as plain values.
pub struct PresenterView {
    pub tree: TreeView,
    pub storage_name: Option<Seq<char>>,
    pub current_root: NodeId,
    pub snip_nodes: Seq<NodeId>,
    pub snip_strs: Seq<Seq<char>>,
    pub tree_modified: bool,
    pub should_exit: bool,
}

impl PresenterView {
    /// The presenter is well formed: so is its outline, which holds its own
    /// root and the current root, and the nodes on the stack are nodes of
    /// the outline without a parent, each of them once.
    pub open spec fn wf(self) -> bool {
        &&& self.tree.wf()
        &&& self.tree.has(self.tree.root_id)
        &&& self.tree.has(self.current_root)
        &&& forall|i: int|
            0 <= i < self.snip_nodes.len() ==> self.tree.has(#[trigger] self.snip_nodes[i])
                && self.tree.nodes[self.snip_nodes[i]].parent == ROOT_PARENT_ID
        &&& forall|i: int, j: int|
            0 <= i < j < self.snip_nodes.len() ==> self.snip_nodes[i] != self.snip_nodes[j]
    }

    /// Whether the outline can hand out another id.
    pub open spec fn ids_left(self) -> bool {
        self.tree.next_id < usize::MAX
    }

    /// The same presenter with a changed outline, marked as modified.
    pub open spec fn edited(self, tree: TreeView) -> PresenterView {
        PresenterView { tree: tree, tree_modified: true, ..self }
    }
}

/// What the shell around the presenter is to do with the storage after a
/// command line.
#[derive(Debug, PartialEq, Eq, Clone)]
pub enum StorageAction {
    /// Nothing.
    Nothing,
    /// Open the storage at this place and show its outline.
    Open(String),
    /// Write the outline out: to the storage at this place from now on, if
    /// one is given.
    Sync(Option<String>),
}

/// Why a command line was not carried out.
#[derive(Debug, PartialEq, Eq, Clone)]
pub enum CommandError {
    /// `e` was given no place to open.
    MissingUrl,
    /// The first word of the line is no command.
    UnknownCommand(String),
}

/// A command line as plain values.
pub enum ParsedLine {
    Open(Seq<char>),
    Sync(Option<Seq<char>>),
    Quit,
    MissingUrl,
    Unknown(Seq<char>),
}

/// The index at which the word that starts at `from` ends: the next space,
/// or the end of the line.
pub open spec fn word_end(s: Seq<char>, from: int) -> int {
    match find_forward(s, CharTest::Is(' '), from) {
        Some(i) => i,
        None => s.len() as int,
    }
}

/// The first word of a line, up to its first space.
pub open spec fn first_word(s: Seq<char>) -> Seq<char> {
    s.subrange(0, word_end(s, 0))
}

/// The second word of a line, between its first space and the next; empty
/// where two spaces follow each other, and `None` where the line has no
/// space.
pub open spec fn second_word(s: Seq<char>) -> Option<Seq<char>> {
    let e = word_end(s, 0);
    if e < s.len() {
        Some(s.subrange(e + 1, word_end(s, e + 1)))
    } else {
        None
    }
}

/// What a command line asks for: `e` and a place opens it, `s` writes the
/// outline out, to a new place if one is given, and `q` quits.
pub open spec fn parsed_line(s: Seq<char>) -> ParsedLine {
    let w = first_word(s);
    if w == seq!['e'] {
        match second_word(s) {
            Some(url) => ParsedLine::Open(url),
            None => ParsedLine::MissingUrl,
        }
    } else if w == seq!['s'] {
        ParsedLine::Sync(second_word(s))
    } else if w == seq!['q'] {
        ParsedLine::Quit
    } else {
        ParsedLine::Unknown(w)
    }
}

/// Whether an outcome of a command line is the one that was parsed.
pub open spec fn is_line_outcome(r: Result<StorageAction, CommandError>, p: ParsedLine) -> bool {
    match p {
        ParsedLine::Open(url) => r matches Ok(StorageAction::Open(u)) && u@ == url,
        ParsedLine::Sync(Some(path)) => r matches Ok(StorageAction::Sync(Some(q))) && q@ == path,
        ParsedLine::Sync(None) => r matches Ok(StorageAction::Sync(None)),
        ParsedLine::Quit => r matches Ok(StorageAction::Nothing),
        ParsedLine::MissingUrl => r matches Err(CommandError::MissingUrl),
        ParsedLine::Unknown(w) => r matches Err(CommandError::UnknownCommand(c)) && c@ == w,
    }
}

fn word_end_from(s: &str, len: usize, from: usize) -> (e: usize)
    requires
        len == s@.len(),
        from <= len,
    ensures
        e == word_end(s@, from as int),
        from <= e <= len,
{
    let mut i: usize = from;
    proof {
        lemma_find_forward(s@, CharTest::Is(' '), from as int);
    }
    while i < len
        invariant
            from <= i <= len == s@.len(),
            find_forward(s@, CharTest::Is(' '), from as int) == find_forward(s@, CharTest::Is(' '), i as int),
        decreases len - i,
    {
        if s.get_char(i) == ' ' {
            return i;
        }
        i += 1;
    }
    len
}

/// The presenter.
pub struct Presenter {
    tree: Tree,
    storage_name: Option<String>,
    current_root: NodeId,
    snip_stack_nodes: Vec<NodeId>,
    snip_stack_strs: Vec<String>,
    tree_modified: bool,
    should_exit: bool,
}

impl View for Presenter {
    type V = PresenterView;

    closed spec fn view(&self) -> PresenterView {
        PresenterView {
            tree: self.tree@,
            storage_name: match self.storage_name {
                Some(s) => Some(s@),
                None => None,
            },
            current_root: self.current_root,
            snip_nodes: self.snip_stack_nodes@,
            snip_strs: self.snip_stack_strs@.map_values(|s: String| s@),
            tree_modified: self.tree_modified,
            should_exit: self.should_exit,
        }
    }
}

impl Presenter {
    /// A presenter for an outline, shown from its root, and the name of the
    /// storage that the outline came from, if it came from one.
    pub fn new(tree: Tree, storage_name: Option<String>) -> (p: Presenter)
        requires
            tree@.wf(),
            tree@.has(tree@.root_id),
        ensures
            p@.wf(),
            p@ == (PresenterView {
                tree: tree@,
                storage_name: match storage_name {
                    Some(s) => Some(s@),
                    None => None,
                },
                current_root: tree@.root_id,
                snip_nodes: Seq::empty(),
                snip_strs: Seq::empty(),
                tree_modified: false,
                should_exit: false,
            }),
    {
        let p = Presenter {
            current_root: tree.root_id(),
            tree: tree,
            storage_name: storage_name,
            snip_stack_nodes: Vec::new(),
            snip_stack_strs: Vec::new(),
            should_exit: false,
            tree_modified: false,
        };
        assert(p@.snip_strs =~= Seq::<Seq<char>>::empty());
        p
    }

    /// The name of the storage, if there is one.
    pub fn storage_name(&self) -> (r: Option<String>)
        ensures
            match r {
                Some(s) => self@.storage_name == Some(s@),
                None => self@.storage_name.is_none(),
            },
    {
        match &self.storage_name {
            Some(s) => Some(s.clone()),
            None => None,
        }
    }

    /// The outline.
    pub fn model(&self) -> (t: &Tree)
        ensures
            t@ == self@.tree,
    {
        &self.tree
    }

    /// The node that is shown as the root.
    pub fn current_root(&self) -> (id: NodeId)
        ensures
            id == self@.current_root,
    {
        self.current_root
    }

    /// Whether quitting was asked for.
    pub fn should_exit(&self) -> (b: bool)
        ensures
            b == self@.should_exit,
    {
        self.should_exit
    }

    /// Whether the outline has changed since it was last written out.
    pub fn tree_modified(&self) -> (b: bool)
        ensures
            b == self@.tree_modified,
    {
        self.tree_modified
    }

    /// Shows the outline from another node.
    pub fn set_current_root(&mut self, new_root: NodeId)
        requires
            old(self)@.wf(),
            old(self)@.tree.has(new_root),
        ensures
            final(self)@.rerooted(old(self)@, new_root),
    {
        self.current_root = new_root;
    }

    /// Adds an empty node after `cur_node` under the same parent, and gives
    /// its id. A node without a parent gets no sibling; the outline still
    /// counts as modified.
    pub fn insert_node_in_parent(&mut self, cur_node: NodeId) -> (r: Option<NodeId>)
        requires
            old(self)@.wf(),
            old(self)@.ids_left(),
            old(self)@.tree.has(cur_node),
        ensures
            final(self)@.gave_sibling(old(self)@, cur_node, r),
    {
        self.tree_modified = true;
        match self.tree.node(cur_node).parent() {
            Some(parent) => {
                assert(self.tree@.listed(cur_node));
                Some(self.tree.insert_node(String::new(), parent, cur_node, true))
            },
            None => None,
        }
    }

    /// Adds an empty node as the last child of `cur_node`, and gives its id.
    pub fn insert_node_as_child(&mut self, cur_node: NodeId) -> (id: NodeId)
        requires
            old(self)@.wf(),
            old(self)@.ids_left(),
            old(self)@.tree.has(cur_node),
        ensures
            final(self)@.gave_child(old(self)@, cur_node, id),
    {
        self.tree_modified = true;
        self.tree.add_node(String::new(), cur_node)
    }

    /// Cuts `cur_node` out of the outline onto the stack of nodes, and gives
    /// the parent it had. A node without a parent stays; the outline still
    /// counts as modified.
    pub fn delete_node(&mut self, cur_node: NodeId) -> (r: Option<NodeId>)
        requires
            old(self)@.wf(),
            old(self)@.tree.has(cur_node),
        ensures
            final(self)@.deleted(old(self)@, cur_node, r),
    {
        self.tree_modified = true;
        let p = self.tree.node(cur_node).parent();
        if p.is_some() {
            self.tree.cut_node(cur_node);
            self.snip_stack_nodes.push(cur_node);
            p
        } else {
            None
        }
    }

    /// Copies `cur_node` and what is below it, and puts the copy on the
    /// stack of nodes.
    pub fn copy_node(&mut self, cur_node: NodeId)
        requires
            old(self)@.wf(),
            old(self)@.ids_left(),
            old(self)@.tree.has(cur_node),
        ensures
            final(self)@.copied(old(self)@, cur_node),
    {
        let copy = self.tree.clone_node(cur_node, ROOT_PARENT_ID, None);
        self.snip_stack_nodes.push(copy);
    }

    /// Puts the node on top of the stack under `parent`, after its child
    /// `after` or as its last child: the node itself, taken off the stack,
    /// with `consume`, else a copy of it. Gives the id of what was put, or
    /// `None` where the stack is empty.
    pub fn move_or_clone_node_from_top_of_snips(&mut self, consume: bool, parent: NodeId, after: Option<NodeId>) -> (r:
        Option<NodeId>)
        requires
            old(self)@.wf(),
            old(self)@.ids_left(),
            old(self)@.tree.has(parent),
            after.is_some() ==> old(self)@.tree.nodes[parent].children.contains(after.unwrap()),
        ensures
            final(self)@.ids_kept(old(self)@),
            r.is_some() ==> final(self)@.tree.has(r.unwrap()),
            final(self)@.wf(),
            old(self)@.snip_nodes.len() == 0 ==> r.is_none() && final(self)@ == old(self)@,
            old(self)@.snip_nodes.len() > 0 && consume ==> r == Some(old(self)@.snip_nodes.last()) && final(self)@
                == (PresenterView {
                tree: old(self)@.tree.reparented(
                    old(self)@.snip_nodes.last(),
                    parent,
                    match after {
                        Some(a) => Some((a, false)),
                        None => None,
                    },
                ),
                snip_nodes: old(self)@.snip_nodes.drop_last(),
                ..old(self)@
            }),
            old(self)@.snip_nodes.len() > 0 && !consume ==> r == Some(old(self)@.tree.next_id) && final(self)@
                == (PresenterView {
                tree: crate::model::cloned(
                    old(self)@.tree,
                    old(self)@.snip_nodes.last(),
                    parent,
                    after,
                    old(self)@.tree.nodes.len(),
                ),
                ..old(self)@
            }),
    {
        let len = self.snip_stack_nodes.len();
        if len == 0 {
            return None;
        }
        if consume {
            let n = self.snip_stack_nodes[len - 1];
            self.snip_stack_nodes.pop();
            let next_to: Option<(NodeId, bool)> = match after {
                Some(a) => Some((a, false)),
                None => None,
            };
            self.tree.reparent_node(n, parent, next_to);
            Some(n)
        } else {
            let n = self.snip_stack_nodes[len - 1];
            Some(self.tree.clone_node(n, parent, after))
        }
    }

    /// Puts the node on top of the stack next to `cur_node`: after it under
    /// the same parent, or as its last child with `as_child` and where it
    /// has no parent.
    pub fn put_node(&mut self, cur_node: NodeId, consume: bool, as_child: bool) -> (r: Option<NodeId>)
        requires
            old(self)@.wf(),
            old(self)@.ids_left(),
            old(self)@.tree.has(cur_node),
        ensures
            final(self)@.put(old(self)@, cur_node, consume, as_child, r),
    {
        self.tree_modified = true;
        assert(self@ == old(self)@.edited(old(self)@.tree));
        assert(self@.wf());
        if !as_child && self.tree.node(cur_node).parent != ROOT_PARENT_ID {
            let p = self.tree.node(cur_node).parent;
            assert(self.tree@.listed(cur_node));
            self.move_or_clone_node_from_top_of_snips(consume, p, Some(cur_node))
        } else {
            self.move_or_clone_node_from_top_of_snips(consume, cur_node, None)
        }
    }

    /// Exchanges `cur_node` with the sibling `direction` places after it.
    pub fn swap_node(&mut self, cur_node: NodeId, direction: isize)
        requires
            old(self)@.wf(),
            old(self)@.tree.has(cur_node),
        ensures
            final(self)@.swapped(old(self)@, cur_node, direction),
    {
        self.tree.swap_node(cur_node, direction);
        self.tree_modified = true;
    }

    /// Replaces the text of a node.
    pub fn update_node_text(&mut self, cur_node: usize, new_text: String)
        requires
            old(self)@.wf(),
            old(self)@.tree.has(cur_node),
        ensures
            final(self)@.wf(),
            final(self)@ == old(self)@.edited(old(self)@.tree.set_text(cur_node, new_text@)),
    {
        self.tree.set_text(cur_node, new_text);
        self.tree_modified = true;
    }

    /// Puts a text on the stack of texts.
    pub fn copy_str(&mut self, s: String)
        ensures
            final(self)@ == (PresenterView { snip_strs: old(self)@.snip_strs.push(s@), ..old(self)@ }),
    {
        self.snip_stack_strs.push(s);
        assert(self@.snip_strs =~= old(self)@.snip_strs.push(s@));
    }

    /// Takes the text on top of the stack of texts off it.
    pub fn pop_snip_str(&mut self) -> (r: Option<String>)
        ensures
            match r {
                Some(s) => old(self)@.snip_strs.len() > 0 && s@ == old(self)@.snip_strs.last() && final(self)@ == (
                PresenterView { snip_strs: old(self)@.snip_strs.drop_last(), ..old(self)@ }),
                None => old(self)@.snip_strs.len() == 0 && final(self)@ == old(self)@,
            },
    {
        let r = self.snip_stack_strs.pop();
        assert(self@.snip_strs =~= if old(self)@.snip_strs.len() > 0 {
            old(self)@.snip_strs.drop_last()
        } else {
            old(self)@.snip_strs
        });
        r
    }

    /// The text on top of the stack of texts.
    pub fn top_snip_str(&self) -> (r: Option<&String>)
        ensures
            match r {
                Some(s) => self@.snip_strs.len() > 0 && s@ == self@.snip_strs.last(),
                None => self@.snip_strs.len() == 0,
            },
    {
        let len = self.snip_stack_strs.len();
        if len == 0 {
            None
        } else {
            Some(&self.snip_stack_strs[len - 1])
        }
    }

    /// Moves `node` from under its parent to just before that parent, under
    /// the parent's own parent, where it has both.
    pub fn make_child_sibling(&mut self, node: usize)
        requires
            old(self)@.wf(),
            old(self)@.tree.has(node),
            old(self)@.tree.nodes[node].parent != node,
        ensures
            final(self)@.raised(old(self)@, node),
    {
        match self.tree.node(node).parent() {
            Some(parent) => {
                match self.tree.node(parent).parent() {
                    Some(grandparent) => {
                        proof {
                            let t = self.tree@;
                            assert(t.listed(parent));
                            assert(t.has(grandparent));
                            if grandparent == parent {
                                crate::model::lemma_without_keeps(t.nodes[parent].children, node, parent);
                            }
                            crate::model::lemma_position(
                                t.unlinked(node).nodes[grandparent].children,
                                parent,
                                0,
                            );
                        }
                        self.tree.reparent_node(node, grandparent, Some((parent, true)));
                    },
                    None => {},
                }
            },
            None => {},
        }
        self.tree_modified = true;
    }

    /// Strikes a node out, or takes its strike-out back.
    pub fn toggle_strikeout(&mut self, node: NodeId)
        requires
            old(self)@.wf(),
            old(self)@.tree.has(node),
        ensures
            final(self)@.struck(old(self)@, node),
    {
        let flag = !self.tree.node(node).struckout;
        self.tree.set_struckout(node, flag);
        self.tree_modified = true;
    }

    /// Whether there is a storage to write the outline out to. The shell
    /// writes it and then reports with [`Presenter::synced`].
    pub fn manual_sync(&self) -> (due: bool)
        ensures
            due == self@.storage_name.is_some(),
    {
        self.storage_name.is_some()
    }

    /// Records that the outline was written out.
    pub fn synced(&mut self)
        ensures
            final(self)@ == (PresenterView { tree_modified: false, ..old(self)@ }),
    {
        self.tree_modified = false;
    }

    /// Records the storage that the outline is written out to from now on.
    pub fn storage_changed(&mut self, name: String)
        ensures
            final(self)@ == (PresenterView { storage_name: Some(name@), ..old(self)@ }),
    {
        self.storage_name = Some(name);
    }

    /// Shows the outline that was opened from a storage, from its root, or
    /// an outline of one empty node where the storage held none. The stack
    /// of nodes, which named nodes of the outline before, is emptied.
    pub fn storage_opened(&mut self, tree: Option<Tree>, name: String)
        requires
            tree.is_some() ==> tree.unwrap()@.wf() && tree.unwrap()@.has(tree.unwrap()@.root_id),
        ensures
            final(self)@.wf(),
            tree.is_some() ==> final(self)@.tree == tree.unwrap()@,
            tree.is_none() ==> final(self)@.tree.root_id == 1 && final(self)@.tree.next_id == 2,
            final(self)@ == (PresenterView {
                tree: final(self)@.tree,
                storage_name: Some(name@),
                current_root: final(self)@.tree.root_id,
                snip_nodes: Seq::empty(),
                tree_modified: false,
                ..old(self)@
            }),
    {
        let t = match tree {
            Some(t) => t,
            None => Tree::default(),
        };
        self.current_root = t.root_id();
        self.tree = t;
        self.storage_name = Some(name);
        self.snip_stack_nodes = Vec::new();
        self.tree_modified = false;
    }

    /// Carries out a command line as far as the presenter can: `q` marks
    /// the presenter for exit, and what is to be done with the storage is
    /// handed back.
    pub fn process_command(&mut self, cmd: String) -> (r: Result<StorageAction, CommandError>)
        ensures
            is_line_outcome(r, parsed_line(cmd@)),
            final(self)@ == (PresenterView {
                should_exit: old(self)@.should_exit || parsed_line(cmd@) is Quit,
                ..old(self)@
            }),
    {
        let line = cmd.as_str();
        let len: usize = line.unicode_len();
        let first_end: usize = word_end_from(line, len, 0);
        let second: Option<String> = if first_end < len {
            let second_end: usize = word_end_from(line, len, first_end + 1);
            Some(String::from_str(line.substring_char(first_end + 1, second_end)))
        } else {
            None
        };
        let letter: Option<char> = if first_end == 1 {
            Some(line.get_char(0))
        } else {
            None
        };
        proof {
            let w = first_word(cmd@);
            if first_end == 1 {
                assert(w =~= seq![cmd@[0]]);
                assert(seq![cmd@[0]][0] == cmd@[0]);
            } else {
                assert(w.len() != 1);
                assert(seq!['e'].len() == 1 && seq!['s'].len() == 1 && seq!['q'].len() == 1);
            }
            assert(seq!['e'][0] == 'e' && seq!['s'][0] == 's' && seq!['q'][0] == 'q');
        }
        if letter == Some('e') {
            match second {
                Some(url) => Ok(StorageAction::Open(url)),
                None => Err(CommandError::MissingUrl),
            }
        } else if letter == Some('s') {
            Ok(StorageAction::Sync(second))
        } else if letter == Some('q') {
            self.should_exit = true;
            Ok(StorageAction::Nothing)
        } else {
            Err(CommandError::UnknownCommand(String::from_str(line.substring_char(0, first_end))))
        }
    }
}

impl PresenterView {
    /// Every node that the outline held before is still in it.
    pub open spec fn ids_kept(self, before: PresenterView) -> bool {
        forall|k: NodeId| before.tree.has(k) ==> self.tree.has(k)
    }

    /// What showing the outline from another node does to the presenter.
    pub open spec fn rerooted(self, before: PresenterView, new_root: NodeId) -> bool {
        &&& self == (PresenterView { current_root: new_root, ..before })
        &&& self.wf()
    }

    /// What adding a sibling after a node does to the presenter, and the id it gives.
    pub open spec fn gave_sibling(self, before: PresenterView, cur_node: NodeId, r: Option<NodeId>) -> bool {
        &&& self.wf()
        &&& (r == match before.tree.nodes[cur_node].parent_link() {
                Some(_) => Some(before.tree.next_id),
                None => None,
            })
        &&& (self == before.edited(
                match before.tree.nodes[cur_node].parent_link() {
                    Some(p) => before.tree.inserted(Seq::empty(), p, cur_node, true),
                    None => before.tree,
                },
            ))
        &&& ((r matches Some(id) ==> self.tree.has(id)) && self.ids_kept(before))
    }

    /// What adding a child to a node does to the presenter, and the id it gives.
    pub open spec fn gave_child(self, before: PresenterView, cur_node: NodeId, id: NodeId) -> bool {
        &&& self.wf()
        &&& id == before.tree.next_id
        &&& self == before.edited(before.tree.added(Seq::empty(), cur_node))
        &&& self.tree.has(id) && self.current_root == before.current_root && self.ids_kept(before)
    }

    /// What cutting a node out does to the presenter, and the parent it gives.
    pub open spec fn deleted(self, before: PresenterView, cur_node: NodeId, r: Option<NodeId>) -> bool {
        &&& self.wf()
        &&& r == before.tree.nodes[cur_node].parent_link()
        &&& (self == match r {
                Some(_) => PresenterView {
                    snip_nodes: before.snip_nodes.push(cur_node),
                    ..before.edited(before.tree.cut(cur_node))
                },
                None => before.edited(before.tree),
            })
        &&& self.ids_kept(before)
    }

    /// What copying a node does to the presenter.
    pub open spec fn copied(self, before: PresenterView, cur_node: NodeId) -> bool {
        &&& self.wf()
        &&& (self == (PresenterView {
                tree: crate::model::cloned(
                    before.tree,
                    cur_node,
                    ROOT_PARENT_ID,
                    None,
                    before.tree.nodes.len(),
                ),
                snip_nodes: before.snip_nodes.push(before.tree.next_id),
                ..before
            }))
        &&& self.ids_kept(before)
    }

    /// What putting the node on top of the stack next to a node does to the presenter, and the id it gives.
    pub open spec fn put(self, before: PresenterView, cur_node: NodeId, consume: bool, as_child: bool, r: Option<NodeId>) -> bool {
        &&& self.wf()
        &&& r.is_some() == (before.snip_nodes.len() > 0)
        &&& self.tree_modified
        &&& (self.snip_nodes == (if consume && before.snip_nodes.len() > 0 {
                before.snip_nodes.drop_last()
            } else {
                before.snip_nodes
            }))
        &&& (r.is_some() && consume ==> r == Some(before.snip_nodes.last()) && self.tree == before.tree.reparented(
                before.snip_nodes.last(),
                before.put_parent(cur_node, as_child),
                before.put_after(cur_node, as_child, true),
            ))
        &&& (r.is_some() && !consume ==> r == Some(before.tree.next_id) && self.tree
                == crate::model::cloned(
                before.tree,
                before.snip_nodes.last(),
                before.put_parent(cur_node, as_child),
                before.put_beside(cur_node, as_child),
                before.tree.nodes.len(),
            ))
        &&& (r.is_none() ==> self.tree == before.tree)
        &&& ((r matches Some(id) ==> self.tree.has(id)) && self.ids_kept(before))
    }

    /// What exchanging a node with a sibling does to the presenter.
    pub open spec fn swapped(self, before: PresenterView, cur_node: NodeId, direction: isize) -> bool {
        &&& self.wf()
        &&& self == before.edited(before.tree.swapped(cur_node, direction as int))
        &&& self.ids_kept(before)
    }

    /// What moving a node up beside its parent does to the presenter.
    pub open spec fn raised(self, before: PresenterView, node: NodeId) -> bool {
        &&& self.wf()
        &&& (self == before.edited(
                match before.grandparent(node) {
                    Some(g) => before.tree.reparented(
                        node,
                        g,
                        Some((before.tree.nodes[node].parent, true)),
                    ),
                    None => before.tree,
                },
            ))
        &&& self.ids_kept(before)
    }

    /// What striking a node out, or taking that back, does to the presenter.
    pub open spec fn struck(self, before: PresenterView, node: NodeId) -> bool {
        &&& self.wf()
        &&& (self.tree.nodes == before.tree.nodes.insert(
                node,
                NodeView { struckout: !before.tree.nodes[node].struckout, ..before.tree.nodes[node] },
            ))
        &&& self == before.edited(self.tree)
        &&& self.tree.next_id == before.tree.next_id
        &&& self.tree.root_id == before.tree.root_id
        &&& self.ids_kept(before)
    }

    /// The parent under which a node is put that is put next to `cur_node`.
    pub open spec fn put_parent(self, cur_node: NodeId, as_child: bool) -> NodeId {
        if !as_child && self.tree.nodes[cur_node].parent != ROOT_PARENT_ID {
            self.tree.nodes[cur_node].parent
        } else {
            cur_node
        }
    }

    /// The sibling beside which a node is put that is put next to
    /// `cur_node`, if it is put beside one.
    pub open spec fn put_beside(self, cur_node: NodeId, as_child: bool) -> Option<NodeId> {
        if !as_child && self.tree.nodes[cur_node].parent != ROOT_PARENT_ID {
            Some(cur_node)
        } else {
            None
        }
    }

    /// The same sibling, with the side on which the node goes: after it.
    pub open spec fn put_after(self, cur_node: NodeId, as_child: bool, after: bool) -> Option<(NodeId, bool)> {
        match self.put_beside(cur_node, as_child) {
            Some(n) => Some((n, !after)),
            None => None,
        }
    }

    /// The parent of the parent of a node.
    pub open spec fn grandparent(self, node: NodeId) -> Option<NodeId> {
        match self.tree.nodes[node].parent_link() {
            Some(p) => self.tree.nodes[p].parent_link(),
            None => None,
        }
    }
}


/// The longest label of a node in the status line, in characters.
pub const LABEL_LEN: usize = 15;

/// The label of a node in the status line: its text up to the first line
/// feed and to the length of a label, with an ellipsis after it where the
/// text is longer than a label.
pub open spec fn short_label(s: Seq<char>) -> Seq<char> {
    let line = word_end_of(s, '\n');
    let end = if line <= LABEL_LEN {
        line
    } else {
        LABEL_LEN as int
    };
    if s.len() > LABEL_LEN {
        s.subrange(0, end).push('\u{2026}')
    } else {
        s.subrange(0, end)
    }
}

/// The index of the first `stop` in a text, or the length of the text.
pub open spec fn word_end_of(s: Seq<char>, stop: char) -> int {
    match find_forward(s, CharTest::Is(stop), 0) {
        Some(i) => i,
        None => s.len() as int,
    }
}

/// The label of a node in the status line.
pub fn trunc_str(s: &str) -> (r: String)
    ensures
        r@ == short_label(s@),
{
    let len: usize = s.unicode_len();
    let mut line: usize = 0;
    proof {
        lemma_find_forward(s@, CharTest::Is('\n'), 0);
    }
    while line < len
        invariant
            line <= len == s@.len(),
            find_forward(s@, CharTest::Is('\n'), 0) == find_forward(s@, CharTest::Is('\n'), line as int),
        ensures
            line == word_end_of(s@, '\n'),
            line <= len,
        decreases len - line,
    {
        if s.get_char(line) == '\n' {
            break;
        }
        line += 1;
    }
    let end: usize = if line <= LABEL_LEN {
        line
    } else {
        LABEL_LEN
    };
    let mut r = String::from_str(s.substring_char(0, end));
    if len > LABEL_LEN {
        proof {
            reveal_strlit("\u{2026}");
            assert("\u{2026}"@ =~= seq!['\u{2026}']);
        }
        r.append("\u{2026}");
        assert(r@ =~= s@.subrange(0, end as int).push('\u{2026}'));
    }
    r
}

/// The texts of strings.
pub open spec fn texts(v: Seq<String>) -> Seq<Seq<char>> {
    v.map_values(|s: String| s@)
}

/// The labels of a node and of those above it, the node's own first, for
/// at most `steps` steps up.
pub open spec fn labels_up(t: TreeView, node: NodeId, steps: nat) -> Seq<Seq<char>>
    decreases steps,
{
    let here = seq![short_label(t.nodes[node].text)];
    match t.nodes[node].parent_link() {
        Some(p) => if steps > 0 {
            here + labels_up(t, p, (steps - 1) as nat)
        } else {
            here
        },
        None => here,
    }
}

impl Presenter {
    /// The labels of the current root and of the nodes above it, for the
    /// status line: the current root's first. The walk up takes no more
    /// steps than the outline has nodes.
    pub fn root_path(&self) -> (labels: Vec<String>)
        requires
            self@.wf(),
        ensures
            texts(labels@) == labels_up(self@.tree, self@.current_root, self@.tree.nodes.len()),
    {
        let mut labels: Vec<String> = Vec::new();
        let mut cur: NodeId = self.current_root;
        let steps: usize = self.tree.len();
        let ghost whole = labels_up(self@.tree, self@.current_root, self@.tree.nodes.len());
        proof {
            assert(texts(labels@) =~= Seq::<Seq<char>>::empty());
        }
        let mut i: usize = 0;
        loop
            invariant_except_break
                whole == texts(labels@) + labels_up(self@.tree, cur, (steps - i) as nat),
            invariant
                i <= steps,
                self@.wf(),
                self@.tree.has(cur),
            ensures
                whole == texts(labels@),
            decreases steps - i,
        {
            let ghost before = texts(labels@);
            let ghost here = seq![short_label(self@.tree.nodes[cur].text)];
            let node = self.tree.node(cur);
            labels.push(trunc_str(node.text.as_str()));
            proof {
                assert(texts(labels@) =~= before + seq![short_label(self@.tree.nodes[cur].text)]);
            }
            match node.parent() {
                Some(p) => {
                    if i < steps {
                        proof {
                            let rest = labels_up(self@.tree, p, (steps - i - 1) as nat);
                            assert(before + (seq![short_label(self@.tree.nodes[cur].text)] + rest) =~= (before
                                + seq![short_label(self@.tree.nodes[cur].text)]) + rest);
                        }
                        cur = p;
                        i += 1;
                    } else {
                        assert(whole == before + here);
                        break;
                    }
                },
                None => {
                    assert(whole == before + here);
                    break;
                },
            }
        }
        labels
    }
}

} // verus!
