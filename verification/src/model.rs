//! The outline: a forest of text nodes, held by id.

use vstd::prelude::*;
use std::collections::HashMap;

verus! {

broadcast use vstd::std_specs::hash::group_hash_axioms;

/// The name of a node. Ids are handed out from 1 upwards.
pub type NodeId = usize;

/// The parent id of a node that has no parent.
pub const ROOT_PARENT_ID: NodeId = 0;

/// One entry of the outline.
pub struct Node {
    pub id: NodeId,
    pub text: String,
    pub parent: NodeId,
    pub children: Vec<NodeId>,
    pub struckout: bool,
}

/// A node as plain values.
pub struct NodeView {
    pub id: NodeId,
    pub text: Seq<char>,
    pub parent: NodeId,
    pub children: Seq<NodeId>,
    pub struckout: bool,
}

impl View for Node {
    type V = NodeView;

    open spec fn view(&self) -> NodeView {
        NodeView {
            id: self.id,
            text: self.text@,
            parent: self.parent,
            children: self.children@,
            struckout: self.struckout,
        }
    }
}

impl Node {
    /// The node's parent, if it has one.
    pub fn parent(&self) -> (p: Option<NodeId>)
        ensures
            p == self@.parent_link(),
    {
        if self.parent == ROOT_PARENT_ID {
            None
        } else {
            Some(self.parent)
        }
    }
}

impl NodeView {
    /// The parent as an option: id 0 stands for none.
    pub open spec fn parent_link(self) -> Option<NodeId> {
        if self.parent == ROOT_PARENT_ID {
            None
        } else {
            Some(self.parent)
        }
    }

    /// The same node with other children.
    pub open spec fn with_children(self, children: Seq<NodeId>) -> NodeView {
        NodeView { children: children, ..self }
    }

    /// The same node under another parent.
    pub open spec fn with_parent(self, parent: NodeId) -> NodeView {
        NodeView { parent: parent, ..self }
    }

    /// The same node with another text.
    pub open spec fn with_text(self, text: Seq<char>) -> NodeView {
        NodeView { text: text, ..self }
    }
}

/// The first index at or after `from` at which `x` stands in `s`.
pub open spec fn position_from(s: Seq<NodeId>, x: NodeId, from: int) -> Option<int>
    decreases s.len() - from,
{
    if from < 0 || from >= s.len() {
        None
    } else if s[from] == x {
        Some(from)
    } else {
        position_from(s, x, from + 1)
    }
}

/// The first index at which `x` stands in `s`.
pub open spec fn position(s: Seq<NodeId>, x: NodeId) -> Option<int> {
    position_from(s, x, 0)
}

/// `s` with every occurrence of `x` taken out.
pub open spec fn without(s: Seq<NodeId>, x: NodeId) -> Seq<NodeId>
    decreases s.len(),
{
    if s.len() == 0 {
        s
    } else if s.last() == x {
        without(s.drop_last(), x)
    } else {
        without(s.drop_last(), x).push(s.last())
    }
}

/// `s` with the items at `i` and `j` exchanged.
pub open spec fn exchanged(s: Seq<NodeId>, i: int, j: int) -> Seq<NodeId> {
    s.update(i, s[j]).update(j, s[i])
}

/// What the first match of a search says of the sequence.
pub proof fn lemma_position(s: Seq<NodeId>, x: NodeId, from: int)
    requires
        0 <= from,
    ensures
        match position_from(s, x, from) {
            Some(i) => from <= i < s.len() && s[i] == x && forall|j: int|
                from <= j < i ==> #[trigger] s[j] != x,
            None => forall|j: int| from <= j < s.len() ==> #[trigger] s[j] != x,
        },
    decreases s.len() - from,
{
    if from < s.len() && s[from] != x {
        lemma_position(s, x, from + 1);
    }
}

/// Every item of `without(s, x)` is an item of `s`, and none is `x`.
pub proof fn lemma_without(s: Seq<NodeId>, x: NodeId)
    ensures
        without(s, x).len() <= s.len(),
        forall|i: int| 0 <= i < without(s, x).len() ==> #[trigger] without(s, x)[i] != x && s.contains(without(s, x)[i]),
    decreases s.len(),
{
    if s.len() > 0 {
        lemma_without(s.drop_last(), x);
        let w = without(s.drop_last(), x);
        assert forall|i: int| 0 <= i < without(s, x).len() implies #[trigger] without(s, x)[i] != x
            && s.contains(without(s, x)[i]) by {
            if i < w.len() {
                let k = choose|k: int| 0 <= k < s.drop_last().len() && s.drop_last()[k] == w[i];
                assert(s[k] == w[i]);
            } else {
                assert(s[s.len() - 1] == without(s, x)[i]);
            }
        }
    }
}

/// The outline as plain values.
pub struct TreeView {
    pub next_id: NodeId,
    pub root_id: NodeId,
    pub nodes: Map<NodeId, NodeView>,
}

impl TreeView {
    /// Whether `id` names a node of the outline.
    pub open spec fn has(self, id: NodeId) -> bool {
        self.nodes.contains_key(id)
    }

    /// Whether `id` can be a parent: it is 0, for none, or names a node.
    pub open spec fn has_or_none(self, id: NodeId) -> bool {
        id == ROOT_PARENT_ID || self.has(id)
    }

    /// Every node is held under its own id, which is one that has been
    /// handed out, and the parent, the children and the root that are named
    /// are nodes of the outline.
    pub open spec fn links_closed(self) -> bool {
        &&& self.next_id >= 1
        &&& self.has_or_none(self.root_id)
        &&& forall|k: NodeId| #[trigger]
            self.has(k) ==> {
                &&& 1 <= k < self.next_id
                &&& self.nodes[k].id == k
                &&& self.has_or_none(self.nodes[k].parent)
                &&& forall|i: int|
                    0 <= i < self.nodes[k].children.len() ==> self.has(#[trigger] self.nodes[k].children[i])
            }
    }

    /// Whether `k` has no parent or stands among the children of the parent
    /// that it names.
    pub open spec fn listed(self, k: NodeId) -> bool {
        self.nodes[k].parent != ROOT_PARENT_ID ==> self.nodes[self.nodes[k].parent].children.contains(k)
    }

    /// The outline is well formed: its links are closed, and every node
    /// that names a parent stands among that parent's children.
    pub open spec fn wf(self) -> bool {
        &&& self.links_closed()
        &&& forall|k: NodeId| self.has(k) ==> #[trigger] self.listed(k)
    }

    /// The outline with the children of `id` replaced.
    pub open spec fn set_children(self, id: NodeId, children: Seq<NodeId>) -> TreeView {
        TreeView { nodes: self.nodes.insert(id, self.nodes[id].with_children(children)), ..self }
    }

    /// The outline with `id` put under another parent id. The parent's list
    /// of children is left as it is.
    pub open spec fn set_parent(self, id: NodeId, parent: NodeId) -> TreeView {
        TreeView { nodes: self.nodes.insert(id, self.nodes[id].with_parent(parent)), ..self }
    }

    /// The outline with the text of `id` replaced.
    pub open spec fn set_text(self, id: NodeId, text: Seq<char>) -> TreeView {
        TreeView { nodes: self.nodes.insert(id, self.nodes[id].with_text(text)), ..self }
    }

    /// The outline with a new node, which no list of children names yet.
    /// The node gets the next id.
    pub open spec fn created(self, text: Seq<char>, parent: NodeId) -> TreeView {
        TreeView {
            next_id: (self.next_id + 1) as NodeId,
            root_id: self.root_id,
            nodes: self.nodes.insert(
                self.next_id,
                NodeView {
                    id: self.next_id,
                    text: text,
                    parent: parent,
                    children: Seq::empty(),
                    struckout: false,
                },
            ),
        }
    }

    /// The outline with `child` put into the children of `parent` at index
    /// `at`; unchanged where `parent` is 0.
    pub open spec fn linked(self, parent: NodeId, at: int, child: NodeId) -> TreeView {
        if parent == ROOT_PARENT_ID {
            self
        } else {
            self.set_children(parent, self.nodes[parent].children.insert(at, child))
        }
    }

    /// The outline with `child` taken out of the children of its parent,
    /// if it has one. Its own parent id is left as it is.
    pub open spec fn unlinked(self, child: NodeId) -> TreeView {
        let p = self.nodes[child].parent;
        if p == ROOT_PARENT_ID {
            self
        } else {
            self.set_children(p, without(self.nodes[p].children, child))
        }
    }

    /// The outline with a new node as the last child of `parent`.
    pub open spec fn added(self, text: Seq<char>, parent: NodeId) -> TreeView {
        let t = self.created(text, parent);
        t.linked(parent, t.nodes[parent].children.len() as int, self.next_id)
    }

    /// The outline with a new node as the first child of `parent`.
    pub open spec fn added_first(self, text: Seq<char>, parent: NodeId) -> TreeView {
        self.created(text, parent).linked(parent, 0, self.next_id)
    }

    /// The index at which a node goes that is put next to `at` among the
    /// children of `parent`: after it, or in its place.
    pub open spec fn slot(self, parent: NodeId, at: NodeId, after: bool) -> int {
        position(self.nodes[parent].children, at).unwrap() + if after {
            1int
        } else {
            0int
        }
    }

    /// The outline with a new node put next to `at` under `parent`.
    pub open spec fn inserted(self, text: Seq<char>, parent: NodeId, at: NodeId, after: bool) -> TreeView {
        let t = self.created(text, parent);
        t.linked(parent, t.slot(parent, at, after), self.next_id)
    }

    /// The outline with `node` cut loose: out of its parent's children and
    /// without a parent. A node without a parent stays as it is.
    pub open spec fn cut(self, node: NodeId) -> TreeView {
        if self.nodes[node].parent == ROOT_PARENT_ID {
            self
        } else {
            self.unlinked(node).set_parent(node, ROOT_PARENT_ID)
        }
    }

    /// The outline with `node` moved under `new_parent`: as its last child,
    /// or next to a sibling, before it if the flag is set and after it
    /// otherwise.
    pub open spec fn reparented(self, node: NodeId, new_parent: NodeId, next_to: Option<(NodeId, bool)>) -> TreeView {
        let t = self.unlinked(node).set_parent(node, new_parent);
        match next_to {
            Some((sibling, before)) => t.linked(new_parent, t.slot(new_parent, sibling, !before), node),
            None => t.linked(new_parent, t.nodes[new_parent].children.len() as int, node),
        }
    }

    /// The sibling that comes after `node` under its parent.
    pub open spec fn next_sibling(self, node: NodeId) -> Option<NodeId> {
        let p = self.nodes[node].parent;
        if p == ROOT_PARENT_ID {
            None
        } else {
            match position(self.nodes[p].children, node) {
                Some(ix) => if ix + 1 < self.nodes[p].children.len() {
                    Some(self.nodes[p].children[ix + 1])
                } else {
                    None
                },
                None => None,
            }
        }
    }

    /// The sibling that comes before `node` under its parent.
    pub open spec fn prev_sibling(self, node: NodeId) -> Option<NodeId> {
        let p = self.nodes[node].parent;
        if p == ROOT_PARENT_ID {
            None
        } else {
            match position(self.nodes[p].children, node) {
                Some(ix) => if ix != 0 {
                    Some(self.nodes[p].children[ix - 1])
                } else {
                    None
                },
                None => None,
            }
        }
    }

    /// The outline with `node` exchanged with the sibling that stands
    /// `direction` places after it; unchanged where there is no such
    /// sibling, or no parent.
    pub open spec fn swapped(self, node: NodeId, direction: int) -> TreeView {
        let p = self.nodes[node].parent;
        if p == ROOT_PARENT_ID {
            self
        } else {
            let ix = position(self.nodes[p].children, node).unwrap();
            if 0 <= ix + direction < self.nodes[p].children.len() {
                self.set_children(p, exchanged(self.nodes[p].children, ix, ix + direction))
            } else {
                self
            }
        }
    }
}

/// The outline after `node` has been copied under `new_parent`, after its
/// child `after` or as its last child, with the text of each node and
/// without its strike-out. The copy gets the next id. The children of
/// `node`, as they are once the copy stands, are copied under the copy in
/// their order, and so on down to `depth` levels below `node`, which in a
/// tree is all of them when `depth` is its number of nodes. Copying stops
/// when the ids run out.
pub open spec fn cloned(t: TreeView, node: NodeId, new_parent: NodeId, after: Option<NodeId>, depth: nat) -> TreeView
    decreases depth, 0nat,
{
    let copy = match after {
        Some(a) => t.inserted(t.nodes[node].text, new_parent, a, true),
        None => t.added(t.nodes[node].text, new_parent),
    };
    if depth == 0 {
        copy
    } else {
        cloned_children(copy, copy.nodes[node].children, 0, t.next_id, (depth - 1) as nat)
    }
}

/// The outline after the nodes of `children` from index `from` on have
/// been copied under `into`, one after the other.
pub open spec fn cloned_children(t: TreeView, children: Seq<NodeId>, from: nat, into: NodeId, depth: nat) -> TreeView
    decreases depth, 1 + children.len() - from,
{
    if from >= children.len() || t.next_id >= usize::MAX {
        t
    } else {
        cloned_children(cloned(t, children[from as int], into, None, depth), children, from + 1, into, depth)
    }
}

/// `n` times two spaces.
pub open spec fn indent(n: nat) -> Seq<char>
    decreases n,
{
    if n == 0 {
        Seq::empty()
    } else {
        indent((n - 1) as nat) + seq![' ', ' ']
    }
}

/// The line of a node in a Markdown list: an indent, a dash, and the
/// node's text, between tildes where it is struck out.
pub open spec fn markdown_line(n: NodeView, depth: nat) -> Seq<char> {
    indent(depth) + seq!['-', ' '] + if n.struckout {
        seq!['~', '~'] + n.text + seq!['~', '~', '\n']
    } else {
        n.text + seq!['\n']
    }
}

/// The outline below `node` as a Markdown list, `node` itself at `depth`
/// and each level of children one deeper, down to `levels` levels. An id
/// that names no node gives no line.
pub open spec fn markdown(t: TreeView, node: NodeId, depth: nat, levels: nat) -> Seq<char>
    decreases levels, 0nat,
{
    if !t.has(node) {
        Seq::empty()
    } else if levels == 0 {
        markdown_line(t.nodes[node], depth)
    } else {
        markdown_line(t.nodes[node], depth) + markdown_children(
            t,
            t.nodes[node].children,
            0,
            depth + 1,
            (levels - 1) as nat,
        )
    }
}

/// The Markdown of the nodes of `children` from index `from` on, one after
/// the other.
pub open spec fn markdown_children(t: TreeView, children: Seq<NodeId>, from: nat, depth: nat, levels: nat) -> Seq<char>
    decreases levels, 1 + children.len() - from,
{
    if from >= children.len() {
        Seq::empty()
    } else {
        markdown(t, children[from as int], depth, levels) + markdown_children(
            t,
            children,
            from + 1,
            depth,
            levels,
        )
    }
}

/// The outline.
pub struct Tree {
    next_id: NodeId,
    root_id: NodeId,
    pub nodes: HashMap<NodeId, Node>,
}

impl View for Tree {
    type V = TreeView;

    closed spec fn view(&self) -> TreeView {
        TreeView {
            next_id: self.next_id,
            root_id: self.root_id,
            nodes: self.nodes@.map_values(|n: Node| n@),
        }
    }
}

fn position_of(children: &Vec<NodeId>, x: NodeId) -> (r: Option<usize>)
    ensures
        match position(children@, x) {
            Some(i) => r == Some(i as usize) && 0 <= i < children.len(),
            None => r.is_none(),
        },
{
    let mut i: usize = 0;
    proof {
        lemma_position(children@, x, 0);
    }
    while i < children.len()
        invariant
            i <= children.len(),
            position(children@, x) == position_from(children@, x, i as int),
        decreases children.len() - i,
    {
        if children[i] == x {
            proof {
                lemma_position(children@, x, i as int);
            }
            return Some(i);
        }
        i += 1;
    }
    None
}

fn copy_ids(ids: &Vec<NodeId>) -> (r: Vec<NodeId>)
    ensures
        r@ == ids@,
{
    let mut out: Vec<NodeId> = Vec::new();
    let mut i: usize = 0;
    while i < ids.len()
        invariant
            i <= ids.len(),
            out@ == ids@.subrange(0, i as int),
        decreases ids.len() - i,
    {
        out.push(ids[i]);
        assert(out@ =~= ids@.subrange(0, i + 1));
        i += 1;
    }
    assert(ids@.subrange(0, ids.len() as int) =~= ids@);
    out
}

/// `HashMap::get_mut` on a key that the map holds: a mutable reference to
/// the value under that key. Whatever is written through it is the value
/// under that key afterwards, and no other entry changes.
#[verifier::external_body]
fn slot_of(nodes: &mut HashMap<NodeId, Node>, id: NodeId) -> (n: &mut Node)
    requires
        old(nodes)@.contains_key(id),
    ensures
        *n == old(nodes)@[id],
        final(nodes)@ == old(nodes)@.insert(id, *final(n)),
{
    nodes.get_mut(&id).unwrap()
}

fn remove_all(children: &Vec<NodeId>, x: NodeId) -> (r: Vec<NodeId>)
    ensures
        r@ == without(children@, x),
{
    let mut out: Vec<NodeId> = Vec::new();
    let mut i: usize = 0;
    assert(children@.subrange(0, 0) =~= Seq::<NodeId>::empty());
    while i < children.len()
        invariant
            i <= children.len(),
            out@ == without(children@.subrange(0, i as int), x),
        decreases children.len() - i,
    {
        assert(children@.subrange(0, i + 1).drop_last() =~= children@.subrange(0, i as int));
        if children[i] != x {
            out.push(children[i]);
        }
        i += 1;
    }
    assert(children@.subrange(0, children.len() as int) =~= children@);
    out
}

impl Default for Tree {
    /// An outline of one node, the root, with an empty text.
    fn default() -> (t: Tree)
        ensures
            t@.wf(),
            t@.root_id == 1,
            t@.next_id == 2,
            t@.nodes == Map::<NodeId, NodeView>::empty().insert(
                1,
                NodeView { id: 1, text: Seq::empty(), parent: ROOT_PARENT_ID, children: Seq::empty(), struckout: false },
            ),
    {
        let mut t = Tree::new();
        let rid = t.add_node(String::new(), ROOT_PARENT_ID);
        t.set_root_id(rid);
        t
    }
}

impl Tree {
    /// An outline without nodes and without a root.
    pub fn new() -> (t: Tree)
        ensures
            t@.wf(),
            t@.next_id == 1,
            t@.root_id == ROOT_PARENT_ID,
            t@.nodes == Map::<NodeId, NodeView>::empty(),
    {
        let t = Tree { nodes: HashMap::new(), next_id: 1, root_id: 0 };
        assert(t@.nodes =~= Map::<NodeId, NodeView>::empty());
        t
    }

    /// The id of the root node, or 0 where none was set.
    pub fn root_id(&self) -> (id: NodeId)
        ensures
            id == self@.root_id,
    {
        self.root_id
    }

    /// Makes `id` the root of an outline that has none yet.
    pub fn set_root_id(&mut self, id: NodeId)
        requires
            old(self)@.root_id == ROOT_PARENT_ID,
        ensures
            final(self)@ == (TreeView { root_id: id, ..old(self)@ }),
    {
        self.root_id = id;
    }

    /// Whether `id` names a node.
    pub fn contains(&self, id: NodeId) -> (b: bool)
        ensures
            b == self@.has(id),
    {
        self.nodes.contains_key(&id)
    }

    fn take(&mut self, id: NodeId) -> (n: Node)
        requires
            old(self)@.has(id),
        ensures
            n@ == old(self)@.nodes[id],
            final(self).nodes@ == old(self).nodes@.remove(id),
            final(self).next_id == old(self).next_id,
            final(self).root_id == old(self).root_id,
    {
        match self.nodes.remove(&id) {
            Some(n) => n,
            None => vstd::pervasive::unreached(),
        }
    }

    fn put(&mut self, n: Node)
        ensures
            final(self).nodes@ == old(self).nodes@.insert(n.id, n),
            final(self).next_id == old(self).next_id,
            final(self).root_id == old(self).root_id,
    {
        let id = n.id;
        self.nodes.insert(id, n);
    }

    fn replace_children(&mut self, id: NodeId, children: Vec<NodeId>)
        requires
            old(self)@.has(id),
            old(self)@.nodes[id].id == id,
        ensures
            final(self)@ == old(self)@.set_children(id, children@),
    {
        let mut n = self.take(id);
        n.children = children;
        self.put(n);
        assert(self@.nodes =~= old(self)@.set_children(id, children@).nodes);
    }

    fn replace_parent(&mut self, id: NodeId, parent: NodeId)
        requires
            old(self)@.has(id),
            old(self)@.nodes[id].id == id,
        ensures
            final(self)@ == old(self)@.set_parent(id, parent),
    {
        let mut n = self.take(id);
        n.parent = parent;
        self.put(n);
        assert(self@.nodes =~= old(self)@.set_parent(id, parent).nodes);
    }

    fn link(&mut self, parent: NodeId, at: usize, child: NodeId)
        requires
            old(self)@.has_or_none(parent),
            parent != ROOT_PARENT_ID ==> old(self)@.nodes[parent].id == parent && at <= old(
                self,
            )@.nodes[parent].children.len(),
        ensures
            final(self)@ == old(self)@.linked(parent, at as int, child),
    {
        if parent != ROOT_PARENT_ID {
            let mut n = self.take(parent);
            n.children.insert(at, child);
            self.put(n);
            assert(self@.nodes =~= old(self)@.linked(parent, at as int, child).nodes);
        }
    }

    fn unlink(&mut self, child: NodeId)
        requires
            old(self)@.links_closed(),
            old(self)@.has(child),
        ensures
            final(self)@ == old(self)@.unlinked(child),
    {
        let p = self.node(child).parent;
        if p != ROOT_PARENT_ID {
            let kept = remove_all(&self.node(p).children, child);
            self.replace_children(p, kept);
        }
    }

    fn create_node(&mut self, text: String, parent: NodeId) -> (id: NodeId)
        requires
            old(self)@.next_id < usize::MAX,
        ensures
            id == old(self)@.next_id,
            final(self)@ == old(self)@.created(text@, parent),
    {
        let id = self.next_id;
        self.next_id += 1;
        self.put(Node { id: id, text: text, parent: parent, children: Vec::new(), struckout: false });
        assert(self@.nodes =~= old(self)@.created(text@, parent).nodes);
        id
    }

    /// Adds a node as the last child of `parent`, or without a parent where
    /// `parent` is 0, and gives its id.
    pub fn add_node(&mut self, text: String, parent: NodeId) -> (id: NodeId)
        requires
            old(self)@.wf(),
            old(self)@.has_or_none(parent),
            old(self)@.next_id < usize::MAX,
        ensures
            id == old(self)@.next_id,
            final(self)@ == old(self)@.added(text@, parent),
            final(self)@.wf(),
            final(self)@.has(id),
            forall|k: NodeId| old(self)@.has(k) ==> final(self)@.has(k),
    {
        let id = self.create_node(text, parent);
        proof {
            lemma_created_closed(old(self)@, text@, parent);
            lemma_create_linked_wf(old(self)@, text@, parent, old(self)@.nodes[parent].children.len() as int);
        }
        if parent != ROOT_PARENT_ID {
            let at = self.node(parent).children.len();
            self.link(parent, at, id);
        }
        id
    }

    /// Adds a node as the first child of `parent`, or without a parent
    /// where `parent` is 0, and gives its id.
    pub fn add_node_at_beginning(&mut self, text: String, parent: NodeId) -> (id: NodeId)
        requires
            old(self)@.wf(),
            old(self)@.has_or_none(parent),
            old(self)@.next_id < usize::MAX,
        ensures
            id == old(self)@.next_id,
            final(self)@ == old(self)@.added_first(text@, parent),
            final(self)@.wf(),
            final(self)@.has(id),
            forall|k: NodeId| old(self)@.has(k) ==> final(self)@.has(k),
    {
        let id = self.create_node(text, parent);
        proof {
            lemma_created_closed(old(self)@, text@, parent);
            lemma_create_linked_wf(old(self)@, text@, parent, 0);
        }
        self.link(parent, 0, id);
        id
    }

    /// Adds a node under `parent` next to its child `at`: after it if
    /// `after_or_before` is set, else before it. Under no parent, the node is
    /// only created.
    pub fn insert_node(&mut self, text: String, parent: NodeId, at: NodeId, after_or_before: bool) -> (id:
        NodeId)
        requires
            old(self)@.wf(),
            old(self)@.has_or_none(parent),
            old(self)@.next_id < usize::MAX,
            parent != ROOT_PARENT_ID ==> old(self)@.nodes[parent].children.contains(at),
        ensures
            id == old(self)@.next_id,
            final(self)@ == old(self)@.inserted(text@, parent, at, after_or_before),
            final(self)@.wf(),
            final(self)@.has(id),
            forall|k: NodeId| old(self)@.has(k) ==> final(self)@.has(k),
    {
        let id = self.create_node(text, parent);
        proof {
            lemma_created_closed(old(self)@, text@, parent);
            lemma_position(old(self)@.nodes[parent].children, at, 0);
            lemma_create_linked_wf(old(self)@, text@, parent, self@.slot(parent, at, after_or_before));
        }
        if parent != ROOT_PARENT_ID {
            let at_ix: usize = match position_of(&self.node(parent).children, at) {
                Some(i) => i,
                None => vstd::pervasive::unreached(),
            };
            let slot: usize = if after_or_before {
                at_ix + 1
            } else {
                at_ix
            };
            self.link(parent, slot, id);
        }
        id
    }

    /// The node with the given id.
    pub fn node(&self, id: NodeId) -> (n: &Node)
        requires
            self@.has(id),
        ensures
            n@ == self@.nodes[id],
    {
        match self.nodes.get(&id) {
            Some(n) => n,
            None => vstd::pervasive::unreached(),
        }
    }

    /// Cuts `node` loose from its parent, if it has one.
    pub fn cut_node(&mut self, node: NodeId)
        requires
            old(self)@.wf(),
            old(self)@.has(node),
        ensures
            final(self)@ == old(self)@.cut(node),
            final(self)@.wf(),
            forall|k: NodeId| old(self)@.has(k) <==> final(self)@.has(k),
    {
        if self.node(node).parent != ROOT_PARENT_ID {
            self.unlink(node);
            proof {
                lemma_unlink_closed(old(self)@, node);
                lemma_move_wf(old(self)@, node, ROOT_PARENT_ID, 0);
            }
            self.replace_parent(node, ROOT_PARENT_ID);
        }
    }

    /// Moves `node` under `new_parent`: to the end of its children, or next
    /// to the child that `next_to` names, before it if the flag is set and
    /// after it otherwise. Under parent 0 the node is only cut loose.
    pub fn reparent_node(&mut self, node: NodeId, new_parent: NodeId, next_to: Option<(NodeId, bool)>)
        requires
            old(self)@.wf(),
            old(self)@.has(node),
            old(self)@.has_or_none(new_parent),
            new_parent != ROOT_PARENT_ID && next_to.is_some() ==> old(self)@.unlinked(
                node,
            ).nodes[new_parent].children.contains(next_to.unwrap().0),
        ensures
            final(self)@ == old(self)@.reparented(node, new_parent, next_to),
            final(self)@.wf(),
            forall|k: NodeId| old(self)@.has(k) <==> final(self)@.has(k),
    {
        self.unlink(node);
        proof {
            lemma_unlink_closed(old(self)@, node);
            lemma_set_parent_closed(self@, node, new_parent);
        }
        self.replace_parent(node, new_parent);
        let ghost mid = self@;
        if new_parent != ROOT_PARENT_ID {
            let slot: usize = match next_to {
                Some((sibling, before_or_after)) => {
                    proof {
                        lemma_position(self@.nodes[new_parent].children, sibling, 0);
                    }
                    let ix: usize = match position_of(&self.node(new_parent).children, sibling) {
                        Some(i) => i,
                        None => vstd::pervasive::unreached(),
                    };
                    if before_or_after {
                        ix
                    } else {
                        ix + 1
                    }
                },
                None => self.node(new_parent).children.len(),
            };
            proof {
                lemma_move_wf(old(self)@, node, new_parent, slot as int);
            }
            self.link(new_parent, slot, node);
        } else {
            proof {
                lemma_move_wf(old(self)@, node, new_parent, 0);
            }
        }
    }

    /// A mutable reference to the node with the given id. What is written
    /// through it is the node under that id afterwards.
    pub fn node_mut(&mut self, id: usize) -> (n: &mut Node)
        requires
            old(self)@.has(id),
        ensures
            n@ == old(self)@.nodes[id],
            final(self)@ == (TreeView { nodes: old(self)@.nodes.insert(id, final(n)@), ..old(self)@ }),
    {
        let ghost before = self.nodes@;
        let n = slot_of(&mut self.nodes, id);
        proof {
            assert(before.insert(id, *final(n)).map_values(|n: Node| n@) =~= before.map_values(
                |n: Node| n@,
            ).insert(id, final(n)@));
        }
        n
    }

    /// Replaces the text of a node.
    pub fn set_text(&mut self, id: NodeId, text: String)
        requires
            old(self)@.wf(),
            old(self)@.has(id),
        ensures
            final(self)@ == old(self)@.set_text(id, text@),
            final(self)@.wf(),
            forall|k: NodeId| old(self)@.has(k) <==> final(self)@.has(k),
    {
        let n = self.node_mut(id);
        n.text = text;
        proof {
            let t = old(self)@;
            let r = t.set_text(id, text@);
            assert(self@.nodes =~= r.nodes);
            assert forall|k: NodeId| #[trigger] r.has(k) implies {
                &&& 1 <= k < r.next_id
                &&& r.nodes[k].id == k
                &&& r.has_or_none(r.nodes[k].parent)
                &&& forall|i: int| 0 <= i < r.nodes[k].children.len() ==> r.has(#[trigger] r.nodes[k].children[i])
            } by {
                assert(t.has(k));
                assert forall|i: int| 0 <= i < r.nodes[k].children.len() implies r.has(
                    #[trigger] r.nodes[k].children[i],
                ) by {
                    assert(t.has(t.nodes[k].children[i]));
                }
            }
            assert forall|k: NodeId| r.has(k) implies #[trigger] r.listed(k) by {
                assert(t.has(k));
                assert(t.listed(k));
                if t.nodes[k].parent != ROOT_PARENT_ID {
                    assert(t.has(t.nodes[k].parent));
                }
            }
        }
    }

    /// Strikes a node out, or takes its strike-out back.
    pub fn set_struckout(&mut self, id: NodeId, struckout: bool)
        requires
            old(self)@.wf(),
            old(self)@.has(id),
        ensures
            final(self)@ == (TreeView {
                nodes: old(self)@.nodes.insert(id, NodeView { struckout: struckout, ..old(self)@.nodes[id] }),
                ..old(self)@
            }),
            final(self)@.wf(),
            forall|k: NodeId| old(self)@.has(k) <==> final(self)@.has(k),
    {
        let n = self.node_mut(id);
        n.struckout = struckout;
        proof {
            let t = old(self)@;
            let r = self@;
            assert forall|k: NodeId| #[trigger] r.has(k) implies {
                &&& 1 <= k < r.next_id
                &&& r.nodes[k].id == k
                &&& r.has_or_none(r.nodes[k].parent)
                &&& forall|i: int| 0 <= i < r.nodes[k].children.len() ==> r.has(#[trigger] r.nodes[k].children[i])
            } by {
                assert(t.has(k));
                assert forall|i: int| 0 <= i < r.nodes[k].children.len() implies r.has(
                    #[trigger] r.nodes[k].children[i],
                ) by {
                    assert(t.has(t.nodes[k].children[i]));
                }
            }
            assert forall|k: NodeId| r.has(k) implies #[trigger] r.listed(k) by {
                assert(t.has(k));
                assert(t.listed(k));
                if t.nodes[k].parent != ROOT_PARENT_ID {
                    assert(t.has(t.nodes[k].parent));
                }
            }
        }
    }

    fn clone_levels(&mut self, node: NodeId, new_parent: NodeId, after: Option<NodeId>, depth: usize) -> (new_node:
        NodeId)
        requires
            old(self)@.wf(),
            old(self)@.has(node),
            old(self)@.has_or_none(new_parent),
            old(self)@.next_id < usize::MAX,
            new_parent != ROOT_PARENT_ID && after.is_some() ==> old(self)@.nodes[new_parent].children.contains(
                after.unwrap(),
            ),
        ensures
            new_node == old(self)@.next_id,
            final(self)@ == cloned(old(self)@, node, new_parent, after, depth as nat),
            final(self)@.wf(),
            final(self)@.has(new_node),
            final(self)@.nodes[new_node].parent == new_parent,
            final(self)@.root_id == old(self)@.root_id,
            forall|k: NodeId| old(self)@.has(k) ==> final(self)@.has(k) && final(self)@.nodes[k].parent == old(
                self,
            )@.nodes[k].parent,
        decreases depth,
    {
        let text = self.node(node).text.clone();
        let new_node = match after {
            Some(a) => self.insert_node(text, new_parent, a, true),
            None => self.add_node(text, new_parent),
        };
        if depth > 0 {
            let ghost copy = self@;
            let children = copy_ids(&self.node(node).children);
            let mut i: usize = 0;
            assert forall|j: int| 0 <= j < children.len() implies self@.has(#[trigger] children[j]) by {
                assert(self@.has(node));
                assert(self@.has(self@.nodes[node].children[j]));
            }
            while i < children.len() && self.next_id < usize::MAX
                invariant
                    i <= children.len(),
                    depth > 0,
                    self@.wf(),
                    self@.has(new_node),
                    self@.nodes[new_node].parent == new_parent,
                    self@.root_id == old(self)@.root_id,
                    forall|j: int| 0 <= j < children.len() ==> self@.has(#[trigger] children[j]),
                    forall|k: NodeId| old(self)@.has(k) ==> self@.has(k) && self@.nodes[k].parent == old(
                        self,
                    )@.nodes[k].parent,
                    cloned_children(copy, children@, 0, new_node, (depth - 1) as nat) == cloned_children(
                        self@,
                        children@,
                        i as nat,
                        new_node,
                        (depth - 1) as nat,
                    ),
                decreases children.len() - i,
            {
                self.clone_levels(children[i], new_node, None, depth - 1);
                i += 1;
            }
        }
        new_node
    }

    /// Copies `node` and what is below it under `new_parent`: after its
    /// child `after`, or as its last child. Gives the id of the copy.
    pub fn clone_node(&mut self, node: NodeId, new_parent: NodeId, after: Option<NodeId>) -> (new_node: NodeId)
        requires
            old(self)@.wf(),
            old(self)@.has(node),
            old(self)@.has_or_none(new_parent),
            old(self)@.next_id < usize::MAX,
            new_parent != ROOT_PARENT_ID && after.is_some() ==> old(self)@.nodes[new_parent].children.contains(
                after.unwrap(),
            ),
        ensures
            new_node == old(self)@.next_id,
            final(self)@ == cloned(old(self)@, node, new_parent, after, old(self)@.nodes.len()),
            final(self)@.wf(),
            final(self)@.has(new_node),
            !old(self)@.has(new_node),
            final(self)@.nodes[new_node].parent == new_parent,
            final(self)@.root_id == old(self)@.root_id,
            forall|k: NodeId| old(self)@.has(k) ==> final(self)@.has(k) && final(self)@.nodes[k].parent == old(
                self,
            )@.nodes[k].parent,
    {
        let depth = self.nodes.len();
        proof {
            assert(self@.nodes.dom() =~= self.nodes@.dom());
            assert(self@.has(self@.next_id) ==> self@.next_id < self@.next_id);
        }
        self.clone_levels(node, new_parent, after, depth)
    }

    /// Exchanges `node` with the sibling `direction` places after it, or
    /// before it where `direction` is negative, if there is such a sibling.
    pub fn swap_node(&mut self, node: usize, direction: isize)
        requires
            old(self)@.wf(),
            old(self)@.has(node),
        ensures
            final(self)@ == old(self)@.swapped(node, direction as int),
            final(self)@.wf(),
            forall|k: NodeId| old(self)@.has(k) <==> final(self)@.has(k),
    {
        let parent = self.node(node).parent;
        if parent != ROOT_PARENT_ID {
            proof {
                assert(self@.listed(node));
                lemma_position(self@.nodes[parent].children, node, 0);
                lemma_swap_wf(self@, node, direction as int);
            }
            let ix: usize = match position_of(&self.node(parent).children, node) {
                Some(i) => i,
                None => vstd::pervasive::unreached(),
            };
            let len: usize = self.node(parent).children.len();
            let other: Option<usize> = if direction >= 0 {
                let forward: usize = direction as usize;
                if forward < len - ix {
                    Some(ix + forward)
                } else {
                    None
                }
            } else {
                let back: usize = (-(direction + 1)) as usize;
                if back < ix {
                    Some(ix - back - 1)
                } else {
                    None
                }
            };
            match other {
                Some(other_ix) => {
                    let mut children = copy_ids(&self.node(parent).children);
                    let a = children[ix];
                    let b = children[other_ix];
                    children.set(ix, b);
                    children.set(other_ix, a);
                    proof {
                        assert(children@ =~= exchanged(old(self)@.nodes[parent].children, ix as int, other_ix as int));
                        lemma_swap_wf(old(self)@, node, direction as int);
                    }
                    self.replace_children(parent, children);
                },
                None => {},
            }
        }
    }

    fn append_markdown(&self, out: &mut String, node_id: NodeId, depth: usize, levels: usize)
        requires
            depth + levels <= usize::MAX,
        ensures
            final(out)@ == old(out)@ + markdown(self@, node_id, depth as nat, levels as nat),
        decreases levels,
    {
        if !self.contains(node_id) {
            assert(out@ =~= old(out)@ + Seq::<char>::empty());
            return ;
        }
        let node = self.node(node_id);
        proof {
            reveal_strlit("  ");
            reveal_strlit("- ");
            reveal_strlit("~~");
            reveal_strlit("~~\n");
            reveal_strlit("\n");
        }
        let mut d: usize = 0;
        while d < depth
            invariant
                d <= depth,
                out@ == old(out)@ + indent(d as nat),
            decreases depth - d,
        {
            let ghost before = out@;
            out.append("  ");
            d += 1;
            proof {
                reveal_strlit("  ");
            }
            assert("  "@ =~= seq![' ', ' ']);
            assert(out@ =~= old(out)@ + (indent((d - 1) as nat) + seq![' ', ' ']));
        }
        out.append("- ");
        if node.struckout {
            out.append("~~");
            out.append(node.text.as_str());
            out.append("~~\n");
        } else {
            out.append(node.text.as_str());
            out.append("\n");
        }
        assert(out@ =~= old(out)@ + markdown_line(node@, depth as nat));
        if levels > 0 {
            let ghost line_end = out@;
            let mut i: usize = 0;
            while i < node.children.len()
                invariant
                    i <= node.children.len(),
                    levels > 0,
                    depth + levels <= usize::MAX,
                    self@.has(node_id),
                    node@ == self@.nodes[node_id],
                    line_end + markdown_children(
                        self@,
                        node.children@,
                        0,
                        (depth + 1) as nat,
                        (levels - 1) as nat,
                    ) == out@ + markdown_children(
                        self@,
                        node.children@,
                        i as nat,
                        (depth + 1) as nat,
                        (levels - 1) as nat,
                    ),
                decreases node.children.len() - i,
            {
                let ghost before = out@;
                self.append_markdown(out, node.children[i], depth + 1, levels - 1);
                proof {
                    let rest = markdown_children(
                        self@,
                        node.children@,
                        (i + 1) as nat,
                        (depth + 1) as nat,
                        (levels - 1) as nat,
                    );
                    let one = markdown(self@, node.children[i as int], (depth + 1) as nat, (levels - 1) as nat);
                    assert(before + (one + rest) =~= (before + one) + rest);
                }
                i += 1;
            }
            assert(out@ =~= out@ + Seq::<char>::empty());
            assert(old(out)@ + (markdown_line(node@, depth as nat) + markdown_children(
                self@,
                node.children@,
                0,
                (depth + 1) as nat,
                (levels - 1) as nat,
            )) =~= line_end + markdown_children(
                self@,
                node.children@,
                0,
                (depth + 1) as nat,
                (levels - 1) as nat,
            ));
        }
    }

    /// The outline from the root down as a Markdown list, for a writer to
    /// put out: one line for each node, two spaces deeper for each level.
    pub fn write_markdown(&self) -> (out: String)
        ensures
            out@ == markdown(self@, self@.root_id, 0, self@.nodes.len()),
    {
        let mut out = String::new();
        let levels = self.nodes.len();
        proof {
            assert(self@.nodes.dom() =~= self.nodes@.dom());
        }
        self.append_markdown(&mut out, self.root_id, 0, levels);
        assert(out@ =~= markdown(self@, self@.root_id, 0, self@.nodes.len()));
        out
    }

    /// The sibling after `node`, if it has a parent and is not its last
    /// child.
    pub fn next_child(&self, node: NodeId) -> (r: Option<NodeId>)
        requires
            self@.wf(),
            self@.has(node),
        ensures
            r == self@.next_sibling(node),
    {
        let parent = self.node(node).parent;
        if parent != ROOT_PARENT_ID {
            let parent = self.node(parent);
            match position_of(&parent.children, node) {
                Some(ix) => {
                    if ix + 1 < parent.children.len() {
                        return Some(parent.children[ix + 1]);
                    }
                },
                None => {},
            }
        }
        None
    }

    /// The sibling before `node`, if it has a parent and is not its first
    /// child.
    pub fn prev_child(&self, node: NodeId) -> (r: Option<NodeId>)
        requires
            self@.wf(),
            self@.has(node),
        ensures
            r == self@.prev_sibling(node),
    {
        let parent = self.node(node).parent;
        if parent != ROOT_PARENT_ID {
            let parent = self.node(parent);
            match position_of(&parent.children, node) {
                Some(ix) => {
                    if ix != 0 {
                        return Some(parent.children[ix - 1]);
                    }
                },
                None => {},
            }
        }
        None
    }
}

/// A new node keeps the links of the outline closed, and every node that was in
/// the outline is still in it.
pub proof fn lemma_created_closed(t: TreeView, text: Seq<char>, parent: NodeId)
    requires
        t.links_closed(),
        t.has_or_none(parent),
        t.next_id < usize::MAX,
    ensures
        t.created(text, parent).links_closed(),
        t.created(text, parent).has(t.next_id),
        !t.has(t.next_id),
        forall|k: NodeId| t.has(k) ==> t.created(text, parent).has(k) && t.created(text, parent).nodes[k] == t.nodes[k],
{
    let r = t.created(text, parent);
    assert forall|k: NodeId| #[trigger] r.has(k) implies {
        &&& 1 <= k < r.next_id
        &&& r.nodes[k].id == k
        &&& r.has_or_none(r.nodes[k].parent)
        &&& forall|i: int| 0 <= i < r.nodes[k].children.len() ==> r.has(#[trigger] r.nodes[k].children[i])
    } by {
        if k != t.next_id {
            assert(t.has(k));
            assert forall|i: int| 0 <= i < r.nodes[k].children.len() implies r.has(
                #[trigger] r.nodes[k].children[i],
            ) by {
                assert(t.has(t.nodes[k].children[i]));
            }
        }
    }
    if t.has(t.next_id) {
        assert(t.next_id < t.next_id);
    }
}

/// Naming another parent for a node keeps the links of the outline closed.
pub proof fn lemma_set_parent_closed(t: TreeView, id: NodeId, parent: NodeId)
    requires
        t.links_closed(),
        t.has(id),
        t.has_or_none(parent),
    ensures
        t.set_parent(id, parent).links_closed(),
        forall|k: NodeId| t.has(k) <==> t.set_parent(id, parent).has(k),
{
    let r = t.set_parent(id, parent);
    assert forall|k: NodeId| #[trigger] r.has(k) implies {
        &&& 1 <= k < r.next_id
        &&& r.nodes[k].id == k
        &&& r.has_or_none(r.nodes[k].parent)
        &&& forall|i: int| 0 <= i < r.nodes[k].children.len() ==> r.has(#[trigger] r.nodes[k].children[i])
    } by {
        assert(t.has(k));
        assert forall|i: int| 0 <= i < r.nodes[k].children.len() implies r.has(
            #[trigger] r.nodes[k].children[i],
        ) by {
            assert(t.has(t.nodes[k].children[i]));
        }
    }
}

/// Linking a node of the outline under a parent keeps the links of the
/// outline closed.
pub proof fn lemma_link_closed(t: TreeView, parent: NodeId, at: int, child: NodeId)
    requires
        t.links_closed(),
        t.has_or_none(parent),
        t.has(child),
        parent != ROOT_PARENT_ID ==> 0 <= at <= t.nodes[parent].children.len(),
    ensures
        t.linked(parent, at, child).links_closed(),
{
    let r = t.linked(parent, at, child);
    if parent != ROOT_PARENT_ID {
        assert forall|k: NodeId| #[trigger] r.has(k) implies {
            &&& 1 <= k < r.next_id
            &&& r.nodes[k].id == k
            &&& r.has_or_none(r.nodes[k].parent)
            &&& forall|i: int| 0 <= i < r.nodes[k].children.len() ==> r.has(#[trigger] r.nodes[k].children[i])
        } by {
            assert(t.has(k));
            if k == parent {
                assert forall|i: int| 0 <= i < r.nodes[k].children.len() implies r.has(
                    #[trigger] r.nodes[k].children[i],
                ) by {
                    if i < at {
                        assert(t.has(t.nodes[k].children[i]));
                    } else if i > at {
                        assert(t.has(t.nodes[k].children[i - 1]));
                    }
                }
            } else {
                assert forall|i: int| 0 <= i < r.nodes[k].children.len() implies r.has(
                    #[trigger] r.nodes[k].children[i],
                ) by {
                    assert(t.has(t.nodes[k].children[i]));
                }
            }
        }
    }
}

/// Taking a node out of its parent's children keeps the links of the
/// outline closed.
pub proof fn lemma_unlink_closed(t: TreeView, child: NodeId)
    requires
        t.links_closed(),
        t.has(child),
    ensures
        t.unlinked(child).links_closed(),
        t.unlinked(child).has(child),
        forall|k: NodeId| t.has(k) <==> t.unlinked(child).has(k),
{
    let r = t.unlinked(child);
    let p = t.nodes[child].parent;
    if p != ROOT_PARENT_ID {
        lemma_without(t.nodes[p].children, child);
        assert forall|k: NodeId| #[trigger] r.has(k) implies {
            &&& 1 <= k < r.next_id
            &&& r.nodes[k].id == k
            &&& r.has_or_none(r.nodes[k].parent)
            &&& forall|i: int| 0 <= i < r.nodes[k].children.len() ==> r.has(#[trigger] r.nodes[k].children[i])
        } by {
            assert(t.has(k));
            assert forall|i: int| 0 <= i < r.nodes[k].children.len() implies r.has(
                #[trigger] r.nodes[k].children[i],
            ) by {
                if k == p {
                    let c = r.nodes[k].children[i];
                    assert(t.nodes[p].children.contains(c));
                    let j = choose|j: int| 0 <= j < t.nodes[p].children.len() && t.nodes[p].children[j] == c;
                    assert(t.has(t.nodes[p].children[j]));
                } else {
                    assert(t.has(t.nodes[k].children[i]));
                }
            }
        }
    }
}


/// Whatever else is taken out of a sequence, an item other than that stays in it.
pub proof fn lemma_without_keeps(s: Seq<NodeId>, x: NodeId, y: NodeId)
    requires
        s.contains(y),
        y != x,
    ensures
        without(s, x).contains(y),
    decreases s.len(),
{
    if s.len() > 0 {
        if s.last() == y {
            assert(without(s, x).last() == y);
        } else {
            let j = choose|j: int| 0 <= j < s.len() && s[j] == y;
            assert(s.drop_last()[j] == y);
            lemma_without_keeps(s.drop_last(), x, y);
            let w = without(s.drop_last(), x);
            let i = choose|i: int| 0 <= i < w.len() && w[i] == y;
            assert(without(s, x)[i] == y);
        }
    }
}

/// A new node that is put among the children of the parent it names keeps
/// the outline well formed, and every node that was in the outline is
/// still in it.
pub proof fn lemma_create_linked_wf(t: TreeView, text: Seq<char>, parent: NodeId, at: int)
    requires
        t.wf(),
        t.has_or_none(parent),
        t.next_id < usize::MAX,
        parent != ROOT_PARENT_ID ==> 0 <= at <= t.nodes[parent].children.len(),
    ensures
        t.created(text, parent).linked(parent, at, t.next_id).wf(),
        t.created(text, parent).linked(parent, at, t.next_id).has(t.next_id),
        forall|k: NodeId| t.has(k) ==> t.created(text, parent).linked(parent, at, t.next_id).has(k),
{
    lemma_created_closed(t, text, parent);
    let c = t.created(text, parent);
    lemma_link_closed(c, parent, at, t.next_id);
    let r = c.linked(parent, at, t.next_id);
    assert forall|k: NodeId| r.has(k) implies #[trigger] r.listed(k) by {
        if k == t.next_id {
            if parent != ROOT_PARENT_ID {
                assert(r.nodes[parent].children[at] == k);
            }
        } else {
            assert(t.has(k));
            assert(t.listed(k));
            let q = t.nodes[k].parent;
            if q != ROOT_PARENT_ID {
                assert(t.has(q));
                let j = choose|j: int| 0 <= j < t.nodes[q].children.len() && t.nodes[q].children[j] == k;
                if q == parent {
                    if j < at {
                        assert(r.nodes[q].children[j] == k);
                    } else {
                        assert(r.nodes[q].children[j + 1] == k);
                    }
                } else {
                    assert(r.nodes[q].children[j] == k);
                }
            }
        }
    }
}

/// Moving a node keeps the outline well formed: the node is taken out of
/// its parent's children, names `new_parent`, and is put among the children
/// of `new_parent` at index `at`. The outline holds the same nodes after
/// it.
pub proof fn lemma_move_wf(t: TreeView, node: NodeId, new_parent: NodeId, at: int)
    requires
        t.wf(),
        t.has(node),
        t.has_or_none(new_parent),
        new_parent != ROOT_PARENT_ID ==> 0 <= at <= t.unlinked(node).nodes[new_parent].children.len(),
    ensures
        t.unlinked(node).set_parent(node, new_parent).linked(new_parent, at, node).wf(),
        forall|k: NodeId| t.has(k) <==> t.unlinked(node).set_parent(node, new_parent).linked(new_parent, at, node).has(k),
{
    let p = t.nodes[node].parent;
    let u = t.unlinked(node);
    lemma_unlink_closed(t, node);
    let v = u.set_parent(node, new_parent);
    lemma_set_parent_closed(u, node, new_parent);
    let r = v.linked(new_parent, at, node);
    lemma_link_closed(v, new_parent, at, node);
    assert forall|k: NodeId| r.has(k) implies #[trigger] r.listed(k) by {
        assert(t.has(k));
        if k == node {
            if new_parent != ROOT_PARENT_ID {
                assert(r.nodes[new_parent].children[at] == k);
            }
        } else {
            assert(t.listed(k));
            let q = t.nodes[k].parent;
            if q != ROOT_PARENT_ID {
                assert(t.has(q));
                assert(r.nodes[k].parent == q);
                if q == p {
                    lemma_without_keeps(t.nodes[q].children, node, k);
                }
                assert(v.nodes[q].children.contains(k));
                let j = choose|j: int| 0 <= j < v.nodes[q].children.len() && v.nodes[q].children[j] == k;
                if q == new_parent {
                    if j < at {
                        assert(r.nodes[q].children[j] == k);
                    } else {
                        assert(r.nodes[q].children[j + 1] == k);
                    }
                } else {
                    assert(r.nodes[q].children[j] == k);
                }
            }
        }
    }
}

/// Exchanging a node with a sibling keeps the outline well formed, and the
/// outline holds the same nodes after it.
pub proof fn lemma_swap_wf(t: TreeView, node: NodeId, direction: int)
    requires
        t.wf(),
        t.has(node),
    ensures
        t.swapped(node, direction).wf(),
        forall|k: NodeId| t.has(k) <==> t.swapped(node, direction).has(k),
{
    let p = t.nodes[node].parent;
    let r = t.swapped(node, direction);
    if p != ROOT_PARENT_ID {
        assert(t.listed(node));
        lemma_position(t.nodes[p].children, node, 0);
        let ix = position(t.nodes[p].children, node).unwrap();
        let other = ix + direction;
        if 0 <= other < t.nodes[p].children.len() {
            let old_children = t.nodes[p].children;
            let new_children = exchanged(old_children, ix, other);
            assert forall|k: NodeId| #[trigger] r.has(k) implies {
                &&& 1 <= k < r.next_id
                &&& r.nodes[k].id == k
                &&& r.has_or_none(r.nodes[k].parent)
                &&& forall|i: int| 0 <= i < r.nodes[k].children.len() ==> r.has(#[trigger] r.nodes[k].children[i])
            } by {
                assert(t.has(k));
                assert forall|i: int| 0 <= i < r.nodes[k].children.len() implies r.has(
                    #[trigger] r.nodes[k].children[i],
                ) by {
                    if k == p {
                        if i == ix {
                            assert(t.has(old_children[other]));
                        } else if i == other {
                            assert(t.has(old_children[ix]));
                        } else {
                            assert(t.has(old_children[i]));
                        }
                    } else {
                        assert(t.has(t.nodes[k].children[i]));
                    }
                }
            }
            assert forall|k: NodeId| r.has(k) implies #[trigger] r.listed(k) by {
                assert(t.has(k));
                assert(t.listed(k));
                let q = t.nodes[k].parent;
                if q != ROOT_PARENT_ID {
                    assert(t.has(q));
                    let j = choose|j: int| 0 <= j < t.nodes[q].children.len() && t.nodes[q].children[j] == k;
                    if q == p {
                        if j == ix {
                            assert(new_children[other] == k);
                        } else if j == other {
                            assert(new_children[ix] == k);
                        } else {
                            assert(new_children[j] == k);
                        }
                    } else {
                        assert(r.nodes[q].children[j] == k);
                    }
                }
            }
        }
    }
}


/// The nodes as plain values.
pub open spec fn views(nodes: Seq<Node>) -> Seq<NodeView> {
    nodes.map_values(|n: Node| n@)
}

/// No two of the nodes have the same id.
pub open spec fn ids_distinct(nodes: Seq<NodeView>) -> bool {
    forall|i: int, j: int| 0 <= i < j < nodes.len() ==> nodes[i].id != nodes[j].id
}

/// Whether one of the nodes has the id `k`.
pub open spec fn among(nodes: Seq<NodeView>, k: NodeId) -> bool {
    exists|i: int| 0 <= i < nodes.len() && #[trigger] nodes[i].id == k
}

/// The outline that holds the given nodes, each under its id.
pub open spec fn assembled(next_id: NodeId, root_id: NodeId, nodes: Seq<NodeView>) -> TreeView {
    TreeView {
        next_id: next_id,
        root_id: root_id,
        nodes: Map::new(
            |k: NodeId| among(nodes, k),
            |k: NodeId| nodes[choose|i: int| 0 <= i < nodes.len() && #[trigger] nodes[i].id == k],
        ),
    }
}

/// The parts make an outline: the ids of the nodes are distinct, and the
/// outline that holds them is well formed.
pub open spec fn parts_fit(next_id: NodeId, root_id: NodeId, nodes: Seq<NodeView>) -> bool {
    ids_distinct(nodes) && assembled(next_id, root_id, nodes).wf()
}

impl TreeView {
    /// What well-formedness asks of one node.
    pub open spec fn node_fits(self, k: NodeId) -> bool {
        &&& 1 <= k < self.next_id
        &&& self.nodes[k].id == k
        &&& self.has_or_none(self.nodes[k].parent)
        &&& forall|i: int| 0 <= i < self.nodes[k].children.len() ==> self.has(#[trigger] self.nodes[k].children[i])
        &&& self.listed(k)
    }
}

/// An outline is well formed when each of its nodes is and its root is
/// one of them or none.
pub proof fn lemma_wf_by_nodes(t: TreeView)
    ensures
        t.wf() <==> (t.next_id >= 1 && t.has_or_none(t.root_id) && forall|k: NodeId|
            t.has(k) ==> #[trigger] t.node_fits(k)),
{
    if t.wf() {
        assert forall|k: NodeId| t.has(k) implies #[trigger] t.node_fits(k) by {
            assert(t.listed(k));
        }
    }
    if t.next_id >= 1 && t.has_or_none(t.root_id) && forall|k: NodeId| t.has(k) ==> #[trigger] t.node_fits(k) {
        assert forall|k: NodeId| #[trigger] t.has(k) implies {
            &&& 1 <= k < t.next_id
            &&& t.nodes[k].id == k
            &&& t.has_or_none(t.nodes[k].parent)
            &&& forall|i: int| 0 <= i < t.nodes[k].children.len() ==> t.has(#[trigger] t.nodes[k].children[i])
        } by {
            assert(t.node_fits(k));
        }
        assert forall|k: NodeId| t.has(k) implies #[trigger] t.listed(k) by {
            assert(t.node_fits(k));
        }
    }
}

impl Tree {
    /// The id that the next new node gets.
    pub fn next_id(&self) -> (id: NodeId)
        ensures
            id == self@.next_id,
    {
        self.next_id
    }

    /// The number of nodes.
    pub fn len(&self) -> (n: usize)
        ensures
            n == self@.nodes.len(),
    {
        proof {
            assert(self@.nodes.dom() =~= self.nodes@.dom());
        }
        self.nodes.len()
    }

    /// Whether the outline can hand out another id.
    pub fn has_free_id(&self) -> (b: bool)
        ensures
            b == (self@.next_id < usize::MAX),
    {
        self.next_id < usize::MAX
    }

    fn node_checks(&self, id: NodeId) -> (b: bool)
        requires
            self@.has(id),
        ensures
            b == self@.node_fits(id),
    {
        let n = self.node(id);
        if id < 1 || id >= self.next_id || n.id != id {
            return false;
        }
        if n.parent != ROOT_PARENT_ID {
            if !self.contains(n.parent) {
                return false;
            }
            proof {
                lemma_position(self@.nodes[n.parent].children, id, 0);
            }
            if position_of(&self.node(n.parent).children, id).is_none() {
                return false;
            }
        }
        let mut i: usize = 0;
        while i < n.children.len()
            invariant
                i <= n.children.len(),
                self@.has(id),
                n@ == self@.nodes[id],
                forall|j: int| 0 <= j < i ==> self@.has(#[trigger] n.children@[j]),
            decreases n.children.len() - i,
        {
            if !self.contains(n.children[i]) {
                assert(!self@.has(self@.nodes[id].children[i as int]));
                return false;
            }
            i += 1;
        }
        true
    }

    /// Makes an outline of its parts: the id that the next new node gets,
    /// the id of the root, or 0 for none, and the nodes. Parts that do not
    /// make a well-formed outline give `None`.
    pub fn from_parts(next_id: NodeId, root_id: NodeId, nodes: Vec<Node>) -> (r: Option<Tree>)
        ensures
            r.is_some() <==> parts_fit(next_id, root_id, views(nodes@)),
            r.is_some() ==> r.unwrap()@ == assembled(next_id, root_id, views(nodes@)),
    {
        let ghost all = views(nodes@);
        let mut rest = nodes;
        let mut map: HashMap<NodeId, Node> = HashMap::new();
        let mut ids: Vec<NodeId> = Vec::new();
        while rest.len() > 0
            invariant
                all == views(nodes@),
                rest.len() <= all.len(),
                views(rest@) == all.subrange(0, rest.len() as int),
                forall|k: NodeId|
                    map@.contains_key(k) <==> exists|i: int|
                        rest.len() <= i < all.len() && #[trigger] all[i].id == k,
                forall|i: int| rest.len() <= i < all.len() ==> (#[trigger] map@[all[i].id])@ == all[i],
                forall|i: int, j: int| rest.len() <= i < j < all.len() ==> all[i].id != all[j].id,
                forall|j: int| 0 <= j < ids.len() ==> map@.contains_key(#[trigger] ids[j]),
                forall|k: NodeId| map@.contains_key(k) ==> ids@.contains(k),
            decreases rest.len(),
        {
            let ghost m = rest.len() - 1;
            let n = match rest.pop() {
                Some(n) => n,
                None => vstd::pervasive::unreached(),
            };
            proof {
                assert(views(rest@) =~= all.subrange(0, m));
                assert(n@ == all.subrange(0, m + 1)[m]);
                assert(n@ == all[m]);
            }
            if map.contains_key(&n.id) {
                proof {
                    let i = choose|i: int| m < i < all.len() && #[trigger] all[i].id == n.id;
                    assert(all[m].id == all[i].id);
                    assert(!ids_distinct(all));
                }
                return None;
            }
            let id = n.id;
            let ghost before = map@;
            let ghost ids_before = ids@;
            ids.push(id);
            map.insert(id, n);
            proof {
                assert forall|k: NodeId| map@.contains_key(k) implies ids@.contains(k) by {
                    if k == id {
                        assert(ids@[ids.len() - 1] == k);
                    } else {
                        assert(before.contains_key(k));
                        assert(ids_before.contains(k));
                        let j = choose|j: int| 0 <= j < ids_before.len() && ids_before[j] == k;
                        assert(ids@ == ids_before.push(id));
                        assert(ids@[j] == k);
                    }
                }
                assert forall|k: NodeId| map@.contains_key(k) <==> exists|i: int|
                    m <= i < all.len() && #[trigger] all[i].id == k by {
                    if map@.contains_key(k) {
                        if k == id {
                            assert(all[m].id == k);
                        } else {
                            assert(before.contains_key(k));
                        }
                    }
                    if exists|i: int| m <= i < all.len() && #[trigger] all[i].id == k {
                        let i = choose|i: int| m <= i < all.len() && #[trigger] all[i].id == k;
                        if i > m {
                            assert(before.contains_key(k));
                        }
                    }
                }
                assert forall|i: int| m <= i < all.len() implies (#[trigger] map@[all[i].id])@ == all[i] by {
                    if i > m {
                        assert(before.contains_key(all[i].id));
                        assert(all[i].id != id);
                    }
                }
                assert forall|i: int, j: int| m <= i < j < all.len() implies all[i].id != all[j].id by {
                    if i == m {
                        assert(before.contains_key(all[j].id));
                    }
                }
            }
        }
        let t = Tree { next_id: next_id, root_id: root_id, nodes: map };
        let ghost whole = assembled(next_id, root_id, all);
        proof {
            assert(ids_distinct(all));
            assert forall|k: NodeId| t@.nodes.contains_key(k) <==> whole.nodes.contains_key(k) by {
                if t@.nodes.contains_key(k) {
                    let i = choose|i: int| 0 <= i < all.len() && #[trigger] all[i].id == k;
                    assert(among(all, k));
                }
            }
            assert forall|k: NodeId| t@.nodes.contains_key(k) implies t@.nodes[k] == whole.nodes[k] by {
                let i = choose|i: int| 0 <= i < all.len() && #[trigger] all[i].id == k;
                let c = choose|c: int| 0 <= c < all.len() && #[trigger] all[c].id == k;
                assert(i == c);
                assert(t.nodes@[all[i].id]@ == all[i]);
            }
            assert(t@.nodes =~= whole.nodes);
            assert(t@ == whole);
            lemma_wf_by_nodes(whole);
        }
        if next_id < 1 {
            return None;
        }
        if root_id != ROOT_PARENT_ID && !t.contains(root_id) {
            return None;
        }
        let mut i: usize = 0;
        while i < ids.len()
            invariant
                i <= ids.len(),
                all == views(nodes@),
                whole == assembled(next_id, root_id, all),
                t@ == whole,
                forall|j: int| 0 <= j < ids.len() ==> t@.has(#[trigger] ids[j]),
                forall|j: int| 0 <= j < i ==> t@.node_fits(#[trigger] ids[j]),
            decreases ids.len() - i,
        {
            if !t.node_checks(ids[i]) {
                proof {
                    lemma_wf_by_nodes(whole);
                    assert(whole.has(ids[i as int]));
                }
                return None;
            }
            i += 1;
        }
        proof {
            assert forall|k: NodeId| whole.has(k) implies #[trigger] whole.node_fits(k) by {
                assert(t.nodes@.contains_key(k));
                assert(ids@.contains(k));
                let j = choose|j: int| 0 <= j < ids.len() && ids@[j] == k;
                assert(t@.node_fits(ids[j]));
            }
        }
        Some(t)
    }
}

} // verus!
