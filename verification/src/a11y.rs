//! Accessibility trees for widgets: node identities, nodes paired with their
//! identity, and the trees that widgets assemble from them.
use accesskit::{Node, NodeId};
use vstd::prelude::*;

use crate::access::{
    children_keys, node_children, node_label, node_role, node_without_children, same_properties,
    set_children_keys,
};
use crate::widget_id::{key_of, valid_id, Id, IdView};

verus! {

/// What an [`A11yId`] denotes.
pub enum A11yIdView {
    Window(u64),
    Widget(IdView),
}

/// The identity of a node in the accessibility tree.
#[derive(Debug, Hash)]
pub enum A11yId {
    /// A window node.
    Window(u64),
    /// A widget node, keyed by the widget's [`Id`].
    Widget(Id),
}

impl View for A11yId {
    type V = A11yIdView;

    open spec fn view(&self) -> A11yIdView {
        match self {
            A11yId::Window(n) => A11yIdView::Window(*n),
            A11yId::Widget(id) => A11yIdView::Widget(id@),
        }
    }
}

/// The `accesskit` node key of an identity: a window's own number, or the
/// widget id's stable key.
pub open spec fn node_key_of(id: A11yIdView) -> u64 {
    match id {
        A11yIdView::Window(n) => n,
        A11yIdView::Widget(w) => key_of(w),
    }
}

impl A11yId {
    /// The `accesskit` node key of this identity.
    pub fn node_key(&self) -> (key: u64)
        ensures
            key == node_key_of(self@),
            self@ matches A11yIdView::Window(n) ==> key == n,
            self@ matches A11yIdView::Widget(w) ==> key == key_of(w),
    {
        match self {
            A11yId::Window(id) => *id,
            A11yId::Widget(id) => id.a11y_key(),
        }
    }
}

impl Clone for A11yId {
    fn clone(&self) -> (r: Self)
        ensures
            r == *self,
    {
        match self {
            A11yId::Window(n) => A11yId::Window(*n),
            A11yId::Widget(id) => A11yId::Widget(id.clone()),
        }
    }
}

impl PartialEq for A11yId {
    fn eq(&self, other: &A11yId) -> (r: bool) {
        match (self, other) {
            (A11yId::Window(a), A11yId::Window(b)) => *a == *b,
            (A11yId::Widget(a), A11yId::Widget(b)) => *a == *b,
            _ => false,
        }
    }
}

impl vstd::std_specs::cmp::PartialEqSpecImpl for A11yId {
    open spec fn obeys_eq_spec() -> bool {
        true
    }

    open spec fn eq_spec(&self, other: &A11yId) -> bool {
        self@ == other@
    }
}

impl Eq for A11yId {
}

impl vstd::std_specs::convert::FromSpecImpl<u64> for A11yId {
    open spec fn obeys_from_spec() -> bool {
        true
    }

    open spec fn from_spec(v: u64) -> A11yId {
        A11yId::Window(v)
    }
}

impl From<u64> for A11yId {
    fn from(id: u64) -> (r: Self) {
        A11yId::Window(id)
    }
}

impl vstd::std_specs::convert::FromSpecImpl<Id> for A11yId {
    open spec fn obeys_from_spec() -> bool {
        true
    }

    open spec fn from_spec(v: Id) -> A11yId {
        A11yId::Widget(v)
    }
}

impl From<Id> for A11yId {
    fn from(id: Id) -> (r: Self) {
        A11yId::Widget(id)
    }
}

impl<'a> vstd::std_specs::convert::FromSpecImpl<&'a A11yId> for NodeId {
    open spec fn obeys_from_spec() -> bool {
        true
    }

    open spec fn from_spec(v: &'a A11yId) -> NodeId {
        NodeId(node_key_of(v@))
    }
}

/// The `NodeId` of an identity: its node key.
impl<'a> From<&'a A11yId> for NodeId {
    fn from(value: &'a A11yId) -> (r: NodeId)
        ensures
            r == NodeId(node_key_of(value@)),
            value@ matches A11yIdView::Window(n) ==> r == NodeId(n),
            value@ matches A11yIdView::Widget(w) ==> r == NodeId(key_of(w)),
    {
        NodeId(value.node_key())
    }
}

impl vstd::std_specs::convert::FromSpecImpl<A11yId> for NodeId {
    open spec fn obeys_from_spec() -> bool {
        true
    }

    open spec fn from_spec(v: A11yId) -> NodeId {
        NodeId(node_key_of(v@))
    }
}

impl From<A11yId> for NodeId {
    fn from(value: A11yId) -> (r: NodeId)
        ensures
            r == NodeId(node_key_of(value@)),
    {
        Self::from(&value)
    }
}

/// The source of window node keys: the counter value that the next call of
/// [`window_node_id`] turns into a key.
pub struct WindowNodeCounter {
    next: u64,
}

impl View for WindowNodeCounter {
    type V = u64;

    closed spec fn view(&self) -> u64 {
        self.next
    }
}

impl WindowNodeCounter {
    /// A counter never goes below its start, one.
    #[verifier::type_invariant]
    spec fn starts_at_one(self) -> bool {
        self.next >= 1
    }

    /// A counter that starts at one.
    pub fn new() -> (c: WindowNodeCounter)
        ensures
            c@ == 1,
    {
        WindowNodeCounter { next: 1 }
    }

    /// The counter value that the next call of [`window_node_id`] uses.
    pub fn next_value(&self) -> (r: u64)
        ensures
            r == self@,
            r >= 1,
    {
        proof {
            use_type_invariant(self);
        }
        self.next
    }
}

/// The window node key made from a counter value: it lies `counter` above
/// `u32::MAX`.
pub open spec fn window_key(counter: u64) -> int {
    u32::MAX + counter
}

/// Allocates a window node key from `counter`, which moves on by one.
///
/// Keys lie above `u32::MAX` (the first is `u32::MAX + 1`) and grow with the
/// counter, so they stay clear of the keys of unique widget ids, which lie
/// below `u32::MAX`, and, while the counter is below `2^63 - u32::MAX`, of
/// the keys of custom ids (top bit set).
pub fn window_node_id(counter: &mut WindowNodeCounter) -> (key: u64)
    requires
        old(counter)@ <= u64::MAX - u32::MAX,
    ensures
        key == window_key(old(counter)@),
        key > u32::MAX,
        final(counter)@ == old(counter)@ + 1,
{
    proof {
        use_type_invariant(&*counter);
    }
    let previous = counter.next;
    counter.next = previous + 1;
    u32::MAX as u64 + previous
}

/// The identities of a sequence of nodes, in order.
pub open spec fn ids_of(nodes: Seq<A11yNode>) -> Seq<A11yIdView> {
    nodes.map_values(|n: A11yNode| n.spec_id())
}

/// The node keys of a sequence of nodes, in order.
pub open spec fn keys_of(nodes: Seq<A11yNode>) -> Seq<u64> {
    nodes.map_values(|n: A11yNode| node_key_of(n.spec_id()))
}

/// The node keys of a sequence of identities, in order.
pub open spec fn id_keys(ids: Seq<A11yId>) -> Seq<u64> {
    ids.map_values(|i: A11yId| node_key_of(i@))
}

/// Each node paired with the `NodeId` of its identity, in order.
pub open spec fn keyed(nodes: Seq<A11yNode>) -> Seq<(NodeId, Node)> {
    nodes.map_values(|n: A11yNode| (NodeId(node_key_of(n.spec_id())), n.spec_node()))
}

/// Two nodes have the same identity and agree on every property.
pub open spec fn same_node(a: A11yNode, b: A11yNode) -> bool {
    a.spec_id() == b.spec_id() && same_properties(a.spec_node(), b.spec_node())
}

/// An accessibility node paired with its identity.
#[derive(Debug, PartialEq)]
pub struct A11yNode {
    node: Node,
    id: A11yId,
}

impl A11yNode {
    /// The `accesskit` node.
    pub closed spec fn spec_node(&self) -> Node {
        self.node
    }

    /// The identity.
    pub closed spec fn spec_id(&self) -> A11yIdView {
        self.id@
    }

    /// Creates a new [`A11yNode`].
    pub fn new<T: Into<A11yId>>(node: Node, id: T) -> (r: Self)
        ensures
            r.spec_node() == node,
            <T as vstd::std_specs::convert::IntoSpec<A11yId>>::obeys_into_spec() ==> r.spec_id()
                == vstd::std_specs::convert::IntoSpec::<A11yId>::into_spec(id)@,
    {
        A11yNode { node, id: id.into() }
    }

    /// The identity of this node.
    pub fn id(&self) -> (r: &A11yId)
        ensures
            r@ == self.spec_id(),
    {
        &self.id
    }

    /// The underlying AccessKit node.
    pub fn node(&self) -> (r: &Node)
        ensures
            *r == self.spec_node(),
    {
        &self.node
    }

    /// The underlying AccessKit node, mutably.
    pub fn node_mut(&mut self) -> (r: &mut Node)
        ensures
            *r == old(self).spec_node(),
            final(self).spec_node() == *final(r),
            final(self).spec_id() == old(self).spec_id(),
    {
        &mut self.node
    }

    /// Prepends the given identities to this node's children.
    pub fn add_children(&mut self, children: Vec<A11yId>)
        ensures
            node_children(final(self).spec_node()) == id_keys(children@) + node_children(
                old(self).spec_node(),
            ),
            node_children(final(self).spec_node()).len() == children@.len() + node_children(
                old(self).spec_node(),
            ).len(),
            forall|i: int|
                0 <= i < children@.len() ==> node_children(final(self).spec_node())[i]
                    == node_key_of((#[trigger] children@[i])@),
            forall|j: int|
                0 <= j < node_children(old(self).spec_node()).len() ==> node_children(
                    final(self).spec_node(),
                )[children@.len() + j] == #[trigger] node_children(old(self).spec_node())[j],
            node_without_children(final(self).spec_node()) == node_without_children(
                old(self).spec_node(),
            ),
            node_label(final(self).spec_node()) == node_label(old(self).spec_node()),
            node_role(final(self).spec_node()) == node_role(old(self).spec_node()),
            final(self).spec_id() == old(self).spec_id(),
    {
        let mut keys: Vec<u64> = Vec::new();
        let mut i: usize = 0;
        while i < children.len()
            invariant
                i <= children.len(),
                keys@ == id_keys(children@.take(i as int)),
            decreases children.len() - i,
        {
            keys.push(children[i].node_key());
            proof {
                assert(children@.take(i + 1) == children@.take(i as int).push(children@[i as int]));
            }
            i = i + 1;
        }
        let existing = children_keys(&self.node);
        let ghost prefix = keys@;
        let mut j: usize = 0;
        while j < existing.len()
            invariant
                j <= existing.len(),
                keys@ == prefix + existing@.take(j as int),
            decreases existing.len() - j,
        {
            keys.push(existing[j]);
            proof {
                assert(existing@.take(j + 1) == existing@.take(j as int).push(existing@[j as int]));
            }
            j = j + 1;
        }
        proof {
            assert(children@.take(children.len() as int) == children@);
            assert(existing@.take(existing.len() as int) == existing@);
        }
        set_children_keys(&mut self.node, keys);
    }
}

impl Clone for A11yNode {
    fn clone(&self) -> (r: Self)
        ensures
            same_node(r, *self),
    {
        A11yNode { node: self.node.clone(), id: self.id.clone() }
    }
}

impl vstd::std_specs::convert::FromSpecImpl<A11yNode> for (NodeId, Node) {
    open spec fn obeys_from_spec() -> bool {
        true
    }

    open spec fn from_spec(v: A11yNode) -> (NodeId, Node) {
        (NodeId(node_key_of(v.spec_id())), v.spec_node())
    }
}

/// The node paired with the `NodeId` of its identity.
impl From<A11yNode> for (NodeId, Node) {
    fn from(node: A11yNode) -> (r: (NodeId, Node))
        ensures
            r == (NodeId(node_key_of(node.spec_id())), node.spec_node()),
    {
        let key = node.id.node_key();
        (NodeId(key), node.node)
    }
}

/// Whether a node with identity `id` is among the roots or the descendants
/// of `tree`.
pub open spec fn tree_has_id(tree: A11yTree, id: A11yIdView) -> bool {
    ids_of(tree.spec_root()).contains(id) || ids_of(tree.spec_children()).contains(id)
}

/// The number of nodes of `tree`, roots and descendants.
pub open spec fn node_count(tree: A11yTree) -> nat {
    tree.spec_root().len() + tree.spec_children().len()
}

/// The identities of two sequences of nodes put together are those of the
/// first, then those of the second.
pub proof fn lemma_ids_of_add(a: Seq<A11yNode>, b: Seq<A11yNode>)
    ensures
        ids_of(a + b) == ids_of(a) + ids_of(b),
{
    assert(ids_of(a + b) =~= ids_of(a) + ids_of(b));
}

/// An identity is among those of two sequences of nodes put together iff it
/// is among those of either.
pub proof fn lemma_contains_ids_of_add(a: Seq<A11yNode>, b: Seq<A11yNode>, id: A11yIdView)
    ensures
        ids_of(a + b).contains(id) <==> (ids_of(a).contains(id) || ids_of(b).contains(id)),
{
    lemma_ids_of_add(a, b);
    if ids_of(a + b).contains(id) {
        let k = choose|k: int| 0 <= k < ids_of(a + b).len() && ids_of(a + b)[k] == id;
        if k >= a.len() {
            assert(ids_of(b)[k - a.len()] == id);
        } else {
            assert(ids_of(a)[k] == id);
        }
    }
    if ids_of(a).contains(id) {
        let k = choose|k: int| 0 <= k < ids_of(a).len() && ids_of(a)[k] == id;
        assert(ids_of(a + b)[k] == id);
    }
    if ids_of(b).contains(id) {
        let k = choose|k: int| 0 <= k < ids_of(b).len() && ids_of(b)[k] == id;
        assert(ids_of(a + b)[a.len() + k] == id);
    }
}

/// The root nodes of a sequence of trees, tree after tree.
pub open spec fn roots_of(trees: Seq<A11yTree>) -> Seq<A11yNode>
    decreases trees.len(),
{
    if trees.len() == 0 {
        Seq::empty()
    } else {
        roots_of(trees.drop_last()) + trees.last().spec_root()
    }
}

/// The descendant nodes of a sequence of trees, tree after tree.
pub open spec fn descendants_of(trees: Seq<A11yTree>) -> Seq<A11yNode>
    decreases trees.len(),
{
    if trees.len() == 0 {
        Seq::empty()
    } else {
        descendants_of(trees.drop_last()) + trees.last().spec_children()
    }
}

/// The accessibility tree of a widget and its children.
#[derive(Debug)]
pub struct A11yTree {
    /// The root nodes of the current widget: children of the parent widget,
    /// or of the window if there is no parent.
    root: Vec<A11yNode>,
    /// The nodes of the widget's descendants.
    children: Vec<A11yNode>,
}

/// Two sequences of nodes hold, place by place, the same identities with
/// the same properties.
pub open spec fn same_nodes(a: Seq<A11yNode>, b: Seq<A11yNode>) -> bool {
    a.len() == b.len() && forall|i: int| 0 <= i < a.len() ==> same_node(#[trigger] a[i], b[i])
}

/// Copies of `nodes`: the same identities with the same properties.
fn clone_nodes(nodes: &Vec<A11yNode>) -> (r: Vec<A11yNode>)
    ensures
        same_nodes(r@, nodes@),
{
    let mut r: Vec<A11yNode> = Vec::new();
    let mut i: usize = 0;
    while i < nodes.len()
        invariant
            i <= nodes.len(),
            r@.len() == i,
            forall|k: int| 0 <= k < i ==> same_node(#[trigger] r@[k], nodes@[k]),
        decreases nodes.len() - i,
    {
        r.push(nodes[i].clone());
        i = i + 1;
    }
    r
}

impl Clone for A11yTree {
    fn clone(&self) -> (r: Self)
        ensures
            same_nodes(r.spec_root(), self.spec_root()),
            same_nodes(r.spec_children(), self.spec_children()),
    {
        A11yTree { root: clone_nodes(&self.root), children: clone_nodes(&self.children) }
    }
}

impl Default for A11yTree {
    fn default() -> (r: Self)
        ensures
            r.spec_root() == Seq::<A11yNode>::empty(),
            r.spec_children() == Seq::<A11yNode>::empty(),
    {
        A11yTree { root: Vec::new(), children: Vec::new() }
    }
}

impl A11yTree {
    /// The root nodes.
    pub closed spec fn spec_root(&self) -> Seq<A11yNode> {
        self.root@
    }

    /// The descendant nodes.
    pub closed spec fn spec_children(&self) -> Seq<A11yNode> {
        self.children@
    }

    /// Creates a new [`A11yTree`] from raw parts.
    ///
    /// The caller is responsible for the child relationships of the root
    /// nodes.
    pub fn new(root: Vec<A11yNode>, children: Vec<A11yNode>) -> (r: Self)
        ensures
            r.spec_root() == root@,
            r.spec_children() == children@,
    {
        A11yTree { root, children }
    }

    /// A tree consisting of a single node with no children.
    pub fn leaf<T: Into<A11yId>>(node: Node, id: T) -> (r: Self)
        ensures
            r.spec_root().len() == 1,
            r.spec_root()[0].spec_node() == node,
            <T as vstd::std_specs::convert::IntoSpec<A11yId>>::obeys_into_spec() ==> r.spec_root()[0].spec_id()
                == vstd::std_specs::convert::IntoSpec::<A11yId>::into_spec(id)@,
            r.spec_children() == Seq::<A11yNode>::empty(),
            <T as vstd::std_specs::convert::IntoSpec<A11yId>>::obeys_into_spec() ==> tree_has_id(
                r,
                vstd::std_specs::convert::IntoSpec::<A11yId>::into_spec(id)@,
            ),
    {
        let mut root = Vec::new();
        root.push(A11yNode::new(node, id));
        let r = A11yTree { root, children: Vec::new() };
        proof {
            assert(ids_of(r.root@)[0] == r.root@[0].spec_id());
        }
        r
    }

    /// A tree with a single root node adopting the given child tree: the
    /// child tree's roots are prepended to the root's children, and the child
    /// tree's descendants, then its roots, become the descendants.
    pub fn node_with_child_tree(root: A11yNode, child_tree: Self) -> (r: Self)
        ensures
            r.spec_root().len() == 1,
            r.spec_root()[0].spec_id() == root.spec_id(),
            node_children(r.spec_root()[0].spec_node()) == keys_of(child_tree.spec_root())
                + node_children(root.spec_node()),
            node_without_children(r.spec_root()[0].spec_node()) == node_without_children(
                root.spec_node(),
            ),
            node_label(r.spec_root()[0].spec_node()) == node_label(root.spec_node()),
            node_role(r.spec_root()[0].spec_node()) == node_role(root.spec_node()),
            r.spec_children() == child_tree.spec_children() + child_tree.spec_root(),
            node_count(r) == node_count(child_tree) + 1,
            forall|id: A11yIdView| #[trigger]
                tree_has_id(r, id) <==> (id == root.spec_id() || tree_has_id(child_tree, id)),
    {
        let ghost root_id = root.spec_id();
        let ghost child_tree_copy = child_tree;
        let mut root = root;
        let mut ids: Vec<A11yId> = Vec::new();
        let mut i: usize = 0;
        while i < child_tree.root.len()
            invariant
                i <= child_tree.root.len(),
                ids@.len() == i,
                forall|k: int| 0 <= k < i ==> (#[trigger] ids@[k])@ == child_tree.root@[k].spec_id(),
            decreases child_tree.root.len() - i,
        {
            ids.push(child_tree.root[i].id().clone());
            i = i + 1;
        }
        proof {
            assert(id_keys(ids@) =~= keys_of(child_tree.root@));
        }
        root.add_children(ids);
        let A11yTree { root: mut child_roots, children: mut descendants } = child_tree;
        let ghost before = descendants@;
        let ghost moved = child_roots@;
        descendants.append(&mut child_roots);
        let mut new_root = Vec::new();
        new_root.push(root);
        let r = A11yTree { root: new_root, children: descendants };
        proof {
            assert(ids_of(r.root@) =~= seq![root_id]);
            assert forall|id: A11yIdView| #[trigger]
                tree_has_id(r, id) <==> (id == root_id || tree_has_id(child_tree_copy, id)) by {
                lemma_contains_ids_of_add(before, moved, id);
                if id == root_id {
                    assert(ids_of(r.root@)[0] == id);
                }
            }
        }
        r
    }

    /// Joins multiple trees into a single tree: the roots of all trees, in
    /// order, then the descendants of all trees, in order.
    pub fn join(trees: Vec<A11yTree>) -> (r: Self)
        ensures
            r.spec_root() == roots_of(trees@),
            r.spec_children() == descendants_of(trees@),
    {
        let ghost all = trees@;
        let mut root: Vec<A11yNode> = Vec::new();
        let mut children: Vec<A11yNode> = Vec::new();
        for tree in it: trees
            invariant
                it.seq() == all,
                root@ == roots_of(all.take(it.index())),
                children@ == descendants_of(all.take(it.index())),
        {
            let A11yTree { root: mut r, children: mut c } = tree;
            proof {
                assert(all.take(it.index() + 1).drop_last() == all.take(it.index()));
            }
            root.append(&mut r);
            children.append(&mut c);
        }
        proof {
            assert(all.take(all.len() as int) == all);
        }
        A11yTree { root, children }
    }

    /// The root nodes of this tree.
    pub fn root(&self) -> (r: &Vec<A11yNode>)
        ensures
            r@ == self.spec_root(),
    {
        &self.root
    }

    /// The descendant nodes of this tree.
    pub fn children(&self) -> (r: &Vec<A11yNode>)
        ensures
            r@ == self.spec_children(),
    {
        &self.children
    }

    /// The root nodes of this tree, mutably.
    pub fn root_mut(&mut self) -> (r: &mut Vec<A11yNode>)
        ensures
            r@ == old(self).spec_root(),
            final(self).spec_root() == final(r)@,
            final(self).spec_children() == old(self).spec_children(),
    {
        &mut self.root
    }

    /// The descendant nodes of this tree, mutably.
    pub fn children_mut(&mut self) -> (r: &mut Vec<A11yNode>)
        ensures
            r@ == old(self).spec_children(),
            final(self).spec_children() == final(r)@,
            final(self).spec_root() == old(self).spec_root(),
    {
        &mut self.children
    }

    /// Whether the tree contains a node with the given identity.
    pub fn contains(&self, id: &A11yId) -> (r: bool)
        ensures
            r == tree_has_id(*self, id@),
    {
        let found_in_root = Self::any_with_id(&self.root, id);
        if found_in_root {
            true
        } else {
            Self::any_with_id(&self.children, id)
        }
    }

    fn any_with_id(nodes: &Vec<A11yNode>, id: &A11yId) -> (r: bool)
        ensures
            r == ids_of(nodes@).contains(id@),
    {
        let mut i: usize = 0;
        while i < nodes.len()
            invariant
                i <= nodes.len(),
                forall|k: int| 0 <= k < i ==> nodes@[k].spec_id() != id@,
            decreases nodes.len() - i,
        {
            if *nodes[i].id() == *id {
                proof {
                    assert(ids_of(nodes@)[i as int] == id@);
                }
                return true;
            }
            i = i + 1;
        }
        proof {
            if ids_of(nodes@).contains(id@) {
                let k = choose|k: int| 0 <= k < ids_of(nodes@).len() && ids_of(nodes@)[k] == id@;
                assert(nodes@[k].spec_id() == id@);
            }
        }
        false
    }
}

impl vstd::std_specs::convert::FromSpecImpl<A11yTree> for Vec<(NodeId, Node)> {
    open spec fn obeys_from_spec() -> bool {
        false
    }

    open spec fn from_spec(v: A11yTree) -> Vec<(NodeId, Node)> {
        vstd::pervasive::arbitrary()
    }
}

/// The nodes of the tree, each paired with the `NodeId` of its identity:
/// the roots, then the descendants.
impl From<A11yTree> for Vec<(NodeId, Node)> {
    fn from(tree: A11yTree) -> (r: Vec<(NodeId, Node)>)
        ensures
            r@ == keyed(tree.spec_root()) + keyed(tree.spec_children()),
            r@.len() == tree.spec_root().len() + tree.spec_children().len(),
            forall|i: int|
                0 <= i < tree.spec_root().len() ==> (#[trigger] r@[i]) == (
                    NodeId(node_key_of(tree.spec_root()[i].spec_id())),
                    tree.spec_root()[i].spec_node(),
                ),
            forall|j: int|
                0 <= j < tree.spec_children().len() ==> #[trigger] r@[tree.spec_root().len() + j]
                    == (
                    NodeId(node_key_of(tree.spec_children()[j].spec_id())),
                    tree.spec_children()[j].spec_node(),
                ),
    {
        let ghost roots = tree.root@;
        let ghost descendants = tree.children@;
        let mut out: Vec<(NodeId, Node)> = Vec::new();
        for node in it: tree.root
            invariant
                it.seq() == roots,
                out@ == keyed(roots.take(it.index())),
        {
            proof {
                assert(roots.take(it.index() + 1) == roots.take(it.index()).push(node));
            }
            out.push(<(NodeId, Node)>::from(node));
        }
        proof {
            assert(roots.take(roots.len() as int) == roots);
        }
        let ghost first = out@;
        for node in it: tree.children
            invariant
                it.seq() == descendants,
                out@ == first + keyed(descendants.take(it.index())),
        {
            proof {
                assert(descendants.take(it.index() + 1) == descendants.take(it.index()).push(node));
            }
            out.push(<(NodeId, Node)>::from(node));
        }
        proof {
            assert(descendants.take(descendants.len() as int) == descendants);
        }
        out
    }
}

} // verus!
