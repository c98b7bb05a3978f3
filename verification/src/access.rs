//! The parts of the `accesskit` crate that the accessibility logic uses: the
//! node type it carries, the properties of a node it reads and writes, and
//! the tree update it hands to the platform adapter.
//!
//! `NodeId`, `Role` and `Action` are declared with their contents visible:
//! a `NodeId` is a public `u64` key, and the two enums carry no data. A
//! `Node` and a `TreeUpdate` stay opaque; what the contracts need of them is
//! named below.
use accesskit::{Action, Node, NodeId, Role, TreeInfo, TreeId, TreeUpdate};
use vstd::prelude::*;

verus! {

#[verifier::external_type_specification]
#[verifier::external_body]
pub struct ExNode(Node);

#[verifier::external_type_specification]
pub struct ExRole(Role);

#[verifier::external_type_specification]
pub struct ExAction(Action);

#[verifier::external_type_specification]
pub struct ExNodeId(NodeId);

#[verifier::external_type_specification]
#[verifier::external_body]
pub struct ExTreeUpdate(TreeUpdate);

/// The keys of the children list of a node (`Node::children`), in order.
pub uninterp spec fn node_children(node: Node) -> Seq<u64>;

/// The label of a node (`Node::label`), if set.
pub uninterp spec fn node_label(node: Node) -> Option<Seq<char>>;

/// The role of a node (`Node::role`).
pub uninterp spec fn node_role(node: Node) -> Role;

/// A node with its children list left out: two nodes have the same value
/// here iff they agree on every property other than their children.
pub uninterp spec fn node_without_children(node: Node) -> Node;

/// Two nodes have the same role, label and children keys, and agree on every
/// other property. A children list that was never set reads as empty, so a
/// node without one and a node given an empty list count as the same here,
/// though `Node`'s `PartialEq` tells them apart.
pub open spec fn same_properties(a: Node, b: Node) -> bool {
    &&& node_children(a) == node_children(b)
    &&& node_without_children(a) == node_without_children(b)
    &&& node_label(a) == node_label(b)
    &&& node_role(a) == node_role(b)
}

/// The node that `Node::new` makes for a role.
pub uninterp spec fn new_node(role: Role) -> Node;

/// The node that `Node::set_label` makes of a node and a label.
pub uninterp spec fn labelled(node: Node, label: Seq<char>) -> Node;

/// `Node::new` gives a node with the given role and every other property
/// unset: no children and no label.
pub assume_specification[ Node::new ](role: Role) -> (node: Node)
    ensures
        node == new_node(role),
        node_role(node) == role,
        node_children(node) == Seq::<u64>::empty(),
        node_label(node) == None::<Seq<char>>,
;

/// `Node`'s `Clone` copies the role and every property.
pub assume_specification[ <Node as Clone>::clone ](node: &Node) -> (copy: Node)
    ensures
        same_properties(copy, *node),
;

/// Reads `Node::children`, each `NodeId` taken as its key.
///
/// Trusted: the getter returns the stored list, or an empty one when the
/// property is unset.
#[verifier::external_body]
pub(crate) fn children_keys(node: &Node) -> (keys: Vec<u64>)
    ensures
        keys@ == node_children(*node),
{
    node.children().iter().map(|id| id.0).collect()
}

/// Calls `Node::set_children` with the given keys as `NodeId`s.
///
/// Trusted: the setter replaces the stored children list, which the getter
/// then returns, and leaves the role and every other property as it was.
#[verifier::external_body]
pub(crate) fn set_children_keys(node: &mut Node, keys: Vec<u64>)
    ensures
        node_children(*final(node)) == keys@,
        node_without_children(*final(node)) == node_without_children(*old(node)),
        node_label(*final(node)) == node_label(*old(node)),
        node_role(*final(node)) == node_role(*old(node)),
{
    node.set_children(keys.into_iter().map(NodeId).collect::<Vec<NodeId>>())
}

/// Calls `Node::set_label`.
///
/// Trusted: the label is stored as given, and the getter then returns it;
/// the role and the children list are left as they were. That the
/// remaining properties are kept is not stated; the result is named.
#[verifier::external_body]
pub(crate) fn set_label(node: &mut Node, label: &str)
    ensures
        *final(node) == labelled(*old(node), label@),
        node_label(*final(node)) == Some(label@),
        node_children(*final(node)) == node_children(*old(node)),
        node_role(*final(node)) == node_role(*old(node)),
{
    node.set_label(label)
}

/// The nodes that a tree update holds (`TreeUpdate::nodes`), in order.
pub uninterp spec fn update_nodes(update: TreeUpdate) -> Seq<(NodeId, Node)>;

/// Of a tree update: whether it is for the root tree (`TreeUpdate::tree_id`
/// is `TreeId::ROOT`), its tree information (`TreeUpdate::tree`), if any, as
/// the root, the toolkit name and the toolkit version, and its focus
/// (`TreeUpdate::focus`).
pub uninterp spec fn update_tree_and_focus(update: TreeUpdate) -> (
    bool,
    Option<(NodeId, Option<Seq<char>>, Option<Seq<char>>)>,
    NodeId,
);

/// Builds the `TreeUpdate` of the root tree (`TreeId::ROOT`) with the given
/// nodes, `TreeInfo::new` of the given root, and the given focus.
///
/// Trusted: the update holds the nodes as given, `TreeInfo::new` keeps the
/// root it is given and leaves the toolkit name and version unset, and the
/// focus is stored as given.
#[verifier::external_body]
pub(crate) fn root_tree_update(nodes: Vec<(NodeId, Node)>, root: NodeId, focus: NodeId) -> (update: TreeUpdate)
    ensures
        update_nodes(update) == nodes@,
        update_tree_and_focus(update) == (true, Some((root, None::<Seq<char>>, None::<Seq<char>>)), focus),
{
    TreeUpdate { nodes, tree: Some(TreeInfo::new(root)), tree_id: TreeId::ROOT, focus }
}

} // verus!
