use accesskit::{Node, NodeId, Role};

use iced_a11y::{A11yId, A11yNode, A11yTree, Id};

fn node_with_children(children: &[u64]) -> Node {
    let mut node = Node::new(Role::Group);
    node.set_children(children.iter().map(|key| NodeId(*key)).collect::<Vec<_>>());
    node
}

fn ids(nodes: &[A11yNode]) -> Vec<A11yId> {
    nodes.iter().map(|node| node.id().clone()).collect()
}

#[test]
fn add_children_prepends_keys() {
    let mut node = A11yNode::new(node_with_children(&[3]), 100u64);
    node.add_children(vec![A11yId::Window(1), A11yId::Widget(Id::new("two"))]);
    let expected = vec![NodeId(1), NodeId(Id::new("two").a11y_key()), NodeId(3)];
    assert_eq!(node.node().children(), expected.as_slice());
    assert_eq!(node.id(), &A11yId::Window(100));
}

#[test]
fn add_children_keeps_the_other_properties() {
    let mut inner = node_with_children(&[3]);
    inner.set_label("Group");
    let mut node = A11yNode::new(inner, 100u64);
    node.add_children(vec![A11yId::Window(1)]);
    assert_eq!(node.node().label(), Some("Group"));
    assert_eq!(node.node().role(), Role::Group);

    let copy = node.clone();
    assert_eq!(copy, node);
}

#[test]
fn node_mut_edits_the_node() {
    let mut node = A11yNode::new(Node::new(Role::Button), Id::new("b"));
    node.node_mut().set_label("Press");
    assert_eq!(node.node().label(), Some("Press"));
    assert_eq!(node.id(), &A11yId::Widget(Id::new("b")));
}

#[test]
fn leaf_is_a_single_root() {
    let tree = A11yTree::leaf(Node::new(Role::Button), Id::new("b"));
    assert_eq!(ids(tree.root()), vec![A11yId::Widget(Id::new("b"))]);
    assert!(tree.children().is_empty());
    assert!(tree.contains(&A11yId::Widget(Id::new("b"))));
    assert!(!tree.contains(&A11yId::Window(1)));
}

#[test]
fn node_with_child_tree_adopts_the_child_roots() {
    let child = A11yTree::new(
        vec![
            A11yNode::new(Node::new(Role::Button), 1u64),
            A11yNode::new(Node::new(Role::Button), 2u64),
        ],
        vec![A11yNode::new(Node::new(Role::Label), 3u64)],
    );
    let parent = A11yNode::new(node_with_children(&[9]), 0u64);
    let tree = A11yTree::node_with_child_tree(parent, child);

    assert_eq!(ids(tree.root()), vec![A11yId::Window(0)]);
    assert_eq!(
        tree.root()[0].node().children(),
        &[NodeId(1), NodeId(2), NodeId(9)]
    );
    assert_eq!(
        ids(tree.children()),
        vec![A11yId::Window(3), A11yId::Window(1), A11yId::Window(2)]
    );
    for key in [0u64, 1, 2, 3] {
        assert!(tree.contains(&A11yId::Window(key)));
    }
    assert!(!tree.contains(&A11yId::Window(9)));
}

#[test]
fn join_concatenates_roots_and_descendants() {
    let a = A11yTree::new(
        vec![A11yNode::new(Node::new(Role::Button), 1u64)],
        vec![A11yNode::new(Node::new(Role::Label), 2u64)],
    );
    let b = A11yTree::new(
        vec![A11yNode::new(Node::new(Role::Button), 3u64)],
        vec![A11yNode::new(Node::new(Role::Label), 4u64)],
    );
    let joined = A11yTree::join(vec![a, b]);
    assert_eq!(ids(joined.root()), vec![A11yId::Window(1), A11yId::Window(3)]);
    assert_eq!(ids(joined.children()), vec![A11yId::Window(2), A11yId::Window(4)]);

    let empty = A11yTree::join(Vec::new());
    assert!(empty.root().is_empty());
    assert!(empty.children().is_empty());
}

#[test]
fn tree_turns_into_keyed_nodes_roots_first() {
    let tree = A11yTree::new(
        vec![A11yNode::new(Node::new(Role::Button), 5u64)],
        vec![
            A11yNode::new(Node::new(Role::Label), Id::new("label")),
            A11yNode::new(Node::new(Role::Label), 6u64),
        ],
    );
    let pairs: Vec<(NodeId, Node)> = tree.into();
    let keys: Vec<NodeId> = pairs.iter().map(|(id, _)| *id).collect();
    assert_eq!(keys, vec![NodeId(5), NodeId(Id::new("label").a11y_key()), NodeId(6)]);
    assert_eq!(pairs[0].1.role(), Role::Button);

    let node = A11yNode::new(Node::new(Role::Image), 8u64);
    let (id, node): (NodeId, Node) = node.into();
    assert_eq!(id, NodeId(8));
    assert_eq!(node.role(), Role::Image);
}

#[test]
fn root_mut_and_children_mut_edit_in_place() {
    let mut tree = A11yTree::default();
    tree.root_mut().push(A11yNode::new(Node::new(Role::Button), 1u64));
    tree.children_mut().push(A11yNode::new(Node::new(Role::Label), 2u64));
    assert_eq!(ids(tree.root()), vec![A11yId::Window(1)]);
    assert_eq!(ids(tree.children()), vec![A11yId::Window(2)]);
    let copy = tree.clone();
    assert_eq!(ids(copy.root()), ids(tree.root()));
    assert_eq!(ids(copy.children()), ids(tree.children()));
}
