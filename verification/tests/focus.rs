use accesskit::{Action, Node, NodeId, Role};

use iced_a11y::{window_tree, FocusState};

#[test]
fn focus_requests_survive_tree_updates_and_stale_focus_falls_back() {
    let root = NodeId(10);
    let control = NodeId(20);
    let mut focus = FocusState::new(10);
    let nodes = vec![
        (root, Node::new(Role::Window)),
        (control, Node::new(Role::Button)),
    ];

    focus.handle_action(Action::Focus, control);
    assert_eq!(focus.resolve(&nodes), control);

    focus.handle_action(Action::Blur, control);
    assert_eq!(focus.resolve(&nodes), root);

    focus.handle_action(Action::Focus, control);
    let root_only = vec![(root, Node::new(Role::Window))];
    assert_eq!(focus.resolve(&root_only), root);
}

#[test]
fn focus_starts_on_the_window() {
    let mut focus = FocusState::new(5);
    assert_eq!(focus.window_node(), 5);
    let nodes = vec![(NodeId(5), Node::new(Role::Window))];
    assert_eq!(focus.resolve(&nodes), NodeId(5));
}

#[test]
fn blurring_another_node_keeps_focus() {
    let mut focus = FocusState::new(1);
    let nodes = vec![
        (NodeId(1), Node::new(Role::Window)),
        (NodeId(2), Node::new(Role::Button)),
        (NodeId(3), Node::new(Role::Button)),
    ];
    focus.handle_action(Action::Focus, NodeId(2));
    focus.handle_action(Action::Blur, NodeId(3));
    assert_eq!(focus.resolve(&nodes), NodeId(2));
    focus.handle_action(Action::Click, NodeId(3));
    assert_eq!(focus.resolve(&nodes), NodeId(2));
    assert_eq!(focus.window_node(), 1);
}

#[test]
fn resolving_twice_gives_the_same_focus() {
    let mut focus = FocusState::new(1);
    let nodes = vec![(NodeId(1), Node::new(Role::Window))];
    focus.handle_action(Action::Focus, NodeId(9));
    assert_eq!(focus.resolve(&nodes), NodeId(1));
    assert_eq!(focus.resolve(&nodes), NodeId(1));
    let more = vec![
        (NodeId(1), Node::new(Role::Window)),
        (NodeId(9), Node::new(Role::Button)),
    ];
    assert_eq!(focus.resolve(&more), NodeId(1));
}

#[test]
fn window_tree_holds_the_window_node_alone() {
    let update = window_tree(77, "Title");
    assert_eq!(update.nodes.len(), 1);
    assert_eq!(update.nodes[0].0, NodeId(77));
    assert_eq!(update.nodes[0].1.role(), Role::Window);
    assert_eq!(update.nodes[0].1.label(), Some("Title"));
    assert!(update.nodes[0].1.children().is_empty());
    assert_eq!(update.tree.as_ref().map(|tree| tree.root), Some(NodeId(77)));
    assert_eq!(update.tree_id, accesskit::TreeId::ROOT);
    assert_eq!(update.focus, NodeId(77));

    let mut expected = Node::new(Role::Window);
    expected.set_label("Main");
    let update = window_tree(7, "Main");
    assert_eq!(update.nodes, vec![(NodeId(7), expected)]);
    assert_eq!(update.tree, Some(accesskit::TreeInfo::new(NodeId(7))));
}
