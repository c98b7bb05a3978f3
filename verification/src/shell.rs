//! The accessibility bookkeeping of the windowing shell: the focus reported
//! for a window, and the placeholder tree served when assistive technology
//! connects.
use accesskit::{Action, Node, NodeId, Role, TreeUpdate};
use vstd::prelude::*;

use crate::access::{
    labelled, new_node, node_children, node_label, node_role, root_tree_update, set_label,
    update_nodes, update_tree_and_focus,
};

verus! {

/// Whether a node with the given id is among `nodes`.
pub open spec fn has_node(nodes: Seq<(NodeId, Node)>, id: NodeId) -> bool {
    exists|i: int| 0 <= i < nodes.len() && (#[trigger] nodes[i]).0 == id
}

/// The focus after an action on `target`: a focus request moves the focus
/// there, blurring the focused node moves it back to the window, anything
/// else leaves it.
pub open spec fn focus_after(window_node: u64, current: NodeId, action: Action, target: NodeId) -> NodeId {
    match action {
        Action::Focus => target,
        Action::Blur => if current == target {
            NodeId(window_node)
        } else {
            current
        },
        _ => current,
    }
}

/// The focus valid for `nodes`: the current one if it is among them, else
/// the window.
pub open spec fn focus_within(window_node: u64, current: NodeId, nodes: Seq<(NodeId, Node)>) -> NodeId {
    if has_node(nodes, current) {
        current
    } else {
        NodeId(window_node)
    }
}

/// The AccessKit focus reported for one window. Focus requests update this
/// state before the next tree push; if the focused widget disappears during
/// a rebuild, [`Self::resolve`] falls back to the window root so every tree
/// update references a node that is actually present.
#[derive(Debug, Clone, Copy)]
pub struct FocusState {
    window_node: u64,
    current: NodeId,
}

impl FocusState {
    /// The key of the window's own node.
    pub closed spec fn spec_window_node(&self) -> u64 {
        self.window_node
    }

    /// The focused node.
    pub closed spec fn spec_current(&self) -> NodeId {
        self.current
    }

    /// Starts with the window itself focused, matching the activation tree.
    pub fn new(window_node: u64) -> (r: Self)
        ensures
            r.spec_window_node() == window_node,
            r.spec_current() == NodeId(window_node),
    {
        FocusState { window_node, current: NodeId(window_node) }
    }

    /// The numeric window node used by the accessibility tree wrapper.
    pub fn window_node(self) -> (r: u64)
        ensures
            r == self.spec_window_node(),
    {
        self.window_node
    }

    /// Applies the focus effect of an AccessKit action request.
    pub fn handle_action(&mut self, action: Action, target: NodeId)
        ensures
            final(self).spec_window_node() == old(self).spec_window_node(),
            final(self).spec_current() == focus_after(
                old(self).spec_window_node(),
                old(self).spec_current(),
                action,
                target,
            ),
            action == Action::Focus ==> final(self).spec_current() == target,
            action == Action::Blur && old(self).spec_current() == target ==> final(self).spec_current()
                == NodeId(old(self).spec_window_node()),
            action == Action::Blur && old(self).spec_current() != target ==> final(self).spec_current()
                == old(self).spec_current(),
            action != Action::Focus && action != Action::Blur ==> final(self).spec_current()
                == old(self).spec_current(),
    {
        match action {
            Action::Focus => self.current = target,
            Action::Blur => {
                if self.current.0 == target.0 {
                    self.current = NodeId(self.window_node);
                }
            },
            _ => {},
        }
    }

    /// Returns a valid focus for `nodes`, resetting stale widget focus to the
    /// window root after conditional content or a whole UI rebuild removes it.
    pub fn resolve(&mut self, nodes: &[(NodeId, Node)]) -> (r: NodeId)
        ensures
            r == focus_within(old(self).spec_window_node(), old(self).spec_current(), nodes@),
            final(self).spec_current() == r,
            final(self).spec_window_node() == old(self).spec_window_node(),
    {
        let mut i: usize = 0;
        let mut present = false;
        while i < nodes.len()
            invariant
                i <= nodes.len(),
                present == exists|k: int| 0 <= k < i && (#[trigger] nodes@[k]).0 == self.current,
            decreases nodes.len() - i,
        {
            if nodes[i].0.0 == self.current.0 {
                present = true;
            }
            i = i + 1;
        }
        if !present {
            self.current = NodeId(self.window_node);
        }
        self.current
    }
}

/// Builds the placeholder tree served synchronously on activation: the
/// window node alone, labelled with the title, as the root and the focus of
/// the root tree, until the next redraw pushes the real tree.
pub fn window_tree(window_node: u64, title: &str) -> (update: TreeUpdate)
    ensures
        update_nodes(update) == seq![(NodeId(window_node), labelled(new_node(Role::Window), title@))],
        update_nodes(update).len() == 1,
        update_nodes(update)[0].0 == NodeId(window_node),
        node_role(update_nodes(update)[0].1) == Role::Window,
        node_label(update_nodes(update)[0].1) == Some(title@),
        node_children(update_nodes(update)[0].1) == Seq::<u64>::empty(),
        update_tree_and_focus(update) == (
            true,
            Some((NodeId(window_node), None::<Seq<char>>, None::<Seq<char>>)),
            NodeId(window_node),
        ),
{
    let mut node = Node::new(Role::Window);
    set_label(&mut node, title);
    let root = NodeId(window_node);
    let mut nodes: Vec<(NodeId, Node)> = Vec::new();
    nodes.push((root, node));
    proof {
        assert(nodes@ =~= seq![(NodeId(window_node), labelled(new_node(Role::Window), title@))]);
    }
    root_tree_update(nodes, root, root)
}

} // verus!
