//! Properties of the library that span several calls or hold of every input,
//! stated over the same specification functions as the operations' own
//! contracts.
use accesskit::{Action, Node, NodeId};
use std::hash::DefaultHasher;
use vstd::prelude::*;
use vstd::std_specs::hash::DefaultHasherAdditionalSpecFns;

use crate::a11y::{
    descendants_of, id_keys, ids_of, keyed, keys_of, lemma_contains_ids_of_add, node_count,
    node_key_of, roots_of, tree_has_id, window_key, A11yId, A11yIdView, A11yNode, A11yTree,
};
use crate::shell::{focus_after, focus_within, has_node};
use crate::widget_id::{custom_key, custom_key_bit, key_of, str_hash_writes, valid_id, Id, IdView};

verus! {

/// `Id::unique` hands out its counter's value and moves the counter on by
/// one, so of two unique ids the later comes from a larger counter value:
/// the two differ, their keys increase, and neither key is that of a custom
/// id, whose top bit is set.
pub proof fn unique_ids_differ(earlier: usize, later: usize, name: Seq<char>)
    requires
        earlier < later,
        valid_id(IdView::Unique(later)),
    ensures
        IdView::Unique(earlier) != IdView::Unique(later),
        key_of(IdView::Unique(earlier)) < key_of(IdView::Unique(later)),
        key_of(IdView::Unique(earlier)) != key_of(IdView::Custom(name)),
        key_of(IdView::Unique(later)) != key_of(IdView::Custom(name)),
{
    custom_keys_have_top_bit(name);
}

/// The key of every unique id that can be made lies below `u32::MAX`, where
/// the window node keys begin.
pub proof fn unique_keys_lie_below_window_keys(id: IdView)
    requires
        valid_id(id),
        id is Unique,
    ensures
        key_of(id) < u32::MAX,
{
}

/// Equal widget ids have equal accessibility keys, so a custom id rebuilt
/// from the same name keeps its key across view rebuilds.
pub proof fn equal_ids_equal_keys(a: Id, b: Id)
    requires
        a@ == b@,
    ensures
        key_of(a@) == key_of(b@),
{
}

/// The key of a custom id always has its top bit set.
pub proof fn custom_keys_have_top_bit(name: Seq<char>)
    ensures
        key_of(IdView::Custom(name)) >= 0x8000_0000_0000_0000u64,
{
    let h = DefaultHasher::spec_finish(str_hash_writes(name));
    assert((h | 0x8000_0000_0000_0000u64) >= 0x8000_0000_0000_0000u64) by (bit_vector);
    assert(custom_key(name) == h | custom_key_bit());
}

/// Window keys grow with the counter, so keys from distinct counter values
/// (each call of `window_node_id` moves the counter on) never coincide.
pub proof fn window_keys_increase(earlier: u64, later: u64)
    requires
        earlier < later,
    ensures
        window_key(earlier) < window_key(later),
{
}

/// A window key never equals the key of a widget id, so window and widget
/// nodes never share an AccessKit `NodeId`: unique ids lie below
/// `u32::MAX`, and custom keys have the top bit set, which window keys reach
/// only after `2^63 - u32::MAX` windows.
pub proof fn window_keys_avoid_widget_keys(counter: u64, id: IdView)
    requires
        1 <= counter < 0x8000_0000_0000_0000u64 - u32::MAX,
        valid_id(id),
    ensures
        window_key(counter) != key_of(id),
        NodeId(node_key_of(A11yIdView::Window(window_key(counter) as u64)))
            != NodeId(node_key_of(A11yIdView::Widget(id))),
{
    match id {
        IdView::Unique(n) => {},
        IdView::Custom(name) => {
            custom_keys_have_top_bit(name);
        },
    }
}

/// Joining no trees gives the empty tree.
pub proof fn join_of_nothing_is_empty()
    ensures
        roots_of(Seq::<A11yTree>::empty()) == Seq::<A11yNode>::empty(),
        descendants_of(Seq::<A11yTree>::empty()) == Seq::<A11yNode>::empty(),
{
}

/// Joining a single tree gives that tree's roots and descendants.
pub proof fn join_of_one_tree(tree: A11yTree)
    ensures
        roots_of(seq![tree]) == tree.spec_root(),
        descendants_of(seq![tree]) == tree.spec_children(),
{
    assert(seq![tree].drop_last() =~= Seq::<A11yTree>::empty());
    assert(roots_of(Seq::<A11yTree>::empty()) + tree.spec_root() =~= tree.spec_root());
    assert(descendants_of(Seq::<A11yTree>::empty()) + tree.spec_children() =~= tree.spec_children());
}

/// The joined tree has as many nodes as the trees together.
pub proof fn join_keeps_every_node(trees: Seq<A11yTree>)
    ensures
        roots_of(trees).len() + descendants_of(trees).len() == joined_count(trees),
    decreases trees.len(),
{
    if trees.len() > 0 {
        join_keeps_every_node(trees.drop_last());
    }
}

/// The number of nodes of a sequence of trees together.
pub open spec fn joined_count(trees: Seq<A11yTree>) -> nat
    decreases trees.len(),
{
    if trees.len() == 0 {
        0
    } else {
        joined_count(trees.drop_last()) + node_count(trees.last())
    }
}

/// Joining trees in two groups gives the roots, and the descendants, of the
/// first group, then those of the second.
pub proof fn join_of_groups(first: Seq<A11yTree>, second: Seq<A11yTree>)
    ensures
        roots_of(first + second) == roots_of(first) + roots_of(second),
        descendants_of(first + second) == descendants_of(first) + descendants_of(second),
    decreases second.len(),
{
    if second.len() == 0 {
        assert(first + second =~= first);
        assert(roots_of(first) + roots_of(second) =~= roots_of(first));
        assert(descendants_of(first) + descendants_of(second) =~= descendants_of(first));
    } else {
        join_of_groups(first, second.drop_last());
        assert((first + second).drop_last() =~= first + second.drop_last());
        assert((first + second).last() == second.last());
        assert(roots_of(first) + roots_of(second.drop_last()) + second.last().spec_root()
            =~= roots_of(first) + (roots_of(second.drop_last()) + second.last().spec_root()));
        assert(descendants_of(first) + descendants_of(second.drop_last())
            + second.last().spec_children() =~= descendants_of(first) + (descendants_of(
            second.drop_last(),
        ) + second.last().spec_children()));
    }
}

/// Joining is associative: joining `a` and `b`, then the result and `c`, or
/// `b` and `c`, then `a` and the result, gives the roots and descendants of
/// joining `a`, `b` and `c` at once.
pub proof fn join_is_associative(a: A11yTree, b: A11yTree, c: A11yTree, ab: A11yTree, bc: A11yTree)
    requires
        ab.spec_root() == roots_of(seq![a, b]),
        ab.spec_children() == descendants_of(seq![a, b]),
        bc.spec_root() == roots_of(seq![b, c]),
        bc.spec_children() == descendants_of(seq![b, c]),
    ensures
        roots_of(seq![ab, c]) == roots_of(seq![a, b, c]),
        descendants_of(seq![ab, c]) == descendants_of(seq![a, b, c]),
        roots_of(seq![a, bc]) == roots_of(seq![a, b, c]),
        descendants_of(seq![a, bc]) == descendants_of(seq![a, b, c]),
{
    join_of_groups(seq![ab], seq![c]);
    join_of_groups(seq![a], seq![bc]);
    join_of_groups(seq![a, b], seq![c]);
    join_of_groups(seq![a], seq![b, c]);
    join_of_one_tree(a);
    join_of_one_tree(ab);
    join_of_one_tree(bc);
    join_of_one_tree(c);
    assert(seq![ab] + seq![c] =~= seq![ab, c]);
    assert(seq![a] + seq![bc] =~= seq![a, bc]);
    assert(seq![a, b] + seq![c] =~= seq![a, b, c]);
    assert(seq![a] + seq![b, c] =~= seq![a, b, c]);
}

/// The joined tree contains an identity iff one of the trees does.
pub proof fn join_contains(trees: Seq<A11yTree>, id: A11yIdView)
    ensures
        (ids_of(roots_of(trees)).contains(id) || ids_of(descendants_of(trees)).contains(id)) <==> (
        exists|i: int| 0 <= i < trees.len() && tree_has_id(#[trigger] trees[i], id)),
    decreases trees.len(),
{
    if trees.len() > 0 {
        let init = trees.drop_last();
        let last = trees.last();
        join_contains(init, id);
        lemma_contains_ids_of_add(roots_of(init), last.spec_root(), id);
        lemma_contains_ids_of_add(descendants_of(init), last.spec_children(), id);
        if exists|i: int| 0 <= i < trees.len() && tree_has_id(#[trigger] trees[i], id) {
            let i = choose|i: int| 0 <= i < trees.len() && tree_has_id(#[trigger] trees[i], id);
            if i < init.len() {
                assert(tree_has_id(init[i], id));
            }
        }
        if exists|i: int| 0 <= i < init.len() && tree_has_id(#[trigger] init[i], id) {
            let i = choose|i: int| 0 <= i < init.len() && tree_has_id(#[trigger] init[i], id);
            assert(tree_has_id(trees[i], id));
        }
        if tree_has_id(last, id) {
            assert(tree_has_id(trees[trees.len() - 1], id));
        }
    }
}

/// After resolving, the focus is a node of the tree whenever the window's
/// own node is: every tree update then references a node that is present.
pub proof fn resolved_focus_is_present(window_node: u64, current: NodeId, nodes: Seq<(NodeId, Node)>)
    requires
        has_node(nodes, NodeId(window_node)),
    ensures
        has_node(nodes, focus_within(window_node, current, nodes)),
{
}

/// Resolving twice against the same nodes changes nothing more.
pub proof fn resolve_is_idempotent(window_node: u64, current: NodeId, nodes: Seq<(NodeId, Node)>)
    ensures
        focus_within(window_node, focus_within(window_node, current, nodes), nodes)
            == focus_within(window_node, current, nodes),
{
}

/// A focus request survives the next tree update as long as its target is in
/// the tree.
pub proof fn focus_request_survives(
    window_node: u64,
    current: NodeId,
    target: NodeId,
    nodes: Seq<(NodeId, Node)>,
)
    requires
        has_node(nodes, target),
    ensures
        focus_within(window_node, focus_after(window_node, current, Action::Focus, target), nodes)
            == target,
{
}

/// A focus whose target left the tree falls back to the window.
pub proof fn stale_focus_falls_back(
    window_node: u64,
    current: NodeId,
    target: NodeId,
    nodes: Seq<(NodeId, Node)>,
)
    requires
        !has_node(nodes, target),
    ensures
        focus_within(window_node, focus_after(window_node, current, Action::Focus, target), nodes)
            == NodeId(window_node),
{
}

/// Blurring the focused node gives the focus back to the window; blurring
/// another node leaves the focus where it is.
pub proof fn blur_returns_focus_to_window(window_node: u64, current: NodeId, target: NodeId)
    ensures
        focus_after(window_node, current, Action::Blur, target) == if current == target {
            NodeId(window_node)
        } else {
            current
        },
{
}

/// The key of a custom id is a new default hasher, fed the whole name
/// through `str`'s `Hash` and finished, with the top bit set; the key of a
/// unique id is its counter value.
pub proof fn widget_keys_come_from_the_whole_id(name: Seq<char>, n: usize)
    ensures
        key_of(IdView::Custom(name)) == DefaultHasher::spec_finish(Seq::<Seq<u8>>::empty() + str_hash_writes(name))
            | 0x8000_0000_0000_0000u64,
        key_of(IdView::Unique(n)) == n,
{
    assert(Seq::<Seq<u8>>::empty() + str_hash_writes(name) =~= str_hash_writes(name));
}

/// A window identity's node key is its own number, so distinct windows have
/// distinct keys; a widget identity's node key is the widget id's key.
pub proof fn node_keys_of_identities(window: u64, other_window: u64, widget: IdView)
    ensures
        node_key_of(A11yIdView::Window(window)) == window,
        window != other_window ==> node_key_of(A11yIdView::Window(window)) != node_key_of(
            A11yIdView::Window(other_window),
        ),
        node_key_of(A11yIdView::Widget(widget)) == key_of(widget),
{
}

/// Adding children prepends one key per given identity, in the given order:
/// no identity is left out, reordered or doubled.
pub proof fn every_added_identity_becomes_a_child(ids: Seq<A11yId>, old_children: Seq<u64>)
    ensures
        (id_keys(ids) + old_children).len() == ids.len() + old_children.len(),
        forall|i: int|
            0 <= i < ids.len() ==> (id_keys(ids) + old_children)[i] == node_key_of(
                (#[trigger] ids[i])@,
            ),
        forall|j: int|
            0 <= j < old_children.len() ==> (id_keys(ids) + old_children)[ids.len() + j]
                == #[trigger] old_children[j],
{
}

/// Adopting a child tree prepends one key per root of the child tree, in
/// order.
pub proof fn every_child_root_becomes_a_child(roots: Seq<A11yNode>)
    ensures
        keys_of(roots).len() == roots.len(),
        forall|i: int|
            0 <= i < roots.len() ==> keys_of(roots)[i] == node_key_of(
                (#[trigger] roots[i]).spec_id(),
            ),
{
}

/// Flattening a tree gives one entry per node, roots first: entry `i` is the
/// `NodeId` of node `i`'s identity, paired with that node.
pub proof fn flattening_keeps_every_node(tree: A11yTree)
    ensures
        (keyed(tree.spec_root()) + keyed(tree.spec_children())).len() == node_count(tree),
        forall|i: int|
            0 <= i < tree.spec_root().len() ==> (keyed(tree.spec_root()) + keyed(
                tree.spec_children(),
            ))[i] == (
                NodeId(node_key_of((#[trigger] tree.spec_root()[i]).spec_id())),
                tree.spec_root()[i].spec_node(),
            ),
        forall|j: int|
            0 <= j < tree.spec_children().len() ==> (keyed(tree.spec_root()) + keyed(
                tree.spec_children(),
            ))[tree.spec_root().len() + j] == (
                NodeId(node_key_of((#[trigger] tree.spec_children()[j]).spec_id())),
                tree.spec_children()[j].spec_node(),
            ),
{
}

/// Only focus and blur requests move the focus: a focus request moves it to
/// its target, and every other action but blur leaves it where it is.
pub proof fn only_focus_and_blur_move_the_focus(
    window_node: u64,
    current: NodeId,
    action: Action,
    target: NodeId,
)
    ensures
        action == Action::Focus ==> focus_after(window_node, current, action, target) == target,
        action != Action::Focus && action != Action::Blur ==> focus_after(
            window_node,
            current,
            action,
            target,
        ) == current,
{
}

} // verus!
