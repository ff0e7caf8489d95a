//! Filtered depth-first navigation.

use kurbo::Rect;
use understory::navigation::{next_depth_first_filtered, prev_depth_first_filtered};
use understory::tree::{NodeData, NodeFlags, NodeId, QueryFilter, Tree};

fn node(flags: NodeFlags) -> NodeData {
    NodeData {
        flags,
        z_index: 0,
        world_bounds: Some(Rect::new(0.0, 0.0, 1.0, 1.0)),
    }
}

#[test]
fn filtered_traversal_visible_only() {
    let mut tree = Tree::new();

    // Build tree: root(visible) -> [a(hidden), b(visible) -> c(visible)]
    let root = tree.push_child(None, node(NodeFlags::visible()));
    let _a = tree.push_child(Some(root), node(NodeFlags::empty())); // hidden
    let b = tree.push_child(Some(root), node(NodeFlags::visible()));
    let c = tree.push_child(Some(b), node(NodeFlags::visible()));

    let filter = QueryFilter {
        required_flags: NodeFlags::visible(),
    };

    // From root, next visible should be b (skipping hidden a)
    let next = next_depth_first_filtered(&tree, root, filter).unwrap();
    assert_eq!(next, b);

    // From b, next visible should be c
    let next = next_depth_first_filtered(&tree, b, filter).unwrap();
    assert_eq!(next, c);

    // From c, should wrap around to root (no more visible after c)
    let next = next_depth_first_filtered(&tree, c, filter);
    assert_eq!(next, Some(root));

    // Reverse: from c, prev visible should be b
    let prev = prev_depth_first_filtered(&tree, c, filter).unwrap();
    assert_eq!(prev, b);

    // From b, prev visible should be root
    let prev = prev_depth_first_filtered(&tree, b, filter).unwrap();
    assert_eq!(prev, root);
}

#[test]
fn filtered_traversal_pickable_only() {
    let mut tree = Tree::new();

    // Build tree where only some nodes are pickable
    let root = tree.push_child(None, node(NodeFlags::pickable()));
    let _a = tree.push_child(Some(root), node(NodeFlags::visible())); // visible but not pickable
    let b = tree.push_child(
        Some(root),
        node(NodeFlags::pickable() | NodeFlags::visible()),
    );

    let filter = QueryFilter {
        required_flags: NodeFlags::pickable(),
    };

    // From root, next pickable should be b (skipping non-pickable a)
    let next = next_depth_first_filtered(&tree, root, filter).unwrap();
    assert_eq!(next, b);

    // From b, should wrap around to root
    let next = next_depth_first_filtered(&tree, b, filter);
    assert_eq!(next, Some(root));
}

#[test]
fn filtered_traversal_no_matches() {
    let mut tree = Tree::new();

    // Build tree with no pickable nodes
    let root = tree.push_child(None, node(NodeFlags::visible()));
    let a = tree.push_child(Some(root), node(NodeFlags::visible()));

    let filter = QueryFilter {
        required_flags: NodeFlags::pickable(),
    };

    // Should return None since no nodes are pickable
    assert!(next_depth_first_filtered(&tree, root, filter).is_none());
    assert!(prev_depth_first_filtered(&tree, root, filter).is_none());
    assert!(next_depth_first_filtered(&tree, a, filter).is_none());
}

#[test]
fn filtered_traversal_wraparound() {
    let mut tree = Tree::new();

    // Build tree: root -> [visible_child, hidden_child]
    let root = tree.push_child(None, node(NodeFlags::visible()));
    let visible_child = tree.push_child(Some(root), node(NodeFlags::visible()));
    let _hidden_child = tree.push_child(Some(root), node(NodeFlags::empty())); // hidden

    let filter = QueryFilter {
        required_flags: NodeFlags::visible(),
    };

    // From visible_child (last visible), next should wrap to root
    let next = next_depth_first_filtered(&tree, visible_child, filter).unwrap();
    assert_eq!(next, root);

    // From root, next visible should be visible_child
    let next = next_depth_first_filtered(&tree, root, filter).unwrap();
    assert_eq!(next, visible_child);
}

#[test]
fn filtered_traversal_respects_liveness() {
    let mut tree = Tree::new();

    let root = tree.push_child(None, node(NodeFlags::visible()));
    let child = tree.push_child(Some(root), node(NodeFlags::visible()));

    let filter = QueryFilter {
        required_flags: NodeFlags::visible(),
    };

    // Should work with live nodes
    assert!(next_depth_first_filtered(&tree, root, filter).is_some());

    // The same tree without the child
    let mut tree = Tree::new();
    let root = tree.push_child(None, node(NodeFlags::visible()));
    assert!(tree.is_alive(root));
    assert!(!tree.is_alive(child));

    // Should return None for stale nodes
    assert!(next_depth_first_filtered(&tree, child, filter).is_none());
    assert!(prev_depth_first_filtered(&tree, child, filter).is_none());
}

#[test]
fn filtered_traversal_wraparound_within_subtree() {
    let mut tree = Tree::new();

    // Build two separate subtrees with mixed visibility
    let root1 = tree.push_child(None, node(NodeFlags::visible()));
    let _child1_hidden = tree.push_child(Some(root1), node(NodeFlags::empty())); // hidden
    let child1_visible = tree.push_child(Some(root1), node(NodeFlags::visible()));
    let _root2 = tree.push_child(None, node(NodeFlags::visible()));

    let filter = QueryFilter {
        required_flags: NodeFlags::visible(),
    };

    // From child1_visible (last visible in subtree1), should wrap to root1 (not cross to subtree2)
    let next = next_depth_first_filtered(&tree, child1_visible, filter).unwrap();
    assert_eq!(next, root1);

    // From root1, next visible should be child1_visible (skipping hidden child)
    let next = next_depth_first_filtered(&tree, root1, filter).unwrap();
    assert_eq!(next, child1_visible);
}

/// root -> [a -> [b -> [c], d], e], inserted level by level, beside a second tree.
fn deep_tree() -> (Tree, [NodeId; 6]) {
    let mut tree = Tree::new();
    let all = NodeFlags::visible() | NodeFlags::pickable();
    let other = tree.push_child(None, node(all));
    let root = tree.push_child(None, node(all));
    let a = tree.push_child(Some(root), node(all));
    let e = tree.push_child(Some(root), node(all));
    let b = tree.push_child(Some(a), node(NodeFlags::visible()));
    let d = tree.push_child(Some(a), node(all));
    tree.push_child(Some(other), node(all));
    let c = tree.push_child(Some(b), node(all));
    (tree, [root, a, b, c, d, e])
}

#[test]
fn depth_first_steps_follow_the_preorder() {
    let (tree, order) = deep_tree();
    for i in 0..order.len() {
        let next = order.get(i + 1).copied();
        let prev = if i > 0 { Some(order[i - 1]) } else { None };
        assert_eq!(tree.next_depth_first(order[i]), next);
        assert_eq!(tree.prev_depth_first(order[i]), prev);
    }
    assert_eq!(tree.next_depth_first(NodeId(99)), None);
    assert_eq!(tree.prev_depth_first(NodeId(99)), None);
}

#[test]
fn navigation_back_undoes_navigation_forward() {
    let (tree, order) = deep_tree();
    let filter = QueryFilter {
        required_flags: NodeFlags::pickable(),
    };
    let pickable = [order[0], order[1], order[3], order[4], order[5]];
    for i in 0..pickable.len() {
        let next = pickable[(i + 1) % pickable.len()];
        assert_eq!(
            next_depth_first_filtered(&tree, pickable[i], filter),
            Some(next)
        );
        assert_eq!(
            prev_depth_first_filtered(&tree, next, filter),
            Some(pickable[i])
        );
    }
    // A node that does not pass the filter itself still has neighbours that do.
    assert_eq!(
        next_depth_first_filtered(&tree, order[2], filter),
        Some(order[3])
    );
    assert_eq!(
        prev_depth_first_filtered(&tree, order[2], filter),
        Some(order[1])
    );
}

#[test]
fn a_lone_match_does_not_find_itself() {
    let mut tree = Tree::new();
    let root = tree.push_child(None, node(NodeFlags::visible()));
    let hidden = tree.push_child(Some(root), node(NodeFlags::empty()));
    let filter = QueryFilter {
        required_flags: NodeFlags::visible(),
    };
    assert_eq!(next_depth_first_filtered(&tree, root, filter), None);
    assert_eq!(prev_depth_first_filtered(&tree, root, filter), None);
    assert_eq!(next_depth_first_filtered(&tree, hidden, filter), Some(root));
    assert_eq!(prev_depth_first_filtered(&tree, hidden, filter), Some(root));
}

#[test]
fn tree_reads_back_what_was_inserted() {
    let mut tree = Tree::default();
    let bounds = Rect::new(1.0, 2.0, 3.0, 4.0);
    let flags = NodeFlags::visible() | NodeFlags::focusable();
    let root = tree.push_child(None, node(NodeFlags::empty()));
    let child = tree.push_child(
        Some(root),
        NodeData {
            flags,
            z_index: -3,
            world_bounds: Some(bounds),
        },
    );
    assert_eq!(tree.flags(child), Some(flags));
    assert_eq!(tree.z_index(child), Some(-3));
    assert_eq!(tree.world_bounds(child), Some(bounds));
    assert_eq!(tree.parent_of(child), Some(root));
    assert_eq!(tree.parent_of(root), None);
    assert_eq!(tree.children_of(root).to_vec(), vec![child]);
    assert!(tree.children_of(child).is_empty());

    let stale = NodeId(2);
    assert!(!tree.is_alive(stale));
    assert_eq!(tree.flags(stale), None);
    assert_eq!(tree.z_index(stale), None);
    assert_eq!(tree.world_bounds(stale), None);
    assert_eq!(tree.parent_of(stale), None);
    assert!(tree.children_of(stale).is_empty());
}
