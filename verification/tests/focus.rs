//! Focus spaces.

use kurbo::Rect;
use understory::focus::{
    build_focus_space_for_scope, focus_entry, FocusEntry, FocusProps, FocusPropsLookup,
};
use understory::tree::{NodeData, NodeFlags, NodeId, Tree};

fn node(flags: NodeFlags) -> NodeData {
    NodeData {
        flags,
        z_index: 0,
        world_bounds: Some(Rect::ZERO),
    }
}

fn focusable() -> NodeFlags {
    NodeFlags::visible() | NodeFlags::focusable()
}

#[test]
fn builds_focus_space_for_focusable_nodes() {
    let mut tree = Tree::new();

    // Root: visible but not focusable.
    let root = tree.push_child(None, node(NodeFlags::visible()));
    // Child A: visible + focusable.
    let a = tree.push_child(Some(root), node(focusable()));
    // Child B: hidden.
    let _b = tree.push_child(Some(root), node(NodeFlags::empty()));

    let mut buf = Vec::new();
    let space = build_focus_space_for_scope(&tree, root, &(), &mut buf);

    assert_eq!(space.nodes.len(), 1);
    let entry = &space.nodes[0];
    assert_eq!(entry.id, a);
    assert!(entry.enabled);
    assert_eq!(entry.scope_depth, 1);
}

struct MapLookup {
    disabled: NodeId,
}

impl FocusPropsLookup<NodeId> for MapLookup {
    fn props(&self, id: &NodeId) -> FocusProps {
        if *id == self.disabled {
            FocusProps {
                enabled: false,
                ..FocusProps::default()
            }
        } else {
            FocusProps::default()
        }
    }
}

#[test]
fn respects_custom_focus_props() {
    let mut tree = Tree::new();
    let root = tree.push_child(None, node(focusable()));
    let disabled_child = tree.push_child(Some(root), node(focusable()));

    let lookup = MapLookup {
        disabled: disabled_child,
    };
    let mut buf = Vec::new();
    let space = build_focus_space_for_scope(&tree, root, &lookup, &mut buf);

    // Root is focusable and enabled; disabled_child should be skipped.
    assert_eq!(space.nodes.len(), 1);
    assert_eq!(space.nodes[0].id, root);
}

struct AutofocusLookup {
    target: NodeId,
}

impl FocusPropsLookup<NodeId> for AutofocusLookup {
    fn props(&self, id: &NodeId) -> FocusProps {
        FocusProps {
            autofocus: *id == self.target,
            ..FocusProps::default()
        }
    }
}

#[test]
fn adapter_exposes_autofocus_candidate() {
    let mut tree = Tree::new();
    let root = tree.push_child(None, node(NodeFlags::visible()));
    let first = tree.push_child(Some(root), node(focusable()));
    let second = tree.push_child(Some(root), node(focusable()));

    let lookup = AutofocusLookup { target: second };
    let mut buf = Vec::new();
    let space = build_focus_space_for_scope(&tree, root, &lookup, &mut buf);

    assert_eq!(space.autofocus, Some(second));
    assert_ne!(space.autofocus, Some(first));
}

#[test]
fn focus_space_of_a_tree_holds_its_bounds_in_order() {
    let mut tree = Tree::new();

    // Root is visible but not focusable; children are visible + focusable.
    let root = tree.push_child(
        None,
        NodeData {
            flags: NodeFlags::visible(),
            z_index: 0,
            world_bounds: Some(Rect::new(0.0, 0.0, 200.0, 200.0)),
        },
    );
    let left_bounds = Rect::new(10.0, 10.0, 40.0, 40.0);
    let right_bounds = Rect::new(80.0, 10.0, 110.0, 40.0);
    let left = tree.push_child(
        Some(root),
        NodeData {
            flags: focusable(),
            z_index: 0,
            world_bounds: Some(left_bounds),
        },
    );
    let right = tree.push_child(
        Some(root),
        NodeData {
            flags: focusable(),
            z_index: 0,
            world_bounds: Some(right_bounds),
        },
    );

    let mut buf = Vec::new();
    let space = build_focus_space_for_scope(&tree, root, &(), &mut buf);
    assert_eq!(space.nodes.len(), 2);
    assert_eq!((space.nodes[0].id, space.nodes[0].rect), (left, left_bounds));
    assert_eq!((space.nodes[1].id, space.nodes[1].rect), (right, right_bounds));
    assert_eq!(space.autofocus, None);
}

#[test]
fn focus_scope_ends_at_its_subtree() {
    let mut tree = Tree::new();
    let root = tree.push_child(None, node(focusable()));
    let scope = tree.push_child(Some(root), node(focusable()));
    let sibling = tree.push_child(Some(root), node(focusable()));
    let inner = tree.push_child(Some(scope), node(NodeFlags::focusable()));
    let deep = tree.push_child(Some(inner), node(focusable()));
    let second = tree.push_child(Some(scope), node(focusable()));

    let mut buf = Vec::new();
    let space = build_focus_space_for_scope(&tree, scope, &(), &mut buf);
    let found: Vec<(NodeId, u8)> = space.nodes.iter().map(|e| (e.id, e.scope_depth)).collect();
    // The hidden node itself is left out, what is below it is not.
    assert_eq!(found, vec![(scope, 0), (deep, 2), (second, 1)]);
    assert!(found.iter().all(|entry| entry.0 != sibling));
}

#[test]
fn stale_scope_gives_an_empty_space_and_clears_the_buffer() {
    let mut tree = Tree::new();
    let root = tree.push_child(None, node(focusable()));
    let mut buf = Vec::new();
    assert_eq!(
        build_focus_space_for_scope(&tree, root, &(), &mut buf)
            .nodes
            .len(),
        1
    );
    let space = build_focus_space_for_scope(&tree, NodeId(1), &(), &mut buf);
    assert!(space.nodes.is_empty());
    assert_eq!(space.autofocus, None);
    assert!(buf.is_empty());
}

#[test]
fn scope_depth_stops_counting_at_its_maximum() {
    let mut tree = Tree::new();
    let root = tree.push_child(None, node(focusable()));
    let mut last = root;
    for _ in 0..300 {
        last = tree.push_child(Some(last), node(focusable()));
    }
    let mut buf = Vec::new();
    let space = build_focus_space_for_scope(&tree, root, &(), &mut buf);
    assert_eq!(space.nodes.len(), 301);
    assert_eq!(space.nodes[255].scope_depth, 255);
    assert_eq!(space.nodes[300].scope_depth, 255);
    assert_eq!(space.nodes[300].id, last);
}

#[test]
fn only_candidates_can_be_autofocused() {
    let mut tree = Tree::new();
    let root = tree.push_child(None, node(NodeFlags::visible()));
    let child = tree.push_child(Some(root), node(focusable()));
    let mut buf = Vec::new();
    let lookup = AutofocusLookup { target: root };
    assert_eq!(
        build_focus_space_for_scope(&tree, root, &lookup, &mut buf).autofocus,
        None
    );
    let lookup = AutofocusLookup { target: child };
    assert_eq!(
        build_focus_space_for_scope(&tree, root, &lookup, &mut buf).autofocus,
        Some(child)
    );
}

#[test]
fn focus_entry_copies_the_properties() {
    let mut tree = Tree::new();
    let id = tree.push_child(None, node(focusable()));
    let hidden = tree.push_child(None, node(NodeFlags::focusable()));
    let inert = tree.push_child(None, node(NodeFlags::visible()));
    let props = FocusProps {
        enabled: true,
        autofocus: true,
        order: Some(-4),
        group: Some(9),
    };
    assert_eq!(
        focus_entry(&tree, id, 7, props),
        Some(FocusEntry {
            id,
            rect: Rect::ZERO,
            order: Some(-4),
            group: Some(9),
            enabled: true,
            scope_depth: 7,
        })
    );
    let disabled = FocusProps {
        enabled: false,
        ..props
    };
    assert_eq!(focus_entry(&tree, id, 7, disabled), None);
    assert_eq!(focus_entry(&tree, hidden, 7, props), None);
    assert_eq!(focus_entry(&tree, inert, 7, props), None);
    assert_eq!(focus_entry(&tree, NodeId(3), 7, props), None);
}

#[test]
fn nodes_without_bounds_are_passed_over() {
    struct BoundedOnly {
        unbounded: NodeId,
    }
    impl FocusPropsLookup<NodeId> for BoundedOnly {
        fn props(&self, id: &NodeId) -> FocusProps {
            assert_ne!(*id, self.unbounded);
            FocusProps::default()
        }
    }

    let mut tree = Tree::new();
    let root = tree.push_child(None, node(focusable()));
    let unbounded = tree.push_child(
        Some(root),
        NodeData {
            flags: focusable(),
            z_index: 0,
            world_bounds: None,
        },
    );
    let below = tree.push_child(Some(unbounded), node(focusable()));
    assert_eq!(tree.world_bounds(unbounded), None);
    assert_eq!(focus_entry(&tree, unbounded, 1, FocusProps::default()), None);

    // It has no entry and is not asked about, but its children are visited.
    let mut buf = Vec::new();
    let lookup = BoundedOnly { unbounded };
    let space = build_focus_space_for_scope(&tree, root, &lookup, &mut buf);
    let found: Vec<(NodeId, u8)> = space.nodes.iter().map(|e| (e.id, e.scope_depth)).collect();
    assert_eq!(found, vec![(root, 0), (below, 2)]);
}
