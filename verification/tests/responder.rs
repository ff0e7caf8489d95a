//! Responder hits.

use kurbo::Rect;
use understory::responder::{hits_for_rect, top_hit_for_point, DepthKey, Hit, Localizer};
use understory::tree::{NodeData, NodeFlags, NodeId, Tree};

fn tree_with_z(z_indices: &[i32]) -> Tree {
    let mut tree = Tree::new();
    let mut parent = None;
    for &z_index in z_indices {
        parent = Some(tree.push_child(
            parent,
            NodeData {
                flags: NodeFlags::pickable(),
                z_index,
                world_bounds: Some(Rect::ZERO),
            },
        ));
    }
    tree
}

#[test]
fn top_hit_keeps_node_path_and_stacking_order() {
    let tree = tree_with_z(&[0, 7]);
    let hit = Hit {
        node: NodeId(1),
        path: vec![NodeId(0), NodeId(1)],
    };
    let resolved = top_hit_for_point(&tree, Some(hit)).unwrap();
    assert_eq!(resolved.node, NodeId(1));
    assert_eq!(resolved.path, Some(vec![NodeId(0), NodeId(1)]));
    assert_eq!(resolved.depth_key, DepthKey::Z(7));
    assert_eq!(resolved.localizer, Localizer::default());
    assert!(top_hit_for_point(&tree, None).is_none());
}

#[test]
fn stale_hits_have_depth_zero() {
    let tree = tree_with_z(&[5]);
    let hit = Hit {
        node: NodeId(3),
        path: Vec::new(),
    };
    let resolved = top_hit_for_point(&tree, Some(hit)).unwrap();
    assert_eq!(resolved.depth_key, DepthKey::Z(0));
}

#[test]
fn rect_hits_keep_their_order() {
    let tree = tree_with_z(&[3, -1, 8]);
    let ids = [NodeId(2), NodeId(0), NodeId(1), NodeId(9)];
    let hits = hits_for_rect(&tree, &ids);
    let found: Vec<(NodeId, DepthKey)> = hits.iter().map(|h| (h.node, h.depth_key)).collect();
    assert_eq!(
        found,
        vec![
            (NodeId(2), DepthKey::Z(8)),
            (NodeId(0), DepthKey::Z(3)),
            (NodeId(1), DepthKey::Z(-1)),
            (NodeId(9), DepthKey::Z(0)),
        ]
    );
    assert!(hits.iter().all(|hit| hit.path.is_none()));
    assert!(hits_for_rect(&tree, &[]).is_empty());
}
