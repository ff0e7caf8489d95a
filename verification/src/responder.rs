//! Responder hits built from the answers to box-tree queries.
//!
//! These helpers turn query results into responder hits. They do not perform ordering; when only a
//! single candidate exists (e.g., top hit), the depth key value is irrelevant. For lists (e.g.,
//! viewport queries), consumers can apply their own ordering if needed.

use crate::tree::{NodeId, Tree, TreeModel};
use vstd::prelude::*;

verus! {

/// The answer to a hit test: the topmost node under a point.
#[derive(Debug)]
pub struct Hit {
    /// The node that was hit.
    pub node: NodeId,
    /// The nodes from the root down to it.
    pub path: Vec<NodeId>,
}

/// By what hits are ordered from front to back.
#[derive(Clone, Copy, Debug, PartialEq, Eq, Structural)]
pub enum DepthKey {
    /// Stacking order; higher is nearer.
    Z(i32),
}

/// How positions are mapped into the node that was hit. The default leaves them as they are.
#[derive(Clone, Copy, Debug, PartialEq, Eq, Structural)]
pub struct Localizer {}

impl Default for Localizer {
    fn default() -> (r: Self)
        ensures
            r == (Localizer {  }),
    {
        Localizer {  }
    }
}

/// A hit as the responder router takes it.
#[derive(Debug)]
pub struct ResolvedHit<K, M> {
    /// The node that was hit.
    pub node: K,
    /// The nodes from the root down to it, where known.
    pub path: Option<Vec<K>>,
    /// Its depth.
    pub depth_key: DepthKey,
    /// How positions are mapped into it.
    pub localizer: Localizer,
    /// What else the host attaches.
    pub meta: M,
}

impl TreeModel {
    /// The depth key of a node: its stacking order, which is 0 for a stale node.
    pub open spec fn depth_key(self, id: NodeId) -> DepthKey {
        if self.has(id) {
            DepthKey::Z(self.data(id).z_index)
        } else {
            DepthKey::Z(0)
        }
    }

    /// The hit for a node, with a path where one is known.
    pub open spec fn resolved_hit(self, node: NodeId, path: Option<Vec<NodeId>>) -> ResolvedHit<
        NodeId,
        (),
    > {
        ResolvedHit {
            node,
            path,
            depth_key: self.depth_key(node),
            localizer: Localizer {  },
            meta: (),
        }
    }
}

/// The depth key of a node.
fn depth_key_of(tree: &Tree, id: NodeId) -> (r: DepthKey)
    ensures
        r == tree@.depth_key(id),
{
    match tree.z_index(id) {
        Some(z_index) => DepthKey::Z(z_index),
        None => DepthKey::Z(0),
    }
}

/// Build a single resolved hit for the topmost node under a point, given what the hit test found
/// there.
///
/// Returns `None` if it found nothing.
///
/// Notes
/// - Path is populated from the hit test result so the router does not need a parent lookup.
/// - `DepthKey` is derived from the node's z-index; since only a single candidate is returned,
///   ordering is irrelevant.
#[must_use]
pub fn top_hit_for_point(tree: &Tree, hit: Option<Hit>) -> (r: Option<ResolvedHit<NodeId, ()>>)
    ensures
        r == match hit {
            Some(hit) => Some(tree@.resolved_hit(hit.node, Some(hit.path))),
            None => None,
        },
{
    match hit {
        Some(hit) => {
            let depth_key = depth_key_of(tree, hit.node);
            Some(
                ResolvedHit {
                    node: hit.node,
                    path: Some(hit.path),
                    depth_key,
                    localizer: Localizer::default(),
                    meta: (),
                },
            )
        },
        None => None,
    }
}

/// Build resolved hits for the nodes that intersect a world-space rectangle, given those nodes.
///
/// Path is not populated; the router can reconstruct a singleton path (or a parent-aware path if
/// constructed with a parent lookup). Depth keys are set to each node's z-index; the returned list
/// preserves the order of the nodes so downstream consumers can sort as needed.
#[must_use]
pub fn hits_for_rect(tree: &Tree, ids: &[NodeId]) -> (r: Vec<ResolvedHit<NodeId, ()>>)
    ensures
        r@ == ids@.map_values(|id: NodeId| tree@.resolved_hit(id, None)),
{
    let mut hits: Vec<ResolvedHit<NodeId, ()>> = Vec::new();
    let mut i: usize = 0;
    while i < ids.len()
        invariant
            i <= ids@.len(),
            hits@ == ids@.take(i as int).map_values(|id: NodeId| tree@.resolved_hit(id, None)),
        decreases ids@.len() - i,
    {
        let id = ids[i];
        hits.push(
            ResolvedHit {
                node: id,
                path: None,
                depth_key: depth_key_of(tree, id),
                localizer: Localizer::default(),
                meta: (),
            },
        );
        i = i + 1;
        assert(ids@.take(i as int).drop_last() =~= ids@.take(i - 1));
    }
    assert(ids@.take(i as int) =~= ids@);
    hits
}

/// A hit says of a node what the tree and the query say: the node itself, the path that the query
/// found, or none, and the node's stacking order, which is 0 for a node that the tree does not
/// hold.
pub proof fn law_hits_say_what_the_tree_says(
    model: TreeModel,
    node: NodeId,
    path: Option<Vec<NodeId>>,
)
    ensures
        ({
            let hit = model.resolved_hit(node, path);
            &&& hit.node == node
            &&& hit.path == path
            &&& node.0 < model.nodes.len() ==> hit.depth_key == DepthKey::Z(
                model.nodes[node.0 as int].data.z_index,
            )
            &&& node.0 >= model.nodes.len() ==> hit.depth_key == DepthKey::Z(0)
        }),
{
}

} // verus!
