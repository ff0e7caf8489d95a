//! Tree navigation utilities for UI focus and keyboard traversal.
//!
//! These functions provide filtered traversal with wraparound semantics, suitable for keyboard
//! navigation, focus cycling, and similar UI interactions.

use crate::tree::{NodeId, QueryFilter, Tree, TreeModel};
use vstd::prelude::*;

verus! {

impl TreeModel {
    /// The node passes the filter.
    pub open spec fn passes(self, id: NodeId, filter: QueryFilter) -> bool {
        self.data(id).flags.includes(filter.required_flags)
    }

    /// The other nodes of the tree that `id` belongs to, in the order in which a walk meets them
    /// that starts after `id` and goes on with the root once it comes to the end.
    pub open spec fn cycle_after(self, id: NodeId) -> Seq<NodeId> {
        let order = self.order_around(id);
        let place = order.index_of(id);
        order.subrange(place + 1, order.len() as int) + order.subrange(0, place)
    }

    /// The same walk backwards.
    pub open spec fn cycle_before(self, id: NodeId) -> Seq<NodeId> {
        self.cycle_after(id).reverse()
    }

    /// The first of `nodes` that passes the filter.
    pub open spec fn first_passing(self, nodes: Seq<NodeId>, filter: QueryFilter) -> Option<NodeId>
        decreases nodes.len(),
    {
        if nodes.len() == 0 {
            None
        } else if self.passes(nodes[0], filter) {
            Some(nodes[0])
        } else {
            self.first_passing(nodes.skip(1), filter)
        }
    }

    /// Where navigation goes from `id`.
    pub open spec fn next_passing(self, id: NodeId, filter: QueryFilter) -> Option<NodeId> {
        if self.has(id) {
            self.first_passing(self.cycle_after(id), filter)
        } else {
            None
        }
    }

    /// Where navigation goes back to from `id`.
    pub open spec fn prev_passing(self, id: NodeId, filter: QueryFilter) -> Option<NodeId> {
        if self.has(id) {
            self.first_passing(self.cycle_before(id), filter)
        } else {
            None
        }
    }

    /// What the first match is when the first `k` nodes do not pass.
    proof fn lemma_first_passing(self, nodes: Seq<NodeId>, filter: QueryFilter, k: int)
        requires
            0 <= k <= nodes.len(),
            forall|j: int| 0 <= j < k ==> !self.passes(#[trigger] nodes[j], filter),
            k < nodes.len() ==> self.passes(nodes[k], filter),
        ensures
            self.first_passing(nodes, filter) == if k < nodes.len() {
                Some(nodes[k])
            } else {
                None
            },
        decreases k,
    {
        if k > 0 {
            let rest = nodes.skip(1);
            assert(!self.passes(nodes[0], filter));
            assert forall|j: int| 0 <= j < k - 1 implies !self.passes(
                #[trigger] rest[j],
                filter,
            ) by {
                assert(rest[j] == nodes[j + 1]);
            }
            self.lemma_first_passing(rest, filter, k - 1);
        }
    }

    /// Where the first match stands.
    proof fn lemma_first_passing_place(self, nodes: Seq<NodeId>, filter: QueryFilter) -> (k: int)
        ensures
            0 <= k <= nodes.len(),
            forall|j: int| 0 <= j < k ==> !self.passes(#[trigger] nodes[j], filter),
            k < nodes.len() ==> self.passes(nodes[k], filter),
            self.first_passing(nodes, filter) == if k < nodes.len() {
                Some(nodes[k])
            } else {
                None
            },
        decreases nodes.len(),
    {
        if nodes.len() == 0 || self.passes(nodes[0], filter) {
            0
        } else {
            let rest = nodes.skip(1);
            let k = self.lemma_first_passing_place(rest, filter);
            assert forall|j: int| 0 <= j < k + 1 implies !self.passes(
                #[trigger] nodes[j],
                filter,
            ) by {
                if j > 0 {
                    assert(nodes[j] == rest[j - 1]);
                }
            }
            k + 1
        }
    }
}

/// The place that a walk of `steps` steps comes to in a cycle of `len`.
spec fn forward(place: int, steps: int, len: int) -> int {
    if place + steps < len {
        place + steps
    } else {
        place + steps - len
    }
}

/// The place that a walk of `steps` steps backwards comes to in a cycle of `len`.
spec fn backward(place: int, steps: int, len: int) -> int {
    if place - steps >= 0 {
        place - steps
    } else {
        place - steps + len
    }
}

/// Get the next node in depth-first traversal order that matches the filter.
/// Returns `None` if no matching node exists or if the current node is stale.
/// The search wraps around to the beginning of the subtree to enable circular navigation.
#[must_use]
pub fn next_depth_first_filtered(tree: &Tree, current: NodeId, filter: QueryFilter) -> (r: Option<
    NodeId,
>)
    ensures
        r == tree@.next_passing(current, filter),
{
    if !tree.is_alive(current) {
        return None;
    }
    let ghost model = tree@;
    let ghost order = model.order_around(current);
    let ghost place = order.index_of(current);
    let ghost mut steps: int = 0;
    proof {
        model.lemma_place_in_order(current);
    }

    let start = current;
    let mut node = current;
    // Keep searching until we find a match or complete a full cycle
    loop
        invariant
            model == tree@,
            model.wf(),
            model.has(current),
            order == model.order_around(current),
            place == order.index_of(current),
            0 <= place < order.len(),
            order[place] == start,
            start == current,
            order.no_duplicates(),
            0 <= steps < order.len(),
            node == order[forward(place, steps, order.len() as int)],
            forall|j: int|
                0 <= j < steps ==> !model.passes(#[trigger] model.cycle_after(current)[j], filter),
        decreases order.len() - steps,
    {
        proof {
            model.lemma_same_order(current, forward(place, steps, order.len() as int));
            model.lemma_place_in_order(node);
        }
        if let Some(next) = tree.next_depth_first(node) {
            node = next;
        } else {
            // Wrap around to the root of this subtree when we reach the end
            node = match tree.find_root_of(current) {
                Some(root) => root,
                None => {
                    return None;
                },
            };
        }
        proof {
            steps = steps + 1;
        }
        assert(node == order[forward(place, steps, order.len() as int)]);

        // Check if we've completed a full cycle
        if node == start {
            proof {
                model.lemma_first_passing(model.cycle_after(current), filter, steps - 1);
            }
            return None;
        }
        // Check if this node matches the filter
        assert(node == model.cycle_after(current)[steps - 1]);
        if node_matches_filter(tree, node, filter) {
            proof {
                model.lemma_first_passing(model.cycle_after(current), filter, steps - 1);
            }
            return Some(node);
        }
    }
}

/// Get the previous node in reverse depth-first traversal order that matches the filter.
/// Returns `None` if no matching node exists or if the current node is stale.
/// The search wraps around to the end of the subtree to enable circular navigation.
#[must_use]
pub fn prev_depth_first_filtered(tree: &Tree, current: NodeId, filter: QueryFilter) -> (r: Option<
    NodeId,
>)
    ensures
        r == tree@.prev_passing(current, filter),
{
    if !tree.is_alive(current) {
        return None;
    }
    let ghost model = tree@;
    let ghost order = model.order_around(current);
    let ghost place = order.index_of(current);
    let ghost mut steps: int = 0;
    proof {
        model.lemma_place_in_order(current);
    }

    let start = current;
    let mut node = current;
    // Keep searching until we find a match or complete a full cycle
    loop
        invariant
            model == tree@,
            model.wf(),
            model.has(current),
            model.has(model.root_of(current)),
            order == model.order_around(current),
            place == order.index_of(current),
            0 <= place < order.len(),
            order[place] == start,
            start == current,
            order.no_duplicates(),
            0 <= steps < order.len(),
            node == order[backward(place, steps, order.len() as int)],
            forall|j: int|
                0 <= j < steps ==> !model.passes(#[trigger] model.cycle_before(current)[j], filter),
        decreases order.len() - steps,
    {
        proof {
            model.lemma_same_order(current, backward(place, steps, order.len() as int));
            model.lemma_place_in_order(node);
        }
        if let Some(prev) = tree.prev_depth_first(node) {
            node = prev;
        } else {
            // Wrap around to the last node of this subtree when we reach the beginning
            node = match tree.find_root_of(current) {
                Some(root) => tree.last_descendant_of(root),
                None => {
                    return None;
                },
            };
        }
        proof {
            steps = steps + 1;
        }
        assert(node == order[backward(place, steps, order.len() as int)]);

        // Check if we've completed a full cycle
        if node == start {
            proof {
                model.lemma_first_passing(model.cycle_before(current), filter, steps - 1);
            }
            return None;
        }
        // Check if this node matches the filter
        assert(node == model.cycle_before(current)[steps - 1]);
        if node_matches_filter(tree, node, filter) {
            proof {
                model.lemma_first_passing(model.cycle_before(current), filter, steps - 1);
            }
            return Some(node);
        }
    }
}

/// Check if a node matches the given filter criteria.
fn node_matches_filter(tree: &Tree, id: NodeId, filter: QueryFilter) -> (r: bool)
    ensures
        r == (tree@.has(id) && tree@.passes(id, filter)),
{
    match tree.flags(id) {
        Some(flags) => filter.matches(flags),
        None => false,
    }
}

/// Where the nodes of the two cycles around `id` stand in its order.
proof fn lemma_cycle_places(model: TreeModel, id: NodeId)
    requires
        model.wf(),
        model.has(id),
    ensures
        ({
            let order = model.order_around(id);
            let place = order.index_of(id);
            let len = order.len() as int;
            &&& model.cycle_after(id).len() == len - 1
            &&& model.cycle_before(id).len() == len - 1
            &&& forall|j: int|
                0 <= j < len - 1 ==> #[trigger] model.cycle_after(id)[j] == order[forward(
                    place,
                    j + 1,
                    len,
                )]
            &&& forall|j: int|
                0 <= j < len - 1 ==> #[trigger] model.cycle_before(id)[j] == order[backward(
                    place,
                    j + 1,
                    len,
                )]
        }),
{
    model.lemma_place_in_order(id);
}

/// What a walk that leaves from `id` and meets `found` after `k` other nodes meets on the way back
/// from `found`: the same nodes, and then `id`.
proof fn lemma_way_back(model: TreeModel, id: NodeId, k: int)
    requires
        model.wf(),
        model.has(id),
        0 <= k < model.order_around(id).len() - 1,
    ensures
        ({
            let there = model.cycle_after(id);
            let back = model.cycle_before(there[k]);
            &&& model.has(there[k])
            &&& back.len() == there.len()
            &&& back[k] == id
            &&& forall|j: int| 0 <= j < k ==> #[trigger] back[j] == there[k - 1 - j]
        }),
        ({
            let there = model.cycle_before(id);
            let back = model.cycle_after(there[k]);
            &&& model.has(there[k])
            &&& back.len() == there.len()
            &&& back[k] == id
            &&& forall|j: int| 0 <= j < k ==> #[trigger] back[j] == there[k - 1 - j]
        }),
{
    let order = model.order_around(id);
    let place = order.index_of(id);
    let len = order.len() as int;
    model.lemma_place_in_order(id);
    lemma_cycle_places(model, id);

    let ahead = forward(place, k + 1, len);
    model.lemma_same_order(id, ahead);
    model.lemma_place_in_order(order[ahead]);
    lemma_cycle_places(model, order[ahead]);
    assert(order.index_of(order[ahead]) == ahead);
    assert(model.cycle_after(id)[k] == order[ahead]);
    assert forall|j: int| 0 <= j < k implies #[trigger] model.cycle_before(order[ahead])[j]
        == model.cycle_after(id)[k - 1 - j] by {
        assert(backward(ahead, j + 1, len) == forward(place, k - 1 - j + 1, len));
    }

    let behind = backward(place, k + 1, len);
    model.lemma_same_order(id, behind);
    model.lemma_place_in_order(order[behind]);
    lemma_cycle_places(model, order[behind]);
    assert(order.index_of(order[behind]) == behind);
    assert(model.cycle_before(id)[k] == order[behind]);
    assert forall|j: int| 0 <= j < k implies #[trigger] model.cycle_after(order[behind])[j]
        == model.cycle_before(id)[k - 1 - j] by {
        assert(forward(behind, j + 1, len) == backward(place, k - 1 - j + 1, len));
    }
}

/// Going back undoes going on, and going on undoes going back, from every node that passes
/// the filter itself.
pub proof fn law_navigation_can_be_undone(model: TreeModel, id: NodeId, filter: QueryFilter)
    requires
        model.wf(),
        model.has(id),
        model.passes(id, filter),
    ensures
        model.next_passing(id, filter) matches Some(found) ==> model.prev_passing(found, filter)
            == Some(id),
        model.prev_passing(id, filter) matches Some(found) ==> model.next_passing(found, filter)
            == Some(id),
{
    lemma_cycle_places(model, id);
    let there = model.cycle_after(id);
    let k = model.lemma_first_passing_place(there, filter);
    if k < there.len() {
        lemma_way_back(model, id, k);
        model.lemma_first_passing(model.cycle_before(there[k]), filter, k);
    }
    let there = model.cycle_before(id);
    let k = model.lemma_first_passing_place(there, filter);
    if k < there.len() {
        lemma_way_back(model, id, k);
        model.lemma_first_passing(model.cycle_after(there[k]), filter, k);
    }
}

/// Navigation stays within the tree of the current node. It finds another node of that tree
/// that passes the filter whenever there is one, in both directions, and never the current node.
pub proof fn law_navigation_finds_another_match(model: TreeModel, id: NodeId, filter: QueryFilter)
    requires
        model.wf(),
        model.has(id),
    ensures
        model.next_passing(id, filter) matches Some(found) ==> {
            &&& found != id
            &&& model.has(found)
            &&& model.root_of(found) == model.root_of(id)
            &&& model.passes(found, filter)
        },
        model.prev_passing(id, filter) matches Some(found) ==> {
            &&& found != id
            &&& model.has(found)
            &&& model.root_of(found) == model.root_of(id)
            &&& model.passes(found, filter)
        },
        forall|other: NodeId|
            other != id && #[trigger] model.has(other) && model.root_of(other) == model.root_of(id)
                && model.passes(other, filter) ==> model.next_passing(id, filter) is Some
                && model.prev_passing(id, filter) is Some,
{
    let order = model.order_around(id);
    let place = order.index_of(id);
    let len = order.len() as int;
    let (after, before) = (model.cycle_after(id), model.cycle_before(id));
    model.lemma_place_in_order(id);
    lemma_cycle_places(model, id);
    let k = model.lemma_first_passing_place(after, filter);
    if k < after.len() {
        model.lemma_same_order(id, forward(place, k + 1, len));
    }
    let m = model.lemma_first_passing_place(before, filter);
    if m < before.len() {
        model.lemma_same_order(id, backward(place, m + 1, len));
    }
    assert forall|other: NodeId|
        other != id && #[trigger] model.has(other) && model.root_of(other) == model.root_of(id)
            && model.passes(other, filter) implies model.next_passing(id, filter) is Some
        && model.prev_passing(id, filter) is Some by {
        model.lemma_place_in_order(other);
        let spot = order.index_of(other);
        let distance = if spot > place {
            spot - place
        } else {
            spot - place + len
        };
        assert(after[distance - 1] == other);
        assert(before[len - distance - 1] == other);
    }
}

/// Navigation goes to the nearest match. Going forward through the depth-first order of the whole
/// tree, and from its last node on to its root, no other node that has all the required flags comes
/// sooner than the one found; and the same holds going back. `other` is such a node.
pub proof fn law_navigation_goes_to_the_nearest_match(
    model: TreeModel,
    id: NodeId,
    filter: QueryFilter,
    other: NodeId,
)
    requires
        model.wf(),
        model.has(id),
        model.has(other),
        model.root_of(other) == model.root_of(id),
        other != id,
        model.data(other).flags.0 & filter.required_flags.0 == filter.required_flags.0,
    ensures
        ({
            let order = model.preorder(model.root_of(id));
            let (len, from, to) = (order.len() as int, order.index_of(id), order.index_of(other));
            let ahead = if to > from {
                to - from
            } else {
                to - from + len
            };
            &&& model.next_passing(id, filter) matches Some(found) && {
                let at = order.index_of(found);
                let steps = if at > from {
                    at - from
                } else {
                    at - from + len
                };
                &&& order[at] == found
                &&& model.data(found).flags.0 & filter.required_flags.0 == filter.required_flags.0
                &&& 0 < steps <= ahead
            }
            &&& model.prev_passing(id, filter) matches Some(found) && {
                let at = order.index_of(found);
                let steps = if at < from {
                    from - at
                } else {
                    from - at + len
                };
                &&& order[at] == found
                &&& model.data(found).flags.0 & filter.required_flags.0 == filter.required_flags.0
                &&& 0 < steps <= len - ahead
            }
        }),
{
    let order = model.order_around(id);
    let from = order.index_of(id);
    let len = order.len() as int;
    let (after, before) = (model.cycle_after(id), model.cycle_before(id));
    model.lemma_place_in_order(id);
    model.lemma_place_in_order(other);
    lemma_cycle_places(model, id);
    let to = order.index_of(other);
    let ahead = if to > from {
        to - from
    } else {
        to - from + len
    };
    assert(after[ahead - 1] == other);
    assert(before[len - ahead - 1] == other);
    let k = model.lemma_first_passing_place(after, filter);
    assert(k <= ahead - 1) by {
        if k > ahead - 1 {
            assert(!model.passes(after[ahead - 1], filter));
        }
    }
    assert(order.index_of(after[k]) == forward(from, k + 1, len));
    let m = model.lemma_first_passing_place(before, filter);
    assert(m <= len - ahead - 1) by {
        if m > len - ahead - 1 {
            assert(!model.passes(before[len - ahead - 1], filter));
        }
    }
    assert(order.index_of(before[m]) == backward(from, m + 1, len));
}

/// Where no other node of the tree has all the required flags, and from a stale node, navigation
/// goes nowhere.
pub proof fn law_navigation_without_a_match_goes_nowhere(
    model: TreeModel,
    id: NodeId,
    filter: QueryFilter,
)
    requires
        model.wf(),
        model.has(id) ==> forall|other: NodeId|
            other != id && #[trigger] model.has(other) && model.root_of(other) == model.root_of(id)
                ==> model.data(other).flags.0 & filter.required_flags.0
                != filter.required_flags.0,
    ensures
        model.next_passing(id, filter) is None,
        model.prev_passing(id, filter) is None,
{
    if model.has(id) {
        law_navigation_finds_another_match(model, id, filter);
    }
}

} // verus!
