//! A box tree as the focus and responder helpers read it: structure, flags, depth keys and
//! world-space bounds.
//!
//! The depth-first order of a tree is [`TreeModel::preorder`]: a node, then the subtrees of its
//! children from left to right.

use core::ops::BitOr;

use vstd::prelude::*;

verus! {

/// `kurbo::Rect`, a rectangle of floating-point coordinates. The library only carries such values
/// along, so nothing is stated of them.
#[verifier::external_type_specification]
#[verifier::external_body]
pub struct ExRect(kurbo::Rect);

/// The flag of nodes that are shown.
pub const VISIBLE_BIT: u8 = 1;

/// The flag of nodes that can be hit.
pub const PICKABLE_BIT: u8 = 2;

/// The flag of nodes that can take the focus.
pub const FOCUSABLE_BIT: u8 = 4;

/// Flags of a node.
#[derive(Clone, Copy, Debug, PartialEq, Eq, Structural)]
pub struct NodeFlags(pub u8);

impl NodeFlags {
    /// All flags of `other` are set here too.
    pub open spec fn includes(self, other: NodeFlags) -> bool {
        self.0 & other.0 == other.0
    }

    /// No flags.
    #[must_use]
    pub fn empty() -> (r: Self)
        ensures
            r.0 == 0,
    {
        NodeFlags(0)
    }

    /// The node is shown.
    #[must_use]
    pub fn visible() -> (r: Self)
        ensures
            r.0 == VISIBLE_BIT,
    {
        NodeFlags(VISIBLE_BIT)
    }

    /// The node can be hit.
    #[must_use]
    pub fn pickable() -> (r: Self)
        ensures
            r.0 == PICKABLE_BIT,
    {
        NodeFlags(PICKABLE_BIT)
    }

    /// The node can take the focus.
    #[must_use]
    pub fn focusable() -> (r: Self)
        ensures
            r.0 == FOCUSABLE_BIT,
    {
        NodeFlags(FOCUSABLE_BIT)
    }

    /// Returns true if all flags of `other` are set.
    #[must_use]
    pub fn contains(self, other: Self) -> (r: bool)
        ensures
            r == self.includes(other),
    {
        self.0 & other.0 == other.0
    }
}

impl BitOr<NodeFlags> for NodeFlags {
    type Output = NodeFlags;

    fn bitor(self, rhs: NodeFlags) -> (r: NodeFlags) {
        NodeFlags(self.0 | rhs.0)
    }
}

impl vstd::std_specs::ops::BitOrSpecImpl<NodeFlags> for NodeFlags {
    open spec fn obeys_bitor_spec() -> bool {
        true
    }

    open spec fn bitor_req(self, rhs: NodeFlags) -> bool {
        true
    }

    open spec fn bitor_spec(self, rhs: NodeFlags) -> NodeFlags {
        NodeFlags(self.0 | rhs.0)
    }
}

/// Which nodes a query is about.
#[derive(Clone, Copy, Debug, PartialEq, Eq, Structural)]
pub struct QueryFilter {
    /// The flags that a node must have, all of them.
    pub required_flags: NodeFlags,
}

impl QueryFilter {
    /// Returns true if a node with these flags passes the filter.
    #[must_use]
    pub fn matches(self, flags: NodeFlags) -> (r: bool)
        ensures
            r == flags.includes(self.required_flags),
    {
        flags.contains(self.required_flags)
    }
}

/// Identifies a node of a [`Tree`] by its place in the order of insertion. An identifier of a node
/// that a tree does not hold is stale there.
#[derive(Clone, Copy, Debug, PartialEq, Eq, Structural)]
pub struct NodeId(pub usize);

/// What a node holds besides its place in the tree.
#[derive(Clone, Copy, Debug, PartialEq)]
pub struct NodeData {
    /// Flags.
    pub flags: NodeFlags,
    /// Stacking order.
    pub z_index: i32,
    /// Bounds in world space, where the node has any.
    pub world_bounds: Option<kurbo::Rect>,
}

/// One node of a [`TreeModel`].
pub struct NodeModel {
    /// The node's parent; a root has none.
    pub parent: Option<NodeId>,
    /// The node's children from left to right.
    pub children: Seq<NodeId>,
    /// The node's data.
    pub data: NodeData,
}

/// The nodes of a [`Tree`], which may have several roots.
pub struct TreeModel {
    /// The nodes by their identifiers.
    pub nodes: Seq<NodeModel>,
}

impl TreeModel {
    /// The tree holds this node.
    pub open spec fn has(self, id: NodeId) -> bool {
        id.0 < self.nodes.len()
    }

    /// The parent of a node.
    pub open spec fn parent(self, id: NodeId) -> Option<NodeId> {
        self.nodes[id.0 as int].parent
    }

    /// The children of a node.
    pub open spec fn children(self, id: NodeId) -> Seq<NodeId> {
        self.nodes[id.0 as int].children
    }

    /// The data of a node.
    pub open spec fn data(self, id: NodeId) -> NodeData {
        self.nodes[id.0 as int].data
    }

    /// What holds of every tree: parents and children name each other, each child once, and a
    /// parent is inserted before its children.
    pub open spec fn wf(self) -> bool {
        &&& forall|id: NodeId| #[trigger]
            self.has(id) ==> match self.parent(id) {
                Some(parent) => parent.0 < id.0 && self.children(parent).contains(id),
                None => true,
            }
        &&& forall|id: NodeId, k: int|
            self.has(id) && 0 <= k < self.children(id).len() ==> {
                let child = #[trigger] self.children(id)[k];
                id.0 < child.0 && self.has(child) && self.parent(child) == Some(id)
            }
        &&& forall|id: NodeId| #[trigger] self.has(id) ==> self.children(id).no_duplicates()
    }

    /// The depth-first order of the subtree at `id`.
    pub open spec fn preorder(self, id: NodeId) -> Seq<NodeId>
        decreases self.nodes.len() - id.0, self.children(id).len() + 1,
    {
        seq![id] + self.forest(id, self.children(id).len())
    }

    /// The depth-first orders of the first `k` children of `id`, one after the other.
    pub open spec fn forest(self, id: NodeId, k: nat) -> Seq<NodeId>
        decreases self.nodes.len() - id.0, k,
    {
        if k == 0 {
            Seq::empty()
        } else {
            let child = self.children(id)[k - 1];
            if id.0 < child.0 && self.has(child) {
                self.forest(id, (k - 1) as nat) + self.preorder(child)
            } else {
                Seq::empty()
            }
        }
    }

    /// The tree with one more node: a root, or the last child of `parent`.
    pub open spec fn with_child(self, parent: Option<NodeId>, data: NodeData) -> Self {
        let id = NodeId(self.nodes.len() as usize);
        let linked = match parent {
            Some(above) => self.nodes.update(
                above.0 as int,
                NodeModel {
                    children: self.children(above).push(id),
                    ..self.nodes[above.0 as int]
                },
            ),
            None => self.nodes,
        };
        TreeModel { nodes: linked.push(NodeModel { parent, children: Seq::empty(), data }) }
    }

    /// The topmost ancestor of `id`.
    pub open spec fn root_of(self, id: NodeId) -> NodeId
        decreases id.0,
    {
        match self.parent(id) {
            Some(parent) if parent.0 < id.0 => self.root_of(parent),
            _ => id,
        }
    }

    /// The depth-first order of the whole tree that `id` belongs to.
    pub open spec fn order_around(self, id: NodeId) -> Seq<NodeId> {
        self.preorder(self.root_of(id))
    }

    /// The node after `id` in depth-first order; the last node of a tree has none.
    pub open spec fn next_in_order(self, id: NodeId) -> Option<NodeId> {
        let order = self.order_around(id);
        let place = order.index_of(id);
        if self.has(id) && place + 1 < order.len() {
            Some(order[place + 1])
        } else {
            None
        }
    }

    /// The node before `id` in depth-first order; a root has none.
    pub open spec fn prev_in_order(self, id: NodeId) -> Option<NodeId> {
        let order = self.order_around(id);
        let place = order.index_of(id);
        if self.has(id) && place > 0 {
            Some(order[place - 1])
        } else {
            None
        }
    }

    /// `id` is `scope` or lies below it.
    pub open spec fn is_under(self, scope: NodeId, id: NodeId) -> bool
        decreases id.0,
    {
        id == scope || match self.parent(id) {
            Some(parent) if parent.0 < id.0 => self.is_under(scope, parent),
            _ => false,
        }
    }

    /// How many levels `id` lies below `scope`.
    pub open spec fn levels_below(self, scope: NodeId, id: NodeId) -> nat
        decreases id.0,
    {
        if id == scope {
            0
        } else {
            match self.parent(id) {
                Some(parent) if parent.0 < id.0 => 1 + self.levels_below(scope, parent),
                _ => 0,
            }
        }
    }

    /// The node that follows the subtree at `id`: its next sibling, or that of the nearest ancestor
    /// that has one.
    spec fn following(self, id: NodeId) -> Option<NodeId>
        decreases id.0,
    {
        match self.parent(id) {
            Some(parent) if parent.0 < id.0 => {
                let place = self.children(parent).index_of(id);
                if place + 1 < self.children(parent).len() {
                    Some(self.children(parent)[place + 1])
                } else {
                    self.following(parent)
                }
            },
            _ => None,
        }
    }

    /// The last node of the subtree at `id`.
    pub open spec fn last_descendant(self, id: NodeId) -> NodeId
        decreases self.nodes.len() - id.0,
    {
        let children = self.children(id);
        if children.len() > 0 && id.0 < children.last().0 && self.has(children.last()) {
            self.last_descendant(children.last())
        } else {
            id
        }
    }

    /// The node before `id`: its parent, or the last node of its previous sibling's subtree.
    spec fn preceding(self, id: NodeId) -> Option<NodeId> {
        match self.parent(id) {
            Some(parent) => {
                let place = self.children(parent).index_of(id);
                if place > 0 {
                    Some(self.last_descendant(self.children(parent)[place - 1]))
                } else {
                    Some(parent)
                }
            },
            None => None,
        }
    }

    /// Among the first `m` subtrees below `id`, what stands before and after the `k`-th.
    proof fn lemma_forest_split(self, id: NodeId, k: nat, m: nat) -> (rest: Seq<NodeId>)
        requires
            self.wf(),
            self.has(id),
            k < m <= self.children(id).len(),
        ensures
            self.forest(id, m) == self.forest(id, k) + self.preorder(self.children(id)[k as int])
                + rest,
            m == k + 1 ==> rest.len() == 0,
            m > k + 1 ==> rest.len() > 0 && rest[0] == self.children(id)[k as int + 1],
        decreases m,
    {
        let last = self.children(id)[m - 1];
        assert(id.0 < last.0 && self.has(last));
        if m == k + 1 {
            assert(self.forest(id, m) =~= self.forest(id, k) + self.preorder(
                self.children(id)[k as int],
            ) + Seq::empty());
            Seq::empty()
        } else {
            let shorter = self.lemma_forest_split(id, k, (m - 1) as nat);
            let rest = shorter + self.preorder(last);
            assert(self.forest(id, m) =~= self.forest(id, k) + self.preorder(
                self.children(id)[k as int],
            ) + rest);
            rest
        }
    }

    /// A subtree's depth-first order ends with its last descendant.
    proof fn lemma_preorder_ends(self, id: NodeId)
        requires
            self.wf(),
            self.has(id),
        ensures
            self.preorder(id).last() == self.last_descendant(id),
        decreases self.nodes.len() - id.0,
    {
        let children = self.children(id);
        if children.len() > 0 {
            let last = children[children.len() - 1];
            assert(id.0 < last.0 && self.has(last));
            self.lemma_preorder_ends(last);
        }
    }

    /// The subtree at `id` stands in one piece in the order around it, between what precedes and
    /// what follows it.
    proof fn lemma_subtree_in_order(self, id: NodeId) -> (r: (Seq<NodeId>, Seq<NodeId>))
        requires
            self.wf(),
            self.has(id),
        ensures
            self.order_around(id) == r.0 + self.preorder(id) + r.1,
            self.has(self.root_of(id)),
            r.0.len() == 0 ==> self.preceding(id) is None,
            r.0.len() > 0 ==> self.preceding(id) == Some(r.0.last()),
            r.1.len() == 0 ==> self.following(id) is None,
            r.1.len() > 0 ==> self.following(id) == Some(r.1[0]),
        decreases id.0,
    {
        match self.parent(id) {
            None => {
                assert(self.order_around(id) =~= Seq::empty() + self.preorder(id) + Seq::empty());
                (Seq::empty(), Seq::empty())
            },
            Some(parent) => {
                let (before, after) = self.lemma_subtree_in_order(parent);
                let siblings = self.children(parent);
                let place = siblings.index_of(id);
                assert(0 <= place < siblings.len() && siblings[place] == id);
                let rest = self.lemma_forest_split(parent, place as nat, siblings.len());
                let head = before + seq![parent] + self.forest(parent, place as nat);
                let tail = rest + after;
                assert(self.order_around(id) =~= head + self.preorder(id) + tail);
                if place > 0 {
                    let previous = siblings[place - 1];
                    assert(parent.0 < previous.0 && self.has(previous));
                    self.lemma_preorder_ends(previous);
                    assert(head.last() == self.preorder(previous).last());
                } else {
                    assert(head =~= before + seq![parent]);
                }
                (head, tail)
            },
        }
    }

    /// All nodes of a subtree lie at or below its top.
    proof fn lemma_preorder_is_under(self, id: NodeId)
        requires
            self.wf(),
            self.has(id),
        ensures
            forall|i: int|
                0 <= i < self.preorder(id).len() ==> self.has(#[trigger] self.preorder(id)[i])
                    && self.is_under(id, self.preorder(id)[i]),
        decreases self.nodes.len() - id.0, self.children(id).len() + 1,
    {
        self.lemma_forest_is_under(id, self.children(id).len());
        assert forall|i: int| 0 <= i < self.preorder(id).len() implies self.has(
            #[trigger] self.preorder(id)[i],
        ) && self.is_under(id, self.preorder(id)[i]) by {
            if i > 0 {
                let below = self.forest(id, self.children(id).len());
                assert(self.preorder(id)[i] == below[i - 1]);
            }
        }
    }

    /// All nodes of a subtree's forest lie below its top, each at or below one of the children.
    proof fn lemma_forest_is_under(self, id: NodeId, k: nat)
        requires
            self.wf(),
            self.has(id),
            k <= self.children(id).len(),
        ensures
            forall|i: int|
                0 <= i < self.forest(id, k).len() ==> {
                    let node = #[trigger] self.forest(id, k)[i];
                    &&& self.has(node)
                    &&& self.is_under(id, node)
                    &&& exists|j: int|
                        0 <= j < k && self.is_under(#[trigger] self.children(id)[j], node)
                },
        decreases self.nodes.len() - id.0, k,
    {
        if k > 0 {
            let child = self.children(id)[k - 1];
            assert(id.0 < child.0 && self.has(child));
            self.lemma_forest_is_under(id, (k - 1) as nat);
            self.lemma_preorder_is_under(child);
            let shorter = self.forest(id, (k - 1) as nat);
            assert forall|i: int| 0 <= i < self.forest(id, k).len() implies ({
                let node = #[trigger] self.forest(id, k)[i];
                &&& self.has(node)
                &&& self.is_under(id, node)
                &&& exists|j: int|
                    0 <= j < k && self.is_under(#[trigger] self.children(id)[j], node)
            }) by {
                let node = self.forest(id, k)[i];
                if i < shorter.len() {
                    assert(node == shorter[i]);
                } else {
                    assert(node == self.preorder(child)[i - shorter.len()]);
                    assert(self.is_under(child, node));
                    self.lemma_under_is_transitive(id, child, node);
                    assert(self.is_under(self.children(id)[k - 1], node));
                }
            }
        }
    }

    /// What lies below a node that lies below `top` lies below `top`.
    proof fn lemma_under_is_transitive(self, top: NodeId, middle: NodeId, id: NodeId)
        requires
            self.wf(),
            self.has(top),
            self.has(id),
            self.is_under(middle, id),
            self.parent(middle) == Some(top),
            top.0 < middle.0,
        ensures
            self.is_under(top, id),
        decreases id.0,
    {
        if id != middle {
            let parent = self.parent(id)->0;
            assert(self.has(id));
            self.lemma_under_is_transitive(top, middle, parent);
        } else {
            assert(self.is_under(top, top));
        }
    }

    /// Two children of one node have nothing below them in common.
    proof fn lemma_siblings_are_apart(self, top: NodeId, j: int, k: int, id: NodeId)
        requires
            self.wf(),
            self.has(top),
            self.has(id),
            0 <= j < self.children(top).len(),
            0 <= k < self.children(top).len(),
            j != k,
            self.is_under(self.children(top)[j], id),
        ensures
            !self.is_under(self.children(top)[k], id),
        decreases id.0,
    {
        let one = self.children(top)[j];
        let other = self.children(top)[k];
        assert(self.parent(one) == Some(top) && top.0 < one.0);
        assert(self.parent(other) == Some(top) && top.0 < other.0);
        assert(one != other);
        if id == one {
            self.lemma_under_is_later(other, top);
        } else if id == other {
            self.lemma_under_is_later(one, top);
        } else {
            let parent = self.parent(id)->0;
            assert(self.has(id));
            self.lemma_siblings_are_apart(top, j, k, parent);
        }
    }

    /// Nothing lies below a node that was inserted after it.
    pub(crate) proof fn lemma_under_is_later(self, scope: NodeId, id: NodeId)
        ensures
            self.is_under(scope, id) ==> scope.0 <= id.0,
        decreases id.0,
    {
        if id != scope {
            match self.parent(id) {
                Some(parent) if parent.0 < id.0 => {
                    self.lemma_under_is_later(scope, parent);
                },
                _ => {},
            }
        }
    }

    /// No node occurs twice in a depth-first order.
    pub proof fn lemma_preorder_has_no_duplicates(self, id: NodeId)
        requires
            self.wf(),
            self.has(id),
        ensures
            self.preorder(id).no_duplicates(),
        decreases self.nodes.len() - id.0, self.children(id).len() + 1,
    {
        let all = self.children(id).len();
        self.lemma_forest_has_no_duplicates(id, all);
        self.lemma_forest_is_under(id, all);
        assert forall|i: int| 0 <= i < self.forest(id, all).len() implies #[trigger] self.forest(
            id,
            all,
        )[i] != id by {
            let node = self.forest(id, all)[i];
            let j = choose|j: int|
                0 <= j < all && self.is_under(#[trigger] self.children(id)[j], node);
            self.lemma_under_is_later(self.children(id)[j], node);
        }
    }

    /// No node occurs twice among the subtrees below `id`.
    proof fn lemma_forest_has_no_duplicates(self, id: NodeId, k: nat)
        requires
            self.wf(),
            self.has(id),
            k <= self.children(id).len(),
        ensures
            self.forest(id, k).no_duplicates(),
        decreases self.nodes.len() - id.0, k,
    {
        if k > 0 {
            let child = self.children(id)[k - 1];
            assert(id.0 < child.0 && self.has(child));
            let shorter = self.forest(id, (k - 1) as nat);
            self.lemma_forest_has_no_duplicates(id, (k - 1) as nat);
            self.lemma_preorder_has_no_duplicates(child);
            self.lemma_forest_is_under(id, (k - 1) as nat);
            self.lemma_preorder_is_under(child);
            assert forall|a: int, b: int|
                0 <= a < shorter.len() && 0 <= b < self.preorder(child).len() implies shorter[a]
                != self.preorder(child)[b] by {
                let node = shorter[a];
                let j = choose|j: int|
                    0 <= j < k - 1 && self.is_under(#[trigger] self.children(id)[j], node);
                self.lemma_siblings_are_apart(id, j, k - 1, node);
            }
        }
    }

    /// Where `id` stands in the order around it, and what stands next to it.
    proof fn lemma_neighbours(self, id: NodeId)
        requires
            self.wf(),
            self.has(id),
        ensures
            self.next_in_order(id) == if self.children(id).len() > 0 {
                Some(self.children(id)[0])
            } else {
                self.following(id)
            },
            self.prev_in_order(id) == self.preceding(id),
    {
        self.lemma_place_in_order(id);
        let order = self.order_around(id);
        let (before, after) = self.lemma_subtree_in_order(id);
        assert(order[before.len() as int] == id);
        assert(order.index_of(id) == before.len());
        if self.children(id).len() > 0 {
            let rest = self.lemma_forest_split(id, 0, self.children(id).len());
            assert(order[before.len() as int + 1] == self.children(id)[0]);
        } else {
            assert(self.preorder(id) =~= seq![id]);
        }
    }

    /// Every node has one place in the order around it, whose nodes the tree holds.
    pub proof fn lemma_place_in_order(self, id: NodeId)
        requires
            self.wf(),
            self.has(id),
        ensures
            self.has(self.root_of(id)),
            self.order_around(id).no_duplicates(),
            0 <= self.order_around(id).index_of(id) < self.order_around(id).len(),
            self.order_around(id)[self.order_around(id).index_of(id)] == id,
            forall|i: int|
                0 <= i < self.order_around(id).len() ==> self.has(
                    #[trigger] self.order_around(id)[i],
                ),
    {
        let (before, after) = self.lemma_subtree_in_order(id);
        self.lemma_preorder_has_no_duplicates(self.root_of(id));
        self.lemma_preorder_is_under(self.root_of(id));
        assert(self.order_around(id)[before.len() as int] == id);
    }

    /// What the first `k` subtrees below `id` hold.
    proof fn lemma_forest_contains(self, id: NodeId, k: nat, node: NodeId)
        requires
            self.wf(),
            self.has(id),
            k <= self.children(id).len(),
        ensures
            self.forest(id, k).contains(node) <==> exists|j: int|
                0 <= j < k && self.preorder(#[trigger] self.children(id)[j]).contains(node),
        decreases k,
    {
        if k > 0 {
            let child = self.children(id)[k - 1];
            let shorter = self.forest(id, (k - 1) as nat);
            assert(id.0 < child.0 && self.has(child));
            self.lemma_forest_contains(id, (k - 1) as nat, node);
            assert(self.forest(id, k) == shorter + self.preorder(child));
            if self.forest(id, k).contains(node) {
                let i = self.forest(id, k).index_of(node);
                if i < shorter.len() {
                    assert(shorter[i] == node);
                } else {
                    assert(self.preorder(child)[i - shorter.len()] == node);
                    assert(self.preorder(self.children(id)[k - 1]).contains(node));
                }
            }
            if shorter.contains(node) {
                let i = shorter.index_of(node);
                assert(self.forest(id, k)[i] == node);
            }
            if self.preorder(child).contains(node) {
                let i = self.preorder(child).index_of(node);
                assert(self.forest(id, k)[shorter.len() + i] == node);
            }
        }
    }

    /// A depth-first order holds the children of its nodes.
    proof fn lemma_preorder_is_closed(self, id: NodeId, node: NodeId, k: int)
        requires
            self.wf(),
            self.has(id),
            self.preorder(id).contains(node),
            self.has(node),
            0 <= k < self.children(node).len(),
        ensures
            self.preorder(id).contains(self.children(node)[k]),
        decreases self.nodes.len() - id.0,
    {
        let all = self.children(id).len();
        let below = self.forest(id, all);
        let child = self.children(node)[k];
        if node == id {
            assert(self.preorder(child)[0] == child);
            assert(self.preorder(self.children(id)[k]).contains(child));
        } else {
            let i = self.preorder(id).index_of(node);
            assert(below[i - 1] == node);
            self.lemma_forest_contains(id, all, node);
            let j = choose|j: int|
                0 <= j < all && self.preorder(#[trigger] self.children(id)[j]).contains(node);
            assert(id.0 < self.children(id)[j].0 && self.has(self.children(id)[j]));
            self.lemma_preorder_is_closed(self.children(id)[j], node, k);
        }
        self.lemma_forest_contains(id, all, child);
        let i = below.index_of(child);
        assert(self.preorder(id)[i + 1] == child);
    }

    /// Everything below a node is in its depth-first order.
    proof fn lemma_preorder_is_complete(self, scope: NodeId, id: NodeId)
        requires
            self.wf(),
            self.has(scope),
            self.has(id),
            self.is_under(scope, id),
        ensures
            self.preorder(scope).contains(id),
        decreases id.0,
    {
        if id == scope {
            assert(self.preorder(scope)[0] == scope);
        } else {
            let parent = self.parent(id)->0;
            self.lemma_preorder_is_complete(scope, parent);
            let place = self.children(parent).index_of(id);
            assert(self.children(parent)[place] == id);
            self.lemma_preorder_is_closed(scope, parent, place);
        }
    }

    /// The depth-first order of a subtree starts at its top and holds exactly the nodes that
    /// lie at or below it, each of them once.
    pub proof fn law_preorder_is_the_subtree(self, scope: NodeId, id: NodeId)
        requires
            self.wf(),
            self.has(scope),
        ensures
            self.preorder(scope)[0] == scope,
            self.preorder(scope).no_duplicates(),
            self.preorder(scope).contains(id) <==> self.has(id) && self.is_under(scope, id),
    {
        self.lemma_preorder_has_no_duplicates(scope);
        self.lemma_preorder_is_under(scope);
        if self.has(id) && self.is_under(scope, id) {
            self.lemma_preorder_is_complete(scope, id);
        }
        if self.preorder(scope).contains(id) {
            let i = self.preorder(scope).index_of(id);
            assert(self.has(self.preorder(scope)[i]));
        }
    }

    /// A node below a root has that root.
    proof fn lemma_root_of_what_is_under(self, root: NodeId, id: NodeId)
        requires
            self.parent(root) is None,
            self.is_under(root, id),
        ensures
            self.root_of(id) == root,
        decreases id.0,
    {
        if id != root {
            self.lemma_root_of_what_is_under(root, self.parent(id)->0);
        }
    }

    /// The topmost ancestor is a root.
    proof fn lemma_root_of_is_a_root(self, id: NodeId)
        requires
            self.wf(),
            self.has(id),
        ensures
            self.parent(self.root_of(id)) is None,
        decreases id.0,
    {
        if let Some(parent) = self.parent(id) {
            self.lemma_root_of_is_a_root(parent);
        }
    }

    /// All nodes of the order around `id` have that order around them.
    pub proof fn lemma_same_order(self, id: NodeId, place: int)
        requires
            self.wf(),
            self.has(id),
            0 <= place < self.order_around(id).len(),
        ensures
            self.has(self.order_around(id)[place]),
            self.root_of(self.order_around(id)[place]) == self.root_of(id),
    {
        self.lemma_place_in_order(id);
        self.lemma_root_of_is_a_root(id);
        self.lemma_preorder_is_under(self.root_of(id));
        self.lemma_root_of_what_is_under(self.root_of(id), self.order_around(id)[place]);
    }

    /// One more node keeps a tree valid.
    proof fn lemma_with_child_is_wf(self, parent: Option<NodeId>, data: NodeData)
        requires
            self.wf(),
            self.nodes.len() <= usize::MAX,
            parent matches Some(above) ==> self.has(above),
        ensures
            self.with_child(parent, data).wf(),
    {
        let grown = self.with_child(parent, data);
        let new = NodeId(self.nodes.len() as usize);
        assert forall|id: NodeId| #[trigger] grown.has(id) implies match grown.parent(id) {
            Some(above) => above.0 < id.0 && grown.children(above).contains(id),
            None => true,
        } by {
            if id == new {
                if let Some(above) = parent {
                    assert(grown.children(above).last() == new);
                }
            } else {
                assert(self.has(id));
                if let Some(above) = self.parent(id) {
                    let place = self.children(above).index_of(id);
                    assert(self.children(above)[place] == id);
                    assert(grown.children(above)[place] == id);
                }
            }
        }
        assert forall|id: NodeId, k: int|
            grown.has(id) && 0 <= k < grown.children(id).len() implies ({
            let child = #[trigger] grown.children(id)[k];
            id.0 < child.0 && grown.has(child) && grown.parent(child) == Some(id)
        }) by {
            let child = grown.children(id)[k];
            if id != new && k < self.children(id).len() {
                assert(child == self.children(id)[k]);
                assert(self.has(id));
            }
        }
        assert forall|id: NodeId| #[trigger] grown.has(id) implies grown.children(
            id,
        ).no_duplicates() by {
            if id != new {
                assert(self.has(id));
                assert forall|k: int| 0 <= k < self.children(id).len() implies self.children(id)[k]
                    != new by {
                    assert(self.has(self.children(id)[k]));
                }
            }
        }
    }
}

/// One node of a [`Tree`].
#[derive(Debug)]
struct Node {
    parent: Option<NodeId>,
    children: Vec<NodeId>,
    data: NodeData,
}

impl View for Node {
    type V = NodeModel;

    closed spec fn view(&self) -> NodeModel {
        NodeModel { parent: self.parent, children: self.children@, data: self.data }
    }
}

/// A tree of boxes, or several of them side by side.
#[derive(Debug)]
pub struct Tree {
    nodes: Vec<Node>,
}

impl View for Tree {
    type V = TreeModel;

    closed spec fn view(&self) -> TreeModel {
        TreeModel { nodes: self.nodes@.map_values(|node: Node| node@) }
    }
}

impl Tree {
    #[verifier::type_invariant]
    closed spec fn is_valid(self) -> bool {
        self@.wf()
    }

    /// Creates an empty tree.
    #[must_use]
    pub fn new() -> (r: Self)
        ensures
            r@.nodes.len() == 0,
            r@.wf(),
    {
        Self { nodes: Vec::new() }
    }

    /// Inserts a node: a root, or the last child of a node of this tree.
    pub fn push_child(&mut self, parent: Option<NodeId>, data: NodeData) -> (r: NodeId)
        requires
            parent matches Some(above) ==> old(self)@.has(above),
        ensures
            final(self)@ == old(self)@.with_child(parent, data),
            final(self)@.wf(),
            r.0 == old(self)@.nodes.len(),
    {
        proof {
            use_type_invariant(&*self);
            assert(self@.nodes.len() == self.nodes.len());
            self@.lemma_with_child_is_wf(parent, data);
        }
        let ghost before = self@;
        let mut nodes: Vec<Node> = Vec::new();
        std::mem::swap(&mut nodes, &mut self.nodes);
        let id = NodeId(nodes.len());
        if let Some(above) = parent {
            nodes[above.0].children.push(id);
        }
        nodes.push(Node { parent, children: Vec::new(), data });
        proof {
            let grown = TreeModel { nodes: nodes@.map_values(|node: Node| node@) };
            assert(grown.nodes =~= before.with_child(parent, data).nodes);
        }
        self.nodes = nodes;
        id
    }

    /// Returns true if the tree holds this node.
    #[must_use]
    pub fn is_alive(&self, id: NodeId) -> (r: bool)
        ensures
            r == self@.has(id),
            self@.wf(),
    {
        proof {
            use_type_invariant(self);
        }
        id.0 < self.nodes.len()
    }

    /// Returns the flags of a node, unless it is stale.
    #[must_use]
    pub fn flags(&self, id: NodeId) -> (r: Option<NodeFlags>)
        ensures
            r == if self@.has(id) {
                Some(self@.data(id).flags)
            } else {
                None
            },
    {
        if self.is_alive(id) {
            Some(self.nodes[id.0].data.flags)
        } else {
            None
        }
    }

    /// Returns the stacking order of a node, unless it is stale.
    #[must_use]
    pub fn z_index(&self, id: NodeId) -> (r: Option<i32>)
        ensures
            r == if self@.has(id) {
                Some(self@.data(id).z_index)
            } else {
                None
            },
    {
        if self.is_alive(id) {
            Some(self.nodes[id.0].data.z_index)
        } else {
            None
        }
    }

    /// Returns the world-space bounds of a node, where it has any; a stale node has none.
    #[must_use]
    pub fn world_bounds(&self, id: NodeId) -> (r: Option<kurbo::Rect>)
        ensures
            r == if self@.has(id) {
                self@.data(id).world_bounds
            } else {
                None
            },
    {
        if self.is_alive(id) {
            self.nodes[id.0].data.world_bounds
        } else {
            None
        }
    }

    /// Returns the parent of a node; a root and a stale node have none.
    #[must_use]
    pub fn parent_of(&self, id: NodeId) -> (r: Option<NodeId>)
        ensures
            r == if self@.has(id) {
                self@.parent(id)
            } else {
                None
            },
    {
        if self.is_alive(id) {
            self.nodes[id.0].parent
        } else {
            None
        }
    }

    /// Returns the children of a node from left to right; a stale node has none.
    #[must_use]
    pub fn children_of(&self, id: NodeId) -> (r: &[NodeId])
        ensures
            r@ == if self@.has(id) {
                self@.children(id)
            } else {
                Seq::empty()
            },
    {
        if self.is_alive(id) {
            self.nodes[id.0].children.as_slice()
        } else {
            &[]
        }
    }

    /// Returns the next node in depth-first order. There is none after the last node of a tree,
    /// nor after a stale one.
    #[must_use]
    pub fn next_depth_first(&self, id: NodeId) -> (r: Option<NodeId>)
        ensures
            r == self@.next_in_order(id),
    {
        if !self.is_alive(id) {
            return None;
        }
        proof {
            self@.lemma_neighbours(id);
        }
        let children = self.children_of(id);
        if children.len() > 0 {
            return Some(children[0]);
        }
        let mut node = id;
        loop
            invariant
                self@.wf(),
                self@.has(node),
                self@.following(node) == self@.following(id),
                self@.next_in_order(id) == self@.following(id),
            decreases node.0,
        {
            let parent = match self.parent_of(node) {
                Some(parent) => parent,
                None => {
                    return None;
                },
            };
            let siblings = self.children_of(parent);
            let place: usize = place_of(siblings, node);
            if place < siblings.len() - 1 {
                return Some(siblings[place + 1]);
            }
            node = parent;
        }
    }

    /// Returns the previous node in depth-first order. There is none before a root, nor before a
    /// stale node.
    #[must_use]
    pub fn prev_depth_first(&self, id: NodeId) -> (r: Option<NodeId>)
        ensures
            r == self@.prev_in_order(id),
    {
        if !self.is_alive(id) {
            return None;
        }
        proof {
            self@.lemma_neighbours(id);
        }
        match self.parent_of(id) {
            None => None,
            Some(parent) => {
                let siblings = self.children_of(parent);
                let place: usize = place_of(siblings, id);
                if place > 0 {
                    Some(self.last_descendant_of(siblings[place - 1]))
                } else {
                    Some(parent)
                }
            },
        }
    }

    /// Returns the last node of the subtree at a node of this tree.
    pub(crate) fn last_descendant_of(&self, id: NodeId) -> (r: NodeId)
        requires
            self@.has(id),
        ensures
            r == self@.last_descendant(id),
            r == self@.preorder(id).last(),
    {
        proof {
            use_type_invariant(self);
            self@.lemma_preorder_ends(id);
        }
        let mut node = id;
        while self.children_of(node).len() > 0
            invariant
                self@.wf(),
                self@.has(node),
                self@.last_descendant(node) == self@.last_descendant(id),
            decreases self@.nodes.len() - node.0,
        {
            let children = self.children_of(node);
            node = children[children.len() - 1];
        }
        node
    }

    /// Returns the topmost ancestor of a node, unless it is stale.
    pub(crate) fn find_root_of(&self, id: NodeId) -> (r: Option<NodeId>)
        ensures
            r == if self@.has(id) {
                Some(self@.root_of(id))
            } else {
                None
            },
    {
        if !self.is_alive(id) {
            return None;
        }
        let mut node = id;
        loop
            invariant
                self@.wf(),
                self@.has(id),
                self@.has(node),
                self@.root_of(node) == self@.root_of(id),
            decreases node.0,
        {
            match self.parent_of(node) {
                Some(parent) => {
                    node = parent;
                },
                None => {
                    return Some(node);
                },
            }
        }
    }
}

impl Default for Tree {
    fn default() -> (r: Self)
        ensures
            r@.nodes.len() == 0,
            r@.wf(),
    {
        Self::new()
    }
}

/// The place of `id` in `list`, which holds it once.
fn place_of(list: &[NodeId], id: NodeId) -> (r: usize)
    requires
        list@.contains(id),
        list@.no_duplicates(),
    ensures
        r < list@.len(),
        r == list@.index_of(id),
{
    let mut place: usize = 0;
    while list[place] != id
        invariant
            list@.contains(id),
            place < list@.len(),
            forall|i: int| 0 <= i < place ==> list@[i] != id,
        decreases list@.len() - place,
    {
        place = place + 1;
    }
    place
}

impl TreeModel {
    /// The subtree at `id` stands in one piece in the order of every scope that it belongs to.
    proof fn lemma_subtree_in_scope(self, scope: NodeId, id: NodeId) -> (r: (
        Seq<NodeId>,
        Seq<NodeId>,
    ))
        requires
            self.wf(),
            self.has(scope),
            self.has(id),
            self.is_under(scope, id),
        ensures
            self.preorder(scope) == r.0 + self.preorder(id) + r.1,
        decreases id.0,
    {
        if id == scope {
            assert(self.preorder(scope) =~= Seq::empty() + self.preorder(id) + Seq::empty());
            (Seq::empty(), Seq::empty())
        } else {
            let parent = self.parent(id)->0;
            let (before, after) = self.lemma_subtree_in_scope(scope, parent);
            let siblings = self.children(parent);
            let place = siblings.index_of(id);
            assert(0 <= place < siblings.len() && siblings[place] == id);
            let rest = self.lemma_forest_split(parent, place as nat, siblings.len());
            let head = before + seq![parent] + self.forest(parent, place as nat);
            let tail = rest + after;
            assert(self.preorder(scope) =~= head + self.preorder(id) + tail);
            (head, tail)
        }
    }

    /// In a depth-first order a node comes before everything below it.
    pub proof fn law_parents_come_before_what_is_below(
        self,
        scope: NodeId,
        top: NodeId,
        id: NodeId,
    )
        requires
            self.wf(),
            self.has(scope),
            self.has(top),
            self.has(id),
            self.is_under(scope, top),
            self.is_under(top, id),
            top != id,
        ensures
            self.preorder(scope).index_of(top) < self.preorder(scope).index_of(id),
    {
        let order = self.preorder(scope);
        let (before, after) = self.lemma_subtree_in_scope(scope, top);
        self.lemma_preorder_has_no_duplicates(scope);
        self.lemma_preorder_is_complete(top, id);
        let inner = self.preorder(top).index_of(id);
        assert(self.preorder(top)[inner] == id && self.preorder(top)[0] == top);
        assert(order[before.len() as int] == top);
        assert(order[before.len() as int + inner] == id);
    }

    /// In a depth-first order the branches below a node come one after the other, from left to
    /// right: everything in one comes before everything in the next. With the law that a node comes
    /// before what is below it, and that the order holds each node of the subtree once, this leaves
    /// no choice.
    pub proof fn law_branches_come_from_left_to_right(
        self,
        scope: NodeId,
        top: NodeId,
        left: int,
        right: int,
        one: NodeId,
        other: NodeId,
    )
        requires
            self.wf(),
            self.has(scope),
            self.has(top),
            self.has(one),
            self.has(other),
            self.is_under(scope, top),
            0 <= left < right < self.children(top).len(),
            self.is_under(self.children(top)[left], one),
            self.is_under(self.children(top)[right], other),
        ensures
            self.preorder(scope).index_of(one) < self.preorder(scope).index_of(other),
    {
        let order = self.preorder(scope);
        let children = self.children(top);
        let (before, after) = self.lemma_subtree_in_scope(scope, top);
        self.lemma_preorder_has_no_duplicates(scope);
        assert(self.has(children[left]) && self.has(children[right]));
        self.lemma_preorder_is_complete(children[left], one);
        self.lemma_preorder_is_complete(children[right], other);
        assert(self.preorder(self.children(top)[left]).contains(one));
        self.lemma_forest_contains(top, right as nat, one);
        let rest = self.lemma_forest_split(top, right as nat, children.len());
        let earlier = self.forest(top, right as nat);
        let (i, j) = (earlier.index_of(one), self.preorder(children[right]).index_of(other));
        assert(earlier[i] == one && self.preorder(children[right])[j] == other);
        let all = self.forest(top, children.len());
        assert(all[i] == one);
        assert(all[earlier.len() as int + j] == other);
        assert(order[before.len() as int + 1 + i] == one);
        assert(order[before.len() as int + 1 + earlier.len() as int + j] == other);
    }

    /// The next and the previous node are neighbours in the depth-first order of the whole tree:
    /// one place on and one place back. The last node has no next and the root no previous, and
    /// each step undoes the other. The root of a tree has no parent, and the node lies below it.
    pub proof fn law_steps_go_to_the_neighbours(self, id: NodeId)
        requires
            self.wf(),
            self.has(id),
        ensures
            ({
                let root = self.root_of(id);
                let order = self.preorder(root);
                let place = order.index_of(id);
                &&& self.has(root)
                &&& self.parent(root) is None
                &&& self.is_under(root, id)
                &&& order[place] == id
                &&& place + 1 == order.len() <==> self.next_in_order(id) is None
                &&& place == 0 <==> self.prev_in_order(id) is None
                &&& self.next_in_order(id) matches Some(next) ==> {
                    &&& order.index_of(next) == place + 1
                    &&& self.has(next)
                    &&& self.prev_in_order(next) == Some(id)
                }
                &&& self.prev_in_order(id) matches Some(prev) ==> {
                    &&& order.index_of(prev) == place - 1
                    &&& self.has(prev)
                    &&& self.next_in_order(prev) == Some(id)
                }
            }),
    {
        let order = self.order_around(id);
        let place = order.index_of(id);
        self.lemma_place_in_order(id);
        self.lemma_root_of_is_a_root(id);
        self.lemma_same_order(id, place);
        self.lemma_preorder_is_under(self.root_of(id));
        assert(self.is_under(self.root_of(id), order[place]));
        if place + 1 < order.len() {
            self.lemma_same_order(id, place + 1);
            self.lemma_place_in_order(order[place + 1]);
            assert(order.index_of(order[place + 1]) == place + 1);
        }
        if place > 0 {
            self.lemma_same_order(id, place - 1);
            self.lemma_place_in_order(order[place - 1]);
            assert(order.index_of(order[place - 1]) == place - 1);
        }
    }

    /// Levels count the steps up to the scope: its root is at level 0, and a node is one level
    /// deeper than its parent.
    pub proof fn law_levels_count_the_steps(self, scope: NodeId, id: NodeId)
        requires
            self.wf(),
            self.has(id),
            self.is_under(scope, id),
        ensures
            self.levels_below(scope, scope) == 0,
            id == scope ==> self.levels_below(scope, id) == 0,
            id != scope ==> {
                &&& self.parent(id) matches Some(parent)
                &&& self.is_under(scope, parent)
                &&& self.levels_below(scope, id) == self.levels_below(scope, parent) + 1
            },
    {
    }

    /// A node belongs to the scopes of its ancestors: to its own, to those that its parent belongs
    /// to, and to no others.
    pub proof fn law_scopes_are_those_of_the_parent(self, scope: NodeId, id: NodeId)
        requires
            self.wf(),
            self.has(id),
        ensures
            self.is_under(id, id),
            id != scope && self.parent(id) is None ==> !self.is_under(scope, id),
            id != scope ==> (self.parent(id) matches Some(parent) ==> (self.is_under(scope, id)
                <==> self.is_under(scope, parent))),
    {
    }

    /// An inserted node is the last child of its parent, or a root. It has its own data and no
    /// children, and nothing else changes.
    pub proof fn law_inserted_nodes_are_last_children(
        self,
        parent: Option<NodeId>,
        data: NodeData,
        other: NodeId,
    )
        requires
            self.wf(),
            self.nodes.len() < usize::MAX,
            parent matches Some(above) ==> self.has(above),
            self.has(other),
        ensures
            ({
                let grown = self.with_child(parent, data);
                let new = NodeId(self.nodes.len() as usize);
                &&& !self.has(new)
                &&& grown.has(new)
                &&& grown.nodes.len() == self.nodes.len() + 1
                &&& grown.parent(new) == parent
                &&& grown.data(new) == data
                &&& grown.children(new).len() == 0
                &&& grown.parent(other) == self.parent(other)
                &&& grown.data(other) == self.data(other)
                &&& parent == Some(other) ==> {
                    &&& grown.children(other).len() == self.children(other).len() + 1
                    &&& grown.children(other).last() == new
                    &&& grown.children(other).drop_last() == self.children(other)
                }
                &&& parent != Some(other) ==> grown.children(other) == self.children(other)
            }),
    {
        let new = NodeId(self.nodes.len() as usize);
        assert(self.children(other).push(new).drop_last() =~= self.children(other));
    }
}

/// Flags are sets: the union of two holds exactly the flags that one of them holds, and one set
/// includes another when joining the other adds nothing to it.
pub proof fn law_flags_are_sets(a: NodeFlags, b: NodeFlags, bit: u8)
    requires
        bit == 1 || bit == 2 || bit == 4,
    ensures
        ({
            let both = vstd::std_specs::ops::BitOrSpec::bitor_spec(a, b);
            &&& both.0 & bit == bit <==> a.0 & bit == bit || b.0 & bit == bit
            &&& a.includes(b) <==> both == a
        }),
        a.includes(NodeFlags(bit)) <==> a.0 & bit == bit,
{
    let (x, y) = (a.0, b.0);
    assert(bit == 1 || bit == 2 || bit == 4 ==> ((x | y) & bit == bit <==> x & bit == bit || y & bit
        == bit)) by (bit_vector);
    assert(x & y == y <==> x | y == x) by (bit_vector);
}

} // verus!
