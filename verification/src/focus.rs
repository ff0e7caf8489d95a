//! Focus spaces built from a box tree.
//!
//! This module turns tree structure and world-space bounds into [`FocusEntry`] values suitable for
//! focus policies. It treats the subtree at a given node as a focus scope and collects candidates
//! in depth-first order.

use crate::time;
use crate::tree::{NodeFlags, NodeId, Tree, TreeModel, FOCUSABLE_BIT, VISIBLE_BIT};
use vstd::prelude::*;

verus! {

/// Focus properties of one node.
#[derive(Clone, Copy, Debug, PartialEq, Eq, Structural)]
pub struct FocusProps {
    /// The node may take the focus.
    pub enabled: bool,
    /// The node should take the focus when its scope is entered.
    pub autofocus: bool,
    /// Explicit place in linear traversal.
    pub order: Option<i32>,
    /// Group for policies that keep nodes together.
    pub group: Option<u64>,
}

impl FocusProps {
    /// The properties of a node that the host says nothing about.
    pub open spec fn plain() -> Self {
        FocusProps { enabled: true, autofocus: false, order: None, group: None }
    }
}

impl Default for FocusProps {
    fn default() -> (r: Self)
        ensures
            r == FocusProps::plain(),
    {
        Self { enabled: true, autofocus: false, order: None, group: None }
    }
}

/// A node that can take the focus.
#[derive(Debug, PartialEq)]
pub struct FocusEntry<K> {
    /// The node.
    pub id: K,
    /// Its bounds in world space.
    pub rect: kurbo::Rect,
    /// Explicit place in linear traversal.
    pub order: Option<i32>,
    /// Group for policies that keep nodes together.
    pub group: Option<u64>,
    /// The node may take the focus.
    pub enabled: bool,
    /// Levels below the root of the scope, which has depth 0.
    pub scope_depth: u8,
}

impl<K: Clone> Clone for FocusEntry<K> {
    fn clone(&self) -> (r: Self)
        ensures
            cloned(self.id, r.id),
            r == (FocusEntry { id: r.id, ..*self }),
    {
        FocusEntry {
            id: self.id.clone(),
            rect: self.rect,
            order: self.order,
            group: self.group,
            enabled: self.enabled,
            scope_depth: self.scope_depth,
        }
    }
}

impl<K: Copy> Copy for FocusEntry<K> {

}

/// The nodes of a focus scope that can take the focus.
#[derive(Clone, Copy, Debug, PartialEq)]
pub struct FocusSpace<'a, K> {
    /// The candidates in depth-first order.
    pub nodes: &'a [FocusEntry<K>],
    /// The candidate that should take the focus when the scope is entered.
    pub autofocus: Option<K>,
}

/// Lookup for per-node [`FocusProps`].
///
/// Hosts can implement this trait over a `HashMap`, ECS storage, or any other mapping from node
/// identifiers to focus properties, and should fall back to [`FocusProps::default`] when a node
/// has no entry.
pub trait FocusPropsLookup<K> {
    /// Return focus properties for the given node identifier.
    fn props(&self, id: &K) -> FocusProps;
}

impl<K> FocusPropsLookup<K> for () where K: Copy {
    fn props(&self, _id: &K) -> (r: FocusProps)
        ensures
            r == FocusProps::plain(),
    {
        FocusProps::default()
    }
}

/// `answers` are answers that `lookup` may give for `nodes`.
pub open spec fn may_answer<P: FocusPropsLookup<NodeId>>(
    lookup: &P,
    nodes: Seq<NodeId>,
    answers: Seq<FocusProps>,
) -> bool {
    &&& answers.len() == nodes.len()
    &&& forall|i: int|
        0 <= i < nodes.len() ==> call_ensures(P::props, (lookup, &nodes[i]), #[trigger] answers[i])
}

impl TreeModel {
    /// The nodes that have bounds, in their order.
    pub open spec fn with_bounds(self, nodes: Seq<NodeId>) -> Seq<NodeId>
        decreases nodes.len(),
    {
        if nodes.len() == 0 {
            Seq::empty()
        } else {
            let earlier = self.with_bounds(nodes.drop_last());
            if self.data(nodes.last()).world_bounds is Some {
                earlier.push(nodes.last())
            } else {
                earlier
            }
        }
    }

    /// The nodes of a scope that are asked about: those that have bounds, in depth-first order.
    pub open spec fn scope_nodes(self, scope: NodeId) -> Seq<NodeId> {
        self.with_bounds(self.preorder(scope))
    }

    /// The entry for a node of the scope, given its properties: only nodes that are focusable,
    /// visible and enabled, and that have bounds, have one.
    pub open spec fn focus_entry(self, scope: NodeId, id: NodeId, props: FocusProps) -> Option<
        FocusEntry<NodeId>,
    > {
        let flags = self.data(id).flags;
        if flags.includes(NodeFlags(FOCUSABLE_BIT)) && flags.includes(NodeFlags(VISIBLE_BIT))
            && props.enabled && self.data(id).world_bounds is Some {
            Some(
                FocusEntry {
                    id,
                    rect: self.data(id).world_bounds->0,
                    order: props.order,
                    group: props.group,
                    enabled: true,
                    scope_depth: self.scope_depth(scope, id),
                },
            )
        } else {
            None
        }
    }

    /// The depth of a node below its scope, as far as it can be counted.
    pub open spec fn scope_depth(self, scope: NodeId, id: NodeId) -> u8 {
        time::smaller(self.levels_below(scope, id) as int, u8::MAX as int) as u8
    }

    /// The entries for `nodes`, in their order, given the properties of each.
    pub open spec fn focus_entries(
        self,
        scope: NodeId,
        nodes: Seq<NodeId>,
        props: Seq<FocusProps>,
    ) -> Seq<FocusEntry<NodeId>>
        decreases nodes.len(),
    {
        if nodes.len() == 0 {
            Seq::empty()
        } else {
            let earlier = self.focus_entries(scope, nodes.drop_last(), props.drop_last());
            match self.focus_entry(scope, nodes.last(), props.last()) {
                Some(entry) => earlier.push(entry),
                None => earlier,
            }
        }
    }

    /// The first of `nodes` that has an entry and asks for the focus.
    pub open spec fn autofocus(
        self,
        scope: NodeId,
        nodes: Seq<NodeId>,
        props: Seq<FocusProps>,
    ) -> Option<NodeId>
        decreases nodes.len(),
    {
        if nodes.len() == 0 {
            None
        } else {
            match self.autofocus(scope, nodes.drop_last(), props.drop_last()) {
                Some(earlier) => Some(earlier),
                None => if props.last().autofocus && self.focus_entry(
                    scope,
                    nodes.last(),
                    props.last(),
                ) is Some {
                    Some(nodes.last())
                } else {
                    None
                },
            }
        }
    }
}

/// Returns the focus entry of a node of `tree` at `depth` below its scope, given its properties.
///
/// Only nodes that are focusable, visible and enabled, and that have bounds, have one.
#[must_use]
pub fn focus_entry(tree: &Tree, id: NodeId, depth: u8, props: FocusProps) -> (r: Option<
    FocusEntry<NodeId>,
>)
    ensures
        r == if tree@.has(id) && tree@.data(id).flags.includes(NodeFlags(FOCUSABLE_BIT))
            && tree@.data(id).flags.includes(NodeFlags(VISIBLE_BIT)) && props.enabled
            && tree@.data(id).world_bounds is Some {
            Some(
                FocusEntry {
                    id,
                    rect: tree@.data(id).world_bounds->0,
                    order: props.order,
                    group: props.group,
                    enabled: true,
                    scope_depth: depth,
                },
            )
        } else {
            None
        },
{
    match (tree.flags(id), tree.world_bounds(id)) {
        (Some(flags), Some(rect)) => {
            let focusable = flags.contains(NodeFlags::focusable());
            let visible = flags.contains(NodeFlags::visible());
            if focusable && visible && props.enabled {
                Some(
                    FocusEntry {
                        id,
                        rect,
                        order: props.order,
                        group: props.group,
                        enabled: props.enabled,
                        scope_depth: depth,
                    },
                )
            } else {
                None
            }
        },
        _ => None,
    }
}

/// The depth-first orders of the subtrees that wait on a stack, from its top down.
spec fn waiting(model: TreeModel, stack: Seq<(NodeId, u8)>) -> Seq<NodeId>
    decreases stack.len(),
{
    if stack.len() == 0 {
        Seq::empty()
    } else {
        model.preorder(stack.last().0) + waiting(model, stack.drop_last())
    }
}

/// A node on the stack belongs to the scope and carries its depth.
spec fn is_stacked(model: TreeModel, scope: NodeId, item: (NodeId, u8)) -> bool {
    &&& model.has(item.0)
    &&& model.is_under(scope, item.0)
    &&& item.1 == model.scope_depth(scope, item.0)
}

/// Puts the children of `id` on the stack so that the leftmost comes off first.
fn push_children(tree: &Tree, Ghost(scope): Ghost<NodeId>, id: NodeId, depth: u8, stack: &mut Vec<
    (NodeId, u8),
>)
    requires
        tree@.wf(),
        is_stacked(tree@, scope, (id, depth)),
        forall|i: int|
            0 <= i < old(stack)@.len() ==> is_stacked(tree@, scope, #[trigger] old(stack)@[i]),
    ensures
        forall|i: int|
            0 <= i < final(stack)@.len() ==> is_stacked(tree@, scope, #[trigger] final(stack)@[i]),
        seq![id] + waiting(tree@, final(stack)@) == tree@.preorder(id) + waiting(
            tree@,
            old(stack)@,
        ),
{
    let ghost model = tree@;
    let ghost rest = waiting(model, stack@);
    let children = tree.children_of(id);
    let next_depth: u8 = depth.saturating_add(1);
    let mut k: usize = children.len();
    assert(model.forest(id, k as nat) + rest =~= model.forest(id, children@.len()) + rest);
    while k > 0
        invariant
            model == tree@,
            model.wf(),
            model.has(id),
            children@ == model.children(id),
            k <= children@.len(),
            is_stacked(model, scope, (id, depth)),
            next_depth == if depth == u8::MAX {
                depth as int
            } else {
                depth + 1
            },
            forall|i: int| 0 <= i < stack@.len() ==> is_stacked(model, scope, #[trigger] stack@[i]),
            model.forest(id, k as nat) + waiting(model, stack@) == model.forest(
                id,
                children@.len(),
            ) + rest,
        decreases k,
    {
        let ghost before = stack@;
        k = k - 1;
        let child = children[k];
        stack.push((child, next_depth));
        proof {
            assert(child == model.children(id)[k as int]);
            model.lemma_under_is_later(scope, id);
            assert(stack@.drop_last() =~= before);
            assert(model.forest(id, k as nat) + (model.preorder(child) + waiting(model, before))
                =~= (model.forest(id, k as nat) + model.preorder(child)) + waiting(model, before));
        }
    }
    proof {
        assert(waiting(model, stack@) =~= model.forest(id, 0) + waiting(model, stack@));
        assert(seq![id] + (model.forest(id, children@.len()) + rest) =~= model.preorder(id) + rest);
    }
}

/// Build a [`FocusSpace`] for a subtree rooted at `scope_root`.
///
/// - Traverses the box tree in depth-first order starting at `scope_root`.
/// - Includes only nodes that are:
///   - Live in the tree.
///   - Marked focusable via [`NodeFlags::focusable`].
///   - Marked visible via [`NodeFlags::visible`] (to avoid focusing hidden nodes).
///   - Enabled according to [`FocusProps::enabled`].
///   - Given bounds; the lookup is asked about no others.
/// - Uses [`Tree::world_bounds`] to populate `rect` and computes `scope_depth` relative to
///   `scope_root` (root has depth 0).
///
/// The `out` buffer is cleared and reused to store [`FocusEntry`] values; the returned
/// [`FocusSpace`] borrows from this buffer, so `out` must outlive the focus space.
pub fn build_focus_space_for_scope<'a, P: FocusPropsLookup<NodeId>>(
    tree: &Tree,
    scope_root: NodeId,
    props_lookup: &P,
    out: &'a mut Vec<FocusEntry<NodeId>>,
) -> (r: FocusSpace<'a, NodeId>)
    ensures
        !tree@.has(scope_root) ==> r.nodes@.len() == 0 && r.autofocus is None,
        tree@.has(scope_root) ==> exists|answers: Seq<FocusProps>|
            {
                &&& #[trigger] may_answer(props_lookup, tree@.scope_nodes(scope_root), answers)
                &&& r.nodes@ == tree@.focus_entries(
                    scope_root,
                    tree@.scope_nodes(scope_root),
                    answers,
                )
                &&& r.autofocus == tree@.autofocus(
                    scope_root,
                    tree@.scope_nodes(scope_root),
                    answers,
                )
            },
        final(out)@ == r.nodes@,
{
    out.clear();
    let mut autofocus: Option<NodeId> = None;

    if !tree.is_alive(scope_root) {
        return FocusSpace { nodes: out.as_slice(), autofocus: None };
    }
    let ghost model = tree@;
    let ghost order = model.preorder(scope_root);
    let ghost mut done: int = 0;
    let ghost mut asked: Seq<NodeId> = Seq::empty();
    let ghost mut answers: Seq<FocusProps> = Seq::empty();

    // Depth-first traversal with an explicit stack to stay within the subtree rooted at
    // `scope_root`. Track depth relative to the scope root.
    let mut stack: Vec<(NodeId, u8)> = Vec::new();
    stack.push((scope_root, 0));
    proof {
        assert(waiting(model, stack@.drop_last()) =~= Seq::empty());
        assert(order.take(0) + waiting(model, stack@) =~= order);
    }
    while stack.len() > 0
        invariant
            model == tree@,
            model.wf(),
            order == model.preorder(scope_root),
            0 <= done <= order.len(),
            order.take(done) + waiting(model, stack@) == order,
            forall|i: int|
                0 <= i < stack@.len() ==> is_stacked(model, scope_root, #[trigger] stack@[i]),
            asked == model.with_bounds(order.take(done)),
            may_answer(props_lookup, asked, answers),
            out@ == model.focus_entries(scope_root, asked, answers),
            autofocus == model.autofocus(scope_root, asked, answers),
        decreases order.len() - done,
    {
        let ghost before = stack@;
        let (id, depth) = stack.pop().unwrap();
        if tree.world_bounds(id).is_some() {
            let props = props_lookup.props(&id);
            if let Some(entry) = focus_entry(tree, id, depth, props) {
                if props.autofocus && autofocus.is_none() {
                    autofocus = Some(id);
                }
                out.push(entry);
            }
            proof {
                assert(asked.push(id).drop_last() =~= asked);
                assert(answers.push(props).drop_last() =~= answers);
                asked = asked.push(id);
                answers = answers.push(props);
            }
        }
        push_children(tree, Ghost(scope_root), id, depth, &mut stack);
        proof {
            assert(before.last() == (id, depth));
            let rest = waiting(model, stack@);
            assert(order =~= order.take(done) + (seq![id] + rest));
            assert(order.take(done + 1) =~= order.take(done).push(id));
            assert(order.take(done + 1).drop_last() =~= order.take(done));
            done = done + 1;
            assert(order.take(done) + rest =~= order);
        }
    }
    proof {
        assert(order.take(done) =~= order);
        assert(may_answer(props_lookup, model.scope_nodes(scope_root), answers));
    }
    FocusSpace { nodes: out.as_slice(), autofocus }
}

/// The nodes of a scope that the lookup is asked about are those at or below its root that have
/// bounds.
pub proof fn law_scope_nodes_have_bounds(model: TreeModel, scope: NodeId, id: NodeId)
    requires
        model.wf(),
        model.has(scope),
    ensures
        model.scope_nodes(scope).contains(id) <==> {
            &&& model.has(id)
            &&& model.is_under(scope, id)
            &&& model.data(id).world_bounds is Some
        },
{
    model.law_preorder_is_the_subtree(scope, id);
    lemma_with_bounds_contains(model, model.preorder(scope), id);
}

/// What is kept of some nodes when those without bounds are left out.
proof fn lemma_with_bounds_contains(model: TreeModel, nodes: Seq<NodeId>, id: NodeId)
    ensures
        model.with_bounds(nodes).contains(id) <==> nodes.contains(id) && model.data(
            id,
        ).world_bounds is Some,
    decreases nodes.len(),
{
    if nodes.len() > 0 {
        let (fewer, last) = (nodes.drop_last(), nodes.last());
        let (earlier, all) = (model.with_bounds(fewer), model.with_bounds(nodes));
        lemma_with_bounds_contains(model, fewer, id);
        if nodes.contains(id) {
            let i = nodes.index_of(id);
            assert(i < fewer.len() ==> fewer[i] == id);
        }
        if fewer.contains(id) {
            assert(nodes[fewer.index_of(id)] == id);
        }
        if earlier.contains(id) {
            assert(all[earlier.index_of(id)] == id);
        }
        if all.contains(id) {
            let i = all.index_of(id);
            assert(i < earlier.len() ==> earlier[i] == id);
        }
        assert(nodes[nodes.len() - 1] == last);
        if model.data(last).world_bounds is Some {
            assert(all.last() == last);
        }
    }
}

/// A focus space holds the candidates of its scope and nothing else. Every entry is that of a
/// node of the scope, and every node that has an entry is there.
pub proof fn law_focus_entries_are_the_candidates(
    model: TreeModel,
    scope: NodeId,
    nodes: Seq<NodeId>,
    props: Seq<FocusProps>,
    entry: FocusEntry<NodeId>,
)
    requires
        nodes.len() == props.len(),
    ensures
        model.focus_entries(scope, nodes, props).contains(entry) <==> exists|i: int|
            0 <= i < nodes.len() && model.focus_entry(scope, #[trigger] nodes[i], props[i]) == Some(
                entry,
            ),
    decreases nodes.len(),
{
    if nodes.len() > 0 {
        let (fewer, answers) = (nodes.drop_last(), props.drop_last());
        let earlier = model.focus_entries(scope, fewer, answers);
        let entries = model.focus_entries(scope, nodes, props);
        law_focus_entries_are_the_candidates(model, scope, fewer, answers, entry);
        if entries.contains(entry) {
            let k = entries.index_of(entry);
            if k < earlier.len() {
                assert(earlier[k] == entry);
                let i = choose|i: int|
                    0 <= i < fewer.len() && model.focus_entry(
                        scope,
                        #[trigger] fewer[i],
                        answers[i],
                    ) == Some(entry);
                assert(model.focus_entry(scope, nodes[i], props[i]) == Some(entry));
            } else {
                assert(model.focus_entry(scope, nodes[nodes.len() - 1], props[nodes.len() - 1])
                    == Some(entry));
            }
        }
        if exists|i: int|
            0 <= i < nodes.len() && model.focus_entry(scope, #[trigger] nodes[i], props[i]) == Some(
                entry,
            ) {
            let i = choose|i: int|
                0 <= i < nodes.len() && model.focus_entry(scope, #[trigger] nodes[i], props[i])
                    == Some(entry);
            if i < nodes.len() - 1 {
                assert(model.focus_entry(scope, fewer[i], answers[i]) == Some(entry));
                let k = earlier.index_of(entry);
                assert(entries[k] == entry);
            } else {
                assert(entries.last() == entry);
            }
        }
    }
}

/// The autofocus node is the first candidate that asks for the focus, and there is none only
/// if no candidate asks.
pub proof fn law_autofocus_is_the_first_candidate_that_asks(
    model: TreeModel,
    scope: NodeId,
    nodes: Seq<NodeId>,
    props: Seq<FocusProps>,
)
    requires
        nodes.len() == props.len(),
    ensures
        match model.autofocus(scope, nodes, props) {
            Some(id) => exists|i: int|
                {
                    &&& 0 <= i < nodes.len()
                    &&& #[trigger] nodes[i] == id
                    &&& props[i].autofocus
                    &&& model.focus_entry(scope, nodes[i], props[i]) is Some
                    &&& forall|j: int|
                        0 <= j < i ==> !(#[trigger] props[j]).autofocus || model.focus_entry(
                            scope,
                            nodes[j],
                            props[j],
                        ) is None
                },
            None => forall|j: int|
                0 <= j < nodes.len() ==> !(#[trigger] props[j]).autofocus || model.focus_entry(
                    scope,
                    nodes[j],
                    props[j],
                ) is None,
        },
    decreases nodes.len(),
{
    if nodes.len() > 0 {
        let (fewer, answers) = (nodes.drop_last(), props.drop_last());
        let last = nodes.len() - 1;
        law_autofocus_is_the_first_candidate_that_asks(model, scope, fewer, answers);
        assert(forall|j: int| 0 <= j < last ==> fewer[j] == nodes[j] && answers[j] == props[j]);
        match model.autofocus(scope, fewer, answers) {
            Some(id) => {
                let i = choose|i: int|
                    {
                        &&& 0 <= i < fewer.len()
                        &&& #[trigger] fewer[i] == id
                        &&& answers[i].autofocus
                        &&& model.focus_entry(scope, fewer[i], answers[i]) is Some
                        &&& forall|j: int|
                            0 <= j < i ==> !(#[trigger] answers[j]).autofocus || model.focus_entry(
                                scope,
                                fewer[j],
                                answers[j],
                            ) is None
                    };
                assert(nodes[i] == id);
            },
            None => {
                assert forall|j: int|
                    0 <= j < last implies !(#[trigger] props[j]).autofocus || model.focus_entry(
                    scope,
                    nodes[j],
                    props[j],
                ) is None by {
                    assert(!answers[j].autofocus || model.focus_entry(
                        scope,
                        fewer[j],
                        answers[j],
                    ) is None);
                }
                assert(nodes[last] == nodes.last());
            },
        }
    }
}

/// The lookup that knows nothing gives every node plain properties, so that every focusable
/// and visible node is a candidate and none asks for the focus.
pub proof fn law_unit_lookup_is_plain(nodes: Seq<NodeId>, answers: Seq<FocusProps>)
    requires
        may_answer(&(), nodes, answers),
    ensures
        answers == Seq::new(nodes.len(), |i: int| FocusProps::plain()),
{
    assert forall|i: int| 0 <= i < nodes.len() implies answers[i] == FocusProps::plain() by {
        assert(call_ensures(<() as FocusPropsLookup<NodeId>>::props, (&(), &nodes[i]), answers[i]));
    }
    assert(answers =~= Seq::new(nodes.len(), |i: int| FocusProps::plain()));
}

/// An entry says of a node what its lookup and its tree say. A node has one exactly if it is marked
/// visible and focusable, has bounds and is enabled. It carries the order and the group that the
/// lookup gave, the node's own bounds, and its levels below the scope's root, as far as they can be
/// counted.
pub proof fn law_entries_carry_the_given_properties(
    model: TreeModel,
    scope: NodeId,
    id: NodeId,
    props: FocusProps,
)
    ensures
        model.focus_entry(scope, id, props) is Some <==> {
            &&& model.data(id).flags.0 & 1 == 1
            &&& model.data(id).flags.0 & 4 == 4
            &&& model.data(id).world_bounds is Some
            &&& props.enabled
        },
        model.focus_entry(scope, id, props) matches Some(entry) ==> {
            &&& entry.id == id
            &&& model.data(id).world_bounds == Some(entry.rect)
            &&& entry.order == props.order
            &&& entry.group == props.group
            &&& entry.enabled
            &&& model.levels_below(scope, id) <= 255 ==> entry.scope_depth == model.levels_below(
                scope,
                id,
            )
            &&& model.levels_below(scope, id) > 255 ==> entry.scope_depth == 255
        },
{
}

/// Every entry of a space is that of one of its nodes, with exactly the properties that were given
/// for that node, and every node that is visible, focusable and enabled and has bounds has its
/// entry there.
pub proof fn law_spaces_carry_the_given_properties(
    model: TreeModel,
    scope: NodeId,
    nodes: Seq<NodeId>,
    props: Seq<FocusProps>,
)
    requires
        nodes.len() == props.len(),
    ensures
        forall|k: int|
            #![trigger model.focus_entries(scope, nodes, props)[k]]
            0 <= k < model.focus_entries(scope, nodes, props).len() ==> exists|i: int|
                {
                    let entry = model.focus_entries(scope, nodes, props)[k];
                    &&& 0 <= i < nodes.len()
                    &&& entry.id == #[trigger] nodes[i]
                    &&& model.data(nodes[i]).world_bounds == Some(entry.rect)
                    &&& model.data(nodes[i]).flags.0 & 1 == 1
                    &&& model.data(nodes[i]).flags.0 & 4 == 4
                    &&& entry.order == props[i].order
                    &&& entry.group == props[i].group
                    &&& props[i].enabled
                    &&& entry.enabled
                    &&& model.levels_below(scope, nodes[i]) <= 255 ==> entry.scope_depth
                        == model.levels_below(scope, nodes[i])
                    &&& model.levels_below(scope, nodes[i]) > 255 ==> entry.scope_depth == 255
                },
        forall|i: int|
            #![trigger nodes[i]]
            0 <= i < nodes.len() && model.data(nodes[i]).flags.0 & 1 == 1 && model.data(
                nodes[i],
            ).flags.0 & 4 == 4 && model.data(nodes[i]).world_bounds is Some && props[i].enabled
                ==> exists|k: int|
                0 <= k < model.focus_entries(scope, nodes, props).len() && (
                #[trigger] model.focus_entries(scope, nodes, props)[k]).id == nodes[i],
{
    let entries = model.focus_entries(scope, nodes, props);
    assert forall|k: int| #![trigger entries[k]] 0 <= k < entries.len() implies exists|i: int|
        {
            let entry = entries[k];
            &&& 0 <= i < nodes.len()
            &&& entry.id == #[trigger] nodes[i]
            &&& model.data(nodes[i]).world_bounds == Some(entry.rect)
            &&& model.data(nodes[i]).flags.0 & 1 == 1
            &&& model.data(nodes[i]).flags.0 & 4 == 4
            &&& entry.order == props[i].order
            &&& entry.group == props[i].group
            &&& props[i].enabled
            &&& entry.enabled
            &&& model.levels_below(scope, nodes[i]) <= 255 ==> entry.scope_depth
                == model.levels_below(scope, nodes[i])
            &&& model.levels_below(scope, nodes[i]) > 255 ==> entry.scope_depth == 255
        } by {
        let entry = entries[k];
        law_focus_entries_are_the_candidates(model, scope, nodes, props, entry);
        assert(entries.contains(entry));
        let i = choose|i: int|
            0 <= i < nodes.len() && model.focus_entry(scope, #[trigger] nodes[i], props[i]) == Some(
                entry,
            );
        law_entries_carry_the_given_properties(model, scope, nodes[i], props[i]);
        assert(entry.id == nodes[i]);
    }
    assert forall|i: int|
        #![trigger nodes[i]]
        0 <= i < nodes.len() && model.data(nodes[i]).flags.0 & 1 == 1 && model.data(
            nodes[i],
        ).flags.0 & 4 == 4 && model.data(nodes[i]).world_bounds is Some
            && props[i].enabled implies exists|k: int|
        0 <= k < entries.len() && (#[trigger] entries[k]).id == nodes[i] by {
        law_entries_carry_the_given_properties(model, scope, nodes[i], props[i]);
        let entry = model.focus_entry(scope, nodes[i], props[i])->0;
        law_focus_entries_are_the_candidates(model, scope, nodes, props, entry);
        assert(model.focus_entry(scope, nodes[i], props[i]) == Some(entry));
        let k = entries.index_of(entry);
        assert(entries[k].id == nodes[i]);
    }
}

/// A space keeps the order of its nodes: an entry that comes before another is that of a node that
/// comes before the other's. The nodes that are asked about keep the depth-first order of the
/// scope in the same way.
pub proof fn law_spaces_keep_the_order(
    model: TreeModel,
    scope: NodeId,
    nodes: Seq<NodeId>,
    props: Seq<FocusProps>,
    one: int,
    other: int,
)
    requires
        nodes.len() == props.len(),
        nodes.no_duplicates(),
    ensures
        0 <= one < other < model.focus_entries(scope, nodes, props).len() ==> nodes.index_of(
            model.focus_entries(scope, nodes, props)[one].id,
        ) < nodes.index_of(model.focus_entries(scope, nodes, props)[other].id),
        0 <= one < other < model.with_bounds(nodes).len() ==> nodes.index_of(
            model.with_bounds(nodes)[one],
        ) < nodes.index_of(model.with_bounds(nodes)[other]),
{
    lemma_entries_places(model, scope, nodes, props);
    lemma_with_bounds_places(model, nodes);
    let (entries, kept) = (model.focus_entries(scope, nodes, props), model.with_bounds(nodes));
    if 0 <= one < other < entries.len() {
        let (i, j) = choose|i: int, j: int|
            0 <= i < j < nodes.len() && #[trigger] nodes[i] == entries[one].id
                && #[trigger] nodes[j] == entries[other].id;
        assert(nodes[i] == entries[one].id && nodes[j] == entries[other].id);
    }
    if 0 <= one < other < kept.len() {
        let (i, j) = choose|i: int, j: int|
            0 <= i < j < nodes.len() && #[trigger] nodes[i] == kept[one] && #[trigger] nodes[j]
                == kept[other];
        assert(nodes[i] == kept[one] && nodes[j] == kept[other]);
    }
}

/// Where the nodes of entries stand.
proof fn lemma_entries_places(
    model: TreeModel,
    scope: NodeId,
    nodes: Seq<NodeId>,
    props: Seq<FocusProps>,
)
    requires
        nodes.len() == props.len(),
    ensures
        forall|a: int|
            #![trigger model.focus_entries(scope, nodes, props)[a]]
            0 <= a < model.focus_entries(scope, nodes, props).len() ==> exists|i: int|
                0 <= i < nodes.len() && #[trigger] nodes[i] == model.focus_entries(
                    scope,
                    nodes,
                    props,
                )[a].id,
        forall|a: int, b: int|
            #![trigger model.focus_entries(scope, nodes, props)[a],
                model.focus_entries(scope, nodes, props)[b]]
            0 <= a < b < model.focus_entries(scope, nodes, props).len() ==> exists|i: int, j: int|
                0 <= i < j < nodes.len() && #[trigger] nodes[i] == model.focus_entries(
                    scope,
                    nodes,
                    props,
                )[a].id && #[trigger] nodes[j] == model.focus_entries(scope, nodes, props)[b].id,
    decreases nodes.len(),
{
    let entries = model.focus_entries(scope, nodes, props);
    if nodes.len() > 0 {
        let (fewer, answers) = (nodes.drop_last(), props.drop_last());
        let last = nodes.len() - 1;
        let earlier = model.focus_entries(scope, fewer, answers);
        lemma_entries_places(model, scope, fewer, answers);
        assert forall|a: int| #![trigger entries[a]] 0 <= a < entries.len() implies exists|i: int|
            0 <= i < nodes.len() && #[trigger] nodes[i] == entries[a].id by {
            if a < earlier.len() {
                assert(entries[a] == earlier[a]);
                let i = choose|i: int|
                    0 <= i < fewer.len() && #[trigger] fewer[i] == earlier[a].id;
                assert(nodes[i] == entries[a].id);
            } else {
                assert(nodes[last] == entries[a].id);
            }
        }
        assert forall|a: int, b: int|
            #![trigger entries[a], entries[b]]
            0 <= a < b < entries.len() implies exists|i: int, j: int|
            0 <= i < j < nodes.len() && #[trigger] nodes[i] == entries[a].id && #[trigger] nodes[j]
                == entries[b].id by {
            assert(entries[a] == earlier[a]);
            if b < earlier.len() {
                assert(entries[b] == earlier[b]);
                let (i, j) = choose|i: int, j: int|
                    0 <= i < j < fewer.len() && #[trigger] fewer[i] == earlier[a].id
                        && #[trigger] fewer[j] == earlier[b].id;
                assert(nodes[i] == entries[a].id && nodes[j] == entries[b].id);
            } else {
                let i = choose|i: int|
                    0 <= i < fewer.len() && #[trigger] fewer[i] == earlier[a].id;
                assert(nodes[i] == entries[a].id && nodes[last] == entries[b].id);
            }
        }
    }
}

/// Where the nodes that have bounds stand.
proof fn lemma_with_bounds_places(model: TreeModel, nodes: Seq<NodeId>)
    ensures
        forall|a: int|
            #![trigger model.with_bounds(nodes)[a]]
            0 <= a < model.with_bounds(nodes).len() ==> exists|i: int|
                0 <= i < nodes.len() && #[trigger] nodes[i] == model.with_bounds(nodes)[a],
        forall|a: int, b: int|
            #![trigger model.with_bounds(nodes)[a], model.with_bounds(nodes)[b]]
            0 <= a < b < model.with_bounds(nodes).len() ==> exists|i: int, j: int|
                0 <= i < j < nodes.len() && #[trigger] nodes[i] == model.with_bounds(nodes)[a]
                    && #[trigger] nodes[j] == model.with_bounds(nodes)[b],
    decreases nodes.len(),
{
    let kept = model.with_bounds(nodes);
    if nodes.len() > 0 {
        let fewer = nodes.drop_last();
        let last = nodes.len() - 1;
        let earlier = model.with_bounds(fewer);
        lemma_with_bounds_places(model, fewer);
        assert forall|a: int| #![trigger kept[a]] 0 <= a < kept.len() implies exists|i: int|
            0 <= i < nodes.len() && #[trigger] nodes[i] == kept[a] by {
            if a < earlier.len() {
                assert(kept[a] == earlier[a]);
                let i = choose|i: int| 0 <= i < fewer.len() && #[trigger] fewer[i] == earlier[a];
                assert(nodes[i] == kept[a]);
            } else {
                assert(nodes[last] == kept[a]);
            }
        }
        assert forall|a: int, b: int| #![trigger kept[a], kept[b]] 0 <= a < b < kept.len() implies
            exists|i: int, j: int|
            0 <= i < j < nodes.len() && #[trigger] nodes[i] == kept[a] && #[trigger] nodes[j]
                == kept[b] by {
            assert(kept[a] == earlier[a]);
            if b < earlier.len() {
                assert(kept[b] == earlier[b]);
                let (i, j) = choose|i: int, j: int|
                    0 <= i < j < fewer.len() && #[trigger] fewer[i] == earlier[a]
                        && #[trigger] fewer[j] == earlier[b];
                assert(nodes[i] == kept[a] && nodes[j] == kept[b]);
            } else {
                let i = choose|i: int| 0 <= i < fewer.len() && #[trigger] fewer[i] == earlier[a];
                assert(nodes[i] == kept[a] && nodes[last] == kept[b]);
            }
        }
    }
}

/// A node that the host says nothing about is enabled, does not ask for the focus, and has neither
/// an order nor a group of its own.
pub proof fn law_plain_properties()
    ensures
        FocusProps::plain().enabled,
        !FocusProps::plain().autofocus,
        FocusProps::plain().order is None,
        FocusProps::plain().group is None,
{
}

/// The lookup answers for each node itself: there is one answer for every node that is asked about,
/// in their order, and it is one that the lookup may give for that node.
pub proof fn law_answers_are_about_their_own_nodes<P: FocusPropsLookup<NodeId>>(
    lookup: &P,
    nodes: Seq<NodeId>,
    answers: Seq<FocusProps>,
    place: int,
)
    requires
        may_answer(lookup, nodes, answers),
        0 <= place < nodes.len(),
    ensures
        answers.len() == nodes.len(),
        call_ensures(P::props, (lookup, &nodes[place]), answers[place]),
{
}

} // verus!
