//! Why a frame is requested, and which pacing policy the causes add up to.

use core::ops::BitOr;

use vstd::prelude::*;

verus! {

/// The bit of [`FrameDemand::animation`].
pub const ANIMATION_BIT: u8 = 1;

/// The bit of [`FrameDemand::input`].
pub const INPUT_BIT: u8 = 2;

/// The bit of [`FrameDemand::continuous_input`].
pub const CONTINUOUS_INPUT_BIT: u8 = 4;

/// The bit of [`FrameDemand::background`].
pub const BACKGROUND_BIT: u8 = 8;

/// Why a frame is requested: a set of causes, one bit each.
///
/// Multiple causes can be pending at once. The planner derives an effective policy from the full
/// set instead of requiring callers to collapse demand before pacing.
#[derive(Clone, Copy, Debug, PartialEq, Eq, Structural)]
pub struct FrameDemand(pub u8);

impl FrameDemand {
    /// Every cause of `other` is a cause of this demand too.
    pub open spec fn includes(self, other: FrameDemand) -> bool {
        self.0 & other.0 == other.0
    }

    /// The demand that holds the causes of both.
    pub open spec fn joined(self, other: FrameDemand) -> FrameDemand {
        FrameDemand(self.0 | other.0)
    }

    /// The policy of the most pressing cause: one-shot input, then continuous input, then
    /// animation, then background work.
    pub open spec fn pressing_policy(self) -> DemandPolicy {
        if self.includes(FrameDemand(INPUT_BIT)) {
            DemandPolicy::Input
        } else if self.includes(FrameDemand(CONTINUOUS_INPUT_BIT)) {
            DemandPolicy::ContinuousInput
        } else if self.includes(FrameDemand(ANIMATION_BIT)) {
            DemandPolicy::Animation
        } else if self.includes(FrameDemand(BACKGROUND_BIT)) {
            DemandPolicy::Background
        } else {
            DemandPolicy::NoCause
        }
    }

    /// No frame is currently needed.
    #[must_use]
    pub fn none() -> (r: Self)
        ensures
            r.0 == 0,
    {
        Self(0)
    }

    /// Visual work that should be smooth and evenly paced.
    #[must_use]
    pub fn animation() -> (r: Self)
        ensures
            r.0 == ANIMATION_BIT,
    {
        Self(ANIMATION_BIT)
    }

    /// Latency-sensitive one-shot user input such as clicks, keyboard, or IME.
    #[must_use]
    pub fn input() -> (r: Self)
        ensures
            r.0 == INPUT_BIT,
    {
        Self(INPUT_BIT)
    }

    /// Continuous user input such as scroll, resize, pointer move, gesture, or stylus drag.
    ///
    /// This is latency-sensitive, but should step down to a sustainable display cadence when the
    /// work is too slow for every hardware tick.
    #[must_use]
    pub fn continuous_input() -> (r: Self)
        ensures
            r.0 == CONTINUOUS_INPUT_BIT,
    {
        Self(CONTINUOUS_INPUT_BIT)
    }

    /// Work that can be delayed to reduce resource usage.
    #[must_use]
    pub fn background() -> (r: Self)
        ensures
            r.0 == BACKGROUND_BIT,
    {
        Self(BACKGROUND_BIT)
    }

    /// Returns whether no cause is set.
    #[must_use]
    pub fn is_empty(self) -> (r: bool)
        ensures
            r == (self.0 == 0),
    {
        self.0 == 0
    }

    /// Returns whether every cause of `other` is set.
    #[must_use]
    pub fn contains(self, other: Self) -> (r: bool)
        ensures
            r == self.includes(other),
    {
        self.0 & other.0 == other.0
    }

    /// Adds the causes of `other`.
    pub fn insert(&mut self, other: Self)
        ensures
            *final(self) == old(self).joined(other),
    {
        self.0 = self.0 | other.0;
    }

    /// The pacing policy for this set of causes.
    pub(crate) fn policy(self) -> (r: DemandPolicy)
        ensures
            r == self.pressing_policy(),
    {
        if self.contains(Self(INPUT_BIT)) {
            DemandPolicy::Input
        } else if self.contains(Self(CONTINUOUS_INPUT_BIT)) {
            DemandPolicy::ContinuousInput
        } else if self.contains(Self(ANIMATION_BIT)) {
            DemandPolicy::Animation
        } else if self.contains(Self(BACKGROUND_BIT)) {
            DemandPolicy::Background
        } else {
            DemandPolicy::NoCause
        }
    }
}

impl Default for FrameDemand {
    fn default() -> (r: Self)
        ensures
            r.0 == 0,
    {
        Self(0)
    }
}

impl BitOr<FrameDemand> for FrameDemand {
    type Output = FrameDemand;

    fn bitor(self, rhs: FrameDemand) -> (r: FrameDemand) {
        FrameDemand(self.0 | rhs.0)
    }
}

impl vstd::std_specs::ops::BitOrSpecImpl<FrameDemand> for FrameDemand {
    open spec fn obeys_bitor_spec() -> bool {
        true
    }

    open spec fn bitor_req(self, rhs: FrameDemand) -> bool {
        true
    }

    open spec fn bitor_spec(self, rhs: FrameDemand) -> FrameDemand {
        self.joined(rhs)
    }
}

/// How a frame is paced, decided by the most pressing cause of its demand.
#[derive(Clone, Copy, Debug, PartialEq, Eq, Structural)]
pub enum DemandPolicy {
    /// No known cause.
    NoCause,
    /// Smooth, evenly paced work.
    Animation,
    /// One-shot input: present as soon as possible.
    Input,
    /// Ongoing input.
    ContinuousInput,
    /// Work that can wait.
    Background,
}

impl DemandPolicy {
    /// How pressing the policy is; the larger rank wins when demands are joined.
    pub open spec fn rank(self) -> int {
        match self {
            DemandPolicy::NoCause => 0,
            DemandPolicy::Background => 1,
            DemandPolicy::Animation => 2,
            DemandPolicy::ContinuousInput => 3,
            DemandPolicy::Input => 4,
        }
    }
}

/// Joining is the union of two sets of causes: it holds both, adds nothing else, and the order
/// of requests does not matter.
pub proof fn law_joined_is_union(a: FrameDemand, b: FrameDemand, c: FrameDemand)
    ensures
        a.joined(b).includes(a),
        a.joined(b).includes(b),
        c.includes(a) && c.includes(b) <==> c.includes(a.joined(b)),
        a.joined(b) == b.joined(a),
        a.joined(b).joined(c) == a.joined(b.joined(c)),
        a.joined(a) == a,
        a.joined(b).0 == 0 <==> a.0 == 0 && b.0 == 0,
{
    let (x, y, z) = (a.0, b.0, c.0);
    assert((x | y) & x == x && (x | y) & y == y && x | y == y | x && (x | y) | z == x | (y | z)
        && x | x == x && (x | y == 0 <==> x == 0 && y == 0)) by (bit_vector);
    assert(z & x == x && z & y == y <==> z & (x | y) == x | y) by (bit_vector);
}

/// Causes of causes: what includes a demand includes all that the demand includes.
pub(crate) proof fn lemma_includes_is_transitive(a: FrameDemand, b: FrameDemand, c: FrameDemand)
    requires
        a.includes(b),
        b.includes(c),
    ensures
        a.includes(c),
{
    let (x, y, z) = (a.0, b.0, c.0);
    assert(x & y == y && y & z == z ==> x & z == z) by (bit_vector);
}

/// The demand of all requests together.
pub open spec fn joined_all(demands: Seq<FrameDemand>) -> FrameDemand
    decreases demands.len(),
{
    if demands.len() == 0 {
        FrameDemand(0)
    } else {
        joined_all(demands.drop_last()).joined(demands.last())
    }
}

/// The demand of all requests together holds every one of them, and nothing that one of them does
/// not ask for: whatever includes them all includes it. So their order does not matter.
pub proof fn law_joined_all_is_union(demands: Seq<FrameDemand>, bound: FrameDemand)
    ensures
        forall|i: int|
            0 <= i < demands.len() ==> joined_all(demands).includes(#[trigger] demands[i]),
        (forall|i: int| 0 <= i < demands.len() ==> bound.includes(#[trigger] demands[i]))
            ==> bound.includes(joined_all(demands)),
    decreases demands.len(),
{
    if demands.len() > 0 {
        let (fewer, last) = (demands.drop_last(), demands.last());
        let earlier = joined_all(fewer);
        law_joined_all_is_union(fewer, bound);
        law_joined_is_union(earlier, last, bound);
        assert forall|i: int| 0 <= i < demands.len() implies joined_all(demands).includes(
            #[trigger] demands[i],
        ) by {
            if i < fewer.len() {
                assert(fewer[i] == demands[i]);
                lemma_includes_is_transitive(joined_all(demands), earlier, demands[i]);
            }
        }
        if forall|i: int| 0 <= i < demands.len() ==> bound.includes(#[trigger] demands[i]) {
            assert forall|i: int| 0 <= i < fewer.len() implies bound.includes(
                #[trigger] fewer[i],
            ) by {
                assert(fewer[i] == demands[i]);
            }
            assert(bound.includes(demands[demands.len() - 1]));
        }
    } else {
        let x = bound.0;
        assert(x & 0 == 0) by (bit_vector);
    }
}

/// Coalesced requests are paced by the more pressing of them: input before continuous input,
/// continuous input before animation, animation before background work.
pub proof fn law_joined_policy_is_the_more_pressing(a: FrameDemand, b: FrameDemand)
    ensures
        a.joined(b).pressing_policy().rank() == if a.pressing_policy().rank()
            >= b.pressing_policy().rank() {
            a.pressing_policy().rank()
        } else {
            b.pressing_policy().rank()
        },
{
    let (x, y) = (a.0, b.0);
    assert(((x | y) & 1 == 1 <==> x & 1 == 1 || y & 1 == 1) && ((x | y) & 2 == 2 <==> x & 2 == 2
        || y & 2 == 2) && ((x | y) & 4 == 4 <==> x & 4 == 4 || y & 4 == 4) && ((x | y) & 8 == 8
        <==> x & 8 == 8 || y & 8 == 8)) by (bit_vector);
}

/// The empty demand has no policy to pace by.
pub proof fn law_empty_demand_has_no_policy()
    ensures
        FrameDemand(0).pressing_policy() == DemandPolicy::NoCause,
{
    assert(0u8 & 1 == 0 && 0u8 & 2 == 0 && 0u8 & 4 == 0 && 0u8 & 8 == 0) by (bit_vector);
}

/// The policy follows the causes in order of urgency: one-shot input goes before everything, then
/// continuous input, then animation, then background work, whatever else is demanded with them.
pub proof fn law_policy_follows_the_most_urgent_cause(demand: FrameDemand)
    ensures
        demand.0 & 2 == 2 <==> demand.pressing_policy() == DemandPolicy::Input,
        demand.0 & 6 == 4 <==> demand.pressing_policy() == DemandPolicy::ContinuousInput,
        demand.0 & 7 == 1 <==> demand.pressing_policy() == DemandPolicy::Animation,
        demand.0 & 15 == 8 <==> demand.pressing_policy() == DemandPolicy::Background,
        demand.0 & 15 == 0 <==> demand.pressing_policy() == DemandPolicy::NoCause,
{
    let x = demand.0;
    assert((x & 6 == 4 <==> x & 2 != 2 && x & 4 == 4) && (x & 7 == 1 <==> x & 2 != 2 && x & 4 != 4
        && x & 1 == 1) && (x & 15 == 8 <==> x & 2 != 2 && x & 4 != 4 && x & 1 != 1 && x & 8 == 8)
        && (x & 15 == 0 <==> x & 2 != 2 && x & 4 != 4 && x & 1 != 1 && x & 8 != 8))
        by (bit_vector);
}

/// Joining keeps every cause and makes up none: a bit is set in the union exactly when it is set in
/// one of the two.
pub proof fn law_joined_bits(a: FrameDemand, b: FrameDemand, bit: u8)
    requires
        bit == 1 || bit == 2 || bit == 4 || bit == 8,
    ensures
        a.joined(b).0 & bit == bit <==> a.0 & bit == bit || b.0 & bit == bit,
        a.includes(FrameDemand(bit)) <==> a.0 & bit == bit,
        a.joined(b).0 == a.0 | b.0,
{
    let (x, y) = (a.0, b.0);
    assert(bit == 1 || bit == 2 || bit == 4 || bit == 8 ==> ((x | y) & bit == bit <==> x & bit
        == bit || y & bit == bit)) by (bit_vector);
}

} // verus!
