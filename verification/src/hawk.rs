use vstd::prelude::*;

use crate::capture::{catchable, first_catchable, InReach};
use crate::crow::CrowState;

verus! {

/// A crow with at most this many flock neighbours is isolated and becomes a
/// candidate target.
pub const ISOLATION_NEIGHBOR_LIMIT: usize = 3;
/// Seconds the hawk waits after giving up a dive.
pub const DIVE_ABORT_COOLDOWN_SECS: u32 = 5;
/// Seconds the hawk waits after missing.
pub const DIVE_MISS_COOLDOWN_SECS: u32 = 8;
/// Seconds the hawk waits after a strike, and before its first dive.
pub const DIVE_COOLDOWN_SECS: u32 = 12;

/// The key under which `f32::total_cmp` orders floats, taken on the float's
/// bit pattern: negative floats (sign bit set) come first, larger magnitude
/// first; then the non-negative ones by magnitude.
pub open spec fn total_order_key(bits: u32) -> u32 {
    if bits >= 0x8000_0000 {
        (0xFFFF_FFFFu32 - bits) as u32
    } else {
        (bits + 0x8000_0000u32) as u32
    }
}

pub fn float_order_key(bits: u32) -> (r: u32)
    ensures
        r == total_order_key(bits),
{
    if bits >= 0x8000_0000 {
        0xFFFF_FFFFu32 - bits
    } else {
        bits + 0x8000_0000u32
    }
}

/// A crow as the soaring hawk sees it.
#[derive(Clone, Copy, Debug)]
pub struct Prey<P> {
    pub state: CrowState<P>,
    /// How many flock neighbours the crow has.
    pub neighbors: usize,
    pub under_cover: bool,
    /// The bit pattern of the `f32` squared distance to the hawk.
    pub distance_bits: u32,
}

/// The hawk goes after exposed, isolated crows that are following, seeking
/// or heading home.
pub open spec fn is_prey<P>(p: Prey<P>) -> bool {
    &&& !p.under_cover
    &&& p.neighbors <= ISOLATION_NEIGHBOR_LIMIT
    &&& (p.state is FollowLeader || p.state is SeekTarget || p.state is ReturningToRoost)
}

/// `a` is a better target than `b`: fewer neighbours, or as many and nearer.
pub open spec fn prey_before<P>(a: Prey<P>, b: Prey<P>) -> bool {
    a.neighbors < b.neighbors || (a.neighbors == b.neighbors && total_order_key(a.distance_bits)
        < total_order_key(b.distance_bits))
}

/// The crow the hawk dives at: among the prey, the one with the fewest
/// neighbours, and among those the nearest; the first such crow when
/// several tie.
pub fn pick_target<P: Copy>(crows: &Vec<Prey<P>>) -> (r: Option<usize>)
    ensures
        r is None <==> forall|i: int| 0 <= i < crows@.len() ==> !is_prey(#[trigger] crows@[i]),
        r matches Some(i) ==> {
            &&& i < crows@.len()
            &&& is_prey(crows@[i as int])
            &&& forall|j: int| 0 <= j < crows@.len() && is_prey(#[trigger] crows@[j]) ==> !prey_before(crows@[j], crows@[i as int])
            &&& forall|j: int| 0 <= j < i && is_prey(#[trigger] crows@[j]) ==> prey_before(crows@[i as int], crows@[j])
        },
        // an exposed crow with at most three neighbours that follows the
        // leader, seeks a spot or heads home is always hunted
        (exists|j: int| 0 <= j < crows@.len() && !(#[trigger] crows@[j]).under_cover && crows@[j].neighbors <= 3
            && (crows@[j].state is FollowLeader || crows@[j].state is SeekTarget || crows@[j].state is ReturningToRoost))
            ==> r is Some,
        r matches Some(i) ==> !crows@[i as int].under_cover && crows@[i as int].neighbors <= 3 && (crows@[i as int].state is FollowLeader
            || crows@[i as int].state is SeekTarget || crows@[i as int].state is ReturningToRoost),
{
    let mut best: Option<usize> = None;
    let mut best_key: u32 = 0;
    let mut i: usize = 0;
    while i < crows.len()
        invariant
            i <= crows.len(),
            best is None <==> forall|j: int| 0 <= j < i ==> !is_prey(#[trigger] crows@[j]),
            best matches Some(b) ==> {
                &&& b < i
                &&& is_prey(crows@[b as int])
                &&& best_key == total_order_key(crows@[b as int].distance_bits)
                &&& forall|j: int| 0 <= j < i && is_prey(#[trigger] crows@[j]) ==> !prey_before(crows@[j], crows@[b as int])
                &&& forall|j: int| 0 <= j < b && is_prey(#[trigger] crows@[j]) ==> prey_before(crows@[b as int], crows@[j])
            },
        decreases crows.len() - i,
    {
        let c = crows[i];
        let wanted = match c.state {
            CrowState::FollowLeader => true,
            CrowState::SeekTarget(_) => true,
            CrowState::ReturningToRoost => true,
            _ => false,
        };
        if !c.under_cover && c.neighbors <= ISOLATION_NEIGHBOR_LIMIT && wanted {
            let key: u32 = float_order_key(c.distance_bits);
            match best {
                None => {
                    best = Some(i);
                    best_key = key;
                },
                Some(b) => {
                    let bn: usize = crows[b].neighbors;
                    if c.neighbors < bn || (c.neighbors == bn && key < best_key) {
                        best = Some(i);
                        best_key = key;
                    }
                },
            }
        }
        i = i + 1;
    }
    best
}

/// What the diving hawk knows of the crow it dives at.
#[derive(Clone, Copy, Debug)]
pub struct DiveView<P> {
    /// The hawk has locked onto a position and no longer tracks the crow.
    pub locked: bool,
    /// The target crow, if it still exists: whether it is under cover, and
    /// its state.
    pub target: Option<(bool, CrowState<P>)>,
    /// The hawk is within arrival distance of where it dives.
    pub arrived: bool,
    /// The hawk is close enough to lock onto the target's position.
    pub within_commit: bool,
}

/// One step of a dive.
#[derive(Clone, Copy, Debug, PartialEq, Eq, Structural)]
pub enum DiveStep {
    /// The target is gone, hidden or out of play: climb back.
    Abort,
    /// Arrived without hitting a crow: climb back.
    Miss,
    /// Arrived and struck the crow at this position of the list: climb back.
    Strike(usize),
    /// Lock onto the target's current position and keep diving.
    Lock,
    /// Keep diving.
    Approach,
}

impl DiveStep {
    /// Seconds the hawk waits before its next dive, for the steps that end a
    /// dive.
    pub fn cooldown_secs(self) -> (r: Option<u32>)
        ensures
            r == (match self {
                DiveStep::Abort => Some(DIVE_ABORT_COOLDOWN_SECS),
                DiveStep::Miss => Some(DIVE_MISS_COOLDOWN_SECS),
                DiveStep::Strike(_) => Some(DIVE_COOLDOWN_SECS),
                _ => None::<u32>,
            }),
    {
        match self {
            DiveStep::Abort => Some(DIVE_ABORT_COOLDOWN_SECS),
            DiveStep::Miss => Some(DIVE_MISS_COOLDOWN_SECS),
            DiveStep::Strike(_) => Some(DIVE_COOLDOWN_SECS),
            _ => None,
        }
    }
}

/// Unless locked, the dive is given up when the target is gone, under cover,
/// or no longer attackable.
pub open spec fn dive_aborted<P>(v: DiveView<P>) -> bool {
    !v.locked && match v.target {
        None => true,
        Some((cover, state)) => cover || !state.is_attackable(),
    }
}

/// The step the diving hawk takes; `near` lists the crows with whether each
/// is within striking distance of the hawk.
pub open spec fn dive_step_spec<P>(v: DiveView<P>, near: Seq<InReach<P>>) -> DiveStep {
    if dive_aborted(v) {
        DiveStep::Abort
    } else if v.arrived {
        if exists|i: int| 0 <= i < near.len() && catchable(#[trigger] near[i]) {
            DiveStep::Strike(
                (choose|i: int| 0 <= i < near.len() && catchable(#[trigger] near[i]) && forall|j: int|
                    0 <= j < i ==> !catchable(#[trigger] near[j])) as usize,
            )
        } else {
            DiveStep::Miss
        }
    } else if !v.locked && v.within_commit {
        DiveStep::Lock
    } else {
        DiveStep::Approach
    }
}

pub fn dive_step<P: Copy>(view: &DiveView<P>, near: &Vec<InReach<P>>) -> (r: DiveStep)
    ensures
        r == dive_step_spec(*view, near@),
        r matches DiveStep::Strike(i) ==> i < near@.len() && catchable(near@[i as int]),
        // on arrival, locked or not, the first crow in reach that is neither
        // captive nor recovering is struck; the dive misses only when there is none
        dive_goes_on(*view) && view.arrived ==> {
            &&& (exists|i: int| 0 <= i < near@.len() && strikable(#[trigger] near@[i])) ==> (r matches DiveStep::Strike(k)
                && k < near@.len() && strikable(near@[k as int])
                && forall|j: int| 0 <= j < k ==> !strikable(#[trigger] near@[j]))
            &&& (forall|i: int| 0 <= i < near@.len() ==> !strikable(#[trigger] near@[i])) ==> r == DiveStep::Miss
        },
{
    if !view.locked {
        let aborted = match view.target {
            None => true,
            Some((cover, state)) => cover || !state.is_attackable(),
        };
        if aborted {
            return DiveStep::Abort;
        }
    }
    if view.arrived {
        match first_catchable(near) {
            Some(i) => {
                proof {
                    let w = choose|w: int| 0 <= w < near@.len() && catchable(#[trigger] near@[w]) && forall|j: int|
                        0 <= j < w ==> !catchable(#[trigger] near@[j]);
                    if w < i {
                        assert(!catchable(near@[w]));
                    }
                    if w > i {
                        assert(!catchable(near@[i as int]));
                    }
                }
                DiveStep::Strike(i)
            },
            None => DiveStep::Miss,
        }
    } else if !view.locked && view.within_commit {
        DiveStep::Lock
    } else {
        DiveStep::Approach
    }
}

/// A hawk that has locked onto a position never gives up its dive, whatever
/// became of the crow.
pub proof fn locked_dives_are_not_aborted<P>(v: DiveView<P>)
    requires
        v.locked,
    ensures
        !dive_aborted(v),
{
}

/// The dive goes on: the hawk has locked onto a position, or its target
/// still exists, in the open, and is neither captive nor recovering.
pub open spec fn dive_goes_on<P>(v: DiveView<P>) -> bool {
    v.locked || (v.target matches Some((cover, s)) && !cover && !(s is CapturedBy) && !(s is RecoveringFromInjury))
}

/// A crow the arriving hawk can hit: within reach, neither captive nor
/// recovering.
pub open spec fn strikable<P>(c: InReach<P>) -> bool {
    c.in_reach && !(c.state is CapturedBy) && !(c.state is RecoveringFromInjury)
}

/// On arrival, whether or not it has locked onto a position, the hawk strikes
/// the first crow within reach that is neither captive nor recovering, and
/// misses only when there is no such crow. Before arrival a dive that goes on
/// never strikes nor misses.
pub proof fn arriving_dive_strikes_first_in_reach<P>(v: DiveView<P>, near: Seq<InReach<P>>)
    requires
        near.len() <= usize::MAX,
    ensures
        dive_goes_on(v) && v.arrived && (exists|i: int| 0 <= i < near.len() && strikable(#[trigger] near[i])) ==> (
            dive_step_spec(v, near) matches DiveStep::Strike(k) && 0 <= k < near.len() && strikable(near[k as int])
            && forall|j: int| 0 <= j < k ==> !strikable(#[trigger] near[j])),
        dive_goes_on(v) && v.arrived && (forall|i: int| 0 <= i < near.len() ==> !strikable(#[trigger] near[i]))
            ==> dive_step_spec(v, near) == DiveStep::Miss,
        dive_goes_on(v) && !v.arrived ==> (dive_step_spec(v, near) == DiveStep::Lock || dive_step_spec(v, near) == DiveStep::Approach),
        !dive_goes_on(v) ==> dive_step_spec(v, near) == DiveStep::Abort,
{
    assert forall|i: int| 0 <= i < near.len() implies (strikable(#[trigger] near[i]) <==> catchable(near[i])) by {}
    if dive_goes_on(v) && v.arrived && (exists|i: int| 0 <= i < near.len() && strikable(#[trigger] near[i])) {
        let w = choose|i: int| 0 <= i < near.len() && strikable(#[trigger] near[i]);
        first_catchable_exists(near, w);
        assert(!dive_aborted(v));
        let k = choose|i: int| 0 <= i < near.len() && catchable(#[trigger] near[i]) && forall|j: int|
            0 <= j < i ==> !catchable(#[trigger] near[j]);
        assert(dive_step_spec(v, near) == DiveStep::Strike(k as usize));
        assert(k as usize as int == k);
        assert(strikable(near[k]));
        assert forall|j: int| 0 <= j < k implies !strikable(#[trigger] near[j]) by {
            assert(!catchable(near[j]));
        }
    }
}

/// When some crow of `near` is catchable, a first one is.
proof fn first_catchable_exists<P>(near: Seq<InReach<P>>, w: int)
    requires
        0 <= w < near.len(),
        catchable(near[w]),
    ensures
        exists|i: int| 0 <= i < near.len() && catchable(#[trigger] near[i]) && forall|j: int| 0 <= j < i ==> !catchable(#[trigger] near[j]),
    decreases w,
{
    if exists|j: int| 0 <= j < w && catchable(#[trigger] near[j]) {
        let j = choose|j: int| 0 <= j < w && catchable(#[trigger] near[j]);
        first_catchable_exists(near, j);
    } else {
        assert(forall|j: int| 0 <= j < w ==> !catchable(#[trigger] near[j]));
    }
}

/// An exposed crow with at most three flock neighbours that follows the
/// leader, seeks a spot or heads home is prey; no other crow is.
pub proof fn prey_are_isolated_exposed_travellers<P>(p: Prey<P>)
    ensures
        is_prey(p) <==> (!p.under_cover && p.neighbors <= 3 && (p.state is FollowLeader || p.state is SeekTarget
            || p.state is ReturningToRoost)),
{
}

/// The float key orders non-negative floats (sign bit clear) by their bit
/// patterns, which is their numeric order, and puts every negative float
/// below every non-negative one; among negatives a larger magnitude comes
/// first.
pub proof fn float_key_orders_floats(a: u32, b: u32)
    ensures
        a < 0x8000_0000 && b < 0x8000_0000 ==> (total_order_key(a) < total_order_key(b) <==> a < b),
        a >= 0x8000_0000 && b < 0x8000_0000 ==> total_order_key(a) < total_order_key(b),
        a >= 0x8000_0000 && b >= 0x8000_0000 ==> (total_order_key(a) < total_order_key(b) <==> a > b),
{
}

/// Among the prey the hawk prefers fewer neighbours, and among prey with as
/// many neighbours, the nearer one.
pub proof fn prey_order<P>(a: Prey<P>, b: Prey<P>)
    ensures
        a.neighbors < b.neighbors ==> prey_before(a, b),
        a.neighbors > b.neighbors ==> !prey_before(a, b),
        a.neighbors == b.neighbors && a.distance_bits < 0x8000_0000 && b.distance_bits < 0x8000_0000 ==> (prey_before(
            a,
            b,
        ) <==> a.distance_bits < b.distance_bits),
{
}

} // verus!
