use vstd::prelude::*;

use crate::crow::{CrowState, EntityId, Species};
use crate::order::{is_sorted_order, sort_positions_by_key, sorted_order};

verus! {

/// How urgent a crow's status is; the roster lists the most urgent first.
#[derive(Clone, Copy, Debug, PartialEq, Eq, Structural)]
pub enum Priority {
    Leader,
    Captured,
    Mobbing,
    Grabbing,
    Carrying,
    Seeking,
    Injured,
    Idle,
}

impl Priority {
    /// The place of the priority in the roster: lower comes first.
    pub open spec fn rank_spec(self) -> u8 {
        match self {
            Priority::Leader => 0,
            Priority::Captured => 1,
            Priority::Mobbing => 2,
            Priority::Grabbing => 3,
            Priority::Carrying => 4,
            Priority::Seeking => 5,
            Priority::Injured => 6,
            Priority::Idle => 7,
        }
    }

    #[verifier::when_used_as_spec(rank_spec)]
    pub fn rank(self) -> (r: u8)
        ensures
            r == self.rank_spec(),
    {
        match self {
            Priority::Leader => 0,
            Priority::Captured => 1,
            Priority::Mobbing => 2,
            Priority::Grabbing => 3,
            Priority::Carrying => 4,
            Priority::Seeking => 5,
            Priority::Injured => 6,
            Priority::Idle => 7,
        }
    }

    /// The word shown under a crow's portrait.
    pub open spec fn label_spec(self) -> Seq<char> {
        match self {
            Priority::Leader => "leader"@,
            Priority::Captured => "caught"@,
            Priority::Mobbing => "mob"@,
            Priority::Grabbing => "grab"@,
            Priority::Carrying => "carry"@,
            Priority::Seeking => "seek"@,
            Priority::Injured => "hurt"@,
            Priority::Idle => "idle"@,
        }
    }

    pub fn label(self) -> (r: &'static str)
        ensures
            r@ == self.label_spec(),
    {
        match self {
            Priority::Leader => "leader",
            Priority::Captured => "caught",
            Priority::Mobbing => "mob",
            Priority::Grabbing => "grab",
            Priority::Carrying => "carry",
            Priority::Seeking => "seek",
            Priority::Injured => "hurt",
            Priority::Idle => "idle",
        }
    }
}

/// The priority of a crow in the roster, from its state (if it has one) and
/// whether it is the leader.
pub open spec fn classify_spec<P>(state: Option<CrowState<P>>, is_leader: bool) -> Priority {
    if is_leader {
        Priority::Leader
    } else {
        match state {
            None => Priority::Idle,
            Some(CrowState::CapturedBy(_)) => Priority::Captured,
            Some(CrowState::Mobbing(_)) => Priority::Mobbing,
            Some(CrowState::GrabCarryable(_)) => Priority::Grabbing,
            Some(CrowState::ReturningToRoost) => Priority::Carrying,
            Some(CrowState::SeekTarget(_)) => Priority::Seeking,
            Some(CrowState::RecoveringFromInjury) => Priority::Injured,
            Some(CrowState::FollowLeader) => Priority::Idle,
        }
    }
}

pub fn classify<P: Copy>(state: Option<CrowState<P>>, is_leader: bool) -> (r: Priority)
    ensures
        r == classify_spec(state, is_leader),
{
    if is_leader {
        return Priority::Leader;
    }
    match state {
        None => Priority::Idle,
        Some(CrowState::CapturedBy(_)) => Priority::Captured,
        Some(CrowState::Mobbing(_)) => Priority::Mobbing,
        Some(CrowState::GrabCarryable(_)) => Priority::Grabbing,
        Some(CrowState::ReturningToRoost) => Priority::Carrying,
        Some(CrowState::SeekTarget(_)) => Priority::Seeking,
        Some(CrowState::RecoveringFromInjury) => Priority::Injured,
        Some(CrowState::FollowLeader) => Priority::Idle,
    }
}

/// Ravens rank above carrion crows among crows of equal priority.
pub open spec fn species_rank_spec(species: Species) -> i32 {
    match species {
        Species::Raven => 1,
        Species::Carrion => 0,
    }
}

#[verifier::when_used_as_spec(species_rank_spec)]
pub fn species_rank(species: Species) -> (r: i32)
    ensures
        r == species_rank_spec(species),
{
    match species {
        Species::Raven => 1,
        Species::Carrion => 0,
    }
}

/// What the roster needs to know of a crow.
#[derive(Clone, Copy, Debug)]
pub struct RosterCrow<P> {
    pub crow: EntityId,
    /// The index of the crow's entity; it orders crows of equal rank.
    pub index: u32,
    pub state: Option<CrowState<P>>,
    pub species: Species,
    pub is_leader: bool,
}

/// One portrait of the roster.
#[derive(Clone, Copy, Debug)]
pub struct Portrait {
    pub crow: EntityId,
    pub species: Species,
    pub is_leader: bool,
    pub is_captured: bool,
    pub priority: Priority,
    pub label: &'static str,
}

/// `p` is the portrait of crow `c`.
pub open spec fn is_portrait_of<P>(p: Portrait, c: RosterCrow<P>) -> bool {
    &&& p.crow == c.crow
    &&& p.species == c.species
    &&& p.is_leader == c.is_leader
    &&& p.is_captured == (c.state matches Some(CrowState::CapturedBy(_)))
    &&& p.priority == classify_spec(c.state, c.is_leader)
    &&& p.label@ == p.priority.label_spec()
}

/// The roster orders crows by priority, then ravens before carrion crows,
/// then by entity index; this key orders them so.
pub open spec fn roster_key<P>(c: RosterCrow<P>) -> u64 {
    (classify_spec(c.state, c.is_leader).rank_spec() * 0x2_0000_0000 + (1 - species_rank_spec(c.species))
        * 0x1_0000_0000 + c.index) as u64
}

/// The roster key orders crows exactly as the triple (priority, minus the
/// species rank, entity index) does, compared element by element.
pub proof fn roster_key_is_lexicographic<P>(a: RosterCrow<P>, b: RosterCrow<P>)
    ensures
        ({
            let pa = classify_spec(a.state, a.is_leader).rank_spec() as int;
            let pb = classify_spec(b.state, b.is_leader).rank_spec() as int;
            let sa = -species_rank_spec(a.species);
            let sb = -species_rank_spec(b.species);
            roster_key(a) < roster_key(b) <==> (pa < pb || (pa == pb && (sa < sb || (sa == sb && a.index < b.index))))
        }),
{
}

pub open spec fn roster_keys<P>(crows: Seq<RosterCrow<P>>) -> Seq<u64> {
    crows.map_values(|c: RosterCrow<P>| roster_key(c))
}

/// The positions of `crows` in roster order.
pub open spec fn roster_order<P>(crows: Seq<RosterCrow<P>>) -> Seq<usize> {
    sorted_order(roster_keys(crows))
}

fn portrait<P: Copy>(c: RosterCrow<P>) -> (r: Portrait)
    ensures
        is_portrait_of(r, c),
{
    let priority = classify(c.state, c.is_leader);
    let is_captured = match c.state {
        Some(CrowState::CapturedBy(_)) => true,
        _ => false,
    };
    Portrait {
        crow: c.crow,
        species: c.species,
        is_leader: c.is_leader,
        is_captured,
        priority,
        label: priority.label(),
    }
}

/// The roster's portraits: one per crow, most urgent status first, ravens
/// before carrion crows of the same status, then by entity index (crows
/// equal in all three keep their order).
pub fn build_roster<P: Copy>(crows: &Vec<RosterCrow<P>>) -> (r: Vec<Portrait>)
    ensures
        r@.len() == crows@.len(),
        forall|k: int| 0 <= k < r@.len() ==> is_portrait_of(#[trigger] r@[k], crows@[roster_order(crows@)[k] as int]),
        // the statuses come in the order leader, captured, mobbing, grabbing,
        // carrying, seeking, injured, idle
        forall|a: int, b: int| 0 <= a < b < r@.len() ==> status_place(#[trigger] r@[a].priority) <= status_place(
            #[trigger] r@[b].priority,
        ),
{
    let mut keys: Vec<u64> = Vec::new();
    let mut i: usize = 0;
    while i < crows.len()
        invariant
            i <= crows.len(),
            keys@.len() == i,
            forall|j: int| 0 <= j < i ==> keys@[j] == roster_key(#[trigger] crows@[j]),
        decreases crows.len() - i,
    {
        let c = crows[i];
        let p: u64 = classify(c.state, c.is_leader).rank() as u64;
        let s: u64 = (1 - species_rank(c.species)) as u64;
        keys.push(p * 0x2_0000_0000u64 + s * 0x1_0000_0000u64 + c.index as u64);
        i = i + 1;
    }
    proof {
        assert(keys@ =~= roster_keys(crows@));
    }
    let order = sort_positions_by_key(&keys);
    proof {
        assert forall|a: int, b: int| 0 <= a < b < crows@.len() implies status_place(
            classify_spec(crows@[order@[a] as int].state, crows@[order@[a] as int].is_leader),
        ) <= status_place(classify_spec(crows@[order@[b] as int].state, crows@[order@[b] as int].is_leader)) by {
            roster_most_urgent_first(crows@, a, b);
            priority_ranks_follow_urgency();
        }
    }
    let mut r: Vec<Portrait> = Vec::new();
    let mut k: usize = 0;
    while k < order.len()
        invariant
            k <= order.len(),
            order@ == roster_order(crows@),
            is_sorted_order(keys@, order@),
            keys@.len() == crows@.len(),
            r@.len() == k,
            forall|q: int| 0 <= q < k ==> is_portrait_of(#[trigger] r@[q], crows@[roster_order(crows@)[q] as int]),
            forall|a: int, b: int| 0 <= a < b < crows@.len() ==> status_place(
                classify_spec(crows@[order@[a] as int].state, crows@[order@[a] as int].is_leader),
            ) <= status_place(classify_spec(crows@[order@[b] as int].state, crows@[order@[b] as int].is_leader)),
        decreases order.len() - k,
    {
        let c = crows[order[k]];
        r.push(portrait(c));
        k = k + 1;
    }
    r
}

/// The roster lists the most urgent statuses first: along the roster order
/// the priority rank never decreases.
pub proof fn roster_most_urgent_first<P>(crows: Seq<RosterCrow<P>>, a: int, b: int)
    requires
        crows.len() <= usize::MAX,
        0 <= a < b < crows.len(),
    ensures
        ({
            let o = roster_order(crows);
            classify_spec(crows[o[a] as int].state, crows[o[a] as int].is_leader).rank_spec()
                <= classify_spec(crows[o[b] as int].state, crows[o[b] as int].is_leader).rank_spec()
        }),
{
    let keys = roster_keys(crows);
    crate::order::sorted_order_exists(keys);
    let o = roster_order(crows);
    assert(crate::order::key_before(keys, o[a] as int, o[b] as int));
    let ca = crows[o[a] as int];
    let cb = crows[o[b] as int];
    assert(keys[o[a] as int] == roster_key(ca));
    assert(keys[o[b] as int] == roster_key(cb));
}

/// The place of a status in the roster's order of urgency, as the list
/// leader, captured, mobbing, grabbing, carrying, seeking, injured, idle.
pub open spec fn status_place(p: Priority) -> int {
    seq![
        Priority::Leader,
        Priority::Captured,
        Priority::Mobbing,
        Priority::Grabbing,
        Priority::Carrying,
        Priority::Seeking,
        Priority::Injured,
        Priority::Idle,
    ].index_of(p)
}

/// The priority ranks follow the order of urgency leader, captured, mobbing,
/// grabbing, carrying, seeking, injured, idle: each status's rank is its
/// place in that list.
pub proof fn priority_ranks_follow_urgency()
    ensures
        forall|p: Priority| #[trigger] p.rank_spec() == status_place(p),
{
    let order = seq![
        Priority::Leader,
        Priority::Captured,
        Priority::Mobbing,
        Priority::Grabbing,
        Priority::Carrying,
        Priority::Seeking,
        Priority::Injured,
        Priority::Idle,
    ];
    assert forall|p: Priority| #[trigger] p.rank_spec() == status_place(p) by {
        let k = p.rank_spec() as int;
        assert(order[k] == p);
        let j = order.index_of(p);
        assert(0 <= j < order.len() && order[j] == p);
        assert(order[0] == Priority::Leader && order[1] == Priority::Captured && order[2] == Priority::Mobbing
            && order[3] == Priority::Grabbing && order[4] == Priority::Carrying && order[5] == Priority::Seeking
            && order[6] == Priority::Injured && order[7] == Priority::Idle);
    }
}

/// The leader is always listed as leader; other crows by their state:
/// captive as captured, mobbing, fetching as grabbing, heading home as
/// carrying, seeking, recovering as injured, and following (or stateless) as
/// idle. The labels read leader, caught, mob, grab, carry, seek, hurt, idle.
pub proof fn roster_statuses<P>(state: Option<CrowState<P>>, is_leader: bool)
    ensures
        is_leader ==> classify_spec(state, is_leader) == Priority::Leader,
        !is_leader ==> classify_spec(state, is_leader) == (match state {
            Some(CrowState::CapturedBy(_)) => Priority::Captured,
            Some(CrowState::Mobbing(_)) => Priority::Mobbing,
            Some(CrowState::GrabCarryable(_)) => Priority::Grabbing,
            Some(CrowState::ReturningToRoost) => Priority::Carrying,
            Some(CrowState::SeekTarget(_)) => Priority::Seeking,
            Some(CrowState::RecoveringFromInjury) => Priority::Injured,
            _ => Priority::Idle,
        }),
        Priority::Leader.label_spec() == "leader"@ && Priority::Captured.label_spec() == "caught"@
            && Priority::Mobbing.label_spec() == "mob"@ && Priority::Grabbing.label_spec() == "grab"@
            && Priority::Carrying.label_spec() == "carry"@ && Priority::Seeking.label_spec() == "seek"@
            && Priority::Injured.label_spec() == "hurt"@ && Priority::Idle.label_spec() == "idle"@,
{
}

} // verus!
