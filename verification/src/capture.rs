use vstd::prelude::*;

use crate::crow::{CrowState, EntityId};

verus! {

/// A crow as a predator or a hazard sees it: its state and whether it is
/// within striking range.
#[derive(Clone, Copy, Debug)]
pub struct InReach<P> {
    pub state: CrowState<P>,
    pub in_reach: bool,
}

pub open spec fn catchable<P>(c: InReach<P>) -> bool {
    c.state.is_attackable() && c.in_reach
}

/// The crow a predator or hazard catches: the first crow, in the order
/// given, that can be attacked and is within reach.
pub fn first_catchable<P: Copy>(crows: &Vec<InReach<P>>) -> (r: Option<usize>)
    ensures
        r is None <==> forall|i: int| 0 <= i < crows@.len() ==> !catchable(#[trigger] crows@[i]),
        r matches Some(i) ==> i < crows@.len() && catchable(crows@[i as int]) && forall|j: int|
            0 <= j < i ==> !catchable(#[trigger] crows@[j]),
{
    let mut i: usize = 0;
    while i < crows.len()
        invariant
            i <= crows.len(),
            forall|j: int| 0 <= j < i ==> !catchable(#[trigger] crows@[j]),
        decreases crows.len() - i,
    {
        let c = crows[i];
        if c.in_reach && c.state.is_attackable() {
            return Some(i);
        }
        i = i + 1;
    }
    None
}

/// The state a captive takes once the mob has driven its captor off: a crow
/// that still carries something heads home with it, any other rejoins the
/// leader.
pub open spec fn freed_state<P>(carrying: bool) -> CrowState<P> {
    if carrying {
        CrowState::ReturningToRoost
    } else {
        CrowState::FollowLeader
    }
}

pub fn free_captive<P>(carrying: bool) -> (r: CrowState<P>)
    ensures
        r == freed_state::<P>(carrying),
{
    if carrying {
        CrowState::ReturningToRoost
    } else {
        CrowState::FollowLeader
    }
}

/// What the end of a mob does to one crow: the crows mobbing `captor` go back
/// to the leader; the others carry on.
pub open spec fn after_mob<P>(s: CrowState<P>, captor: EntityId) -> CrowState<P> {
    if s == CrowState::<P>::Mobbing(captor) {
        CrowState::FollowLeader
    } else {
        s
    }
}

/// Sends the crows that mobbed `captor` back to the leader.
pub fn disband_mob<P: Copy>(states: &mut Vec<CrowState<P>>, captor: EntityId)
    ensures
        final(states)@.len() == old(states)@.len(),
        forall|i: int| 0 <= i < old(states)@.len() ==> #[trigger] final(states)@[i] == after_mob(old(states)@[i], captor),
        // only the crows mobbing `captor` change, and they rejoin the leader
        forall|i: int| 0 <= i < old(states)@.len() ==> (old(states)@[i] matches CrowState::Mobbing(e) && e == captor
            ==> #[trigger] final(states)@[i] is FollowLeader),
        forall|i: int| 0 <= i < old(states)@.len() ==> (!(old(states)@[i] matches CrowState::Mobbing(e) && e == captor)
            ==> #[trigger] final(states)@[i] == old(states)@[i]),
{
    let ghost before = states@;
    let mut i: usize = 0;
    while i < states.len()
        invariant
            i <= states.len(),
            states@.len() == before.len(),
            forall|j: int| 0 <= j < i ==> states@[j] == after_mob(#[trigger] before[j], captor),
            forall|j: int| i <= j < before.len() ==> states@[j] == before[j],
        decreases states.len() - i,
    {
        let s = states[i];
        let mobbing_captor = match s {
            CrowState::Mobbing(e) => e == captor,
            _ => false,
        };
        if mobbing_captor {
            states[i] = CrowState::FollowLeader;
        }
        i = i + 1;
    }
}

/// After a mob ends, no crow is still mobbing that captor.
pub proof fn disbanded_mob_is_gone<P>(s: CrowState<P>, captor: EntityId)
    ensures
        after_mob(s, captor) != CrowState::<P>::Mobbing(captor),
{
}

/// The end of a mob on `captor` sends exactly the crows mobbing `captor` back
/// to the leader; every other crow, whatever it is doing (fetching an item,
/// mobbing someone else, captive, ...), keeps its state.
pub proof fn mob_end_frees_only_its_mobbers<P>(s: CrowState<P>, captor: EntityId)
    ensures
        (s matches CrowState::Mobbing(e) && e == captor) ==> after_mob(s, captor) is FollowLeader,
        !(s matches CrowState::Mobbing(e) && e == captor) ==> after_mob(s, captor) == s,
{
}

} // verus!
