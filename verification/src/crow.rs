use vstd::prelude::*;

verus! {

/// The 64-bit identifier of an entity of the game world.
pub type EntityId = u64;

/// The two kinds of crow in the flock.
#[derive(Clone, Copy, Debug, PartialEq, Eq, Structural)]
pub enum Species {
    Carrion,
    Raven,
}

impl Species {
    /// Strength in whole units: what a crow adds to a mob, and the heaviest
    /// weight it can lift.
    pub open spec fn strength_spec(self) -> u32 {
        match self {
            Species::Carrion => 1,
            Species::Raven => 3,
        }
    }

    #[verifier::when_used_as_spec(strength_spec)]
    pub fn strength(self) -> (r: u32)
        ensures
            r == self.strength_spec(),
    {
        match self {
            Species::Carrion => 1,
            Species::Raven => 3,
        }
    }
}

/// What a crow is doing. `P` is the type of a position in the world.
#[derive(Clone, Copy, Debug)]
pub enum CrowState<P> {
    FollowLeader,
    SeekTarget(P),
    ReturningToRoost,
    RecoveringFromInjury,
    CapturedBy(EntityId),
    Mobbing(EntityId),
    GrabCarryable(EntityId),
}

impl<P> CrowState<P> {
    /// The states in which a crow obeys the player's commands.
    pub open spec fn accepts_commands_spec(&self) -> bool {
        match self {
            CrowState::FollowLeader => true,
            CrowState::SeekTarget(_) => true,
            CrowState::GrabCarryable(_) => true,
            CrowState::Mobbing(_) => true,
            _ => false,
        }
    }

    /// The states in which a predator or a hazard can catch the crow.
    pub open spec fn is_attackable_spec(&self) -> bool {
        !(self is CapturedBy || self is RecoveringFromInjury)
    }

    #[verifier::when_used_as_spec(accepts_commands_spec)]
    pub fn accepts_commands(&self) -> (r: bool)
        ensures
            r == self.accepts_commands_spec(),
    {
        match self {
            CrowState::FollowLeader => true,
            CrowState::SeekTarget(_) => true,
            CrowState::GrabCarryable(_) => true,
            CrowState::Mobbing(_) => true,
            _ => false,
        }
    }

    #[verifier::when_used_as_spec(is_attackable_spec)]
    pub fn is_attackable(&self) -> (r: bool)
        ensures
            r == self.is_attackable_spec(),
    {
        match self {
            CrowState::CapturedBy(_) => false,
            CrowState::RecoveringFromInjury => false,
            _ => true,
        }
    }
}

impl<P: Copy> CrowState<P> {
    /// A new crow follows the leader.
    pub fn default() -> (r: CrowState<P>)
        ensures
            r is FollowLeader,
    {
        CrowState::FollowLeader
    }

    /// The crow is held by a predator or a hazard: it neither moves on its
    /// own nor drops off what it carries.
    pub fn is_captured(&self) -> (r: bool)
        ensures
            r == self is CapturedBy,
    {
        match self {
            CrowState::CapturedBy(_) => true,
            _ => false,
        }
    }

    /// The item the crow is sent to fetch, if it is fetching one.
    pub fn grab_target(&self) -> (r: Option<EntityId>)
        ensures
            r == (match *self {
                CrowState::GrabCarryable(item) => Some(item),
                _ => None,
            }),
    {
        match self {
            CrowState::GrabCarryable(item) => Some(*item),
            _ => None,
        }
    }

    /// A crow fetching an item picks it up once the item is within reach and
    /// heads home with it; the answer is the item picked up.
    pub fn pick_up(&mut self, item_in_reach: bool) -> (picked: Option<EntityId>)
        ensures
            picked == (match *old(self) {
                CrowState::GrabCarryable(item) => if item_in_reach { Some(item) } else { None },
                _ => None,
            }),
            picked is Some ==> *final(self) is ReturningToRoost,
            picked is None ==> *final(self) == *old(self),
    {
        match *self {
            CrowState::GrabCarryable(item) => {
                if item_in_reach {
                    *self = CrowState::ReturningToRoost;
                    Some(item)
                } else {
                    None
                }
            },
            _ => None,
        }
    }

    /// A carrying crow that reaches the roost drops its load there and goes
    /// back to following the leader, unless it is held captive. The answer
    /// tells whether the load was delivered.
    pub fn deliver(&mut self, at_roost: bool) -> (delivered: bool)
        ensures
            delivered == (at_roost && !(*old(self) is CapturedBy)),
            delivered ==> *final(self) is FollowLeader,
            !delivered ==> *final(self) == *old(self),
    {
        if self.is_captured() || !at_roost {
            false
        } else {
            *self = CrowState::FollowLeader;
            true
        }
    }

    /// An injured crow resting at the roost recovers there; when its
    /// recovery time is up it rejoins the leader. The answer tells whether it
    /// has recovered.
    pub fn rest(&mut self, recovery_over: bool) -> (recovered: bool)
        ensures
            recovered == recovery_over,
            recovered ==> *final(self) is FollowLeader,
            !recovered ==> *final(self) is RecoveringFromInjury,
    {
        if recovery_over {
            *self = CrowState::FollowLeader;
        } else {
            *self = CrowState::RecoveringFromInjury;
        }
        recovery_over
    }

    /// A crow sent for an item that no longer lies about goes back to the
    /// leader.
    pub fn forget_missing_item(&mut self, item_present: bool)
        ensures
            (*old(self) is GrabCarryable && !item_present) ==> *final(self) is FollowLeader,
            !(*old(self) is GrabCarryable && !item_present) ==> *final(self) == *old(self),
    {
        if let CrowState::GrabCarryable(_) = *self {
            if !item_present {
                *self = CrowState::FollowLeader;
            }
        }
    }

    /// A crow caught by `captor`.
    pub fn capture(&mut self, captor: EntityId)
        ensures
            *final(self) == CrowState::<P>::CapturedBy(captor),
    {
        *self = CrowState::CapturedBy(captor);
    }

    /// A crow that has been hurt heads home to the roost (and drops what it
    /// carried).
    pub fn injure(&mut self)
        ensures
            *final(self) is ReturningToRoost,
    {
        *self = CrowState::ReturningToRoost;
    }
}

/// Every crow that obeys commands can be attacked: only captive and
/// recovering crows are safe, and those do not obey.
pub proof fn obedient_crows_are_exposed<P>(s: CrowState<P>)
    ensures
        s.accepts_commands() ==> s.is_attackable(),
{
}

/// A crow carrying something home, captive or recovering ignores commands.
pub proof fn busy_crows_ignore_commands<P>(s: CrowState<P>)
    ensures
        (s is ReturningToRoost || s is CapturedBy || s is RecoveringFromInjury) ==> !s.accepts_commands(),
{
}

/// What to do about a crow's cry of distress after its state changed.
#[derive(Clone, Copy, Debug, PartialEq, Eq, Structural)]
pub enum DistressCall {
    /// Start the cry: the crow was just caught.
    Start,
    /// Stop the cry: the crow is free again.
    Stop,
    /// Leave things as they are.
    Keep,
}

/// A captive crow cries out until it is free; `crying` tells whether it
/// already does.
pub fn distress_call<P>(state: &CrowState<P>, crying: bool) -> (r: DistressCall)
    ensures
        r == (if (*state is CapturedBy) && !crying {
            DistressCall::Start
        } else if !(*state is CapturedBy) && crying {
            DistressCall::Stop
        } else {
            DistressCall::Keep
        }),
{
    let captured = match state {
        CrowState::CapturedBy(_) => true,
        _ => false,
    };
    if captured && !crying {
        DistressCall::Start
    } else if !captured && crying {
        DistressCall::Stop
    } else {
        DistressCall::Keep
    }
}

/// The states that obey the player are following, seeking, fetching and
/// mobbing; the ones a predator or hazard can catch are all but captive and
/// recovering; a carrion crow has strength 1 and a raven 3.
pub proof fn crow_state_classes<P>(s: CrowState<P>)
    ensures
        s.accepts_commands() <==> (s is FollowLeader || s is SeekTarget || s is GrabCarryable || s is Mobbing),
        s.is_attackable() <==> (s is FollowLeader || s is SeekTarget || s is ReturningToRoost || s is GrabCarryable
            || s is Mobbing),
        Species::Carrion.strength() == 1 && Species::Raven.strength() == 3,
{
}

} // verus!
