use vstd::prelude::*;
use rand::seq::IteratorRandom;

use crate::crow::{CrowState, EntityId, Species};
use crate::order::{is_sorted_order, sort_positions_by_key, sorted_order};

verus! {

/// What the flock's commands need to know of one crow.
#[derive(Clone, Copy, Debug)]
pub struct FlockMember<P> {
    pub state: CrowState<P>,
    pub species: Species,
    /// The crow holds an item.
    pub carrying: bool,
    /// The index of the crow's entity; it breaks ties between equally
    /// strong crows.
    pub index: u32,
}

/// What the player clicked on when directing the flock.
#[derive(Clone, Copy, Debug)]
pub enum DirectTarget {
    /// An item to pick up, with its weight in whole strength units.
    Carryable { item: EntityId, weight: u32 },
    /// Something to mob, with the total strength needed to intimidate it.
    Mobbable { target: EntityId, minimum: u32 },
    /// The roost.
    Roost,
    /// Open ground (the position is passed alongside).
    Ground,
}

/// The groups of crows the commands select from.
pub enum MemberFilter {
    /// Free of any load and obeying commands.
    Free,
    /// Free, obeying, and of exactly this strength.
    FreeOfStrength(u32),
}

pub open spec fn is_free_follower<P>(m: FlockMember<P>) -> bool {
    !m.carrying && m.state.accepts_commands()
}

pub open spec fn member_matches<P>(m: FlockMember<P>, filter: MemberFilter) -> bool {
    match filter {
        MemberFilter::Free => is_free_follower(m),
        MemberFilter::FreeOfStrength(s) => is_free_follower(m) && m.species.strength() == s,
    }
}

/// The positions of the members that pass `filter`, in increasing order.
pub open spec fn positions_matching<P>(ms: Seq<FlockMember<P>>, filter: MemberFilter) -> Seq<usize>
    decreases ms.len(),
{
    if ms.len() == 0 {
        Seq::empty()
    } else {
        let rest = positions_matching(ms.drop_last(), filter);
        if member_matches(ms.last(), filter) {
            rest.push((ms.len() - 1) as usize)
        } else {
            rest
        }
    }
}

/// `positions_matching` lists exactly the matching positions, each once, in
/// increasing order.
pub proof fn positions_matching_exact<P>(ms: Seq<FlockMember<P>>, filter: MemberFilter)
    requires
        ms.len() <= usize::MAX,
    ensures
        ({
            let r = positions_matching(ms, filter);
            &&& r.len() <= ms.len()
            &&& forall|k: int| 0 <= k < r.len() ==> (#[trigger] r[k]) < ms.len() && member_matches(ms[r[k] as int], filter)
            &&& forall|p: int| 0 <= p < ms.len() ==> (member_matches(ms[p], filter) <==> #[trigger] r.contains(p as usize))
            &&& forall|a: int, b: int| 0 <= a < b < r.len() ==> #[trigger] r[a] < #[trigger] r[b]
        }),
    decreases ms.len(),
{
    if ms.len() > 0 {
        let init = ms.drop_last();
        let last = ms.len() - 1;
        positions_matching_exact(init, filter);
        let rest = positions_matching(init, filter);
        let r = positions_matching(ms, filter);
        assert(ms[last] == ms.last());
        assert forall|p: int| 0 <= p < init.len() implies #[trigger] init[p] == ms[p] by {}
        if member_matches(ms.last(), filter) {
            assert(r == rest.push(last as usize));
            assert forall|k: int| 0 <= k < r.len() implies (#[trigger] r[k]) < ms.len() && member_matches(ms[r[k] as int], filter) by {
                if k < rest.len() {
                    assert(r[k] == rest[k]);
                    assert(rest[k] < init.len());
                    assert(member_matches(init[rest[k] as int], filter));
                    assert(init[rest[k] as int] == ms[rest[k] as int]);
                    assert(member_matches(ms[r[k] as int], filter));
                } else {
                    assert(r[k] == last as usize);
                    assert(member_matches(ms[r[k] as int], filter));
                }
            }
            assert forall|p: int| 0 <= p < ms.len() implies (member_matches(ms[p], filter) <==> #[trigger] r.contains(p as usize)) by {
                if p < last {
                    if member_matches(ms[p], filter) {
                        assert(member_matches(init[p], filter));
                        assert(rest.contains(p as usize));
                        let k = choose|k: int| 0 <= k < rest.len() && rest[k] == p as usize;
                        assert(r[k] == p as usize);
                    }
                    if r.contains(p as usize) {
                        let k = choose|k: int| 0 <= k < r.len() && r[k] == p as usize;
                        if k < rest.len() {
                            assert(rest[k] == p as usize);
                            assert(rest.contains(p as usize));
                            assert(member_matches(init[p], filter));
                        }
                    }
                } else {
                    assert(r[r.len() - 1] == p as usize);
                }
            }
            assert forall|a: int, b: int| 0 <= a < b < r.len() implies #[trigger] r[a] < #[trigger] r[b] by {
                if b < rest.len() {
                    assert(r[a] == rest[a] && r[b] == rest[b]);
                } else {
                    assert(r[a] == rest[a]);
                    assert(rest[a] < init.len());
                }
            }
        } else {
            assert(r == rest);
            assert forall|k: int| 0 <= k < r.len() implies (#[trigger] r[k]) < ms.len() && member_matches(ms[r[k] as int], filter) by {
                assert(init[rest[k] as int] == ms[rest[k] as int]);
            }
            assert forall|p: int| 0 <= p < ms.len() implies (member_matches(ms[p], filter) <==> #[trigger] r.contains(p as usize)) by {
                if p < last {
                    assert(init[p] == ms[p]);
                    assert(member_matches(init[p], filter) <==> rest.contains(p as usize));
                } else {
                    if r.contains(p as usize) {
                        let k = choose|k: int| 0 <= k < r.len() && r[k] == p as usize;
                        assert(rest[k] < init.len());
                    }
                }
            }
        }
    }
}

/// Collects `positions_matching(members, filter)`.
fn collect_positions<P: Copy>(members: &Vec<FlockMember<P>>, filter: MemberFilter) -> (r: Vec<usize>)
    ensures
        r@ == positions_matching(members@, filter),
{
    let mut r: Vec<usize> = Vec::new();
    let mut i: usize = 0;
    while i < members.len()
        invariant
            i <= members.len(),
            r@ == positions_matching(members@.take(i as int), filter),
        decreases members.len() - i,
    {
        let m = members[i];
        let keep = match filter {
            MemberFilter::Free => !m.carrying && m.state.accepts_commands(),
            MemberFilter::FreeOfStrength(s) => !m.carrying && m.state.accepts_commands()
                && m.species.strength() == s,
        };
        proof {
            assert(members@.take(i + 1).drop_last() =~= members@.take(i as int));
            assert(members@.take(i + 1).last() == m);
        }
        if keep {
            r.push(i);
        }
        i = i + 1;
    }
    proof {
        assert(members@.take(members.len() as int) =~= members@);
    }
    r
}

// ---------------------------------------------------------------------------
// Recall

/// What a recall does to one crow: every crow that obeys commands and is not
/// already following the leader goes back to following the leader.
pub open spec fn recalled<P>(s: CrowState<P>) -> CrowState<P> {
    if s.accepts_commands() && !(s is FollowLeader) {
        CrowState::FollowLeader
    } else {
        s
    }
}

/// Calls every obedient crow back to the leader. The answer is `true` when
/// at least one crow changed its course (the player hears the call).
pub fn recall<P: Copy>(states: &mut Vec<CrowState<P>>) -> (acknowledged: bool)
    ensures
        final(states)@.len() == old(states)@.len(),
        forall|i: int| 0 <= i < old(states)@.len() ==> #[trigger] final(states)@[i] == recalled(old(states)@[i]),
        acknowledged <==> exists|i: int| 0 <= i < old(states)@.len() && (#[trigger] old(states)@[i]).accepts_commands() && !(old(states)@[i] is FollowLeader),
{
    let ghost before = states@;
    let mut acknowledged = false;
    let mut i: usize = 0;
    while i < states.len()
        invariant
            i <= states.len(),
            states@.len() == before.len(),
            forall|j: int| 0 <= j < i ==> states@[j] == recalled(#[trigger] before[j]),
            forall|j: int| i <= j < before.len() ==> states@[j] == before[j],
            acknowledged <==> exists|j: int| 0 <= j < i && (#[trigger] before[j]).accepts_commands() && !(before[j] is FollowLeader),
        decreases states.len() - i,
    {
        let s = states[i];
        let obeys = s.accepts_commands();
        let following = match s {
            CrowState::FollowLeader => true,
            _ => false,
        };
        proof {
            assert(s == before[i as int]);
        }
        if obeys && !following {
            states[i] = CrowState::FollowLeader;
            acknowledged = true;
        }
        i = i + 1;
    }
    acknowledged
}

/// A second recall right after a first one changes nothing and is not
/// acknowledged.
pub proof fn recall_is_idempotent<P>(s: CrowState<P>)
    ensures
        recalled(recalled(s)) == recalled(s),
        !(recalled(s).accepts_commands() && !(recalled(s) is FollowLeader)),
{
}

// ---------------------------------------------------------------------------
// Directing a crow to carry an item

/// The crow may be sent to lift an item of this weight.
pub open spec fn can_lift<P>(m: FlockMember<P>, weight: u32) -> bool {
    is_free_follower(m) && m.species.strength() >= weight
}

/// The least strength among the crows that can lift `weight`, if any can.
pub open spec fn weakest_lifter<P>(ms: Seq<FlockMember<P>>, weight: u32) -> Option<u32>
    decreases ms.len(),
{
    if ms.len() == 0 {
        None
    } else {
        let rest = weakest_lifter(ms.drop_last(), weight);
        let m = ms.last();
        if can_lift(m, weight) {
            match rest {
                Some(s) => Some(if m.species.strength() < s { m.species.strength() } else { s }),
                None => Some(m.species.strength()),
            }
        } else {
            rest
        }
    }
}

/// `weakest_lifter` is the least strength of a crow able to lift the weight.
pub proof fn weakest_lifter_is_least<P>(ms: Seq<FlockMember<P>>, weight: u32)
    ensures
        weakest_lifter(ms, weight) is None <==> forall|i: int| 0 <= i < ms.len() ==> !can_lift(#[trigger] ms[i], weight),
        weakest_lifter(ms, weight) matches Some(s) ==> {
            &&& s >= weight
            &&& exists|i: int| 0 <= i < ms.len() && can_lift(#[trigger] ms[i], weight) && ms[i].species.strength() == s
            &&& forall|i: int| 0 <= i < ms.len() && can_lift(#[trigger] ms[i], weight) ==> s <= ms[i].species.strength()
        },
    decreases ms.len(),
{
    if ms.len() > 0 {
        let init = ms.drop_last();
        weakest_lifter_is_least(init, weight);
        let last = ms.len() - 1;
        let m = ms.last();
        assert(ms[last] == m);
        assert forall|i: int| 0 <= i < init.len() implies #[trigger] init[i] == ms[i] by {}
        let rest = weakest_lifter(init, weight);
        if can_lift(m, weight) {
            match rest {
                Some(s) => {
                    let w = choose|i: int| 0 <= i < init.len() && can_lift(#[trigger] init[i], weight) && init[i].species.strength() == s;
                    assert(ms[w] == init[w]);
                    assert forall|i: int| 0 <= i < ms.len() && can_lift(#[trigger] ms[i], weight) implies weakest_lifter(ms, weight)->0 <= ms[i].species.strength() by {
                        if i < last {
                            assert(init[i] == ms[i]);
                        }
                    }
                }
                None => {
                    assert forall|i: int| 0 <= i < ms.len() && can_lift(#[trigger] ms[i], weight) implies weakest_lifter(ms, weight)->0 <= ms[i].species.strength() by {
                        if i < last {
                            assert(init[i] == ms[i]);
                        }
                    }
                }
            }
        } else {
            match rest {
                Some(s) => {
                    let w = choose|i: int| 0 <= i < init.len() && can_lift(#[trigger] init[i], weight) && init[i].species.strength() == s;
                    assert(ms[w] == init[w]);
                    assert forall|i: int| 0 <= i < ms.len() && can_lift(#[trigger] ms[i], weight) implies s <= ms[i].species.strength() by {
                        if i < last {
                            assert(init[i] == ms[i]);
                        }
                    }
                }
                None => {
                    assert forall|i: int| 0 <= i < ms.len() implies !can_lift(#[trigger] ms[i], weight) by {
                        if i < last {
                            assert(init[i] == ms[i]);
                        }
                    }
                }
            }
        }
    }
}

/// The crows the carry command picks from: the free, obedient crows of the
/// least strength that suffices for the weight, in the order of `ms`.
pub open spec fn carry_pool<P>(ms: Seq<FlockMember<P>>, weight: u32) -> Seq<usize> {
    match weakest_lifter(ms, weight) {
        Some(s) => positions_matching(ms, MemberFilter::FreeOfStrength(s)),
        None => Seq::empty(),
    }
}

/// Computes `carry_pool(members, weight)`.
pub fn carry_candidates<P: Copy>(members: &Vec<FlockMember<P>>, weight: u32) -> (pool: Vec<usize>)
    ensures
        pool@ == carry_pool(members@, weight),
{
    let mut best: Option<u32> = None;
    let mut i: usize = 0;
    while i < members.len()
        invariant
            i <= members.len(),
            best == weakest_lifter(members@.take(i as int), weight),
        decreases members.len() - i,
    {
        let m = members[i];
        let strength: u32 = m.species.strength();
        proof {
            assert(members@.take(i + 1).drop_last() =~= members@.take(i as int));
            assert(members@.take(i + 1).last() == m);
        }
        if !m.carrying && m.state.accepts_commands() && strength >= weight {
            best = match best {
                Some(s) => Some(if strength < s { strength } else { s }),
                None => Some(strength),
            };
        }
        i = i + 1;
    }
    proof {
        assert(members@.take(members.len() as int) =~= members@);
    }
    match best {
        Some(s) => collect_positions(members, MemberFilter::FreeOfStrength(s)),
        None => Vec::new(),
    }
}

/// The chosen crow is strong enough to lift the item, and no crow that could
/// lift it is weaker.
pub proof fn carrier_is_weakest_sufficient<P>(ms: Seq<FlockMember<P>>, weight: u32, k: int)
    requires
        ms.len() <= usize::MAX,
        0 <= k < carry_pool(ms, weight).len(),
    ensures
        ({
            let c = carry_pool(ms, weight)[k] as int;
            &&& 0 <= c < ms.len()
            &&& can_lift(ms[c], weight)
            &&& forall|j: int| 0 <= j < ms.len() && can_lift(#[trigger] ms[j], weight) ==> ms[c].species.strength() <= ms[j].species.strength()
        }),
{
    weakest_lifter_is_least(ms, weight);
    let s = weakest_lifter(ms, weight)->0;
    positions_matching_exact(ms, MemberFilter::FreeOfStrength(s));
    let pool = carry_pool(ms, weight);
    assert(pool[k] < ms.len());
}

// ---------------------------------------------------------------------------
// Directing crows to mob a target

/// Total of a sequence of strengths.
pub open spec fn total(s: Seq<u32>) -> nat
    decreases s.len(),
{
    if s.len() == 0 {
        0
    } else {
        s[0] as nat + total(s.drop_first())
    }
}

pub proof fn total_push(s: Seq<u32>, x: u32)
    ensures
        total(s.push(x)) == total(s) + x,
    decreases s.len(),
{
    assert(total(Seq::<u32>::empty()) == 0);
    if s.len() > 0 {
        assert(s.push(x).drop_first() =~= s.drop_first().push(x));
        assert(s.push(x)[0] == s[0]);
        total_push(s.drop_first(), x);
    } else {
        assert(s.push(x).drop_first() =~= Seq::<u32>::empty());
        assert(s.push(x)[0] == x);
    }
}

/// How many of the strengths, taken from the front, it takes until their
/// total reaches `need` (all of them if it never does).
pub open spec fn greedy_count(s: Seq<u32>, need: int) -> nat
    decreases s.len(),
{
    if need <= 0 || s.len() == 0 {
        0
    } else {
        1 + greedy_count(s.drop_first(), need - s[0])
    }
}

/// How many of the front strengths can be dropped one by one while the rest
/// still totals at least `minimum`.
pub open spec fn trim_count(s: Seq<u32>, minimum: int) -> nat
    decreases s.len(),
{
    if s.len() == 0 || total(s.drop_first()) < minimum {
        0
    } else {
        1 + trim_count(s.drop_first(), minimum)
    }
}

/// The key that orders mob candidates: by strength, then by entity index.
pub open spec fn mob_key<P>(m: FlockMember<P>) -> u64 {
    (m.species.strength() * 0x1_0000_0000 + m.index) as u64
}

pub open spec fn mob_candidates<P>(ms: Seq<FlockMember<P>>) -> Seq<usize> {
    positions_matching(ms, MemberFilter::Free)
}

pub open spec fn mob_keys<P>(ms: Seq<FlockMember<P>>) -> Seq<u64> {
    mob_candidates(ms).map_values(|p: usize| mob_key(ms[p as int]))
}

/// The free, obedient crows from weakest to strongest (ties by entity
/// index, then by position).
pub open spec fn mob_order<P>(ms: Seq<FlockMember<P>>) -> Seq<usize> {
    sorted_order(mob_keys(ms)).map_values(|k: usize| mob_candidates(ms)[k as int])
}

pub open spec fn mob_strengths<P>(ms: Seq<FlockMember<P>>) -> Seq<u32> {
    mob_order(ms).map_values(|p: usize| ms[p as int].species.strength())
}

/// The crows sent to mob: from the weakest up, crows are added until their
/// total strength reaches `minimum`; then, from the weakest of those, crows
/// are released as long as the others still reach `minimum`.
pub open spec fn mob_recruits<P>(ms: Seq<FlockMember<P>>, minimum: u32) -> Seq<usize> {
    let st = mob_strengths(ms);
    let take = greedy_count(st, minimum as int);
    let cut = trim_count(st.take(take as int), minimum as int);
    mob_order(ms).subrange(cut as int, take as int)
}

/// Computes `mob_recruits(members, minimum)`.
pub fn select_mob<P: Copy>(members: &Vec<FlockMember<P>>, minimum: u32) -> (recruits: Vec<usize>)
    ensures
        recruits@ == mob_recruits(members@, minimum),
{
    let cands = collect_positions(members, MemberFilter::Free);
    proof {
        assert(members@.len() == members.len());
        positions_matching_exact(members@, MemberFilter::Free);
    }
    let mut keys: Vec<u64> = Vec::new();
    let mut k: usize = 0;
    while k < cands.len()
        invariant
            k <= cands.len(),
            cands@ == mob_candidates(members@),
            forall|j: int| 0 <= j < cands@.len() ==> (#[trigger] cands@[j]) < members@.len(),
            keys@.len() == k,
            forall|j: int| 0 <= j < k ==> keys@[j] == mob_key(#[trigger] members@[cands@[j] as int]),
        decreases cands.len() - k,
    {
        let m = members[cands[k]];
        let key: u64 = (m.species.strength() as u64) * 0x1_0000_0000u64 + (m.index as u64);
        keys.push(key);
        k = k + 1;
    }
    proof {
        assert(keys@ =~= mob_keys(members@));
    }
    let sorted = sort_positions_by_key(&keys);
    // positions of the candidates, weakest first
    let mut order: Vec<usize> = Vec::new();
    let mut strengths: Vec<u32> = Vec::new();
    let mut j: usize = 0;
    while j < sorted.len()
        invariant
            j <= sorted.len(),
            sorted@ == sorted_order(mob_keys(members@)),
            is_sorted_order(keys@, sorted@),
            keys@ == mob_keys(members@),
            cands@ == mob_candidates(members@),
            keys@.len() == cands@.len(),
            forall|q: int| 0 <= q < cands@.len() ==> (#[trigger] cands@[q]) < members@.len(),
            order@.len() == j,
            strengths@.len() == j,
            forall|q: int| 0 <= q < j ==> #[trigger] order@[q] == cands@[sorted@[q] as int],
            forall|q: int| 0 <= q < j ==> #[trigger] strengths@[q] == members@[order@[q] as int].species.strength(),
        decreases sorted.len() - j,
    {
        let p: usize = cands[sorted[j]];
        order.push(p);
        strengths.push(members[p].species.strength());
        j = j + 1;
    }
    proof {
        assert(order@ =~= mob_order(members@));
        assert(strengths@ =~= mob_strengths(members@));
    }
    let ghost st = strengths@;
    // add crows, weakest first, until the mob is strong enough
    let mut take: usize = 0;
    let mut acc: u64 = 0;
    proof {
        assert(st.skip(0) =~= st);
        assert(st.take(0) =~= Seq::<u32>::empty());
        assert(total(Seq::<u32>::empty()) == 0);
        assert forall|q: int| 0 <= q < st.len() implies (#[trigger] st[q]) <= 3 by {
            assert(st[q] == members@[order@[q] as int].species.strength());
        }
    }
    while take < strengths.len() && acc < minimum as u64
        invariant
            take <= strengths.len(),
            st == strengths@,
            acc == total(st.take(take as int)),
            acc < minimum as u64 + 4,
            greedy_count(st, minimum as int) == take + greedy_count(st.skip(take as int), minimum - acc),
            forall|q: int| 0 <= q < st.len() ==> (#[trigger] st[q]) <= 3,
        decreases strengths.len() - take,
    {
        proof {
            assert(st.skip(take as int).drop_first() =~= st.skip(take + 1));
            assert(st.take(take + 1) =~= st.take(take as int).push(st[take as int]));
            total_push(st.take(take as int), st[take as int]);
        }
        acc = acc + strengths[take] as u64;
        take = take + 1;
    }
    proof {
        assert(greedy_count(st.skip(take as int), minimum - acc) == 0);
    }
    // release the weakest while the rest still suffice
    let ghost sel = st.take(take as int);
    let mut cut: usize = 0;
    proof {
        assert(sel.skip(0) =~= sel);
    }
    while cut < take && acc - (strengths[cut] as u64) >= minimum as u64
        invariant
            cut <= take,
            take <= strengths.len(),
            st == strengths@,
            sel == st.take(take as int),
            acc == total(sel.skip(cut as int)),
            trim_count(sel, minimum as int) == cut + trim_count(sel.skip(cut as int), minimum as int),
        decreases take - cut,
    {
        proof {
            assert(sel.skip(cut as int).drop_first() =~= sel.skip(cut + 1));
            assert(sel.skip(cut as int)[0] == strengths@[cut as int]);
        }
        acc = acc - strengths[cut] as u64;
        cut = cut + 1;
    }
    proof {
        if cut < take {
            assert(sel.skip(cut as int).drop_first() =~= sel.skip(cut + 1));
            assert(sel.skip(cut as int)[0] == strengths@[cut as int]);
        } else {
            assert(sel.skip(cut as int) =~= Seq::<u32>::empty());
        }
        assert(trim_count(sel.skip(cut as int), minimum as int) == 0);
    }
    let mut recruits: Vec<usize> = Vec::new();
    let mut q: usize = cut;
    while q < take
        invariant
            cut <= q <= take,
            take <= order.len(),
            recruits@ =~= order@.subrange(cut as int, q as int),
        decreases take - q,
    {
        recruits.push(order[q]);
        q = q + 1;
    }
    recruits
}

/// The mob sent after a target is strong enough whenever the free crows
/// together are, and no larger than needed: without its weakest member it
/// would fall short. When the free crows together are too weak, all of them
/// go. Every recruit is a free crow that obeys commands.
pub proof fn mob_is_sufficient_and_minimal<P>(ms: Seq<FlockMember<P>>, minimum: u32)
    requires
        ms.len() <= usize::MAX,
    ensures
        ({
            let r = mob_recruits(ms, minimum);
            let rs = r.map_values(|p: usize| ms[p as int].species.strength());
            &&& total(mob_strengths(ms)) >= minimum ==> total(rs) >= minimum
            &&& total(mob_strengths(ms)) < minimum ==> r == mob_order(ms)
            &&& r.len() > 0 ==> total(rs.drop_first()) < minimum
            &&& forall|k: int| 0 <= k < r.len() ==> (#[trigger] r[k]) < ms.len() && is_free_follower(ms[r[k] as int])
        }),
{
    let st = mob_strengths(ms);
    let take = greedy_count(st, minimum as int);
    greedy_count_reaches(st, minimum as int);
    let sel = st.take(take as int);
    let cut = trim_count(sel, minimum as int);
    trim_count_keeps_enough(sel, minimum as int);
    let r = mob_recruits(ms, minimum);
    let rs = r.map_values(|p: usize| ms[p as int].species.strength());
    assert(rs =~= sel.skip(cut as int));
    if total(st) < minimum {
        assert(st.take(st.len() as int) =~= st);
        trim_count_of_short(sel, minimum as int);
        assert(r =~= mob_order(ms));
    }
    if r.len() > 0 {
        assert(rs.drop_first() =~= sel.skip(cut as int).drop_first());
    }
    // recruits are candidates
    let cands = mob_candidates(ms);
    positions_matching_exact(ms, MemberFilter::Free);
    let keys = mob_keys(ms);
    let order = sorted_order(keys);
    assert forall|k: int| 0 <= k < r.len() implies (#[trigger] r[k]) < ms.len() && is_free_follower(ms[r[k] as int]) by {
        assert(r[k] == mob_order(ms)[cut + k]);
        crate::order::sorted_order_exists(keys);
        assert(order[cut + k] < keys.len());
        assert(r[k] == cands[order[cut + k] as int]);
    }
}

/// Taking strengths from the front until `need` is reached: the taken total
/// reaches `need` when the whole does, and everything is taken when it does
/// not.
pub proof fn greedy_count_reaches(s: Seq<u32>, need: int)
    ensures
        greedy_count(s, need) <= s.len(),
        total(s) >= need ==> total(s.take(greedy_count(s, need) as int)) >= need,
        total(s) < need ==> greedy_count(s, need) == s.len(),
    decreases s.len(),
{
    assert(total(Seq::<u32>::empty()) == 0);
    if need <= 0 || s.len() == 0 {
        assert(s.take(0) =~= Seq::<u32>::empty());
    } else {
        let rest = s.drop_first();
        greedy_count_reaches(rest, need - s[0]);
        let g = greedy_count(rest, need - s[0]);
        assert(s.take(g as int + 1).drop_first() =~= rest.take(g as int));
        assert(s.take(g as int + 1)[0] == s[0]);
    }
}

/// Dropping strengths from the front while the rest reaches `minimum` leaves
/// a rest that still reaches it (when the whole did), and that would fall
/// short without its first element.
pub proof fn trim_count_keeps_enough(s: Seq<u32>, minimum: int)
    ensures
        trim_count(s, minimum) <= s.len(),
        total(s) >= minimum ==> total(s.skip(trim_count(s, minimum) as int)) >= minimum,
        trim_count(s, minimum) < s.len() ==> total(s.skip(trim_count(s, minimum) as int).drop_first()) < minimum,
    decreases s.len(),
{
    assert(s.skip(0) =~= s);
    if s.len() == 0 || total(s.drop_first()) < minimum {
    } else {
        let rest = s.drop_first();
        trim_count_keeps_enough(rest, minimum);
        let t = trim_count(rest, minimum);
        assert(s.skip(t as int + 1) =~= rest.skip(t as int));
    }
}

/// When the strengths total less than `minimum`, nothing is dropped.
pub proof fn trim_count_of_short(s: Seq<u32>, minimum: int)
    requires
        total(s) < minimum,
    ensures
        trim_count(s, minimum) == 0,
{
    if s.len() > 0 {
        assert(total(s) == s[0] + total(s.drop_first()));
    }
}

/// Some crow can be sent for the item exactly when a free, obedient crow is
/// strong enough to lift it.
pub proof fn carry_pool_nonempty_iff_liftable<P>(ms: Seq<FlockMember<P>>, weight: u32)
    requires
        ms.len() <= usize::MAX,
    ensures
        carry_pool(ms, weight).len() > 0 <==> exists|i: int| 0 <= i < ms.len() && can_lift(#[trigger] ms[i], weight),
{
    weakest_lifter_is_least(ms, weight);
    if let Some(s) = weakest_lifter(ms, weight) {
        positions_matching_exact(ms, MemberFilter::FreeOfStrength(s));
        let w = choose|i: int| 0 <= i < ms.len() && can_lift(#[trigger] ms[i], weight) && ms[i].species.strength() == s;
        assert(member_matches(ms[w], MemberFilter::FreeOfStrength(s)));
        assert(carry_pool(ms, weight).contains(w as usize));
    }
}

// ---------------------------------------------------------------------------
// Directing the flock

/// `pick` is a draw among `n` crows: nothing from nothing, else a position
/// below `n`.
pub open spec fn pick_fits(n: nat, pick: Option<usize>) -> bool {
    &&& (pick is None <==> n == 0)
    &&& (pick matches Some(k) ==> k < n)
}

/// The crow sent for the item, given the draw `pick` among the carry pool.
pub open spec fn chosen_carrier<P>(ms: Seq<FlockMember<P>>, weight: u32, pick: Option<usize>) -> Option<usize> {
    match pick {
        Some(k) => if k < carry_pool(ms, weight).len() {
            Some(carry_pool(ms, weight)[k as int])
        } else {
            None
        },
        None => None,
    }
}

/// The new state of crow `i` after the player directs the flock at `target`
/// (clicked at `position`).
pub open spec fn directed_state<P>(
    ms: Seq<FlockMember<P>>,
    target: DirectTarget,
    position: P,
    pick: Option<usize>,
    i: int,
) -> CrowState<P> {
    let s = ms[i].state;
    match target {
        DirectTarget::Carryable { item, weight } => if chosen_carrier(ms, weight, pick) == Some(i as usize) {
            CrowState::GrabCarryable(item)
        } else {
            s
        },
        DirectTarget::Mobbable { target, minimum } => if mob_recruits(ms, minimum).contains(i as usize) {
            CrowState::Mobbing(target)
        } else {
            s
        },
        DirectTarget::Roost => if ms[i].carrying && s.accepts_commands() {
            CrowState::ReturningToRoost
        } else {
            s
        },
        DirectTarget::Ground => if s.accepts_commands() && !(s is GrabCarryable) {
            CrowState::SeekTarget(position)
        } else {
            s
        },
    }
}

/// Whether any crow took the command (the player hears it acknowledged).
pub open spec fn direct_acknowledged<P>(ms: Seq<FlockMember<P>>, target: DirectTarget, pick: Option<usize>) -> bool {
    match target {
        DirectTarget::Carryable { weight, .. } => chosen_carrier(ms, weight, pick) is Some,
        DirectTarget::Mobbable { minimum, .. } => mob_recruits(ms, minimum).len() > 0,
        DirectTarget::Roost => exists|i: int| 0 <= i < ms.len() && (#[trigger] ms[i]).carrying && ms[i].state.accepts_commands(),
        DirectTarget::Ground => exists|i: int|
            0 <= i < ms.len() && (#[trigger] ms[i]).state.accepts_commands() && !(ms[i].state is GrabCarryable),
    }
}

/// `after` is `before` with every crow's state directed at `target`, and
/// `acknowledged` tells whether any crow took the command.
pub open spec fn direct_outcome<P>(
    before: Seq<FlockMember<P>>,
    after: Seq<FlockMember<P>>,
    target: DirectTarget,
    position: P,
    pick: Option<usize>,
    acknowledged: bool,
) -> bool {
    &&& after.len() == before.len()
    &&& forall|i: int| 0 <= i < before.len() ==> {
        &&& (#[trigger] after[i]).state == directed_state(before, target, position, pick, i)
        &&& after[i].species == before[i].species
        &&& after[i].carrying == before[i].carrying
        &&& after[i].index == before[i].index
    }
    &&& acknowledged == direct_acknowledged(before, target, pick)
}

fn vec_contains(v: &Vec<usize>, x: usize) -> (r: bool)
    ensures
        r == v@.contains(x),
{
    let mut i: usize = 0;
    while i < v.len()
        invariant
            i <= v.len(),
            forall|j: int| 0 <= j < i ==> v@[j] != x,
        decreases v.len() - i,
    {
        if v[i] == x {
            return true;
        }
        i = i + 1;
    }
    false
}

/// Directs the flock at `target`, with `pick` the draw among the carry pool
/// when the target is an item.
pub fn direct_with_pick<P: Copy>(
    members: &mut Vec<FlockMember<P>>,
    target: DirectTarget,
    position: P,
    pick: Option<usize>,
) -> (acknowledged: bool)
    ensures
        direct_outcome(old(members)@, final(members)@, target, position, pick, acknowledged),
        target is Ground ==> ground_command_outcome(old(members)@, final(members)@, position, acknowledged),
        target is Roost ==> roost_command_outcome(old(members)@, final(members)@, acknowledged),
{
    let ghost before = members@;
    let mut chosen: Option<usize> = None;
    let mut recruits: Vec<usize> = Vec::new();
    match target {
        DirectTarget::Carryable { item, weight } => {
            let pool = carry_candidates(members, weight);
            chosen = match pick {
                Some(k) => if k < pool.len() {
                    Some(pool[k])
                } else {
                    None
                },
                None => None,
            };
        },
        DirectTarget::Mobbable { target, minimum } => {
            recruits = select_mob(members, minimum);
        },
        _ => {},
    }
    let mut acknowledged = false;
    let mut i: usize = 0;
    while i < members.len()
        invariant
            i <= members.len(),
            members@.len() == before.len(),
            target is Carryable ==> chosen == chosen_carrier(before, target->weight, pick),
            target is Mobbable ==> recruits@ == mob_recruits(before, target->minimum),
            forall|j: int| 0 <= j < i ==> {
                &&& (#[trigger] members@[j]).state == directed_state(before, target, position, pick, j)
                &&& members@[j].species == before[j].species
                &&& members@[j].carrying == before[j].carrying
                &&& members@[j].index == before[j].index
            },
            forall|j: int| i <= j < before.len() ==> #[trigger] members@[j] == before[j],
            target is Roost ==> (acknowledged <==> exists|j: int| 0 <= j < i && (#[trigger] before[j]).carrying && before[j].state.accepts_commands()),
            target is Ground ==> (acknowledged <==> exists|j: int|
                0 <= j < i && (#[trigger] before[j]).state.accepts_commands() && !(before[j].state is GrabCarryable)),
        decreases members.len() - i,
    {
        let m = members[i];
        proof {
            assert(m == before[i as int]);
        }
        let new_state = match target {
            DirectTarget::Carryable { item, .. } => if chosen == Some(i) {
                CrowState::GrabCarryable(item)
            } else {
                m.state
            },
            DirectTarget::Mobbable { target, .. } => if vec_contains(&recruits, i) {
                CrowState::Mobbing(target)
            } else {
                m.state
            },
            DirectTarget::Roost => if m.carrying && m.state.accepts_commands() {
                acknowledged = true;
                CrowState::ReturningToRoost
            } else {
                m.state
            },
            DirectTarget::Ground => {
                let grabbing = match m.state {
                    CrowState::GrabCarryable(_) => true,
                    _ => false,
                };
                if m.state.accepts_commands() && !grabbing {
                    acknowledged = true;
                    CrowState::SeekTarget(position)
                } else {
                    m.state
                }
            },
        };
        members[i] = FlockMember { state: new_state, species: m.species, carrying: m.carrying, index: m.index };
        i = i + 1;
    }
    match target {
        DirectTarget::Carryable { .. } => {
            acknowledged = chosen.is_some();
        },
        DirectTarget::Mobbable { .. } => {
            acknowledged = recruits.len() > 0;
        },
        _ => {},
    }
    proof {
        if target is Ground {
            ground_command_sends_obedient_crows(before, position, pick);
        }
        if target is Roost {
            roost_command_recalls_obedient_carriers(before, position, pick);
        }
    }
    acknowledged
}

/// `rand`'s `IteratorRandom::choose` over the positions `0..n`, with the
/// thread-local generator of `rand::rng()`. Claimed of every draw: nothing
/// is drawn from nothing, and a drawn position is below `n`. Which position
/// comes out depends on the generator and is not stated.
#[verifier::external_body]
fn choose_position(n: usize) -> (r: Option<usize>)
    ensures
        pick_fits(n as nat, r),
{
    (0..n).choose(&mut rand::rng())
}

/// Directs the flock at `target`, clicked at `position`. Sent after an item,
/// one crow of the carry pool, drawn at random, goes for it; sent at a
/// mobbable target, the mob of `mob_recruits` goes; sent at the roost, every
/// obedient crow that carries something returns; sent at open ground, every
/// obedient crow not already fetching an item seeks the spot. The answer is
/// `true` when some crow took the command.
pub fn direct<P: Copy>(members: &mut Vec<FlockMember<P>>, target: DirectTarget, position: P) -> (acknowledged: bool)
    ensures
        target is Carryable ==> exists|pick: Option<usize>|
            pick_fits(carry_pool(old(members)@, target->weight).len(), pick)
            && direct_outcome(old(members)@, final(members)@, target, position, pick, acknowledged),
        !(target is Carryable) ==> direct_outcome(old(members)@, final(members)@, target, position, None, acknowledged),
{
    let pick = match target {
        DirectTarget::Carryable { weight, .. } => {
            let pool = carry_candidates(members, weight);
            choose_position(pool.len())
        },
        _ => None,
    };
    direct_with_pick(members, target, position, pick)
}

/// Mob candidates are listed weakest first.
pub proof fn mob_order_weakest_first<P>(ms: Seq<FlockMember<P>>, a: int, b: int)
    requires
        ms.len() <= usize::MAX,
        0 <= a < b < mob_order(ms).len(),
    ensures
        mob_strengths(ms)[a] <= mob_strengths(ms)[b],
{
    let keys = mob_keys(ms);
    let cands = mob_candidates(ms);
    positions_matching_exact(ms, MemberFilter::Free);
    crate::order::sorted_order_exists(keys);
    let o = sorted_order(keys);
    assert(crate::order::key_before(keys, o[a] as int, o[b] as int));
    let pa = cands[o[a] as int];
    let pb = cands[o[b] as int];
    assert(keys[o[a] as int] == mob_key(ms[pa as int]));
    assert(keys[o[b] as int] == mob_key(ms[pb as int]));
    assert(mob_order(ms)[a] == pa && mob_order(ms)[b] == pb);
}

/// When some free, obedient crow can lift the item, a draw among the carry
/// pool always sends one, and it can lift the item.
pub proof fn carrier_sent_when_liftable<P>(ms: Seq<FlockMember<P>>, weight: u32, pick: Option<usize>)
    requires
        ms.len() <= usize::MAX,
        pick_fits(carry_pool(ms, weight).len(), pick),
        exists|i: int| 0 <= i < ms.len() && can_lift(#[trigger] ms[i], weight),
    ensures
        chosen_carrier(ms, weight, pick) matches Some(c) && c < ms.len() && can_lift(ms[c as int], weight),
{
    carry_pool_nonempty_iff_liftable(ms, weight);
    let k = pick->0;
    carrier_is_weakest_sufficient(ms, weight, k as int);
}

/// Directing the flock leaves every crow that does not obey commands
/// (captive, recovering, or carrying its load home) as it was.
pub proof fn direct_ignores_busy_crows<P>(
    ms: Seq<FlockMember<P>>,
    target: DirectTarget,
    position: P,
    pick: Option<usize>,
    i: int,
)
    requires
        ms.len() <= usize::MAX,
        0 <= i < ms.len(),
        !ms[i].state.accepts_commands(),
    ensures
        directed_state(ms, target, position, pick, i) == ms[i].state,
{
    match target {
        DirectTarget::Carryable { item, weight } => {
            if let Some(k) = pick {
                if k < carry_pool(ms, weight).len() {
                    carrier_is_weakest_sufficient(ms, weight, k as int);
                }
            }
        },
        DirectTarget::Mobbable { target, minimum } => {
            mob_is_sufficient_and_minimal(ms, minimum);
            let r = mob_recruits(ms, minimum);
            if r.contains(i as usize) {
                let k = choose|k: int| 0 <= k < r.len() && r[k] == i as usize;
                assert(is_free_follower(ms[r[k] as int]));
            }
        },
        _ => {},
    }
}

/// A crow in one of the states that obey commands: following the leader,
/// seeking a spot, fetching an item or mobbing.
pub open spec fn obedient_state<P>(s: CrowState<P>) -> bool {
    s is FollowLeader || s is SeekTarget || s is GrabCarryable || s is Mobbing
}

/// Sent at open ground: every crow that follows the leader, seeks a spot or
/// mobs (whether or not it carries something) heads for `position`; every
/// other crow keeps its state; the command is heard exactly when some crow
/// heads there.
pub open spec fn ground_command_outcome<P>(
    before: Seq<FlockMember<P>>,
    after: Seq<FlockMember<P>>,
    position: P,
    acknowledged: bool,
) -> bool {
    &&& after.len() == before.len()
    &&& forall|i: int| 0 <= i < before.len() ==> (#[trigger] after[i]).state == (if before[i].state is FollowLeader
        || before[i].state is SeekTarget || before[i].state is Mobbing {
        CrowState::SeekTarget(position)
    } else {
        before[i].state
    })
    &&& acknowledged == exists|i: int| 0 <= i < before.len() && ((#[trigger] before[i]).state is FollowLeader
        || before[i].state is SeekTarget || before[i].state is Mobbing)
}

/// Sent at the roost: every crow that carries something and obeys commands
/// heads home; every other crow keeps its state; the command is heard exactly
/// when some crow heads home.
pub open spec fn roost_command_outcome<P>(before: Seq<FlockMember<P>>, after: Seq<FlockMember<P>>, acknowledged: bool) -> bool {
    &&& after.len() == before.len()
    &&& forall|i: int| 0 <= i < before.len() ==> (#[trigger] after[i]).state == (if before[i].carrying && obedient_state(
        before[i].state,
    ) {
        CrowState::ReturningToRoost
    } else {
        before[i].state
    })
    &&& acknowledged == exists|i: int| 0 <= i < before.len() && (#[trigger] before[i]).carrying && obedient_state(before[i].state)
}

/// Directing the flock at open ground sends every crow that follows the
/// leader, seeks a spot or mobs to the spot, leaves crows fetching an item and
/// crows that do not obey as they were, and is heard exactly when some crow
/// goes.
pub proof fn ground_command_sends_obedient_crows<P>(ms: Seq<FlockMember<P>>, position: P, pick: Option<usize>)
    ensures
        forall|i: int| 0 <= i < ms.len() ==> #[trigger] directed_state(ms, DirectTarget::Ground, position, pick, i) == (
            if ms[i].state is FollowLeader || ms[i].state is SeekTarget || ms[i].state is Mobbing {
                CrowState::SeekTarget(position)
            } else {
                ms[i].state
            }),
        direct_acknowledged(ms, DirectTarget::Ground, pick) == exists|i: int| 0 <= i < ms.len() && ((#[trigger] ms[i]).state is FollowLeader
            || ms[i].state is SeekTarget || ms[i].state is Mobbing),
{
    if direct_acknowledged(ms, DirectTarget::Ground, pick) {
        let w = choose|i: int| 0 <= i < ms.len() && (#[trigger] ms[i]).state.accepts_commands() && !(ms[i].state is GrabCarryable);
        assert(ms[w].state is FollowLeader || ms[w].state is SeekTarget || ms[w].state is Mobbing);
    }
    if exists|i: int| 0 <= i < ms.len() && ((#[trigger] ms[i]).state is FollowLeader || ms[i].state is SeekTarget || ms[i].state is Mobbing) {
        let w = choose|i: int| 0 <= i < ms.len() && ((#[trigger] ms[i]).state is FollowLeader || ms[i].state is SeekTarget || ms[i].state is Mobbing);
        assert(ms[w].state.accepts_commands() && !(ms[w].state is GrabCarryable));
    }
}

/// Directing the flock at the roost sends home exactly the crows that carry
/// something and obey commands.
pub proof fn roost_command_recalls_obedient_carriers<P>(ms: Seq<FlockMember<P>>, position: P, pick: Option<usize>)
    ensures
        forall|i: int| 0 <= i < ms.len() ==> #[trigger] directed_state(ms, DirectTarget::Roost, position, pick, i) == (
            if ms[i].carrying && obedient_state(ms[i].state) {
                CrowState::ReturningToRoost
            } else {
                ms[i].state
            }),
        direct_acknowledged(ms, DirectTarget::Roost, pick) == exists|i: int| 0 <= i < ms.len() && (#[trigger] ms[i]).carrying && obedient_state(ms[i].state),
{
    if direct_acknowledged(ms, DirectTarget::Roost, pick) {
        let w = choose|i: int| 0 <= i < ms.len() && (#[trigger] ms[i]).carrying && ms[i].state.accepts_commands();
        assert(obedient_state(ms[w].state));
    }
    if exists|i: int| 0 <= i < ms.len() && (#[trigger] ms[i]).carrying && obedient_state(ms[i].state) {
        let w = choose|i: int| 0 <= i < ms.len() && (#[trigger] ms[i]).carrying && obedient_state(ms[i].state);
        assert(ms[w].state.accepts_commands());
    }
}

/// A recall brings back every crow that seeks a spot, fetches an item or
/// mobs, and leaves every other crow as it was.
pub proof fn recall_brings_back_busy_followers<P>(s: CrowState<P>)
    ensures
        recalled(s) == (if s is SeekTarget || s is GrabCarryable || s is Mobbing {
            CrowState::FollowLeader
        } else {
            s
        }),
{
}

} // verus!
