use corvid::command::{
    carry_candidates, direct, direct_with_pick, recall, select_mob, DirectTarget, FlockMember,
};
use corvid::crow::{CrowState, Species};

type Pos = [f32; 3];

fn member(state: CrowState<Pos>, species: Species, carrying: bool, index: u32) -> FlockMember<Pos> {
    FlockMember { state, species, carrying, index }
}

fn flock() -> Vec<FlockMember<Pos>> {
    vec![
        member(CrowState::FollowLeader, Species::Raven, false, 7),
        member(CrowState::FollowLeader, Species::Carrion, false, 5),
        member(CrowState::SeekTarget([1.0, 0.0, 1.0]), Species::Carrion, false, 2),
        member(CrowState::ReturningToRoost, Species::Carrion, true, 3),
        member(CrowState::GrabCarryable(40), Species::Carrion, false, 9),
        member(CrowState::CapturedBy(50), Species::Raven, false, 1),
    ]
}

fn is_follow(s: &CrowState<Pos>) -> bool {
    matches!(s, CrowState::FollowLeader)
}

#[test]
fn recall_brings_obedient_crows_back() {
    let mut states: Vec<CrowState<Pos>> = flock().iter().map(|m| m.state).collect();
    assert!(recall(&mut states));
    assert!(is_follow(&states[0]));
    assert!(is_follow(&states[1]));
    assert!(is_follow(&states[2]));
    assert!(matches!(states[3], CrowState::ReturningToRoost));
    assert!(is_follow(&states[4]));
    assert!(matches!(states[5], CrowState::CapturedBy(50)));
    // a second recall changes nothing and is not acknowledged
    assert!(!recall(&mut states));
}

#[test]
fn recall_of_following_flock_is_silent() {
    let mut states: Vec<CrowState<Pos>> = vec![CrowState::FollowLeader, CrowState::ReturningToRoost];
    assert!(!recall(&mut states));
}

#[test]
fn ground_command_sends_obedient_crows_except_fetchers() {
    let mut ms = flock();
    let spot = [3.0, 0.0, -2.0];
    assert!(direct(&mut ms, DirectTarget::Ground, spot));
    for i in [0, 1, 2] {
        assert!(matches!(ms[i].state, CrowState::SeekTarget(p) if p == spot));
    }
    assert!(matches!(ms[3].state, CrowState::ReturningToRoost));
    assert!(matches!(ms[4].state, CrowState::GrabCarryable(40)));
    assert!(matches!(ms[5].state, CrowState::CapturedBy(50)));
}

#[test]
fn roost_command_recalls_only_obedient_carriers() {
    let mut ms = flock();
    // the only carrier is already heading home and ignores commands
    assert!(!direct(&mut ms, DirectTarget::Roost, [0.0; 3]));
    ms[3].state = CrowState::FollowLeader;
    assert!(direct(&mut ms, DirectTarget::Roost, [0.0; 3]));
    assert!(matches!(ms[3].state, CrowState::ReturningToRoost));
    assert!(is_follow(&ms[0].state));
}

#[test]
fn carry_pool_holds_weakest_sufficient_crows() {
    let ms = flock();
    // light item: the free carrion crows (positions 1, 2 and 4)
    assert_eq!(carry_candidates(&ms, 1), vec![1, 2, 4]);
    // heavy item: only the free raven can lift it
    assert_eq!(carry_candidates(&ms, 3), vec![0]);
    // nobody can lift weight 4
    assert_eq!(carry_candidates(&ms, 4), Vec::<usize>::new());
}

#[test]
fn carry_command_with_pick_assigns_that_crow() {
    let mut ms = flock();
    let target = DirectTarget::Carryable { item: 77, weight: 1 };
    assert!(direct_with_pick(&mut ms, target, [0.0; 3], Some(1)));
    assert!(matches!(ms[2].state, CrowState::GrabCarryable(77)));
    assert!(is_follow(&ms[1].state));
    assert!(matches!(ms[4].state, CrowState::GrabCarryable(40)));
    // no draw: nothing happens
    let mut ms2 = flock();
    assert!(!direct_with_pick(&mut ms2, target, [0.0; 3], None));
}

#[test]
fn carry_command_sends_exactly_one_lifter() {
    for _ in 0..20 {
        let mut ms = flock();
        let target = DirectTarget::Carryable { item: 88, weight: 1 };
        assert!(direct(&mut ms, target, [0.0; 3]));
        let sent: Vec<usize> = (0..ms.len())
            .filter(|&i| matches!(ms[i].state, CrowState::GrabCarryable(88)))
            .collect();
        assert_eq!(sent.len(), 1);
        assert!([1, 2, 4].contains(&sent[0]));
    }
    let mut ms = flock();
    let heavy = DirectTarget::Carryable { item: 89, weight: 3 };
    assert!(direct(&mut ms, heavy, [0.0; 3]));
    assert!(matches!(ms[0].state, CrowState::GrabCarryable(89)));
    let mut ms = flock();
    assert!(!direct(&mut ms, DirectTarget::Carryable { item: 90, weight: 5 }, [0.0; 3]));
}

#[test]
fn mob_takes_weakest_first_then_releases_surplus() {
    // free crows: raven (strength 3, index 7), carrion (index 5), carrion (index 2), carrion (index 9)
    let ms = flock();
    // order by strength then index: pos 2 (idx 2), pos 1 (idx 5), pos 4 (idx 9), pos 0 (raven)
    // minimum 4: take 1+1+1 = 3, then the raven: 6; drop while the rest suffices:
    // 6-1 = 5 >= 4 drop pos 2; 5-1 = 4 >= 4 drop pos 1; 4-1 = 3 < 4 stop
    assert_eq!(select_mob(&ms, 4), vec![4, 0]);
    // minimum 2: two carrion crows
    assert_eq!(select_mob(&ms, 2), vec![2, 1]);
    // minimum 0: nobody
    assert_eq!(select_mob(&ms, 0), Vec::<usize>::new());
    // too strong: everyone free and obedient goes
    assert_eq!(select_mob(&ms, 100), vec![2, 1, 4, 0]);
}

#[test]
fn mob_command_sets_mobbing_state() {
    let mut ms = flock();
    assert!(direct(&mut ms, DirectTarget::Mobbable { target: 60, minimum: 4 }, [0.0; 3]));
    assert!(matches!(ms[4].state, CrowState::Mobbing(60)));
    assert!(matches!(ms[0].state, CrowState::Mobbing(60)));
    assert!(is_follow(&ms[1].state));
    assert!(matches!(ms[2].state, CrowState::SeekTarget(_)));
    let mut none = vec![member(CrowState::CapturedBy(1), Species::Raven, false, 0)];
    assert!(!direct(&mut none, DirectTarget::Mobbable { target: 60, minimum: 4 }, [0.0; 3]));
}

#[test]
fn mob_ties_in_strength_go_by_entity_index() {
    let ms = vec![
        member(CrowState::FollowLeader, Species::Carrion, false, 30),
        member(CrowState::FollowLeader, Species::Carrion, false, 10),
        member(CrowState::FollowLeader, Species::Carrion, false, 20),
    ];
    assert_eq!(select_mob(&ms, 1), vec![1]);
    assert_eq!(select_mob(&ms, 2), vec![1, 2]);
}
