use std::cmp::Ordering;

use corvid::capture::{disband_mob, first_catchable, free_captive, InReach};
use corvid::crow::CrowState;
use corvid::hawk::{
    dive_step, float_order_key, pick_target, DiveStep, DiveView, Prey, DIVE_ABORT_COOLDOWN_SECS,
    DIVE_COOLDOWN_SECS, DIVE_MISS_COOLDOWN_SECS,
};

type Pos = (i32, i32);

fn prey(state: CrowState<Pos>, neighbors: usize, under_cover: bool, d: f32) -> Prey<Pos> {
    Prey { state, neighbors, under_cover, distance_bits: d.to_bits() }
}

#[test]
fn float_key_orders_like_total_cmp() {
    let values = [
        f32::NEG_INFINITY, -3.5, -1.0, -0.0, 0.0, 1e-30, 0.5, 1.0, 2.0, 1e30, f32::INFINITY,
        f32::NAN, -f32::NAN, f32::MIN_POSITIVE, -f32::MIN_POSITIVE,
    ];
    for a in values {
        for b in values {
            let by_key = float_order_key(a.to_bits()).cmp(&float_order_key(b.to_bits()));
            assert_eq!(by_key, a.total_cmp(&b), "{a} vs {b}");
        }
    }
    assert_eq!(float_order_key(0), 0x8000_0000);
    assert_eq!(float_order_key(0xFFFF_FFFF), 0);
    assert_eq!(1.0f32.total_cmp(&2.0), Ordering::Less);
}

#[test]
fn hawk_picks_fewest_neighbours_then_nearest() {
    let crows = vec![
        prey(CrowState::FollowLeader, 2, false, 4.0),
        prey(CrowState::SeekTarget((0, 0)), 1, false, 9.0),
        prey(CrowState::ReturningToRoost, 1, false, 3.0),
        prey(CrowState::FollowLeader, 0, true, 1.0),
        prey(CrowState::Mobbing(3), 0, false, 1.0),
        prey(CrowState::FollowLeader, 5, false, 0.5),
        prey(CrowState::FollowLeader, 1, false, 3.0),
    ];
    assert_eq!(pick_target(&crows), Some(2));
    assert_eq!(pick_target(&crows[..2].to_vec()), Some(1));
    let nobody = vec![prey(CrowState::RecoveringFromInjury, 0, false, 1.0), prey(CrowState::FollowLeader, 4, false, 1.0)];
    assert_eq!(pick_target(&nobody), None);
}

#[test]
fn first_catchable_skips_safe_and_distant_crows() {
    let crows = vec![
        InReach { state: CrowState::<Pos>::RecoveringFromInjury, in_reach: true },
        InReach { state: CrowState::CapturedBy(4), in_reach: true },
        InReach { state: CrowState::FollowLeader, in_reach: false },
        InReach { state: CrowState::Mobbing(2), in_reach: true },
        InReach { state: CrowState::FollowLeader, in_reach: true },
    ];
    assert_eq!(first_catchable(&crows), Some(3));
    assert_eq!(first_catchable(&crows[..3].to_vec()), None);
}

#[test]
fn dive_steps() {
    let near = vec![
        InReach { state: CrowState::<Pos>::FollowLeader, in_reach: false },
        InReach { state: CrowState::ReturningToRoost, in_reach: true },
    ];
    let tracking = |target, arrived, within_commit| DiveView { locked: false, target, arrived, within_commit };
    assert_eq!(dive_step(&tracking(None, true, true), &near), DiveStep::Abort);
    assert_eq!(dive_step(&tracking(Some((true, CrowState::FollowLeader)), false, false), &near), DiveStep::Abort);
    assert_eq!(dive_step(&tracking(Some((false, CrowState::CapturedBy(1))), false, false), &near), DiveStep::Abort);
    assert_eq!(dive_step(&tracking(Some((false, CrowState::FollowLeader)), false, false), &near), DiveStep::Approach);
    assert_eq!(dive_step(&tracking(Some((false, CrowState::FollowLeader)), false, true), &near), DiveStep::Lock);
    assert_eq!(dive_step(&tracking(Some((false, CrowState::FollowLeader)), true, true), &near), DiveStep::Strike(1));
    let locked = DiveView { locked: true, target: None, arrived: false, within_commit: true };
    assert_eq!(dive_step(&locked, &near), DiveStep::Approach);
    let locked_arrived = DiveView { locked: true, target: None, arrived: true, within_commit: true };
    assert_eq!(dive_step(&locked_arrived, &near[..1].to_vec()), DiveStep::Miss);
    assert_eq!(DiveStep::Abort.cooldown_secs(), Some(DIVE_ABORT_COOLDOWN_SECS));
    assert_eq!(DiveStep::Miss.cooldown_secs(), Some(DIVE_MISS_COOLDOWN_SECS));
    assert_eq!(DiveStep::Strike(0).cooldown_secs(), Some(DIVE_COOLDOWN_SECS));
    assert_eq!(DiveStep::Lock.cooldown_secs(), None);
    assert_eq!((DIVE_ABORT_COOLDOWN_SECS, DIVE_MISS_COOLDOWN_SECS, DIVE_COOLDOWN_SECS), (5, 8, 12));
}

#[test]
fn freeing_a_captive_and_disbanding_the_mob() {
    assert!(matches!(free_captive::<Pos>(true), CrowState::ReturningToRoost));
    assert!(matches!(free_captive::<Pos>(false), CrowState::FollowLeader));
    let mut states: Vec<CrowState<Pos>> = vec![
        CrowState::Mobbing(7),
        CrowState::Mobbing(8),
        CrowState::CapturedBy(7),
        CrowState::Mobbing(7),
        CrowState::SeekTarget((1, 2)),
    ];
    disband_mob(&mut states, 7);
    assert!(matches!(states[0], CrowState::FollowLeader));
    assert!(matches!(states[1], CrowState::Mobbing(8)));
    assert!(matches!(states[2], CrowState::CapturedBy(7)));
    assert!(matches!(states[3], CrowState::FollowLeader));
    assert!(matches!(states[4], CrowState::SeekTarget((1, 2))));
}
