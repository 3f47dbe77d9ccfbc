use corvid::crow::{distress_call, CrowState, DistressCall, Species};
use corvid::grid::SpatialGrid;
use corvid::input::{command_target, Interaction};
use corvid::order::sort_positions_by_key;
use corvid::roster::{build_roster, classify, species_rank, Priority, RosterCrow};

type Pos = (i32, i32);

#[test]
fn species_strengths() {
    assert_eq!(Species::Carrion.strength(), 1);
    assert_eq!(Species::Raven.strength(), 3);
}

#[test]
fn commands_and_attacks_by_state() {
    let all: Vec<CrowState<Pos>> = vec![
        CrowState::FollowLeader,
        CrowState::SeekTarget((1, 1)),
        CrowState::ReturningToRoost,
        CrowState::RecoveringFromInjury,
        CrowState::CapturedBy(1),
        CrowState::Mobbing(2),
        CrowState::GrabCarryable(3),
    ];
    let obeys: Vec<bool> = all.iter().map(|s| s.accepts_commands()).collect();
    assert_eq!(obeys, vec![true, true, false, false, false, true, true]);
    let exposed: Vec<bool> = all.iter().map(|s| s.is_attackable()).collect();
    assert_eq!(exposed, vec![true, true, true, false, false, true, true]);
    let captured: Vec<bool> = all.iter().map(|s| s.is_captured()).collect();
    assert_eq!(captured, vec![false, false, false, false, true, false, false]);
}

#[test]
fn pick_up_deliver_and_rest() {
    let mut s: CrowState<Pos> = CrowState::GrabCarryable(9);
    assert_eq!(s.grab_target(), Some(9));
    assert_eq!(s.pick_up(false), None);
    assert!(matches!(s, CrowState::GrabCarryable(9)));
    assert_eq!(s.pick_up(true), Some(9));
    assert!(matches!(s, CrowState::ReturningToRoost));
    assert_eq!(s.grab_target(), None);
    assert!(!s.deliver(false));
    assert!(s.deliver(true));
    assert!(matches!(s, CrowState::FollowLeader));
    let mut caught: CrowState<Pos> = CrowState::CapturedBy(3);
    assert!(!caught.deliver(true));
    assert!(matches!(caught, CrowState::CapturedBy(3)));
    let mut hurt: CrowState<Pos> = CrowState::ReturningToRoost;
    assert!(!hurt.rest(false));
    assert!(matches!(hurt, CrowState::RecoveringFromInjury));
    assert!(hurt.rest(true));
    assert!(matches!(hurt, CrowState::FollowLeader));
}

#[test]
fn stale_grab_capture_and_injury() {
    let mut s: CrowState<Pos> = CrowState::GrabCarryable(4);
    s.forget_missing_item(true);
    assert!(matches!(s, CrowState::GrabCarryable(4)));
    s.forget_missing_item(false);
    assert!(matches!(s, CrowState::FollowLeader));
    s.capture(12);
    assert!(matches!(s, CrowState::CapturedBy(12)));
    s.injure();
    assert!(matches!(s, CrowState::ReturningToRoost));
    assert!(matches!(CrowState::<Pos>::default(), CrowState::FollowLeader));
}

#[test]
fn distress_calls() {
    let caught: CrowState<Pos> = CrowState::CapturedBy(1);
    let free: CrowState<Pos> = CrowState::FollowLeader;
    assert_eq!(distress_call(&caught, false), DistressCall::Start);
    assert_eq!(distress_call(&caught, true), DistressCall::Keep);
    assert_eq!(distress_call(&free, true), DistressCall::Stop);
    assert_eq!(distress_call(&free, false), DistressCall::Keep);
}

#[test]
fn stable_sort_of_positions() {
    assert_eq!(sort_positions_by_key(&vec![5, 1, 5, 0, 1]), vec![3, 1, 4, 0, 2]);
    assert_eq!(sort_positions_by_key(&vec![]), Vec::<usize>::new());
}

#[test]
fn grid_collects_neighbourhood() {
    let mut grid = SpatialGrid::new();
    assert_eq!(grid.candidates(1, (0, 0, 0)), Vec::<u64>::new());
    grid.rebuild(&vec![
        ((0, 0, 0), 1),
        ((1, 0, 0), 2),
        ((0, 0, 0), 3),
        ((-1, -1, -1), 4),
        ((2, 0, 0), 5),
        ((0, 1, 1), 6),
    ]);
    // cells in offset order: (-1,-1,-1) first, then ... (0,0,0), (0,1,1), (1,0,0)
    assert_eq!(grid.candidates(1, (0, 0, 0)), vec![4, 3, 6, 2]);
    assert_eq!(grid.candidates(5, (2, 0, 0)), vec![2]);
    assert_eq!(grid.candidates(9, (5, 5, 5)), Vec::<u64>::new());
    grid.rebuild(&vec![((0, 0, 0), 8)]);
    assert_eq!(grid.candidates(1, (0, 0, 0)), vec![8]);
}

#[test]
fn roster_order_and_labels() {
    let crow = |crow: u64, index: u32, state: Option<CrowState<Pos>>, species: Species, is_leader: bool| RosterCrow {
        crow,
        index,
        state,
        species,
        is_leader,
    };
    let crows = vec![
        crow(10, 4, Some(CrowState::FollowLeader), Species::Carrion, false),
        crow(11, 2, Some(CrowState::FollowLeader), Species::Raven, false),
        crow(12, 1, None, Species::Carrion, true),
        crow(13, 3, Some(CrowState::CapturedBy(99)), Species::Carrion, false),
        crow(14, 9, Some(CrowState::SeekTarget((0, 0))), Species::Carrion, false),
        crow(15, 0, Some(CrowState::FollowLeader), Species::Carrion, false),
    ];
    let roster = build_roster(&crows);
    let ids: Vec<u64> = roster.iter().map(|p| p.crow).collect();
    assert_eq!(ids, vec![12, 13, 14, 11, 15, 10]);
    let labels: Vec<&str> = roster.iter().map(|p| p.label).collect();
    assert_eq!(labels, vec!["leader", "caught", "seek", "idle", "idle", "idle"]);
    assert!(roster[1].is_captured && !roster[0].is_captured);
    assert!(roster[0].is_leader);
    assert_eq!(classify::<Pos>(Some(CrowState::RecoveringFromInjury), false), Priority::Injured);
    assert_eq!(classify::<Pos>(Some(CrowState::ReturningToRoost), false), Priority::Carrying);
    assert_eq!(classify::<Pos>(Some(CrowState::Mobbing(1)), false), Priority::Mobbing);
    assert_eq!(classify::<Pos>(Some(CrowState::GrabCarryable(1)), false), Priority::Grabbing);
    assert_eq!(Priority::Injured.label(), "hurt");
    assert_eq!(Priority::Idle.rank(), 7);
    assert_eq!(species_rank(Species::Raven), 1);
    assert_eq!(species_rank(Species::Carrion), 0);
}

#[test]
fn pointer_target_respects_interface() {
    let ground = Some((3, 4));
    assert_eq!(command_target(false, &vec![Interaction::Idle], ground), ground);
    assert_eq!(command_target(true, &vec![], ground), None);
    assert_eq!(command_target(false, &vec![Interaction::Idle, Interaction::Hovered], ground), None);
    assert_eq!(command_target(false, &vec![Interaction::Pressed], ground), None);
    assert_eq!(command_target::<Pos>(false, &vec![], None), None);
}
