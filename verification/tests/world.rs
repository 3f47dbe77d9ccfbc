use corvid::world::{
    current_phase, pass_time, Daylight, Injured, MissionPhase, Progress, Score, WorldTimer,
    NANOS_PER_SECOND,
};

const S: u64 = NANOS_PER_SECOND;

fn at(secs: u64) -> WorldTimer {
    WorldTimer { elapsed: secs * S }
}

#[test]
fn phases_follow_the_clock() {
    assert_eq!(current_phase(&at(0)), MissionPhase::Day);
    assert_eq!(current_phase(&WorldTimer { elapsed: 600 * S - 1 }), MissionPhase::Day);
    assert_eq!(current_phase(&at(600)), MissionPhase::Dusk);
    assert_eq!(current_phase(&at(659)), MissionPhase::Dusk);
    assert_eq!(current_phase(&at(660)), MissionPhase::Night);
    assert_eq!(current_phase(&at(720)), MissionPhase::Results);
}

#[test]
fn pass_time_switches_phase_at_boundary() {
    let mut t = WorldTimer { elapsed: 600 * S - 10 };
    assert_eq!(pass_time(MissionPhase::Day, &mut t, 5), None);
    assert_eq!(t.elapsed, 600 * S - 5);
    assert_eq!(pass_time(MissionPhase::Day, &mut t, 5), Some(MissionPhase::Dusk));
    assert_eq!(t.elapsed, 600 * S);
}

#[test]
fn pass_time_stands_still_on_results() {
    let mut t = at(800);
    assert_eq!(pass_time(MissionPhase::Results, &mut t, 7 * S), None);
    assert_eq!(t.elapsed, 800 * S);
}

#[test]
fn clock_saturates() {
    let mut t = WorldTimer { elapsed: u64::MAX - 1 };
    t.tick(10);
    assert_eq!(t.elapsed, u64::MAX);
    t.reset();
    assert_eq!(t.elapsed, 0);
    assert_eq!(WorldTimer::new().elapsed, 0);
}

#[test]
fn remaining_time_in_phase() {
    let t = at(590);
    assert_eq!(t.remaining_in(MissionPhase::Day), 10 * S);
    assert_eq!(t.remaining_in(MissionPhase::Dusk), 70 * S);
    assert_eq!(t.remaining_in(MissionPhase::Night), 130 * S);
    assert_eq!(t.remaining_in(MissionPhase::Results), 0);
    assert_eq!(at(700).remaining_in(MissionPhase::Day), 0);
}

#[test]
fn night_fade_over_last_ten_seconds() {
    assert_eq!(at(700).night_fade(), Progress { done: 0, span: 10 * S });
    assert_eq!(at(710).night_fade(), Progress { done: 0, span: 10 * S });
    assert_eq!(at(715).night_fade(), Progress { done: 5 * S, span: 10 * S });
    assert_eq!(at(720).night_fade(), Progress { done: 10 * S, span: 10 * S });
    assert_eq!(at(900).night_fade(), Progress { done: 10 * S, span: 10 * S });
}

#[test]
fn sun_blends_through_the_day() {
    let noon = at(100).sun();
    assert_eq!((noon.from, noon.to), (Daylight::Day, Daylight::Dusk));
    assert_eq!(noon.progress.done, 0);
    let evening = at(570).sun();
    assert_eq!(evening.progress, Progress { done: 30 * S, span: 60 * S });
    let dusk = at(645).sun();
    assert_eq!((dusk.from, dusk.to), (Daylight::Dusk, Daylight::Night));
    assert_eq!(dusk.progress, Progress { done: 15 * S, span: 30 * S });
    let night = at(680).sun();
    assert_eq!((night.from, night.to), (Daylight::Night, Daylight::Night));
    assert_eq!(night.progress, Progress { done: 30 * S, span: 30 * S });
}

#[test]
fn results_clock_reads_minutes_and_seconds() {
    assert_eq!(at(725).minutes_and_seconds(), (12, 5));
    assert_eq!(WorldTimer { elapsed: 59 * S + S / 2 }.minutes_and_seconds(), (0, 59));
}

#[test]
fn phase_names_and_restart() {
    assert_eq!(MissionPhase::Day.name(), "Day");
    assert_eq!(MissionPhase::Dusk.name(), "Dusk");
    assert_eq!(MissionPhase::Night.name(), "Night");
    assert_eq!(MissionPhase::Results.name(), "Results");
    assert_eq!(MissionPhase::default(), MissionPhase::Day);
    assert_eq!(MissionPhase::Results.restart_target(), Some(MissionPhase::Day));
    assert_eq!(MissionPhase::Night.restart_target(), None);
    assert_eq!(MissionPhase::Day.restart_target(), None);
}

#[test]
fn tallies_count_up() {
    let mut score = Score(0);
    score.record_deposit();
    score.record_deposit();
    assert_eq!(score, Score(2));
    let mut injured = Injured(1);
    injured.record(3);
    assert_eq!(injured, Injured(4));
}
