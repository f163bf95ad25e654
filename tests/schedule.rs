use rand::rngs::StdRng;
use rand::SeedableRng;
use vine_boomer::config::ConfigState;
use vine_boomer::schedule::{step, Action, Phase, Scheduler, IDLE_SLICE_MS, POLL_SLICE_MS};

fn enabled(min: u64, max: u64) -> ConfigState {
    let mut c = ConfigState::new();
    c.set_bounds(min, max).unwrap();
    c.set_enabled(true);
    c
}

const SLEEP: Action = Action::Sleep { millis: POLL_SLICE_MS };

#[test]
fn fixed_delay_fires_after_exactly_that_many_seconds() {
    let c = enabled(2, 2);
    let mut s = Scheduler::new(StdRng::seed_from_u64(1));
    assert_eq!(s.tick(&c, 5_000), SLEEP);
    assert_eq!(
        s.phase(),
        Phase::Waiting { start_ms: 5_000, delay_secs: 2, generation: c.generation() }
    );
    let mut t = 5_000;
    let mut fired_at = None;
    while fired_at.is_none() {
        t += POLL_SLICE_MS;
        if s.tick(&c, t) == Action::Fire {
            fired_at = Some(t);
        }
    }
    assert_eq!(fired_at, Some(7_000));
    assert_eq!(s.phase(), Phase::Idle);
}

#[test]
fn zero_delay_fires_at_once() {
    let c = enabled(0, 0);
    let (p, a) = step(Phase::Idle, &c, 42, 0);
    assert_eq!((p, a), (Phase::Idle, Action::Fire));
}

#[test]
fn disabled_loop_idles_on_the_coarse_slice() {
    let c = ConfigState::new();
    let mut s = Scheduler::new(StdRng::seed_from_u64(2));
    assert_eq!(s.tick(&c, 0), Action::Sleep { millis: IDLE_SLICE_MS });
    assert_eq!(s.phase(), Phase::Idle);
}

#[test]
fn disabling_mid_wait_abandons_it() {
    let mut c = enabled(3, 3);
    let mut s = Scheduler::new(StdRng::seed_from_u64(3));
    s.tick(&c, 0);
    c.set_enabled(false);
    assert_eq!(s.tick(&c, 3_500), Action::Sleep { millis: IDLE_SLICE_MS });
    assert_eq!(s.phase(), Phase::Idle);
}

#[test]
fn new_bounds_mid_wait_restart_it_from_the_poll() {
    let mut c = enabled(10, 10);
    let mut s = Scheduler::new(StdRng::seed_from_u64(4));
    s.tick(&c, 0);
    c.set_bounds(1, 1).unwrap();
    assert_eq!(s.tick(&c, 4_000), SLEEP);
    assert_eq!(
        s.phase(),
        Phase::Waiting { start_ms: 4_000, delay_secs: 1, generation: c.generation() }
    );
    assert_eq!(s.tick(&c, 4_900), SLEEP);
    assert_eq!(s.tick(&c, 5_000), Action::Fire);
}

#[test]
fn stale_wait_never_fires_after_its_delay() {
    let c0 = enabled(1, 1);
    let waiting = Phase::Waiting { start_ms: 0, delay_secs: 1, generation: c0.generation() };
    let mut c1 = c0;
    c1.set_bounds(5, 5).unwrap();
    let (p, a) = step(waiting, &c1, 1_000, 5);
    assert_eq!(a, SLEEP);
    assert_eq!(p, Phase::Waiting { start_ms: 1_000, delay_secs: 5, generation: c1.generation() });
}

#[test]
fn drawn_delays_stay_within_bounds() {
    let c = enabled(3, 8);
    let mut s = Scheduler::new(StdRng::seed_from_u64(5));
    let mut seen = Vec::new();
    for round in 0..200u64 {
        let t = round * 1_000_000;
        assert_eq!(s.tick(&c, t), SLEEP);
        match s.phase() {
            Phase::Waiting { delay_secs, start_ms, .. } => {
                assert_eq!(start_ms, t);
                assert!((3..=8).contains(&delay_secs));
                seen.push(delay_secs);
            }
            Phase::Idle => panic!("expected a wait"),
        }
        assert_eq!(s.tick(&c, t + 8_000), Action::Fire);
    }
    assert!(seen.contains(&3) && seen.contains(&8));
}

#[test]
fn clock_read_before_start_counts_as_no_time() {
    let c = enabled(1, 1);
    let waiting = Phase::Waiting { start_ms: 10_000, delay_secs: 1, generation: c.generation() };
    assert_eq!(step(waiting, &c, 9_000, 0), (waiting, SLEEP));
}
