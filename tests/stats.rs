use vine_boomer::stats::{get_stats, record_boom, replay, BoomEvent, BoomStats};

fn moving_average(intervals: &[u64]) -> f64 {
    let mut avg = 0.0;
    for (i, g) in intervals.iter().enumerate() {
        avg = if i == 0 { *g as f64 } else { avg * 0.9 + *g as f64 * 0.1 };
    }
    avg
}

#[test]
fn three_events_ten_seconds_apart() {
    let mut s = BoomStats::new();
    for t in [0i64, 10, 20] {
        record_boom(&mut s, false, "vine.mp3".to_string(), t);
    }
    assert_eq!(s.total_booms(), 3);
    assert_eq!(s.rare_booms(), 0);
    let gaps: Vec<Option<u64>> = s.events().iter().map(|e| e.time_since_last()).collect();
    assert_eq!(gaps, vec![None, Some(10), Some(10)]);
    assert_eq!(s.observed_intervals(), vec![10, 10]);
    assert_eq!(moving_average(&s.observed_intervals()[..1]), 10.0);
    assert_eq!(moving_average(&s.observed_intervals()), 10.0);
    assert_eq!(s.last_boom(), Some(20));
    assert_eq!(s.count_for_day(&"1970-01-01".to_string()), 3);
}

#[test]
fn fresh_statistics_are_empty() {
    let s = BoomStats::new();
    assert_eq!(s.total_booms(), 0);
    assert_eq!(s.last_boom(), None);
    assert!(s.events().is_empty());
    assert!(s.daily_booms().is_empty());
    assert!(s.observed_intervals().is_empty());
}

#[test]
fn days_are_counted_by_utc_date() {
    let mut s = BoomStats::new();
    record_boom(&mut s, true, "a".to_string(), 86_399);
    record_boom(&mut s, false, "b".to_string(), 86_400);
    record_boom(&mut s, false, "c".to_string(), 1_700_000_000);
    record_boom(&mut s, true, "d".to_string(), 1_700_000_100);
    assert_eq!(
        s.daily_booms(),
        vec![
            ("1970-01-01".to_string(), 1),
            ("1970-01-02".to_string(), 1),
            ("2023-11-14".to_string(), 2),
        ]
    );
    assert_eq!(s.count_for_day(&"2023-11-14".to_string()), 2);
    assert_eq!(s.count_for_day(&"1999-12-31".to_string()), 0);
    assert_eq!(s.rare_booms(), 2);
    assert_eq!(s.total_booms(), 4);
}

#[test]
fn event_keeps_what_was_recorded() {
    let mut s = BoomStats::new();
    record_boom(&mut s, true, "assets/vine-bass.mp3".to_string(), 1_000);
    let e = &s.events()[0];
    assert_eq!(e.timestamp(), 1_000);
    assert!(e.was_rare());
    assert_eq!(e.sound_path(), "assets/vine-bass.mp3");
    assert_eq!(e.time_since_last(), None);
}

#[test]
fn clock_stepping_back_gives_a_zero_gap() {
    let mut s = BoomStats::new();
    record_boom(&mut s, false, "x".to_string(), 100);
    record_boom(&mut s, false, "x".to_string(), 40);
    assert_eq!(s.observed_intervals(), vec![0]);
    assert_eq!(s.last_boom(), Some(40));
}

#[test]
fn moving_average_weights_recent_gaps() {
    let mut s = BoomStats::new();
    for t in [0i64, 10, 40] {
        record_boom(&mut s, false, "x".to_string(), t);
    }
    assert_eq!(s.observed_intervals(), vec![10, 30]);
    assert_eq!(moving_average(&s.observed_intervals()), 10.0 * 0.9 + 30.0 * 0.1);
}

#[test]
fn replaying_the_log_reproduces_the_aggregate() {
    let mut s = BoomStats::new();
    let times = [5i64, 17, 17, 90_000, 90_033, 200_000];
    for (i, t) in times.iter().enumerate() {
        record_boom(&mut s, i % 3 == 1, format!("sound{}", i % 2), *t);
    }
    let r = replay(s.events());
    assert_eq!(r.total_booms(), s.total_booms());
    assert_eq!(r.rare_booms(), s.rare_booms());
    assert_eq!(r.daily_booms(), s.daily_booms());
    assert_eq!(r.observed_intervals(), s.observed_intervals());
    assert_eq!(
        moving_average(&r.observed_intervals()).to_bits(),
        moving_average(&s.observed_intervals()).to_bits()
    );
    assert_eq!(r.last_boom(), s.last_boom());
}

#[test]
fn replay_recomputes_stored_gaps() {
    let log = vec![
        BoomEvent::new(0, false, "x".to_string(), Some(999)),
        BoomEvent::new(30, true, "y".to_string(), None),
    ];
    let r = replay(&log);
    assert_eq!(r.observed_intervals(), vec![30]);
    assert_eq!(r.rare_booms(), 1);
    assert_eq!(r.events()[0].time_since_last(), None);
}

#[test]
fn snapshot_is_a_deep_copy() {
    let mut s = BoomStats::new();
    record_boom(&mut s, false, "x".to_string(), 0);
    let copy = get_stats(&s);
    record_boom(&mut s, false, "x".to_string(), 5);
    assert_eq!(copy.total_booms(), 1);
    assert_eq!(copy.events().len(), 1);
    assert_eq!(s.total_booms(), 2);
    assert_eq!(copy.daily_booms(), vec![("1970-01-01".to_string(), 1)]);
}
