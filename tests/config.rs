use vine_boomer::config::{
    get_status, set_interval, set_start_enabled, toggle_status, ConfigError, ConfigState, Status,
};

fn status(enabled: bool, min_time: u64, max_time: u64, start_enabled: bool) -> Status {
    Status { enabled, min_time, max_time, start_enabled }
}

#[test]
fn default_settings_are_disabled_one_to_thirty() {
    let c = ConfigState::new();
    assert_eq!(c.snapshot(), status(false, 1, 30, false));
    assert_eq!(c.generation(), 0);
}

#[test]
fn accepted_bounds_are_seen_with_a_newer_generation() {
    let mut c = ConfigState::new();
    let before = c.generation();
    assert_eq!(c.set_bounds(3, 7), Ok(()));
    assert_eq!(c.snapshot(), status(false, 3, 7, false));
    assert!(c.generation() > before);
    assert_eq!(c.set_bounds(4, 4), Ok(()));
    assert_eq!((c.min_interval(), c.max_interval()), (4, 4));
    assert_eq!(c.generation(), before + 2);
}

#[test]
fn bounds_out_of_order_are_refused_and_change_nothing() {
    let mut c = ConfigState::new();
    let before = c.generation();
    assert_eq!(c.set_bounds(5, 1), Err(ConfigError::InvalidRange));
    assert_eq!(c.snapshot(), status(false, 1, 30, false));
    assert_eq!(c.generation(), before);
}

#[test]
fn interval_command_refuses_min_above_max() {
    let mut c = ConfigState::new();
    let r = set_interval(&mut c, 10, 2);
    assert_eq!(r, Err(ConfigError::InvalidRange));
    assert_eq!(
        ConfigError::InvalidRange.message(),
        "Minimum time cannot be greater than maximum time"
    );
    assert_eq!(get_status(&c), status(false, 1, 30, false));
    assert_eq!(set_interval(&mut c, 2, 10), Ok(()));
    assert_eq!(get_status(&c), status(false, 2, 10, false));
}

#[test]
fn toggle_flips_and_bumps_generation() {
    let mut c = ConfigState::new();
    assert!(toggle_status(&mut c));
    assert!(c.enabled());
    assert_eq!(c.generation(), 1);
    assert!(!toggle_status(&mut c));
    assert!(!c.enabled());
    assert_eq!(c.generation(), 2);
}

#[test]
fn enabling_twice_bumps_once() {
    let mut c = ConfigState::new();
    c.set_enabled(true);
    c.set_enabled(true);
    assert_eq!(c.generation(), 1);
    c.set_enabled(false);
    assert_eq!(c.generation(), 2);
}

#[test]
fn start_enabled_does_not_touch_timing() {
    let mut c = ConfigState::new();
    set_start_enabled(&mut c, true);
    assert_eq!(c.snapshot(), status(false, 1, 30, true));
    assert!(c.start_enabled());
    assert_eq!(c.generation(), 0);
}

#[test]
fn restored_settings_start_as_stored() {
    let c = ConfigState::from_settings(2, 9, true).unwrap();
    assert_eq!(c.snapshot(), status(true, 2, 9, true));
    assert_eq!(
        ConfigState::from_settings(9, 2, false).unwrap_err(),
        ConfigError::InvalidRange
    );
}
