use battrs::monitor::{charge_percent, Monitor};

fn default_monitor() -> Monitor {
    Monitor::new(vec![100, 75, 50, 25, 10, 5]).expect("strictly descending")
}

#[test]
fn default_thresholds_accepted() {
    let m = default_monitor();
    assert_eq!(m.level_count(), 6);
}

#[test]
fn non_descending_rejected() {
    assert!(Monitor::new(vec![100, 75, 75, 25]).is_none());
    assert!(Monitor::new(vec![50, 75]).is_none());
    assert!(Monitor::new(vec![5, 5]).is_none());
}

#[test]
fn empty_threshold_list_accepted_and_quiet() {
    let mut m = Monitor::new(vec![]).expect("trivially descending");
    assert_eq!(m.observe(0, 0), 0);
    assert_eq!(m.observe(0, 100), 0);
    assert_eq!(m.cursor_of(0), Some(0));
}

#[test]
fn first_observation_seeds_cursor_without_firing() {
    let mut m = default_monitor();
    assert_eq!(m.observe(0, 42), 0);
    assert_eq!(m.cursor_of(0), Some(3));
}

#[test]
fn unknown_battery_has_no_cursor() {
    let m = default_monitor();
    assert_eq!(m.cursor_of(12), None);
}

#[test]
fn discharge_fires_once_per_boundary() {
    let mut m = default_monitor();
    assert_eq!(m.observe(0, 80), 0);
    assert_eq!(m.cursor_of(0), Some(1));
    assert_eq!(m.observe(0, 60), 1);
    assert_eq!(m.cursor_of(0), Some(2));
    assert_eq!(m.observe(0, 30), 1);
    assert_eq!(m.cursor_of(0), Some(3));
}

#[test]
fn recovery_fires_once_per_recrossed_boundary() {
    let mut m = default_monitor();
    m.observe(0, 80);
    m.observe(0, 60);
    m.observe(0, 30);
    assert_eq!(m.observe(0, 80), 2);
    assert_eq!(m.cursor_of(0), Some(1));
}

#[test]
fn steady_percentage_fires_nothing_after_first_sight() {
    let mut m = default_monitor();
    assert_eq!(m.observe(0, 100), 0);
    assert_eq!(m.observe(0, 100), 0);
    assert_eq!(m.observe(0, 100), 0);
    assert_eq!(m.cursor_of(0), Some(0));
}

#[test]
fn same_band_is_idempotent() {
    let mut m = default_monitor();
    m.observe(0, 80);
    assert_eq!(m.observe(0, 79), 0);
    assert_eq!(m.cursor_of(0), Some(1));
}

#[test]
fn reaching_a_threshold_exactly_stays_in_its_band() {
    let mut m = default_monitor();
    m.observe(0, 60);
    assert_eq!(m.cursor_of(0), Some(2));
    assert_eq!(m.observe(0, 50), 0);
    assert_eq!(m.cursor_of(0), Some(2));
    assert_eq!(m.observe(0, 49), 1);
    assert_eq!(m.cursor_of(0), Some(3));
}

#[test]
fn large_drop_fires_once_per_threshold_spanned() {
    let mut m = default_monitor();
    m.observe(0, 100);
    assert_eq!(m.observe(0, 3), 6);
    assert_eq!(m.cursor_of(0), Some(6));
}

#[test]
fn fresh_identifier_is_a_fresh_observation() {
    let mut m = default_monitor();
    m.observe(1, 30);
    assert_eq!(m.observe(2, 80), 0);
    assert_eq!(m.cursor_of(2), Some(1));
    assert_eq!(m.cursor_of(1), Some(3));
}

#[test]
fn batteries_are_tracked_independently() {
    let mut m = default_monitor();
    m.observe(1, 80);
    m.observe(2, 80);
    assert_eq!(m.observe(1, 60), 1);
    assert_eq!(m.observe(2, 80), 0);
    assert_eq!(m.cursor_of(1), Some(2));
    assert_eq!(m.cursor_of(2), Some(1));
}

#[test]
fn charge_percent_is_floor_of_ratio() {
    assert_eq!(charge_percent(500, 1000), Some(50));
    assert_eq!(charge_percent(1, 3), Some(33));
    assert_eq!(charge_percent(2, 3), Some(66));
    assert_eq!(charge_percent(0, 5), Some(0));
    assert_eq!(charge_percent(999, 1000), Some(99));
}

#[test]
fn charge_percent_clamps_overfull_readings() {
    assert_eq!(charge_percent(1100, 1000), Some(100));
    assert_eq!(charge_percent(u64::MAX, 1), Some(100));
}

#[test]
fn charge_percent_at_the_largest_reading() {
    assert_eq!(charge_percent(u64::MAX, u64::MAX), Some(100));
    assert_eq!(charge_percent(u64::MAX - 1, u64::MAX), Some(99));
}

#[test]
fn charge_percent_rejects_zero_full_energy() {
    assert_eq!(charge_percent(0, 0), None);
    assert_eq!(charge_percent(7, 0), None);
}
