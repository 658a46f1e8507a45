use double_pendulum::live::{FpsCounter, FRAME_RATE, REPORT_INTERVAL, UPDATE_RATE, WINDOW_SIDE};

#[test]
fn the_first_update_reports() {
    let mut counter = FpsCounter::new();
    assert_eq!(counter.updates_since_report(), 0);
    assert!(counter.tick());
    assert_eq!(counter.updates_since_report(), 1);
}

#[test]
fn every_tenth_update_reports() {
    assert_eq!(REPORT_INTERVAL, 10);
    let mut counter = FpsCounter::new();
    for k in 0..1000u32 {
        assert_eq!(counter.updates_since_report(), k % 10);
        assert_eq!(counter.tick(), k % 10 == 0, "update {}", k);
    }
}

#[test]
fn nine_updates_pass_between_two_reports() {
    let mut counter = FpsCounter::new();
    assert!(counter.tick());
    let mut quiet = 0;
    while !counter.tick() {
        quiet += 1;
    }
    assert_eq!(quiet, 9);
    assert_eq!(counter.updates_since_report(), 1);
}

#[test]
fn the_live_view_has_its_fixed_numbers() {
    assert_eq!(WINDOW_SIDE, 600);
    assert_eq!(UPDATE_RATE, 60);
    assert_eq!(FRAME_RATE, 60);
}
