use server_h264::fps::{FpsCounter, FPS_REPORT_WINDOW_MS};

#[test]
fn counts_until_window_elapses() {
    let mut c = FpsCounter::new();
    assert_eq!(c.frame_count, 0);
    assert!(c.tick(0).is_none());
    assert!(c.tick(1000).is_none());
    assert!(c.tick(4999).is_none());
    assert_eq!(c.frame_count, 3);
}

#[test]
fn window_end_reports_tally_and_resets() {
    let mut c = FpsCounter::new();
    assert!(c.tick(100).is_none());
    let report = c.tick(FPS_REPORT_WINDOW_MS);
    assert_eq!(report, Some(2));
    assert_eq!(c.frame_count, 0);
    // The next window counts afresh.
    assert!(c.tick(10).is_none());
    assert_eq!(c.frame_count, 1);
}

#[test]
fn long_gap_still_reports() {
    let mut c = FpsCounter::new();
    assert_eq!(c.tick(u64::MAX), Some(1));
    assert_eq!(c.frame_count, 0);
}
