use codestrux::download::types::{DownloadState, SpeedTracker, MIN_WINDOW_NS, SPEED_WINDOW_NS};

#[test]
fn one_download_at_a_time() {
    let mut s = DownloadState::new();
    assert!(!s.is_active());
    assert!(!s.is_cancelled());
    assert_eq!(s.start(), Ok(()));
    assert!(s.is_active());
    assert_eq!(s.start(), Err("A download is already in progress".to_string()));
    s.finish();
    assert!(!s.is_active());
    assert_eq!(s.start(), Ok(()));
}

#[test]
fn refused_start_keeps_cancel_request() {
    let mut s = DownloadState::new();
    s.start().unwrap();
    s.request_cancel();
    assert!(s.is_cancelled());
    assert!(s.start().is_err());
    assert!(s.is_cancelled());
    s.finish();
    assert!(s.is_cancelled());
    s.start().unwrap();
    assert!(!s.is_cancelled());
}

const MS: u64 = 1_000_000;

#[test]
fn speed_needs_a_wide_enough_window() {
    let mut t = SpeedTracker::new();
    assert!(t.record(0, 0).is_none());
    assert!(t.record(MIN_WINDOW_NS - 1, 10).is_none());
    let s = t.record(MIN_WINDOW_NS, 1000).unwrap();
    assert_eq!((s.bytes, s.elapsed_ns), (1000, MIN_WINDOW_NS));
    let s = t.record(250 * MS, 5000).unwrap();
    assert_eq!((s.bytes, s.elapsed_ns), (5000, 250 * MS));
}

#[test]
fn old_samples_leave_the_window() {
    let mut t = SpeedTracker::new();
    t.record(0, 0);
    t.record(1000 * MS, 100);
    let s = t.record(SPEED_WINDOW_NS, 400).unwrap();
    assert_eq!((s.bytes, s.elapsed_ns), (400, SPEED_WINDOW_NS));
    let s = t.record(SPEED_WINDOW_NS + 1, 401).unwrap();
    assert_eq!((s.bytes, s.elapsed_ns), (301, SPEED_WINDOW_NS + 1 - 1000 * MS));
    assert!(t.record(20 * SPEED_WINDOW_NS, 900).is_none());
    let s = t.record(20 * SPEED_WINDOW_NS + 100 * MS, 1900).unwrap();
    assert_eq!((s.bytes, s.elapsed_ns), (1000, 100 * MS));
}

#[test]
fn byte_count_going_down_gives_zero_gain() {
    let mut t = SpeedTracker::new();
    t.record(0, 500);
    let s = t.record(100 * MS, 200).unwrap();
    assert_eq!(s.bytes, 0);
}

#[test]
fn default_state_is_idle() {
    let s = DownloadState::default();
    assert!(!s.is_active() && !s.is_cancelled());
}
