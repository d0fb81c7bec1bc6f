use eadai::ai_adapter::{
    recent_event_limit, select_history, select_recent, select_window, session_running,
    statistics_window_ms,
};
use eadai::ai_contract::{DEFAULT_CHANNEL_TRIGGER_CONTEXT_LIMIT, DEFAULT_RECENT_EVENTS_LIMIT};
use eadai::message::ConnectionState;

#[test]
fn recent_event_queries_are_bounded_by_the_configured_limit() {
    assert_eq!(recent_event_limit(None, DEFAULT_RECENT_EVENTS_LIMIT), 64);
    assert_eq!(recent_event_limit(Some(5), DEFAULT_RECENT_EVENTS_LIMIT), 5);
    assert_eq!(recent_event_limit(Some(500), DEFAULT_RECENT_EVENTS_LIMIT), 64);
    assert_eq!(recent_event_limit(Some(0), 10), 0);
}

#[test]
fn the_latest_matching_entries_come_oldest_first() {
    let matches = [true, false, true, true, false, true];
    assert_eq!(select_recent(&matches, 2), vec![3, 5]);
    assert_eq!(select_recent(&matches, 10), vec![0, 2, 3, 5]);
    assert_eq!(select_recent(&matches, 0), Vec::<usize>::new());
    assert_eq!(select_recent(&[], 3), Vec::<usize>::new());
}

#[test]
fn channel_trigger_context_keeps_the_last_eight() {
    let matches = vec![true; 12];
    assert_eq!(
        select_recent(&matches, DEFAULT_CHANNEL_TRIGGER_CONTEXT_LIMIT),
        vec![4, 5, 6, 7, 8, 9, 10, 11]
    );
}

#[test]
fn history_ranges_accept_either_order_and_cap_the_frames() {
    let timestamps = [100, 200, 300, 400, 500];
    assert_eq!(select_history(&timestamps, 200, 400, 10), vec![1, 2, 3]);
    assert_eq!(select_history(&timestamps, 400, 200, 10), vec![1, 2, 3]);
    assert_eq!(select_history(&timestamps, 0, 1000, 2), vec![0, 1]);
    assert_eq!(select_history(&timestamps, 600, 700, 5), Vec::<usize>::new());
}

#[test]
fn statistics_windows_default_and_never_vanish() {
    assert_eq!(statistics_window_ms(None), 1000);
    assert_eq!(statistics_window_ms(Some(250)), 250);
    assert_eq!(statistics_window_ms(Some(0)), 1);
}

#[test]
fn statistics_windows_end_at_the_newest_sample() {
    assert_eq!(select_window(&[100, 900, 1500, 2000], 1000), Some(vec![2, 3]));
    assert_eq!(select_window(&[100, 900, 1000], 1000), Some(vec![0, 1, 2]));
    assert_eq!(select_window(&[5], 1), Some(vec![0]));
    assert_eq!(select_window(&[], 1000), None);
}

#[test]
fn sessions_run_until_stopped() {
    assert!(session_running(ConnectionState::Connected));
    assert!(session_running(ConnectionState::WaitingRetry));
    assert!(!session_running(ConnectionState::Stopped));
}
