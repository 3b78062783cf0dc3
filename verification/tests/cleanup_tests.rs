use rustbin::config::{CleanupConfig, LimitsConfig};
use rustbin::handlers::{create_bin_with_id, inspect_bin, log_request, update_last_updated};
use rustbin::state::AppState;
use rustbin::store::expired;
use rustbin::tasks::cleanup::{observe, run_cleanup, select_live};
use rustbin::websocket::BroadcastHub;
use rustbin::utils::uuid::format_uuid;
use rustbin::websocket::ws_handler;

const HOUR: i64 = 3_600_000;

fn state() -> AppState {
    AppState::new(&LimitsConfig::default())
}

fn config(hours: i64) -> CleanupConfig {
    CleanupConfig { bin_expiry_hours: hours, cleanup_interval_seconds: 60 }
}

#[test]
fn test_cleanup_respects_active_websocket_connections() {
    let mut state = state();

    // Create two bins that are older than 1 hour
    let now = 10 * HOUR;
    let old_time = now - 2 * HOUR;
    let bin_with_connection: u128 = 100;
    let bin_without_connection: u128 = 200;
    create_bin_with_id(&mut state, bin_with_connection, old_time).unwrap();
    create_bin_with_id(&mut state, bin_without_connection, old_time).unwrap();

    // Keep a receiver alive to simulate an active connection
    let _rx_keepalive = ws_handler(&mut state, &format_uuid(bin_with_connection)).unwrap();

    let report = run_cleanup(&mut state, &config(1), now);

    // Verify that one bin was deleted and one was kept alive
    assert_eq!(report.deleted.len(), 1, "Should delete bin without WebSocket connections");
    assert_eq!(report.kept_alive.len(), 1, "Should keep bin with active WebSocket connections");
    assert_eq!(report.deleted, vec![bin_without_connection]);
    assert_eq!(report.kept_alive, vec![bin_with_connection]);
    assert_eq!(report.receivers, vec![Some(1), None]);

    // Verify the bin with connection still exists
    assert_eq!(
        state.db.count_bins(bin_with_connection),
        1,
        "Bin with active WebSocket should still exist"
    );

    // Verify the bin without connection was deleted
    assert_eq!(
        state.db.count_bins(bin_without_connection),
        0,
        "Bin without WebSocket should be deleted"
    );
}

#[test]
fn a_bin_is_swept_once_its_observer_detaches() {
    let mut state = state();
    let now = 10 * HOUR;
    create_bin_with_id(&mut state, 1, now - 3 * HOUR).unwrap();
    let observer = ws_handler(&mut state, &format_uuid(1)).unwrap();

    let report = run_cleanup(&mut state, &config(1), now);
    assert!(report.deleted.is_empty());
    assert_eq!(report.kept_alive, vec![1]);
    assert_eq!(state.db.count_bins(1), 1);
    assert!(state.bin_channels.has_channel(1));

    drop(observer);
    let report = run_cleanup(&mut state, &config(1), now + 1);
    assert_eq!(report.deleted, vec![1]);
    assert!(report.kept_alive.is_empty());
    // The channel was still there, without a receiver.
    assert_eq!(report.receivers, vec![Some(0)]);
    assert_eq!(state.db.count_bins(1), 0);
    // The channel goes with the bin.
    assert!(!state.bin_channels.has_channel(1));
}

#[test]
fn a_sweep_keeps_bins_inside_the_window() {
    let mut state = state();
    let now = 10 * HOUR;
    create_bin_with_id(&mut state, 1, now - HOUR).unwrap(); // exactly at the window: kept
    create_bin_with_id(&mut state, 2, now - HOUR - 1).unwrap(); // one millisecond past: swept
    create_bin_with_id(&mut state, 3, now).unwrap();
    log_request(&mut state, &format_uuid(3), "GET", &vec![], b"kept", now).unwrap();

    let report = run_cleanup(&mut state, &config(1), now);
    assert_eq!(report.deleted, vec![2]);
    assert!(report.kept_alive.is_empty());
    assert_eq!(state.db.count_bins(1), 1);
    assert_eq!(state.db.count_bins(3), 1);
    assert_eq!(inspect_bin(&state, &format_uuid(3)).unwrap().len(), 1);
}

#[test]
fn any_mutation_resets_the_inactivity_window() {
    let mut state = state();
    let start = 10 * HOUR;
    create_bin_with_id(&mut state, 1, start).unwrap();
    create_bin_with_id(&mut state, 2, start).unwrap();
    // A capture two hours later touches bin 1 only.
    log_request(&mut state, &format_uuid(1), "GET", &vec![], b"", start + 2 * HOUR).unwrap();

    let report = run_cleanup(&mut state, &config(1), start + 2 * HOUR + 1);
    assert_eq!(report.deleted, vec![2]);
    assert_eq!(state.db.count_bins(1), 1);

    update_last_updated(&mut state, 1, start + 5 * HOUR);
    let report = run_cleanup(&mut state, &config(1), start + 6 * HOUR);
    assert!(report.deleted.is_empty());
    let report = run_cleanup(&mut state, &config(1), start + 6 * HOUR + 1);
    assert_eq!(report.deleted, vec![1]);
}

#[test]
fn a_sweep_of_an_empty_store_does_nothing() {
    let mut state = state();
    let report = run_cleanup(&mut state, &config(1), 5 * HOUR);
    assert!(report.deleted.is_empty());
    assert!(report.kept_alive.is_empty());
}

#[test]
fn a_bin_with_no_captures_expires_like_any_other() {
    let mut state = state();
    create_bin_with_id(&mut state, 1, 0).unwrap();
    let report = run_cleanup(&mut state, &config(1), HOUR + 1);
    assert_eq!(report.deleted, vec![1]);
}

#[test]
fn expiry_is_exact_at_the_extremes() {
    assert!(!expired(0, HOUR, 1));
    assert!(expired(0, HOUR + 1, 1));
    assert!(expired(-1, HOUR, 1));
    // A window of zero hours expires everything strictly in the past.
    assert!(expired(5, 6, 0));
    assert!(!expired(5, 5, 0));
    // A negative window expires bins touched in the near future too.
    assert!(expired(HOUR, HOUR, -1));
    // No overflow at the ends of the range.
    assert!(!expired(i64::MAX, i64::MIN, i64::MAX));
    assert!(expired(i64::MIN, i64::MAX, i64::MIN));
    assert!(!expired(i64::MIN, i64::MAX, i64::MAX));
}

#[test]
fn a_bin_stays_for_as_long_as_an_observer_is_attached() {
    let mut state = state();
    create_bin_with_id(&mut state, 1, 0).unwrap();
    let first = ws_handler(&mut state, &format_uuid(1)).unwrap();
    let second = ws_handler(&mut state, &format_uuid(1)).unwrap();
    for sweep in 1..=5 {
        let report = run_cleanup(&mut state, &config(1), sweep * 10 * HOUR);
        assert!(report.deleted.is_empty());
        assert_eq!(report.kept_alive, vec![1]);
        assert_eq!(report.receivers, vec![Some(2)]);
    }
    drop(first);
    let report = run_cleanup(&mut state, &config(1), 60 * HOUR);
    assert_eq!(report.kept_alive, vec![1]);
    assert_eq!(report.receivers, vec![Some(1)]);
    drop(second);
    let report = run_cleanup(&mut state, &config(1), 70 * HOUR);
    assert_eq!(report.deleted, vec![1]);
    assert!(!state.bin_channels.has_channel(1));
}

#[test]
fn a_channel_without_receivers_keeps_no_bin_alive() {
    let mut state = state();
    create_bin_with_id(&mut state, 1, 0).unwrap();
    create_bin_with_id(&mut state, 2, 0).unwrap();
    drop(ws_handler(&mut state, &format_uuid(1)).unwrap());
    assert!(state.bin_channels.has_channel(1));
    let report = run_cleanup(&mut state, &config(1), 2 * HOUR);
    assert_eq!(report.receivers, vec![Some(0), None]);
    assert!(report.kept_alive.is_empty());
    assert_eq!(report.deleted, vec![1, 2]);
}

#[test]
fn the_live_candidates_are_those_with_a_receiver() {
    let none: Vec<u128> = vec![];
    assert_eq!(select_live(&vec![], &vec![]), none);
    assert_eq!(
        select_live(&vec![10, 20, 30, 40], &vec![Some(0), Some(2), None, Some(1)]),
        vec![20, 40]
    );
    assert_eq!(select_live(&vec![10, 20], &vec![Some(0), None]), none);
    // A candidate without an observation is not live.
    assert_eq!(select_live(&vec![10, 20, 30], &vec![Some(1)]), vec![10]);
    assert_eq!(select_live(&vec![10], &vec![Some(1), Some(1)]), vec![10]);
}

#[test]
fn observing_reports_each_candidate_in_order() {
    let mut hub = BroadcastHub::new();
    let _a = hub.subscribe(1);
    let _b = hub.subscribe(1);
    drop(hub.subscribe(2));
    assert_eq!(observe(&hub, &vec![2, 3, 1]), vec![Some(0), None, Some(2)]);
    assert!(observe(&hub, &vec![]).is_empty());
}
