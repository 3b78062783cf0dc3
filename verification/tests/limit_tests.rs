use rustbin::config::RateLimitingConfig;
use rustbin::error::ErrorKind;
use rustbin::tasks::limit::{admission, AdmissionController};

fn config(rate: u32, burst: u32) -> RateLimitingConfig {
    RateLimitingConfig { requests_per_second: rate, burst_size: burst, cleanup_interval_seconds: 60 }
}

#[test]
fn a_controller_needs_a_positive_rate_and_burst() {
    assert!(AdmissionController::new(&config(2, 5)).is_some());
    assert!(AdmissionController::new(&config(0, 5)).is_none());
    assert!(AdmissionController::new(&config(2, 0)).is_none());
    assert!(AdmissionController::new(&config(u32::MAX, u32::MAX)).is_some());
}

#[test]
fn a_burst_is_admitted_and_the_next_request_rejected() {
    // One token per second refills too slowly to matter within this test.
    let mut controller = AdmissionController::new(&config(1, 3)).unwrap();
    for _ in 0..3 {
        assert!(controller.check("10.0.0.1").is_ok());
    }
    let err = controller.check("10.0.0.1").err().unwrap();
    assert_eq!(err.kind, ErrorKind::RateLimited);
    assert_eq!(err.status_code(), 429);
    assert_eq!(err.message, "Too many requests");
}

#[test]
fn clients_have_buckets_of_their_own() {
    let mut controller = AdmissionController::new(&config(1, 1)).unwrap();
    assert!(controller.check("10.0.0.1").is_ok());
    assert!(controller.check("10.0.0.1").is_err());
    assert!(controller.check("10.0.0.2").is_ok());
}

#[test]
fn the_sweep_reports_the_buckets_it_found() {
    let mut controller = AdmissionController::new(&config(1, 1)).unwrap();
    assert_eq!(controller.evict_stale(), 0);
    controller.check("10.0.0.1").unwrap();
    controller.check("10.0.0.2").unwrap();
    assert_eq!(controller.evict_stale(), 2);
    // A sweep never adds a bucket.
    assert!(controller.evict_stale() <= 2);
}

#[test]
fn a_denied_request_is_rate_limited() {
    assert!(admission(true).is_ok());
    let err = admission(false).err().unwrap();
    assert_eq!(err.kind, ErrorKind::RateLimited);
    assert_eq!(err.message, "Too many requests");
}

#[test]
fn a_client_without_a_bucket_is_admitted_and_gets_one() {
    let mut controller = AdmissionController::new(&config(1, 1)).unwrap();
    for (seen, client) in ["10.0.0.1", "10.0.0.2", "10.0.0.3"].iter().enumerate() {
        assert_eq!(controller.evict_stale(), seen);
        assert!(controller.check(client).is_ok());
    }
    // A denied check leaves the table as it is.
    assert!(controller.check("10.0.0.1").is_err());
    assert_eq!(controller.evict_stale(), 3);
}

#[test]
fn stale_buckets_are_evicted_and_their_clients_start_afresh() {
    // At this rate a bucket is full again after a few nanoseconds.
    let mut controller = AdmissionController::new(&config(1_000_000_000, 1)).unwrap();
    assert!(controller.check("10.0.0.1").is_ok());
    assert_eq!(controller.evict_stale(), 1);
    let mut held = controller.evict_stale();
    for _ in 0..1_000_000 {
        if held == 0 {
            break;
        }
        held = controller.evict_stale();
    }
    assert_eq!(held, 0);
    assert!(controller.check("10.0.0.1").is_ok());
    assert_eq!(controller.evict_stale(), 1);
}
