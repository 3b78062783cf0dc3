use rustbin::error::ErrorKind;
use rustbin::models::LoggedRequest;
use rustbin::store::{contains_id, CaptureStore};

fn entry(request_id: u128, body: &str) -> LoggedRequest {
    LoggedRequest {
        method: "POST".to_string(),
        headers: "{}".to_string(),
        body: Some(body.to_string()),
        timestamp: 5,
        request_id,
    }
}

fn bodies(store: &CaptureStore, bin: u128) -> Vec<String> {
    store.select_requests(bin).iter().map(|r| r.body.clone().unwrap()).collect()
}

#[test]
fn a_new_store_is_empty() {
    let store = CaptureStore::new();
    assert_eq!(store.count_bins(1), 0);
    assert_eq!(store.count_requests(1), 0);
    assert!(store.select_requests(1).is_empty());
    assert!(!store.has_request(1));
    assert!(store.select_expired(i64::MAX, 0).is_empty());
}

#[test]
fn bin_identifiers_are_a_primary_key() {
    let mut store = CaptureStore::new();
    assert_eq!(store.insert_bin(1, 10), Ok(()));
    assert_eq!(store.count_bins(1), 1);
    assert_eq!(store.insert_bin(1, 20), Err(ErrorKind::StorageError));
    assert_eq!(store.count_bins(1), 1);
    // The failed insert did not touch the bin.
    assert_eq!(store.select_expired(12, 0), vec![1]);
    assert!(store.select_expired(10, 0).is_empty());
}

#[test]
fn an_insert_needs_its_bin_and_a_fresh_request_identifier() {
    let mut store = CaptureStore::new();
    assert_eq!(store.insert_request(1, entry(7, "a")), Err(ErrorKind::NotFound));
    store.insert_bin(1, 0).unwrap();
    store.insert_bin(2, 0).unwrap();
    assert_eq!(store.insert_request(1, entry(7, "a")), Ok(()));
    // The identifier is taken, in this bin and in every other.
    assert_eq!(store.insert_request(1, entry(7, "b")), Err(ErrorKind::StorageError));
    assert_eq!(store.insert_request(2, entry(7, "b")), Err(ErrorKind::StorageError));
    assert_eq!(bodies(&store, 1), vec!["a"]);
    assert!(bodies(&store, 2).is_empty());
    assert!(store.has_request(7));
    assert!(!store.has_request(8));
}

#[test]
fn requests_are_listed_in_insertion_order_per_bin() {
    let mut store = CaptureStore::new();
    store.insert_bin(1, 0).unwrap();
    store.insert_bin(2, 0).unwrap();
    store.insert_request(1, entry(10, "a")).unwrap();
    store.insert_request(2, entry(11, "x")).unwrap();
    store.insert_request(1, entry(12, "b")).unwrap();
    store.insert_request(1, entry(13, "c")).unwrap();
    assert_eq!(bodies(&store, 1), vec!["a", "b", "c"]);
    assert_eq!(bodies(&store, 2), vec!["x"]);
    assert_eq!(store.count_requests(1), 3);
    assert_eq!(store.count_requests(2), 1);
    assert_eq!(store.count_requests(3), 0);
}

#[test]
fn delete_oldest_removes_from_the_front() {
    let mut store = CaptureStore::new();
    store.insert_bin(1, 0).unwrap();
    for (i, body) in ["a", "b", "c", "d"].iter().enumerate() {
        store.insert_request(1, entry(i as u128, body)).unwrap();
    }
    assert_eq!(store.delete_oldest(1, 0), 0);
    assert_eq!(store.delete_oldest(1, 2), 2);
    assert_eq!(bodies(&store, 1), vec!["c", "d"]);
    // Asking for more than there is deletes what there is.
    assert_eq!(store.delete_oldest(1, 5), 2);
    assert!(bodies(&store, 1).is_empty());
    assert_eq!(store.delete_oldest(1, 1), 0);
    assert_eq!(store.delete_oldest(9, 1), 0);
}

#[test]
fn delete_requests_empties_one_bin() {
    let mut store = CaptureStore::new();
    store.insert_bin(1, 0).unwrap();
    store.insert_bin(2, 0).unwrap();
    store.insert_request(1, entry(10, "a")).unwrap();
    store.insert_request(1, entry(11, "b")).unwrap();
    store.insert_request(2, entry(12, "x")).unwrap();
    assert_eq!(store.delete_requests(1), 2);
    assert_eq!(store.delete_requests(1), 0);
    assert_eq!(store.delete_requests(3), 0);
    assert!(bodies(&store, 1).is_empty());
    assert_eq!(bodies(&store, 2), vec!["x"]);
    assert_eq!(store.count_bins(1), 1);
}

#[test]
fn delete_request_removes_one_capture_and_touches_its_bin() {
    let mut store = CaptureStore::new();
    store.insert_bin(1, 0).unwrap();
    store.insert_bin(2, 0).unwrap();
    store.insert_request(1, entry(10, "a")).unwrap();
    store.insert_request(1, entry(11, "b")).unwrap();
    store.insert_request(2, entry(12, "x")).unwrap();
    assert!(store.delete_request(10, 1_000));
    assert_eq!(bodies(&store, 1), vec!["b"]);
    assert_eq!(bodies(&store, 2), vec!["x"]);
    // Only the owning bin was touched.
    assert_eq!(store.select_expired(500, 0), vec![2]);
    // The second delete finds nothing and touches nothing.
    assert!(!store.delete_request(10, 2_000));
    assert_eq!(store.select_expired(1_500, 0), vec![1, 2]);
}

#[test]
fn delete_bin_takes_its_captures_along() {
    let mut store = CaptureStore::new();
    store.insert_bin(1, 0).unwrap();
    store.insert_bin(2, 0).unwrap();
    store.insert_request(1, entry(10, "a")).unwrap();
    store.insert_request(2, entry(11, "x")).unwrap();
    assert!(store.delete_bin(1));
    assert!(!store.delete_bin(1));
    assert_eq!(store.count_bins(1), 0);
    assert!(!store.has_request(10));
    assert_eq!(bodies(&store, 2), vec!["x"]);
    // The identifiers are free again.
    assert_eq!(store.insert_bin(1, 0), Ok(()));
    assert_eq!(store.insert_request(1, entry(10, "again")), Ok(()));
}

#[test]
fn touch_moves_the_activity_time() {
    let mut store = CaptureStore::new();
    store.insert_bin(1, 100).unwrap();
    assert_eq!(store.select_expired(101, 0), vec![1]);
    store.touch(1, 200);
    assert!(store.select_expired(101, 0).is_empty());
    assert_eq!(store.select_expired(201, 0), vec![1]);
    store.touch(9, 300);
    assert_eq!(store.count_bins(9), 0);
}

#[test]
fn sweep_deletes_expired_bins_that_are_not_live() {
    let mut store = CaptureStore::new();
    let hour = 3_600_000;
    store.insert_bin(1, 0).unwrap();
    store.insert_bin(2, 0).unwrap();
    store.insert_bin(3, 2 * hour).unwrap();
    store.insert_bin(4, 0).unwrap();
    store.insert_request(2, entry(20, "kept")).unwrap();
    assert_eq!(store.select_expired(2 * hour, 1), vec![1, 2, 4]);
    let deleted = store.sweep(2 * hour, 1, &vec![2, 3, 99]);
    assert_eq!(deleted, vec![1, 4]);
    assert_eq!(store.count_bins(1), 0);
    assert_eq!(store.count_bins(2), 1);
    assert_eq!(store.count_bins(3), 1);
    assert_eq!(store.count_bins(4), 0);
    assert_eq!(bodies(&store, 2), vec!["kept"]);
    // Nothing is left to delete while bin 2 stays live.
    assert!(store.sweep(2 * hour, 1, &vec![2]).is_empty());
    assert_eq!(store.sweep(2 * hour, 1, &vec![]), vec![2]);
    assert!(!store.has_request(20));
}

#[test]
fn contains_id_finds_members_only() {
    assert!(!contains_id(&vec![], 1));
    assert!(contains_id(&vec![3, 1, 2], 1));
    assert!(!contains_id(&vec![3, 1, 2], 4));
}
