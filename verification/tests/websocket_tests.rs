use rustbin::config::LimitsConfig;
use rustbin::error::ErrorKind;
use rustbin::handlers::{create_bin, delete_bin, inspect_bin, log_request};
use rustbin::state::AppState;
use rustbin::utils::uuid::{format_uuid, validate_uuid};
use rustbin::websocket::{
    delivered_to, handle_socket, has_active_connections, ws_handler, BroadcastHub, Delivery,
    SocketStep, CHANNEL_CAPACITY,
};
use uuid::Uuid;

fn setup_test_app() -> AppState {
    AppState::new(&LimitsConfig::default())
}

fn header(name: &str, value: &str) -> (String, String) {
    (name.to_string(), value.to_string())
}

fn entry(body: &str) -> rustbin::models::LoggedRequest {
    rustbin::models::LoggedRequest {
        method: "POST".to_string(),
        headers: "{}".to_string(),
        body: Some(body.to_string()),
        timestamp: 7,
        request_id: 42,
    }
}

#[test]
fn test_websocket_connection() {
    let mut server = setup_test_app();

    // Create a bin first
    let bin_id = create_bin(&mut server, 1_000).unwrap().bin_id;

    // Attach an observer
    let mut observer = ws_handler(&mut server, &bin_id).unwrap();

    // Send a test request to the bin to trigger a message
    let response =
        log_request(&mut server, &bin_id, "POST", &vec![], b"websocket test message", 2_000);
    assert!(response.is_ok());

    // Receive the message
    match observer.try_next() {
        Delivery::Message(data) => {
            assert_eq!(data.method, "POST");
            assert_eq!(data.body.as_deref(), Some("websocket test message"));
            assert_eq!(data.request_id, response.unwrap().request_id);
        }
        other => panic!("expected a message, got {:?}", other),
    }
    assert!(matches!(observer.try_next(), Delivery::Empty));
}

#[test]
fn test_websocket_multiple_requests() {
    let mut server = setup_test_app();

    // Create a bin
    let bin_id = create_bin(&mut server, 1_000).unwrap().bin_id;
    let mut observer = ws_handler(&mut server, &bin_id).unwrap();

    // Send multiple requests to the bin
    let test_messages = vec!["message1", "message2", "message3"];

    for msg in &test_messages {
        let response = log_request(&mut server, &bin_id, "POST", &vec![], msg.as_bytes(), 2_000);
        assert!(response.is_ok());
    }

    // Verify all messages were stored
    let requests = inspect_bin(&server, &bin_id).unwrap();

    assert_eq!(requests.len(), test_messages.len());

    for (i, request) in requests.iter().enumerate() {
        assert_eq!(request.body.as_deref(), Some(test_messages[i]));
        assert_eq!(request.method, "POST");
    }

    // The observer sees them in the same order
    for msg in &test_messages {
        match observer.try_next() {
            Delivery::Message(data) => assert_eq!(data.body.as_deref(), Some(*msg)),
            other => panic!("expected a message, got {:?}", other),
        }
    }
}

#[test]
fn test_websocket_with_nonexistent_bin() {
    let mut server = setup_test_app();
    let fake_bin_id = Uuid::new_v4().to_string();

    // Subscribing to a bin that does not exist is accepted
    let mut observer = ws_handler(&mut server, &fake_bin_id).unwrap();

    // No message is ever sent for it
    let response = log_request(&mut server, &fake_bin_id, "POST", &vec![], b"test", 500);
    assert!(response.is_err());
    assert!(matches!(observer.try_next(), Delivery::Empty));
}

#[test]
fn test_websocket_json_structure() {
    let mut server = setup_test_app();

    // Create a bin
    let bin_id = create_bin(&mut server, 1_000).unwrap().bin_id;

    // Test with complex request data
    let headers = vec![
        header("content-type", "application/json"),
        header("user-agent", "test-client/1.0"),
        header("x-request-id", "test-123"),
    ];
    let body = r#"{"complex": {"nested": "data"}, "array": [1, 2, 3]}"#;
    let response = log_request(&mut server, &bin_id, "POST", &headers, body.as_bytes(), 2_000);
    assert!(response.is_ok());

    // Verify the stored data has the correct structure
    let requests = inspect_bin(&server, &bin_id).unwrap();

    assert_eq!(requests.len(), 1);
    let request = &requests[0];

    // Verify basic fields
    assert_eq!(request.method, "POST");
    assert_eq!(request.body.as_deref(), Some(body));

    // Verify headers structure
    let headers: serde_json::Value = serde_json::from_str(&request.headers).unwrap();
    assert!(headers.is_object());
    assert_eq!(headers["x-request-id"], "test-123");

    // Verify timestamp
    assert_eq!(request.timestamp, 2_000);

    // Verify request_id is a valid UUID
    let request_id = format_uuid(request.request_id);
    assert!(Uuid::parse_str(&request_id).is_ok());
}

#[test]
fn test_websocket_stress() {
    let mut server = setup_test_app();

    // Create a bin
    let bin_id = create_bin(&mut server, 1_000).unwrap().bin_id;

    // Send many requests sequentially
    for i in 0..50 {
        let body = format!("stress_test_{}", i);
        let response = log_request(&mut server, &bin_id, "POST", &vec![], body.as_bytes(), 2_000);
        assert!(response.is_ok());
    }

    // Verify all requests were processed
    let requests = inspect_bin(&server, &bin_id).unwrap();

    assert_eq!(requests.len(), 50);

    // Verify each request has unique content
    let bodies: std::collections::HashSet<String> =
        requests.iter().map(|r| r.body.clone().unwrap()).collect();
    assert_eq!(bodies.len(), 50); // All bodies should be unique
}

#[test]
fn test_websocket_channel_cleanup() {
    let mut server = setup_test_app();

    // Create a bin
    let bin_id = create_bin(&mut server, 1_000).unwrap().bin_id;

    // Send a request
    let response = log_request(&mut server, &bin_id, "POST", &vec![], b"test message", 2_000);
    assert!(response.is_ok());

    // Delete the bin
    let response = delete_bin(&mut server, &bin_id);
    assert!(response.is_ok());

    // Try to send another request to the deleted bin
    let response = log_request(&mut server, &bin_id, "POST", &vec![], b"should fail", 3_000);
    assert_eq!(response.err().unwrap().status_code(), 404);
}

#[test]
fn subscribing_with_a_malformed_identifier_is_refused() {
    let mut server = setup_test_app();
    let result = ws_handler(&mut server, "not-a-uuid");
    let err = result.err().unwrap();
    assert_eq!(err.kind, ErrorKind::InvalidIdentifier);
    assert_eq!(err.message, "Invalid UUID format");
}

#[test]
fn subscribe_creates_the_channel_once() {
    let mut hub = BroadcastHub::new();
    assert!(!hub.has_channel(1));
    assert_eq!(hub.receiver_count(1), None);
    let first = hub.subscribe(1);
    assert!(hub.has_channel(1));
    assert!(!hub.has_channel(2));
    let second = hub.subscribe(1);
    // Both observers hang on the same channel.
    assert_eq!(hub.receiver_count(1), Some(2));
    drop(first);
    assert_eq!(hub.receiver_count(1), Some(1));
    drop(second);
    // The channel stays when the last observer leaves.
    assert_eq!(hub.receiver_count(1), Some(0));
    assert!(hub.has_channel(1));
}

#[test]
fn publish_reaches_every_attached_observer() {
    let mut hub = BroadcastHub::new();
    let mut a = hub.subscribe(1);
    let mut b = hub.subscribe(1);
    let mut elsewhere = hub.subscribe(2);
    assert_eq!(hub.publish(1, entry("one")), 2);
    assert!(matches!(a.try_next(), Delivery::Message(m) if m.body.as_deref() == Some("one")));
    assert!(matches!(b.try_next(), Delivery::Message(m) if m.body.as_deref() == Some("one")));
    assert!(matches!(elsewhere.try_next(), Delivery::Empty));
}

#[test]
fn publish_without_a_channel_or_an_observer_delivers_nothing() {
    let mut hub = BroadcastHub::new();
    assert_eq!(hub.publish(9, entry("lost")), 0);
    assert!(!hub.has_channel(9));
    let observer = hub.subscribe(9);
    drop(observer);
    assert_eq!(hub.publish(9, entry("lost")), 0);
}

#[test]
fn an_observer_misses_what_was_published_before_it_attached() {
    let mut hub = BroadcastHub::new();
    let _first = hub.subscribe(1);
    assert_eq!(hub.publish(1, entry("early")), 1);
    let mut late = hub.subscribe(1);
    assert!(matches!(late.try_next(), Delivery::Empty));
    assert_eq!(hub.publish(1, entry("late")), 2);
    assert!(matches!(late.try_next(), Delivery::Message(m) if m.body.as_deref() == Some("late")));
}

#[test]
fn a_slow_observer_loses_the_oldest_messages() {
    let mut hub = BroadcastHub::new();
    let mut slow = hub.subscribe(1);
    let total = 3 * CHANNEL_CAPACITY;
    for i in 0..total {
        assert_eq!(hub.publish(1, entry(&i.to_string())), 1);
    }
    // The channel retains at least its capacity, so at most the rest is lost.
    let skipped = match slow.try_next() {
        Delivery::Lagged(skipped) => skipped as usize,
        other => panic!("expected a lag, got {:?}", other),
    };
    assert!(skipped > 0);
    assert!(skipped <= total - CHANNEL_CAPACITY);
    // What is left arrives in order, starting with the oldest retained.
    let expected = skipped.to_string();
    assert!(matches!(slow.try_next(), Delivery::Message(m) if m.body.as_deref() == Some(expected.as_str())));
}

#[test]
fn liveness_follows_the_attached_observers() {
    let mut hub = BroadcastHub::new();
    assert!(!hub.liveness(1));
    let observer = hub.subscribe(1);
    assert!(hub.liveness(1));
    assert!(!hub.liveness(2));
    drop(observer);
    assert!(!hub.liveness(1));
}

#[test]
fn liveness_needs_a_channel_with_a_receiver() {
    assert!(!has_active_connections(None));
    assert!(!has_active_connections(Some(0)));
    assert!(has_active_connections(Some(1)));
    assert!(has_active_connections(Some(7)));
}

#[test]
fn removing_a_channel_closes_its_observers() {
    let mut hub = BroadcastHub::new();
    let mut observer = hub.subscribe(1);
    let mut other = hub.subscribe(2);
    hub.remove(1);
    assert!(!hub.has_channel(1));
    assert!(hub.has_channel(2));
    assert!(matches!(observer.try_next(), Delivery::Closed));
    assert!(matches!(other.try_next(), Delivery::Empty));
    hub.remove(1);
    assert!(!hub.has_channel(1));
}

#[test]
fn a_transport_forwards_messages_and_closes_otherwise() {
    assert!(matches!(
        handle_socket(Delivery::Message(entry("x"))),
        SocketStep::Forward(m) if m.body.as_deref() == Some("x")
    ));
    assert!(matches!(handle_socket(Delivery::Closed), SocketStep::Close));
    assert!(matches!(handle_socket(Delivery::Lagged(3)), SocketStep::Close));
    // An idle poll is no reason to hang up.
    assert!(matches!(handle_socket(Delivery::Empty), SocketStep::Wait));
}

#[test]
fn the_receiver_of_a_handle_is_attached_to_the_bin() {
    let mut server = setup_test_app();
    let bin_id = create_bin(&mut server, 1_000).unwrap().bin_id;
    let id = validate_uuid(&bin_id).unwrap();
    let handle = ws_handler(&mut server, &bin_id).unwrap();
    let mut receiver = handle.into_receiver();
    assert_eq!(server.bin_channels.receiver_count(id), Some(1));
    log_request(&mut server, &bin_id, "GET", &vec![], b"", 2_000).unwrap();
    assert_eq!(receiver.try_recv().unwrap().method, "GET");
}

#[test]
fn a_channel_without_observers_delivers_to_none() {
    assert_eq!(delivered_to(None), 0);
    assert_eq!(delivered_to(Some(1)), 1);
    assert_eq!(delivered_to(Some(12)), 12);
}

#[test]
fn a_second_observer_does_not_cut_off_the_first() {
    let mut hub = BroadcastHub::new();
    let mut first = hub.subscribe(1);
    assert_eq!(hub.publish(1, entry("before")), 1);
    let mut second = hub.subscribe(1);
    let mut third = hub.subscribe(1);
    assert_eq!(hub.receiver_count(1), Some(3));
    assert_eq!(hub.publish(1, entry("after")), 3);
    // The first observer is still on the bin's channel and sees both.
    assert!(matches!(first.try_next(), Delivery::Message(m) if m.body.as_deref() == Some("before")));
    assert!(matches!(first.try_next(), Delivery::Message(m) if m.body.as_deref() == Some("after")));
    assert!(matches!(first.try_next(), Delivery::Empty));
    assert!(matches!(second.try_next(), Delivery::Message(m) if m.body.as_deref() == Some("after")));
    assert!(matches!(third.try_next(), Delivery::Message(m) if m.body.as_deref() == Some("after")));
}

#[test]
fn a_polling_transport_waits_through_idle_polls() {
    let mut hub = BroadcastHub::new();
    let mut observer = hub.subscribe(1);
    assert!(matches!(handle_socket(observer.try_next()), SocketStep::Wait));
    hub.publish(1, entry("x"));
    assert!(matches!(handle_socket(observer.try_next()), SocketStep::Forward(_)));
    assert!(matches!(handle_socket(observer.try_next()), SocketStep::Wait));
    hub.remove(1);
    assert!(matches!(handle_socket(observer.try_next()), SocketStep::Close));
}
