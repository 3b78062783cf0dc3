use rustbin::error::{
    bad_request_error, internal_error, not_found_error, payload_too_large_error, ErrorKind,
};

#[test]
fn every_kind_has_its_status() {
    assert_eq!(ErrorKind::InvalidIdentifier.status_code(), 400);
    assert_eq!(ErrorKind::NotFound.status_code(), 404);
    assert_eq!(ErrorKind::PayloadTooLarge.status_code(), 413);
    assert_eq!(ErrorKind::RateLimited.status_code(), 429);
    assert_eq!(ErrorKind::StorageError.status_code(), 500);
}

#[test]
fn the_constructors_keep_the_message() {
    let e = internal_error("a".to_string());
    assert_eq!((e.kind, e.message.as_str(), e.status_code()), (ErrorKind::StorageError, "a", 500));
    let e = not_found_error("b".to_string());
    assert_eq!((e.kind, e.message.as_str(), e.status_code()), (ErrorKind::NotFound, "b", 404));
    let e = bad_request_error("c".to_string());
    assert_eq!((e.kind, e.message.as_str(), e.status_code()), (ErrorKind::InvalidIdentifier, "c", 400));
    let e = payload_too_large_error("d".to_string());
    assert_eq!((e.kind, e.message.as_str(), e.status_code()), (ErrorKind::PayloadTooLarge, "d", 413));
}
