use rustbin::utils::uuid::{format_uuid, new_uuid, validate_uuid};
use uuid::Uuid;

#[test]
fn valid_uuid_returns_ok() {
    let id = Uuid::new_v4().to_string();
    assert!(validate_uuid(&id).is_ok());
}

#[test]
fn invalid_uuid_returns_err() {
    let result = validate_uuid("not-a-uuid");
    assert!(result.is_err());
    assert_eq!(result.unwrap_err(), "Invalid UUID format");
}

#[test]
fn validated_value_is_the_parsed_identifier() {
    let value = validate_uuid("a1a2a3a4-b1b2-c1c2-d1d2-d3d4d5d6d7d8").unwrap();
    assert_eq!(value, 0xa1a2a3a4b1b2c1c2d1d2d3d4d5d6d7d8u128);
}

#[test]
fn formatted_identifier_is_canonical_and_reads_back() {
    let text = format_uuid(0xa1a2a3a4b1b2c1c2d1d2d3d4d5d6d7d8u128);
    assert_eq!(text, "a1a2a3a4-b1b2-c1c2-d1d2-d3d4d5d6d7d8");
    assert_eq!(validate_uuid(&text), Ok(0xa1a2a3a4b1b2c1c2d1d2d3d4d5d6d7d8u128));
}

#[test]
fn fresh_identifiers_are_version_four() {
    let id = new_uuid();
    assert_eq!(id & 0x0000_0000_0000_f000_c000_0000_0000_0000u128, 0x0000_0000_0000_4000_8000_0000_0000_0000u128);
    assert_ne!(new_uuid(), new_uuid());
}
