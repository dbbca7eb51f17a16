use mcproto_rs::uuid::UUID4;

const VALID_UUID: &str = "e1cde35a-0758-47f6-adf8-9dcb44884e5d";

#[test]
fn test_random_uuid4() {
    UUID4::random();
}

#[test]
fn test_uuid4_parse() {
    UUID4::parse(VALID_UUID).expect("should parse valid uuid correctly");
}

#[test]
fn test_parsed_uuid4_to_hex() {
    let uuid_hex = UUID4::parse(VALID_UUID).expect("should parse valid uuid correctly").hex();

    assert_eq!(uuid_hex.as_str(), VALID_UUID)
}

#[test]
fn test_uuid4_equal() {
    let uuid_a = UUID4::parse(VALID_UUID).expect("should parse valid uuid correctly");
    let uuid_b = UUID4::parse(VALID_UUID).expect("should parse valid uuid correctly");
    assert_eq!(uuid_a, uuid_b);
}

#[test]
fn test_random_uuid4_hex() {
    let src_uuid = UUID4::random();
    let uuid_hex = src_uuid.hex();
    let uuid_parsed =
        UUID4::parse(uuid_hex.as_str()).expect("should parse generated uuid correctly");
    assert_eq!(src_uuid, uuid_parsed);
    let uuid_parsed_hex = uuid_parsed.hex();
    assert_eq!(uuid_hex, uuid_parsed_hex);
}

#[test]
fn test_display_uuid() {
    println!("got uuid {}", UUID4::random().hex());
}

#[test]
fn test_debug_uuid() {
    println!("got uuid {:?}", UUID4::random());
}

#[test]
fn uuid_text_has_its_value() {
    let id = UUID4::parse(VALID_UUID).expect("should parse valid uuid correctly");
    assert_eq!(id.to_u128(), 0xe1cde35a075847f6adf89dcb44884e5d);
    assert_eq!(UUID4::from(0u128).hex(), "00000000-0000-0000-0000-000000000000");
    assert_eq!(UUID4::from(u128::MAX).hex(), "ffffffff-ffff-ffff-ffff-ffffffffffff");
}

#[test]
fn uuid_text_may_be_in_capitals() {
    let id = UUID4::parse("E1CDE35A-0758-47F6-ADF8-9DCB44884E5D").expect("should parse");
    assert_eq!(id.hex(), VALID_UUID);
}

#[test]
fn uuid_text_of_another_form_is_refused() {
    assert!(UUID4::parse("").is_none());
    assert!(UUID4::parse("e1cde35a-0758-47f6-adf8-9dcb44884e5").is_none());
    assert!(UUID4::parse("e1cde35a-0758-47f6-adf8-9dcb44884e5d0").is_none());
    assert!(UUID4::parse("e1cde35a00758-47f6-adf8-9dcb44884e5d").is_none());
    assert!(UUID4::parse("e1cde35a-0758-47f6-adf8-9dcb44884e5g").is_none());
    assert!(UUID4::parse("e1cde35a07584\u{7f6}adf89dcb44884e5d").is_none());
    assert!(UUID4::parse("é1cde35a-0758-47f6-adf8-9dcb44884e5").is_none());
}

#[test]
fn two_random_uuids_differ() {
    // a wrapper that handed back a constant would make these equal
    let ids: Vec<UUID4> = (0..8).map(|_| UUID4::random()).collect();
    assert!(ids.iter().any(|id| *id != ids[0]));
}
