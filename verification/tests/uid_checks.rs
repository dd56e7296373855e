use binaryx_graph::addr::format_address;
use binaryx_graph::addr::normalize_address;
use binaryx_graph::addr::parse_address;
use binaryx_graph::uid::generate_string_uid;

#[test]
fn test_parse_address_hex_prefix() {
    assert_eq!(parse_address("0x1000"), Some(0x1000));
    assert_eq!(parse_address("0X1000"), Some(0x1000));
    assert_eq!(parse_address("0xABCD"), Some(0xABCD));
}

#[test]
fn test_parse_address_decimal() {
    assert_eq!(parse_address("4096"), Some(4096));
    assert_eq!(parse_address("0"), Some(0));
}

#[test]
fn test_parse_address_pure_hex() {
    assert_eq!(parse_address("abcd"), Some(0xABCD));
    assert_eq!(parse_address("ABCD"), Some(0xABCD));
}

#[test]
fn test_parse_address_invalid() {
    assert_eq!(parse_address(""), None);
    assert_eq!(parse_address("   "), None);
    assert_eq!(parse_address("xyz"), None);
}

#[test]
fn test_normalize_address() {
    assert_eq!(normalize_address("0x1000"), Some("0x1000".to_string()));
    assert_eq!(normalize_address("4096"), Some("0x1000".to_string()));
    assert_eq!(normalize_address("0X00001000"), Some("0x1000".to_string()));
}

#[test]
fn test_generate_string_uid() {
    let uid1 = generate_string_uid("Hello");
    let uid2 = generate_string_uid("Hello");
    let uid3 = generate_string_uid("World");

    assert_eq!(uid1, uid2);
    assert_ne!(uid1, uid3);
    assert!(uid1.starts_with("str:"));

    assert_eq!(uid1.len(), 4 + 64);
    assert_eq!(uid3.len(), 4 + 64);
}

#[test]
fn test_sha256_stability() {
    let hello_uid = generate_string_uid("Hello");
    assert_eq!(
        hello_uid,
        "str:185f8db32271fe25f561a6fc938b2e264306ec304eda518007d1764826381969"
    );

    let empty_uid = generate_string_uid("");
    assert_eq!(
        empty_uid,
        "str:e3b0c44298fc1c149afbf4c8996fb92427ae41e4649b934ca495991b7852b855"
    );
}

#[test]
fn test_normalize_is_idempotent() {
    for s in ["0x1000", "0X00001000", "4096", "abcd", "  0xFF  ", "+10", "deadbeef"] {
        let once = normalize_address(s).unwrap();
        let twice = normalize_address(&once).unwrap();
        assert_eq!(once, twice);
    }
    assert_eq!(normalize_address(""), None);
    assert_eq!(normalize_address("   "), None);
    assert_eq!(normalize_address("xyz"), None);
}

#[test]
fn test_format_address_canonical() {
    assert_eq!(format_address(0), "0x0");
    assert_eq!(format_address(4096), "0x1000");
    assert_eq!(format_address(0xdeadbeef), "0xdeadbeef");
    assert_eq!(format_address(u64::MAX), "0xffffffffffffffff");
}
