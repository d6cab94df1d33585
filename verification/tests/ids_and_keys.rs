//! Identifier text, catalog keys and addresses.

use virtus::ids::{format_id, parse_id};
use virtus::cluster::catalog::{key_for, Kind};
use virtus::net::Ipv4;

#[test]
fn format_is_canonical_hyphenated() {
    assert_eq!(
        format_id(0),
        "00000000-0000-0000-0000-000000000000".to_string()
    );
    assert_eq!(
        format_id(u128::MAX),
        "ffffffff-ffff-ffff-ffff-ffffffffffff".to_string()
    );
    assert_eq!(
        format_id(0x0123456789abcdef0123456789abcdefu128),
        "01234567-89ab-cdef-0123-456789abcdef".to_string()
    );
}

#[test]
fn format_agrees_with_uuid_crate() {
    let samples: [u128; 4] = [
        0,
        u128::MAX,
        0x0123456789abcdef0123456789abcdefu128,
        0xdeadbeef_0000_4000_8000_000000000001u128,
    ];
    for v in samples {
        assert_eq!(format_id(v), uuid::Uuid::from_u128(v).to_string());
    }
    let fresh = uuid::Uuid::new_v4();
    assert_eq!(format_id(fresh.as_u128()), fresh.to_string());
}

#[test]
fn parse_round_trips() {
    let v = 0xdeadbeef_cafe_4242_9999_000000000001u128;
    assert_eq!(parse_id(&format_id(v)), Some(v));
    assert_eq!(
        parse_id("01234567-89AB-CDEF-0123-456789ABCDEF"),
        Some(0x0123456789abcdef0123456789abcdefu128)
    );
}

#[test]
fn parse_rejects_malformed() {
    assert_eq!(parse_id(""), None);
    assert_eq!(parse_id("not an id"), None);
    assert_eq!(parse_id("00000000-0000-0000-0000-00000000000"), None);
    assert_eq!(parse_id("00000000-0000-0000-0000-0000000000000"), None);
    assert_eq!(parse_id("00000000000000000000000000000000-..."), None);
    assert_eq!(parse_id("0000000000000-0000-0000-000000000000"), None);
    assert_eq!(parse_id("00000000-0000-0000-0000-00000000000g"), None);
}

#[test]
fn catalog_keys_carry_prefix_and_id() {
    assert_eq!(
        key_for(Kind::Node, 0),
        "nodes/00000000-0000-0000-0000-000000000000".to_string()
    );
    assert_eq!(
        key_for(Kind::Pool, 1),
        "pools/00000000-0000-0000-0000-000000000001".to_string()
    );
    assert_eq!(
        key_for(Kind::Vm, 0xff),
        "vms/00000000-0000-0000-0000-0000000000ff".to_string()
    );
}

#[test]
fn ipv4_text_is_dotted_decimal() {
    assert_eq!(Ipv4::new(127, 0, 0, 1).to_text(), "127.0.0.1".to_string());
    assert_eq!(
        Ipv4::new(255, 254, 10, 0).to_text(),
        "255.254.10.0".to_string()
    );
}
