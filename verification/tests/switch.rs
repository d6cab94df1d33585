//! The switch effector: protocol state, request texts, reply framing and
//! reply interpretation.

use virtus::ovs::{frame_end, Ovs};
use virtus::ovs::bridge::Bridge;
use virtus::ovs::port::Port;
use virtus::ovs::request::{Method, Object, Request};
use virtus::ovs::response::{Entry, Response, Row};

#[test]
fn connection_defaults() {
    let ovs = Ovs::new();
    assert_eq!(ovs.get_socket(), "/var/run/openvswitch/db.sock");
    assert_eq!(ovs.get_db(), "Open_vSwitch");
    assert_eq!(ovs.next_msg_id(), 0);
    let ovs = ovs.db("Test_DB".to_string()).socket("/tmp/db.sock".to_string());
    assert_eq!(ovs.get_db(), "Test_DB");
    assert_eq!(ovs.get_socket(), "/tmp/db.sock");
}

#[test]
fn message_ids_increase_per_request() {
    let mut ovs = Ovs::new();
    ovs.advance_msg_id();
    ovs.advance_msg_id();
    assert_eq!(ovs.next_msg_id(), 2);
    let req = ovs.request(Method::Transact);
    assert_eq!(req.get_msg_id(), 2);
    assert!(req.to_json().contains("\"id\":2"));
}

#[test]
fn list_dbs_request_text() {
    let ovs = Ovs::new();
    let req = ovs.request(Method::ListDbs);
    assert_eq!(
        req.to_json(),
        "{\"method\":\"list_dbs\",\"id\":0,\"params\":[]}".to_string()
    );
}

#[test]
fn select_request_text() {
    let ovs = Ovs::new();
    let req = ovs.request(Method::Transact).select("Bridge".to_string());
    assert_eq!(
        req.to_json(),
        "{\"method\":\"transact\",\"id\":0,\"params\":[\"Open_vSwitch\",{\"op\":\"select\",\"table\":\"Bridge\",\"where\":[]}]}".to_string()
    );
}

#[test]
fn bridge_insert_request_text() {
    let ovs = Ovs::new();
    let bridge = Bridge::new("test-br".to_string());
    let req = ovs.request(Method::Transact).insert(&bridge);
    assert_eq!(
        req.to_json(),
        "{\"method\":\"transact\",\"id\":0,\"params\":[\"Open_vSwitch\",{\"op\":\"insert\",\"table\":\"Bridge\",\"row\":{\"name\":\"test-br\"},\"uuid-name\":\"new_bridge\"},{\"op\":\"mutate\",\"table\":\"Open_vSwitch\",\"where\":[],\"mutations\":[[\"bridges\",\"insert\",[\"named-uuid\",\"new_bridge\"]]]}]}".to_string()
    );
}

#[test]
fn port_insert_request_text() {
    let ovs = Ovs::new();
    let port = Port::new("test-port".to_string(), "virtus-int".to_string());
    assert_eq!(port.get_bridge_name(), "virtus-int");
    let req = ovs.request(Method::Transact).insert(&port);
    assert_eq!(
        req.to_json(),
        "{\"method\":\"transact\",\"id\":0,\"params\":[\"Open_vSwitch\",{\"op\":\"insert\",\"table\":\"Port\",\"row\":{\"name\":\"test-port\",\"interfaces\":[\"named-uuid\",\"new_interface\"]},\"uuid-name\":\"new_port\"},{\"op\":\"insert\",\"table\":\"Interface\",\"row\":{\"name\":\"test-port\",\"type\":\"internal\"},\"uuid-name\":\"new_interface\"},{\"op\":\"mutate\",\"table\":\"Bridge\",\"where\":[[\"name\",\"==\",\"virtus-int\"]],\"mutations\":[[\"ports\",\"insert\",[\"named-uuid\",\"new_port\"]]]}]}".to_string()
    );
}

#[test]
fn bridge_delete_request_text() {
    let ovs = Ovs::new();
    let bridge = Bridge::with_uuid("test-br".to_string(), "abcd-1234".to_string());
    let req = ovs.request(Method::Transact).delete(&bridge);
    assert_eq!(
        req.to_json(),
        "{\"method\":\"transact\",\"id\":0,\"params\":[\"Open_vSwitch\",{\"op\":\"delete\",\"table\":\"Bridge\",\"where\":[[\"_uuid\",\"==\",[\"uuid\",\"abcd-1234\"]]]},{\"op\":\"mutate\",\"table\":\"Open_vSwitch\",\"where\":[],\"mutations\":[[\"bridges\",\"delete\",[\"uuid\",\"abcd-1234\"]]]}]}".to_string()
    );
}

#[test]
fn port_delete_request_text() {
    let ovs = Ovs::new();
    let mut port = Port::new("p0".to_string(), "virtus-int".to_string());
    port.set_uuid("u-1".to_string());
    let req = ovs.request(Method::Transact).delete(&port);
    assert_eq!(
        req.to_json(),
        "{\"method\":\"transact\",\"id\":0,\"params\":[\"Open_vSwitch\",{\"op\":\"mutate\",\"table\":\"Bridge\",\"where\":[[\"name\",\"==\",\"virtus-int\"]],\"mutations\":[[\"ports\",\"delete\",[\"uuid\",\"u-1\"]]]},{\"op\":\"delete\",\"table\":\"Interface\",\"where\":[[\"name\",\"==\",\"p0\"]]},{\"op\":\"delete\",\"table\":\"Port\",\"where\":[[\"_uuid\",\"==\",[\"uuid\",\"u-1\"]]]}]}".to_string()
    );
}

#[test]
fn json_strings_are_escaped() {
    let ovs = Ovs::new();
    let bridge = Bridge::new("a\"b\\c".to_string());
    let req = ovs.request(Method::Transact).insert(&bridge);
    assert!(req.to_json().contains("{\"name\":\"a\\\"b\\\\c\"}"));
}

#[test]
fn framing_finds_one_complete_document() {
    assert_eq!(frame_end(&b"{}".to_vec()), Some(2));
    assert_eq!(frame_end(&b"{\"id\":0,\"result\":[]}".to_vec()), Some(20));
    // A document is complete only when its nesting closes.
    assert_eq!(frame_end(&b"{\"result\":[".to_vec()), None);
    assert_eq!(frame_end(&b"".to_vec()), None);
    // Braces inside string literals do not count.
    assert_eq!(frame_end(&b"{\"a\":\"}\"}".to_vec()), Some(9));
    assert_eq!(frame_end(&b"{\"a\":\"\\\"}\"}".to_vec()), Some(11));
    // Back-to-back documents: the first frame ends where the second begins.
    assert_eq!(frame_end(&b"{\"a\":1}{\"b\":2}".to_vec()), Some(7));
}

#[test]
fn created_uuid_reads_the_first_entry() {
    let resp = Response {
        id: 0,
        result: vec![Entry::Uuid {
            uuid: Some(("uuid".to_string(), "row-7".to_string())),
        }],
        error: None,
    };
    assert_eq!(resp.created_uuid().unwrap(), "row-7");

    let empty = Response { id: 0, result: vec![], error: None };
    assert_eq!(empty.created_uuid().err(), Some(virtus::error::VirtusError::DbError));

    let wrong_shape = Response {
        id: 0,
        result: vec![Entry::Db("Open_vSwitch".to_string())],
        error: None,
    };
    assert_eq!(
        wrong_shape.created_uuid().err(),
        Some(virtus::error::VirtusError::DbError)
    );
}

#[test]
fn bridges_reads_a_rows_entry() {
    let resp = Response {
        id: 3,
        result: vec![Entry::Rows {
            rows: vec![
                Row {
                    name: "br-a".to_string(),
                    uuid: ("uuid".to_string(), "ua".to_string()),
                },
                Row {
                    name: "br-b".to_string(),
                    uuid: ("uuid".to_string(), "ub".to_string()),
                },
            ],
        }],
        error: None,
    };
    let bridges = resp.bridges().unwrap();
    assert_eq!(bridges.len(), 2);
    assert_eq!(bridges[0].get_name(), "br-a");
    assert_eq!(bridges[0].get_uuid(), Some("ua".to_string()));
    assert_eq!(bridges[1].get_name(), "br-b");

    let wrong = Response { id: 3, result: vec![], error: None };
    assert_eq!(wrong.bridges().err(), Some(virtus::error::VirtusError::DbError));
}

#[test]
fn link_names_derive_from_the_identifier() {
    let (a, b) = virtus::interface::Interface::link_names(
        0x0123456789abcdef0123456789abcdefu128);
    assert_eq!(a, "01234567-1".to_string());
    assert_eq!(b, "01234567-2".to_string());
}

#[test]
fn domain_config_renders_exactly() {
    let config = virtus::domain::DomainConfig::new("box".to_string(), 2, 2048);
    assert_eq!(
        config.to_xml(),
        "<domain type=\"kvm\"><name>box</name><vcpu>2</vcpu><memory unit=\"MiB\">2048</memory><os><type arch=\"x86_64\">hvm</type><boot dev=\"hd\"/></os></domain>".to_string()
    );
}

#[test]
fn find_bridge_scans_by_name() {
    let bridges = vec![
        Bridge::with_uuid("br-a".to_string(), "ua".to_string()),
        Bridge::with_uuid("br-b".to_string(), "ub".to_string()),
    ];
    let found = virtus::ovs::bridge::find_bridge(&bridges, "br-b")
        .expect("the name is in the listing");
    assert_eq!(found.get_uuid(), Some("ub".to_string()));
    assert!(virtus::ovs::bridge::find_bridge(&bridges, "br-c").is_none());
}
