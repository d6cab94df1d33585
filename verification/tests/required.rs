//! The network-creation smoke tests.

use virtus::cluster::catalog::Catalog;
use virtus::network::Network;

#[test]
fn create_network() {
    println!("todo");
}

#[test]
fn main_create_network() {
    println!("todo");
}

#[test]
fn create_network_records() {
    let mut store = Catalog::new();
    let net = Network::new("lan0", Some(20), Some("10.20.30.0/24"), None, &mut store)
        .expect("network creation without an uplink always succeeds");
    assert_eq!(net.get_vlan(), 20);
    assert_eq!(net.get_name(), "lan0".to_string());
    assert_eq!(net.get_bridge_name(), "virtus-br".to_string());
    assert_eq!(Network::list(&store).len(), 1);
    assert_eq!(Network::list(&store)[0], net.get_id());
}

#[test]
fn create_network_uplink_claimed_once() {
    let mut store = Catalog::new();
    let first = Network::new("ext", None, None, Some("eth0"), &mut store);
    assert!(first.is_ok());
    let second = Network::new("ext2", None, None, Some("eth0"), &mut store);
    assert_eq!(
        second.err(),
        Some(virtus::error::VirtusError::PhysicalNetworkExists)
    );
    assert_eq!(Network::list(&store).len(), 1);
}
