//! Serialization round trips: decoding the encoding of every entity kind
//! yields an equal record.

use virtus::cluster::catalog::Catalog;
use virtus::cluster::node::Node;
use virtus::cluster::pool::Pool;
use virtus::cluster::disk::Disk as ClusterDisk;
use virtus::disk::Disk as LocalDisk;
use virtus::image::Image;
use virtus::interface::Interface;
use virtus::network::Network;
use virtus::vm::VM;
use virtus::net::Ipv4;

#[test]
fn node_round_trip() {
    let mut catalog = Catalog::new();
    let node = Node::create(7, "host-a", Ipv4::new(10, 0, 0, 1), &mut catalog);
    let bytes = node.encode();
    let back = Node::decode(&bytes).expect("a node encoding decodes");
    assert_eq!(back, node, "the decoded record equals the encoded one");
    assert_eq!(back.get_id(), node.get_id());
    assert_eq!(back.get_addr(), node.get_addr());
    assert_eq!(back.get_hostname(), node.get_hostname());
    assert_eq!(back.get_pools(), node.get_pools());
}

#[test]
fn pool_round_trip() {
    let mut catalog = Catalog::new();
    let pool = Pool::create(42, "/srv/pool1", Some("p1"), &mut catalog);
    let bytes = pool.encode();
    let back = Pool::decode(&bytes).expect("a pool encoding decodes");
    assert_eq!(back, pool, "the decoded record equals the encoded one");
    assert_eq!(back.get_id(), pool.get_id());
    assert_eq!(back.get_node_id(), 42);
    assert_eq!(back.get_path(), "/srv/pool1");
    assert_eq!(back.get_disks().len(), 0);
}

#[test]
fn cluster_disk_round_trip() {
    let mut catalog = Catalog::new();
    let disk = ClusterDisk::create(9, 1, Some("d"), 11, &mut catalog);
    let bytes = disk.encode();
    let back = ClusterDisk::decode(&bytes).expect("a disk encoding decodes");
    assert_eq!(back, disk, "the decoded record equals the encoded one");
    assert_eq!(back.get_id(), 11);
    assert_eq!(back.get_pool_id(), 9);
    assert_eq!(back.get_size(), 1);
}

#[test]
fn image_round_trip() {
    let mut store = Catalog::new();
    let image = Image::new("/isos/setup.iso".to_string(), true, &mut store);
    let bytes = image.encode();
    let back = Image::decode(&bytes).expect("an image encoding decodes");
    assert_eq!(back.get_id(), image.get_id());
    assert_eq!(back.get_filename(), "/isos/setup.iso".to_string());
    assert!(back.is_installer());
}

#[test]
fn local_disk_round_trip() {
    let mut store = Catalog::new();
    let disk = LocalDisk::new(1024, "/var/lib/virtus", 3, true, &mut store)
        .expect("a successful tool run records the disk");
    let bytes = disk.encode();
    let back = LocalDisk::decode(&bytes).expect("a disk encoding decodes");
    assert_eq!(back.get_id(), 3);
    assert_eq!(back.get_size(), 1024);
    assert_eq!(
        back.get_filename(),
        "/var/lib/virtus/disks/00000000-0000-0000-0000-000000000003.qcow2".to_string()
    );
}

#[test]
fn network_round_trip() {
    let mut store = Catalog::new();
    let net = Network::new("lan", Some(7), Some("192.168.0.0/24"), None, &mut store)
        .expect("a network without an uplink is recorded");
    let bytes = net.encode();
    let back = Network::decode(&bytes).expect("a network encoding decodes");
    assert_eq!(back.get_id(), net.get_id());
    assert_eq!(back.get_vlan(), 7);
    assert_eq!(back.get_name(), "lan".to_string());
    assert_eq!(back.get_bridge_name(), "virtus-br".to_string());
}

#[test]
fn interface_round_trip() {
    let mut store = Catalog::new();
    let mut net = Network::new("lan", None, None, None, &mut store)
        .expect("a network without an uplink is recorded");
    let iface = Interface::new(&mut net, 4, 5, &mut store);
    let bytes = iface.encode();
    let back = Interface::decode(&bytes).expect("an interface encoding decodes");
    assert_eq!(back.get_id(), iface.get_id());
    assert_eq!(back.get_network_id(), net.get_id());
    assert_eq!(back.get_veth_pair(), (4, 5));
}

#[test]
fn vm_round_trip() {
    let mut store = Catalog::new();
    let image = Image::new("/isos/setup.iso".to_string(), false, &mut store);
    let vm = VM::new("vm0", 2, 4096, 77, &image, 88, &mut store)
        .expect("a fresh name is accepted");
    let bytes = vm.encode();
    let back = VM::decode(&bytes).expect("a machine encoding decodes");
    assert_eq!(back, vm, "the decoded record equals the encoded one");
    assert_eq!(back.get_id(), vm.get_id());
    assert_eq!(back.get_name(), vm.get_name());
    assert_eq!(back.get_disks(), &vec![77]);
    assert_eq!(back.get_image(), image.get_id());
    assert_eq!(back.get_interfaces(), &vec![88]);
}

#[test]
fn corrupt_bytes_are_refused() {
    assert!(Node::decode(&vec![]).is_none());
    assert!(Node::decode(&vec![9, 9, 9]).is_none());
    let mut catalog = Catalog::new();
    let node = Node::create(7, "h", Ipv4::new(1, 2, 3, 4), &mut catalog);
    let mut bytes = node.encode();
    bytes.push(0);
    assert!(Node::decode(&bytes).is_none());
}

#[test]
fn distinct_records_compare_unequal() {
    let mut catalog = Catalog::new();
    let a = Node::create(1, "host-a", Ipv4::new(10, 0, 0, 1), &mut catalog);
    let b = Node::create(2, "host-b", Ipv4::new(10, 0, 0, 2), &mut catalog);
    assert_ne!(a, b);
    let p1 = Pool::create(1, "/srv/a", Some("x"), &mut catalog);
    let p2 = Pool::create(1, "/srv/a", None, &mut catalog);
    assert_ne!(p1, p2);
}
