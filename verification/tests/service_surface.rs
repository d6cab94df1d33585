//! The service surface, driven as the cluster scenarios describe: a pool
//! made on the leader, a pool and a disk made on a follower through the
//! leader, and the name-collision refusal.

use virtus::cluster::builder::Builder;
use virtus::cluster::catalog::Catalog;
use virtus::cluster::node::Node;
use virtus::cluster::pool::Pool;
use virtus::cluster::routing::Role;
use virtus::cluster::virtus::{AddDiskRequest, AddPoolRequest, Routed, RpcError, Virtus};
use virtus::ids::format_id;
use virtus::image::Image;
use virtus::vm::VM;

fn agent(id: u128, last_octet: u8) -> Virtus {
    Virtus::new(
        id,
        virtus::net::Ipv4::new(127, 0, 0, last_octet),
        "/tmp/virtus-test".to_string(),
        Vec::new(),
    )
    .unwrap()
}

#[test]
fn builder_collects_startup_parameters() {
    let b = Builder::new()
        .bind(virtus::net::Ipv4::new(127, 0, 0, 2))
        .set_dir("/tmp/virtus-test/127.0.0.2")
        .join_cluster(vec![virtus::net::Ipv4::new(127, 0, 0, 1)]);
    let id = b.id();
    let v = b.build().unwrap();
    assert_eq!(v.get_id(), id);
    assert_eq!(v.get_address(), virtus::net::Ipv4::new(127, 0, 0, 2));
    assert_eq!(v.get_data_dir(), "/tmp/virtus-test/127.0.0.2");
    assert_eq!(v.get_peers(), &vec![virtus::net::Ipv4::new(127, 0, 0, 1)]);
}

#[test]
fn startup_registers_one_node() {
    let agent = agent(1, 1);
    let mut catalog = Catalog::new();
    let node = agent.register_self("host-a", &mut catalog);
    assert_eq!(node.get_id(), 1);
    let listed = agent.list_nodes(&catalog).expect("every record decodes");
    assert_eq!(listed, vec![format_id(1)]);
    // Re-registration after a restart overwrites; the listing stays one.
    agent.register_self("host-a", &mut catalog);
    assert_eq!(agent.list_nodes(&catalog).unwrap().len(), 1);
}

#[test]
fn pool_creation_on_leader() {
    let agent = agent(1, 1);
    let mut catalog = Catalog::new();
    agent.register_self("host-a", &mut catalog);
    let req = AddPoolRequest {
        name: Some("p1".to_string()),
        path: "/srv/p1".to_string(),
        node: format_id(1),
    };
    let routed = agent
        .add_pool_route(&Role::Leader, false, &req, &catalog)
        .expect("a leader executes a request for itself");
    assert!(matches!(routed, Routed::Local));
    // The host makes the directory, then the record is committed.
    let (reply, pool) = agent
        .add_pool_finish(&req, true, &mut catalog)
        .expect("a successful effect commits");
    assert!(reply.success);
    assert_eq!(reply.id, Some(format_id(pool.get_id())));
    assert_eq!(pool.get_node_id(), 1);
    assert_eq!(pool.get_path(), "/srv/p1");
    let pools = agent.list_pools(&catalog).expect("every record decodes");
    assert_eq!(pools, vec![format_id(pool.get_id())]);
}

#[test]
fn pool_creation_fails_without_effect() {
    let agent = agent(1, 1);
    let mut catalog = Catalog::new();
    agent.register_self("host-a", &mut catalog);
    let req = AddPoolRequest {
        name: None,
        path: "/srv/p1".to_string(),
        node: format_id(1),
    };
    let r = agent.add_pool_finish(&req, false, &mut catalog);
    assert!(matches!(r, Err(RpcError::Internal(_))));
    assert_eq!(agent.list_pools(&catalog).unwrap().len(), 0);
}

#[test]
fn add_pool_to_follower_via_leader() {
    let leader = agent(1, 1);
    let follower = agent(2, 2);
    let mut catalog = Catalog::new();
    leader.register_self("host-a", &mut catalog);
    follower.register_self("host-b", &mut catalog);
    assert_eq!(leader.list_nodes(&catalog).unwrap().len(), 2);

    let req = AddPoolRequest {
        name: Some("test".to_string()),
        path: "/srv/follower_pool".to_string(),
        node: format_id(2),
    };
    // The client reaches the follower first; it forwards to the leader
    // without marking.
    let hop1 = follower
        .add_pool_route(&Role::Follower { leader: 1 }, false, &req, &catalog)
        .unwrap();
    let target1 = match hop1 {
        Routed::Forward { target, mark_forwarded } => {
            assert!(!mark_forwarded);
            target
        }
        Routed::Local => panic!("an unmarked request at a follower forwards"),
    };
    assert_eq!(target1, 1);
    // The leader sees the home is the follower; it marks and sends it home.
    let hop2 = leader.add_pool_route(&Role::Leader, false, &req, &catalog).unwrap();
    let target2 = match hop2 {
        Routed::Forward { target, mark_forwarded } => {
            assert!(mark_forwarded);
            target
        }
        Routed::Local => panic!("the home is the follower, not the leader"),
    };
    assert_eq!(target2, 2);
    // The follower sees the mark and executes: effect, then commit.
    let hop3 = follower
        .add_pool_route(&Role::Follower { leader: 1 }, true, &req, &catalog)
        .unwrap();
    assert!(matches!(hop3, Routed::Local));
    let (reply, pool) = follower.add_pool_finish(&req, true, &mut catalog).unwrap();
    assert!(reply.success);
    assert_eq!(pool.get_node_id(), 2, "the pool's node is the follower");
    assert_eq!(leader.list_pools(&catalog).unwrap().len(), 1);
}

#[test]
fn add_disk_via_follower() {
    let leader = agent(1, 1);
    let follower = agent(2, 2);
    let mut catalog = Catalog::new();
    leader.register_self("host-a", &mut catalog);
    follower.register_self("host-b", &mut catalog);
    let pool_req = AddPoolRequest {
        name: Some("test".to_string()),
        path: "/srv/follower_pool".to_string(),
        node: format_id(2),
    };
    let (_, pool) = follower.add_pool_finish(&pool_req, true, &mut catalog).unwrap();

    let disk_req = AddDiskRequest {
        name: Some("test_disk".to_string()),
        pool: format_id(pool.get_id()),
        size_gb: 1,
    };
    // The marked second hop lands on the follower, which owns the pool.
    let (routed, routed_pool) = follower
        .add_disk_route(&Role::Follower { leader: 1 }, true, &disk_req, &catalog)
        .unwrap();
    assert!(matches!(routed, Routed::Local));
    assert_eq!(routed_pool.get_id(), pool.get_id());
    let (disk_id, filename, command) = follower.add_disk_plan(&routed_pool, 1);
    assert_eq!(
        filename,
        format!("/srv/follower_pool/{}.qcow2", format_id(disk_id))
    );
    assert_eq!(
        command,
        format!("qemu-img create -f qcow2 {} 1", filename)
    );
    let (reply, disk) = follower
        .add_disk_finish(&disk_req, &routed_pool, disk_id, true, "", &mut catalog)
        .unwrap();
    assert!(reply.success);
    assert_eq!(reply.id, Some(format_id(disk_id)));
    assert_eq!(disk.get_pool_id(), pool.get_id());
    assert_eq!(leader.list_disks(&catalog).unwrap().len(), 1);
}

#[test]
fn add_disk_tool_failure_commits_nothing() {
    let agent = agent(1, 1);
    let mut catalog = Catalog::new();
    agent.register_self("host-a", &mut catalog);
    let pool_req = AddPoolRequest {
        name: None,
        path: "/srv/p".to_string(),
        node: format_id(1),
    };
    let (_, pool) = agent.add_pool_finish(&pool_req, true, &mut catalog).unwrap();
    let disk_req = AddDiskRequest {
        name: None,
        pool: format_id(pool.get_id()),
        size_gb: 1,
    };
    let (disk_id, _, _) = agent.add_disk_plan(&pool, 1);
    let r = agent.add_disk_finish(&disk_req, &pool, disk_id, false,
        "qemu-img: no such directory", &mut catalog);
    match r {
        Err(RpcError::Internal(m)) => assert_eq!(m, "qemu-img: no such directory"),
        _ => panic!("a failed tool reports its stderr"),
    }
    assert_eq!(agent.list_disks(&catalog).unwrap().len(), 0);
}

#[test]
fn malformed_and_unknown_targets_are_refused() {
    let agent = agent(1, 1);
    let mut catalog = Catalog::new();
    agent.register_self("host-a", &mut catalog);
    let bad = AddPoolRequest {
        name: None,
        path: "/srv/p".to_string(),
        node: "not-an-id".to_string(),
    };
    match agent.add_pool_route(&Role::Leader, false, &bad, &catalog) {
        Err(RpcError::InvalidArgument(m)) => assert_eq!(m, "Invalid node ID"),
        _ => panic!("a malformed node identifier is an invalid argument"),
    }
    let unknown = AddPoolRequest {
        name: None,
        path: "/srv/p".to_string(),
        node: format_id(99),
    };
    match agent.add_pool_route(&Role::Leader, false, &unknown, &catalog) {
        Err(RpcError::InvalidArgument(m)) => assert_eq!(m, "Node not found"),
        _ => panic!("an unknown node is an invalid argument"),
    }
    match agent.add_pool_route(&Role::Candidate, false, &AddPoolRequest {
        name: None,
        path: "/srv/p".to_string(),
        node: format_id(1),
    }, &catalog) {
        Err(RpcError::Internal(m)) => assert_eq!(m, "no skiff leader elected"),
        _ => panic!("a candidate has no leader to route through"),
    }
}

#[test]
fn vm_name_collision_is_refused() {
    let mut store = Catalog::new();
    let image = Image::new("/isos/setup.iso".to_string(), true, &mut store);
    let first = VM::new("vm1", 2, 2048, 10, &image, 20, &mut store);
    assert!(first.is_ok());
    let second = VM::new("vm1", 4, 4096, 11, &image, 21, &mut store);
    assert_eq!(second.err(), Some(virtus::error::VirtusError::VMExists));
    assert_eq!(VM::list(&store).len(), 1, "no record is created on collision");
    let third = VM::new("vm2", 1, 1024, 12, &image, 22, &mut store);
    assert!(third.is_ok());
    assert_eq!(VM::list(&store).len(), 2);
}

#[test]
fn gets_answer_from_local_state() {
    let agent = agent(1, 1);
    let mut catalog = Catalog::new();
    let node = agent.register_self("host-a", &mut catalog);
    let found = agent.get_node(&format_id(1), &catalog).unwrap();
    assert_eq!(found.map(|n| n.get_id()), Some(node.get_id()));
    assert!(agent.get_node(&format_id(5), &catalog).unwrap().is_none());
    assert!(matches!(
        agent.get_node("junk", &catalog),
        Err(RpcError::InvalidArgument(_))
    ));
    assert!(agent.get_pool(&format_id(5), &catalog).unwrap().is_none());
    assert!(agent.get_disk(&format_id(5), &catalog).unwrap().is_none());
}

#[test]
fn peer_address_comes_from_catalog() {
    let agent = agent(1, 1);
    let mut catalog = Catalog::new();
    let peer = Node::create(2, "host-b", virtus::net::Ipv4::new(127, 0, 0, 2),
        &mut catalog);
    let addr = agent.peer_address(2, &catalog).unwrap();
    assert_eq!(addr, peer.get_addr());
    assert_eq!(
        agent.peer_address(9, &catalog).err(),
        Some(virtus::cluster::error::Error::PeerNotFound)
    );
    assert_eq!(
        Virtus::dial_text(addr),
        "http://127.0.0.2:9400".to_string()
    );
}

#[test]
fn node_pool_listing_follows_creation() {
    let mut catalog = Catalog::new();
    let mut node = Node::create(1, "h", virtus::net::Ipv4::new(127, 0, 0, 1),
        &mut catalog);
    let pool = node.create_pool("/srv/pool1", None, &mut catalog);
    assert_eq!(Pool::list(&catalog).unwrap().len(), 1);
    assert_eq!(pool.get_node_id(), node.get_id());
    let pools = node.list_pools(&catalog).unwrap();
    assert_eq!(pools.len(), 1);
    assert_eq!(pools[0].get_id(), pool.get_id());
}

#[test]
fn pool_disk_listing_follows_creation() {
    let mut catalog = Catalog::new();
    let mut pool = Pool::create(1, "/srv/p", None, &mut catalog);
    let disk = pool.create_disk(4, Some("d0"), 77, &mut catalog);
    assert_eq!(disk.get_pool_id(), pool.get_id());
    assert_eq!(pool.get_disks(), &vec![77]);
    let back = Pool::get(pool.get_id(), &catalog).unwrap();
    assert_eq!(back.get_disks(), &vec![77]);
}
