//! The catalog store and the routing state machine.

use virtus::cluster::catalog::{Catalog, Kind, LogWrite, apply};
use virtus::cluster::routing::{route, Role, RouteAction};
use virtus::cluster::peers::PeerCache;

#[test]
fn catalog_insert_get_list() {
    let mut c = Catalog::new();
    assert!(c.get(Kind::Node, 1).is_none());
    c.insert(Kind::Node, 1, vec![10, 11]);
    c.insert(Kind::Pool, 2, vec![20]);
    assert_eq!(c.get(Kind::Node, 1), Some(&vec![10, 11]));
    assert_eq!(c.get(Kind::Pool, 2), Some(&vec![20]));
    assert!(c.get(Kind::Node, 2).is_none());
    assert_eq!(c.list_ids(Kind::Node), vec![1]);
    assert_eq!(c.list_ids(Kind::Pool), vec![2]);
    assert_eq!(c.list_ids(Kind::Vm), Vec::<u128>::new());
}

#[test]
fn catalog_overwrite_keeps_one_record() {
    let mut c = Catalog::new();
    c.insert(Kind::Node, 1, vec![1]);
    c.insert(Kind::Node, 1, vec![2]);
    assert_eq!(c.get(Kind::Node, 1), Some(&vec![2]));
    assert_eq!(c.list_ids(Kind::Node), vec![1]);
}

#[test]
fn catalog_remove_is_idempotent() {
    let mut c = Catalog::new();
    c.insert(Kind::Disk, 5, vec![5]);
    c.remove(Kind::Disk, 5);
    assert!(c.get(Kind::Disk, 5).is_none());
    c.remove(Kind::Disk, 5);
    assert!(c.get(Kind::Disk, 5).is_none());
    assert_eq!(c.list_ids(Kind::Disk).len(), 0);
}

#[test]
fn replicas_agree_after_same_log() {
    let writes = [
        (Kind::Node, 1u128, vec![1u8]),
        (Kind::Pool, 2u128, vec![2u8]),
        (Kind::Node, 1u128, vec![3u8]),
    ];
    let mut a = Catalog::new();
    let mut b = Catalog::new();
    for (kind, id, value) in writes.iter() {
        apply(&mut a, LogWrite { kind: *kind, id: *id, value: value.clone() });
        apply(&mut b, LogWrite { kind: *kind, id: *id, value: value.clone() });
    }
    assert_eq!(a.get(Kind::Node, 1), b.get(Kind::Node, 1));
    assert_eq!(a.get(Kind::Pool, 2), b.get(Kind::Pool, 2));
    assert_eq!(a.get(Kind::Node, 1), Some(&vec![3u8]));
    assert_eq!(a.list_ids(Kind::Node), b.list_ids(Kind::Node));
}

#[test]
fn routing_decision_table() {
    let me = 1u128;
    let leader = 2u128;
    let peer = 3u128;
    // Leader, home is self: execute, whatever the mark.
    assert_eq!(route(me, &Role::Leader, me, false), RouteAction::ExecuteLocal);
    assert_eq!(route(me, &Role::Leader, me, true), RouteAction::ExecuteLocal);
    // Leader, home is a peer, unmarked: mark and send to the home.
    assert_eq!(
        route(me, &Role::Leader, peer, false),
        RouteAction::Forward { target: peer, mark_forwarded: true }
    );
    // Leader, home is a peer, marked: the home agrees with us; execute.
    assert_eq!(route(me, &Role::Leader, peer, true), RouteAction::ExecuteLocal);
    // Follower, unmarked: send to the leader without a mark.
    assert_eq!(
        route(me, &Role::Follower { leader }, peer, false),
        RouteAction::Forward { target: leader, mark_forwarded: false }
    );
    // Follower, marked: the leader already chose us; execute.
    assert_eq!(
        route(me, &Role::Follower { leader }, peer, true),
        RouteAction::ExecuteLocal
    );
    // Candidate: fail.
    assert_eq!(route(me, &Role::Candidate, me, false), RouteAction::FailNoLeader);
    assert_eq!(route(me, &Role::Candidate, peer, true), RouteAction::FailNoLeader);
}

#[test]
fn routing_reaches_home_in_two_hops() {
    // A settled three-node cluster: 1 leads, 2 and 3 follow.
    let role_of = |n: u128| -> Role {
        if n == 1 { Role::Leader } else { Role::Follower { leader: 1 } }
    };
    // A request for home 3, issued unmarked at 2, hops 2 -> 1 -> 3.
    let mut node = 2u128;
    let mut marked = false;
    let mut hops = 0;
    let executed_at = loop {
        match route(node, &role_of(node), 3, marked) {
            RouteAction::ExecuteLocal => break node,
            RouteAction::Forward { target, mark_forwarded } => {
                node = target;
                marked = marked || mark_forwarded;
                hops += 1;
                assert!(hops <= 2, "a request never travels more than two hops");
            }
            RouteAction::FailNoLeader => panic!("a settled cluster never fails"),
        }
    };
    assert_eq!(executed_at, 3, "the side effect runs on the home node");
    assert_eq!(hops, 2);
}

#[test]
fn peer_cache_lookup_insert_drop() {
    let mut cache: PeerCache<&str> = PeerCache::new();
    assert!(cache.lookup(1).is_none());
    cache.insert(1, "client-a");
    cache.insert(2, "client-b");
    assert_eq!(cache.lookup(1), Some(&"client-a"));
    cache.insert(1, "client-a2");
    assert_eq!(cache.lookup(1), Some(&"client-a2"));
    cache.drop_client(1);
    assert!(cache.lookup(1).is_none());
    assert_eq!(cache.lookup(2), Some(&"client-b"));
    cache.drop_client(7);
    assert_eq!(cache.lookup(2), Some(&"client-b"));
}
