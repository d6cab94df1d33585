//! The node agent and its service surface.
//!
//! Each cluster member runs one agent. Mutating requests pass through the
//! routing state machine; a request that is to run here is carried out in
//! two steps with the host's side effect between them, so that the catalog
//! is written only after the effect succeeded. Reads answer from the local
//! catalog state and never route.

use vstd::prelude::*;
use vstd::utf8::encode_utf8;
use crate::ids::{spec_parse_uuid, uuid_chars, parse_id, format_id, fresh_id};
use crate::net::{Ipv4, ipv4_chars};
use crate::cluster::catalog::{Catalog, Kind, spec_insert, ids_of};
use crate::cluster::error::Error;
use crate::cluster::node::{Node, NodeView, spec_get_node, node_bytes};
use crate::cluster::pool::{Pool, spec_get_pool, pool_bytes};
use crate::cluster::disk::{Disk, DiskView, spec_get_disk, disk_bytes};
use crate::cluster::routing::{Role, RouteAction, route, spec_route};
use crate::storage::{disk_filename, create_disk_command, disk_file_chars,
    create_command_chars};

verus! {

/// How a request failed, mirroring the status kinds of the transport.
#[derive(Clone, PartialEq, Eq, Debug)]
pub enum RpcError {
    /// The request itself is malformed or names an unknown entity.
    InvalidArgument(String),
    /// The node could not carry the request out.
    Internal(String),
    /// The request found the cluster in a state that forbids it.
    FailedPrecondition(String),
    /// No leader, or a peer is unreachable; the caller should retry.
    Unavailable(String),
}

/// Asks to create a pool on a node.
pub struct AddPoolRequest {
    pub name: Option<String>,
    pub path: String,
    pub node: String,
}

/// Carries the new pool's identifier back.
pub struct AddPoolReply {
    pub success: bool,
    pub id: Option<String>,
}

/// Asks to create a disk inside a pool.
pub struct AddDiskRequest {
    pub name: Option<String>,
    pub pool: String,
    pub size_gb: u64,
}

/// Carries the new disk's identifier back.
pub struct AddDiskReply {
    pub success: bool,
    pub id: Option<String>,
}

/// Where a routed request goes next: run here, or hop to a peer.
pub enum Routed {
    /// Execute on this node: side effect first, then commit.
    Local,
    /// Relay to `target`, marking the request when asked to.
    Forward { target: u128, mark_forwarded: bool },
}

/// The node agent's identity and configuration. The consensus transport,
/// the timers and the sockets around it live with the host.
pub struct Virtus {
    id: u128,
    address: Ipv4,
    data_dir: String,
    peers: Vec<Ipv4>,
}

/// The specification-level value of an agent.
pub ghost struct VirtusView {
    pub id: u128,
    pub address: Ipv4,
    pub data_dir: Seq<char>,
    pub peers: Seq<Ipv4>,
}

impl View for Virtus {
    type V = VirtusView;

    closed spec fn view(&self) -> VirtusView {
        VirtusView {
            id: self.id,
            address: self.address,
            data_dir: self.data_dir@,
            peers: self.peers@,
        }
    }
}

impl Virtus {
    /// Builds an agent with the given identity and configuration.
    pub fn new(id: u128, address: Ipv4, data_dir: String, peers: Vec<Ipv4>)
        -> (r: Result<Virtus, Error>)
        ensures
            r matches Ok(v) && v@ == (VirtusView {
                id,
                address,
                data_dir: data_dir@,
                peers: peers@,
            }),
    {
        Ok(Virtus { id, address, data_dir, peers })
    }

    /// The agent's identity.
    pub fn get_id(&self) -> (r: u128)
        ensures
            r == self@.id,
    {
        self.id
    }

    /// The agent's bind address.
    pub fn get_address(&self) -> (r: Ipv4)
        ensures
            r == self@.address,
    {
        self.address
    }

    /// The consensus data directory.
    pub fn get_data_dir(&self) -> (r: &String)
        ensures
            r@ == self@.data_dir,
    {
        &self.data_dir
    }

    /// The peers named at startup.
    pub fn get_peers(&self) -> (r: &Vec<Ipv4>)
        ensures
            r@ == self@.peers,
    {
        &self.peers
    }

    /// Registers this agent as a Node entity, once the consensus layer
    /// reports an elected leader. The record's identifier is the agent's
    /// own; re-registration after a restart overwrites the old record.
    pub fn register_self(&self, hostname: &str, catalog: &mut Catalog) -> (r: Node)
        requires
            encode_utf8(hostname@).len() < 0x100000000,
        ensures
            r@ == (NodeView {
                id: self@.id,
                address: self@.address,
                hostname: hostname@,
                pools: Seq::empty(),
            }),
            final(catalog)@ == spec_insert(old(catalog)@, Kind::Node, self@.id,
                node_bytes(r@)),
    {
        Node::create(self.id, hostname, self.address, catalog)
    }

    /// All cluster members, read from the local catalog state.
    pub fn get_cluster(&self, catalog: &Catalog) -> (r: Option<Vec<Node>>)
        ensures
            match r {
                Some(ns) => {
                    &&& ns@.len() == ids_of(catalog@, Kind::Node).len()
                    &&& forall|i: int| 0 <= i < ids_of(catalog@, Kind::Node).len()
                        ==> spec_get_node(catalog@, ids_of(catalog@, Kind::Node)[i])
                            == Some((#[trigger] ns@[i])@)
                },
                None => exists|i: int| 0 <= i < ids_of(catalog@, Kind::Node).len()
                    && spec_get_node(catalog@,
                        #[trigger] ids_of(catalog@, Kind::Node)[i]) is None,
            },
    {
        Node::list(catalog)
    }

    /// The address a peer must be dialed at, from the catalog; the control
    /// port is fixed. Fails with `PeerNotFound` exactly when the peer has
    /// no readable record.
    pub fn peer_address(&self, peer: u128, catalog: &Catalog) -> (r: Result<Ipv4, Error>)
        ensures
            match r {
                Ok(addr) => spec_get_node(catalog@, peer) matches Some(v)
                    && v.address == addr,
                Err(e) => e == Error::PeerNotFound
                    && spec_get_node(catalog@, peer) is None,
            },
    {
        match Node::get(peer, catalog) {
            Some(node) => Ok(node.get_addr()),
            None => Err(Error::PeerNotFound),
        }
    }

    /// Routes an add-pool request: validates the target node, then applies
    /// the routing decision table with that node as the home.
    pub fn add_pool_route(&self, role: &Role, forwarded: bool, req: &AddPoolRequest,
        catalog: &Catalog) -> (r: Result<Routed, RpcError>)
        ensures
            match spec_parse_uuid(req.node@) {
                None => r matches Err(RpcError::InvalidArgument(m))
                    && m@ == "Invalid node ID"@,
                Some(nid) => match spec_get_node(catalog@, nid) {
                    None => r matches Err(RpcError::InvalidArgument(m))
                        && m@ == "Node not found"@,
                    Some(_) => match spec_route(self@.id, *role, nid, forwarded) {
                        RouteAction::ExecuteLocal => r matches Ok(Routed::Local),
                        RouteAction::Forward { target, mark_forwarded } => r matches
                            Ok(Routed::Forward { target: t, mark_forwarded: m })
                            && t == target && m == mark_forwarded,
                        RouteAction::FailNoLeader => r matches Err(RpcError::Internal(m))
                            && m@ == "no skiff leader elected"@,
                    },
                },
            },
    {
        let node_id = match parse_id(req.node.as_str()) {
            Some(id) => id,
            None => {
                return Err(RpcError::InvalidArgument(String::from_str("Invalid node ID")));
            }
        };
        if Node::get(node_id, catalog).is_none() {
            return Err(RpcError::InvalidArgument(String::from_str("Node not found")));
        }
        match route(self.id, role, node_id, forwarded) {
            RouteAction::ExecuteLocal => Ok(Routed::Local),
            RouteAction::Forward { target, mark_forwarded } => Ok(Routed::Forward {
                target,
                mark_forwarded,
            }),
            RouteAction::FailNoLeader => Err(RpcError::Internal(String::from_str(
                "no skiff leader elected",
            ))),
        }
    }

    /// Finishes an add-pool request on the home node, after the host ran
    /// the ensure-directory effect. The record is committed exactly once,
    /// and only when the effect succeeded; on a failed effect the catalog
    /// is untouched.
    pub fn add_pool_finish(&self, req: &AddPoolRequest, dir_ok: bool,
        catalog: &mut Catalog) -> (r: Result<(AddPoolReply, Pool), RpcError>)
        requires
            encode_utf8(req.path@).len() < 0x100000000,
            match req.name {
                Some(n) => encode_utf8(n@).len() < 0x100000000,
                None => true,
            },
        ensures
            dir_ok ==> (r matches Ok((reply, pool))
                && pool@.node_id == self@.id
                && pool@.path == req.path@
                && pool@.name == crate::codec::opt_str_view(req.name)
                && pool@.disks == Seq::<u128>::empty()
                && final(catalog)@ == spec_insert(old(catalog)@, Kind::Pool, pool@.id,
                    pool_bytes(pool@))
                && reply.success
                && (reply.id matches Some(t) && t@ == uuid_chars(pool@.id))),
            !dir_ok ==> (final(catalog)@ == old(catalog)@
                && (r matches Err(RpcError::Internal(m))
                    && m@ == "failed to create pool directory"@)),
    {
        if !dir_ok {
            return Err(RpcError::Internal(String::from_str(
                "failed to create pool directory",
            )));
        }
        let name_ref = match &req.name {
            Some(n) => Some(n.as_str()),
            None => None,
        };
        let pool = Pool::create(self.id, req.path.as_str(), name_ref, catalog);
        let reply = AddPoolReply { success: true, id: Some(format_id(pool.get_id())) };
        Ok((reply, pool))
    }

    /// Routes an add-disk request: validates the target pool, then applies
    /// the routing decision table with the pool's node as the home. On the
    /// local branch the pool record rides along for the effect step.
    pub fn add_disk_route(&self, role: &Role, forwarded: bool, req: &AddDiskRequest,
        catalog: &Catalog) -> (r: Result<(Routed, Pool), RpcError>)
        ensures
            match spec_parse_uuid(req.pool@) {
                None => r matches Err(RpcError::InvalidArgument(m))
                    && m@ == "Invalid pool ID"@,
                Some(pid) => match spec_get_pool(catalog@, pid) {
                    None => r matches Err(RpcError::InvalidArgument(m))
                        && m@ == "Pool not found"@,
                    Some(pv) => match spec_route(self@.id, *role, pv.node_id, forwarded) {
                        RouteAction::ExecuteLocal => r matches Ok((Routed::Local, pool))
                            && pool@ == pv,
                        RouteAction::Forward { target, mark_forwarded } => r matches
                            Ok((Routed::Forward { target: t, mark_forwarded: m }, pool))
                            && t == target && m == mark_forwarded && pool@ == pv,
                        RouteAction::FailNoLeader => r matches Err(RpcError::Internal(m))
                            && m@ == "no skiff leader elected"@,
                    },
                },
            },
    {
        let pool_id = match parse_id(req.pool.as_str()) {
            Some(id) => id,
            None => {
                return Err(RpcError::InvalidArgument(String::from_str("Invalid pool ID")));
            }
        };
        let pool = match Pool::get(pool_id, catalog) {
            Some(pool) => pool,
            None => {
                return Err(RpcError::InvalidArgument(String::from_str("Pool not found")));
            }
        };
        match route(self.id, role, pool.get_node_id(), forwarded) {
            RouteAction::ExecuteLocal => Ok((Routed::Local, pool)),
            RouteAction::Forward { target, mark_forwarded } => Ok((Routed::Forward {
                target,
                mark_forwarded,
            }, pool)),
            RouteAction::FailNoLeader => Err(RpcError::Internal(String::from_str(
                "no skiff leader elected",
            ))),
        }
    }

    /// Draws the identifier of a disk about to be created and lays out the
    /// host's work: the backing file path inside the pool's directory and
    /// the exact image tool command for the requested size.
    pub fn add_disk_plan(&self, pool: &Pool, size_gb: u64) -> (r: (u128, String, String))
        ensures
            r.1@ == disk_file_chars(pool@.path, r.0),
            r.2@ == create_command_chars(disk_file_chars(pool@.path, r.0), size_gb),
    {
        let disk_id = fresh_id();
        let filename = disk_filename(pool.get_path().as_str(), disk_id);
        let command = create_disk_command(filename.as_str(), size_gb);
        (disk_id, filename, command)
    }

    /// Finishes an add-disk request on the home node, after the host ran
    /// the image tool. The record is committed exactly once, and only when
    /// the tool exited zero; otherwise the catalog is untouched and the
    /// tool's stderr is reported.
    pub fn add_disk_finish(&self, req: &AddDiskRequest, pool: &Pool, disk_id: u128,
        tool_ok: bool, stderr: &str, catalog: &mut Catalog)
        -> (r: Result<(AddDiskReply, Disk), RpcError>)
        requires
            match req.name {
                Some(n) => encode_utf8(n@).len() < 0x100000000,
                None => true,
            },
            req.size_gb <= usize::MAX as u64,
        ensures
            tool_ok ==> (r matches Ok((reply, disk))
                && disk@ == (DiskView {
                    id: disk_id,
                    pool_id: pool@.id,
                    name: crate::codec::opt_str_view(req.name),
                    size: req.size_gb as usize,
                })
                && final(catalog)@ == spec_insert(old(catalog)@, Kind::Disk, disk_id,
                    disk_bytes(disk@))
                && reply.success
                && (reply.id matches Some(t) && t@ == uuid_chars(disk_id))),
            !tool_ok ==> (final(catalog)@ == old(catalog)@
                && (r matches Err(RpcError::Internal(m)) && m@ == stderr@)),
    {
        if !tool_ok {
            return Err(RpcError::Internal(stderr.to_owned()));
        }
        let name_ref = match &req.name {
            Some(n) => Some(n.as_str()),
            None => None,
        };
        let disk = Disk::create(pool.get_id(), req.size_gb as usize, name_ref, disk_id,
            catalog);
        let reply = AddDiskReply { success: true, id: Some(format_id(disk.get_id())) };
        Ok((reply, disk))
    }

    /// Answers a get-node request from the local catalog state.
    pub fn get_node(&self, id_text: &str, catalog: &Catalog)
        -> (r: Result<Option<Node>, RpcError>)
        ensures
            match spec_parse_uuid(id_text@) {
                Some(id) => match r {
                    Ok(Some(n)) => spec_get_node(catalog@, id) == Some(n@),
                    Ok(None) => spec_get_node(catalog@, id) is None,
                    Err(_) => false,
                },
                None => r matches Err(RpcError::InvalidArgument(m))
                    && m@ == "Invalid node ID"@,
            },
    {
        match parse_id(id_text) {
            Some(id) => Ok(Node::get(id, catalog)),
            None => Err(RpcError::InvalidArgument(String::from_str("Invalid node ID"))),
        }
    }

    /// Answers a get-pool request from the local catalog state.
    pub fn get_pool(&self, id_text: &str, catalog: &Catalog)
        -> (r: Result<Option<Pool>, RpcError>)
        ensures
            match spec_parse_uuid(id_text@) {
                Some(id) => match r {
                    Ok(Some(p)) => spec_get_pool(catalog@, id) == Some(p@),
                    Ok(None) => spec_get_pool(catalog@, id) is None,
                    Err(_) => false,
                },
                None => r matches Err(RpcError::InvalidArgument(m))
                    && m@ == "Invalid pool ID"@,
            },
    {
        match parse_id(id_text) {
            Some(id) => Ok(Pool::get(id, catalog)),
            None => Err(RpcError::InvalidArgument(String::from_str("Invalid pool ID"))),
        }
    }

    /// Answers a get-disk request from the local catalog state.
    pub fn get_disk(&self, id_text: &str, catalog: &Catalog)
        -> (r: Result<Option<Disk>, RpcError>)
        ensures
            match spec_parse_uuid(id_text@) {
                Some(id) => match r {
                    Ok(Some(d)) => spec_get_disk(catalog@, id) == Some(d@),
                    Ok(None) => spec_get_disk(catalog@, id) is None,
                    Err(_) => false,
                },
                None => r matches Err(RpcError::InvalidArgument(m))
                    && m@ == "Invalid disk ID"@,
            },
    {
        match parse_id(id_text) {
            Some(id) => Ok(Disk::get(id, catalog)),
            None => Err(RpcError::InvalidArgument(String::from_str("Invalid disk ID"))),
        }
    }

    /// Lists every node's identifier in canonical text, in catalog order.
    pub fn list_nodes(&self, catalog: &Catalog) -> (r: Option<Vec<String>>)
        ensures
            match r {
                Some(out) => {
                    &&& out@.len() == ids_of(catalog@, Kind::Node).len()
                    &&& forall|i: int| 0 <= i < out@.len()
                        ==> (spec_get_node(catalog@, ids_of(catalog@, Kind::Node)[i]) is Some
                            && (#[trigger] out@[i])@ == uuid_chars(
                                spec_get_node(catalog@,
                                    ids_of(catalog@, Kind::Node)[i])->Some_0.id))
                },
                None => exists|i: int| 0 <= i < ids_of(catalog@, Kind::Node).len()
                    && spec_get_node(catalog@,
                        #[trigger] ids_of(catalog@, Kind::Node)[i]) is None,
            },
    {
        let nodes = match Node::list(catalog) {
            Some(ns) => ns,
            None => {
                return None;
            }
        };
        let mut out: Vec<String> = Vec::new();
        let mut i: usize = 0;
        while i < nodes.len()
            invariant
                i <= nodes@.len(),
                nodes@.len() == ids_of(catalog@, Kind::Node).len(),
                forall|j: int| 0 <= j < nodes@.len()
                    ==> spec_get_node(catalog@, ids_of(catalog@, Kind::Node)[j])
                        == Some((#[trigger] nodes@[j])@),
                out@.len() == i,
                forall|j: int| 0 <= j < i
                    ==> (#[trigger] out@[j])@ == uuid_chars(nodes@[j]@.id),
            decreases nodes@.len() - i,
        {
            out.push(format_id(nodes[i].get_id()));
            i = i + 1;
        }
        proof {
            assert forall|k: int| 0 <= k < out@.len()
                implies #[trigger] spec_get_node(catalog@, ids_of(catalog@, Kind::Node)[k])
                    is Some by {
                assert(spec_get_node(catalog@, ids_of(catalog@, Kind::Node)[k])
                    == Some((nodes@[k])@));
            }
            assert forall|k: int| 0 <= k < out@.len()
                implies (spec_get_node(catalog@, ids_of(catalog@, Kind::Node)[k]) is Some
                    && (#[trigger] out@[k])@ == uuid_chars(
                        spec_get_node(catalog@, ids_of(catalog@, Kind::Node)[k])->Some_0.id)) by {
                assert(spec_get_node(catalog@, ids_of(catalog@, Kind::Node)[k])
                    == Some((nodes@[k])@));
                assert(out@[k]@ == uuid_chars(nodes@[k]@.id));
            }
        }
        Some(out)
    }

    /// Lists every pool's identifier in canonical text, in catalog order.
    pub fn list_pools(&self, catalog: &Catalog) -> (r: Option<Vec<String>>)
        ensures
            match r {
                Some(out) => {
                    &&& out@.len() == ids_of(catalog@, Kind::Pool).len()
                    &&& forall|i: int| 0 <= i < out@.len()
                        ==> (spec_get_pool(catalog@, ids_of(catalog@, Kind::Pool)[i]) is Some
                            && (#[trigger] out@[i])@ == uuid_chars(
                                spec_get_pool(catalog@,
                                    ids_of(catalog@, Kind::Pool)[i])->Some_0.id))
                },
                None => exists|i: int| 0 <= i < ids_of(catalog@, Kind::Pool).len()
                    && spec_get_pool(catalog@,
                        #[trigger] ids_of(catalog@, Kind::Pool)[i]) is None,
            },
    {
        let pools = match Pool::list(catalog) {
            Some(ps) => ps,
            None => {
                return None;
            }
        };
        let mut out: Vec<String> = Vec::new();
        let mut i: usize = 0;
        while i < pools.len()
            invariant
                i <= pools@.len(),
                pools@.len() == ids_of(catalog@, Kind::Pool).len(),
                forall|j: int| 0 <= j < pools@.len()
                    ==> spec_get_pool(catalog@, ids_of(catalog@, Kind::Pool)[j])
                        == Some((#[trigger] pools@[j])@),
                out@.len() == i,
                forall|j: int| 0 <= j < i
                    ==> (#[trigger] out@[j])@ == uuid_chars(pools@[j]@.id),
            decreases pools@.len() - i,
        {
            out.push(format_id(pools[i].get_id()));
            i = i + 1;
        }
        proof {
            assert forall|k: int| 0 <= k < out@.len()
                implies #[trigger] spec_get_pool(catalog@, ids_of(catalog@, Kind::Pool)[k])
                    is Some by {
                assert(spec_get_pool(catalog@, ids_of(catalog@, Kind::Pool)[k])
                    == Some((pools@[k])@));
            }
            assert forall|k: int| 0 <= k < out@.len()
                implies (spec_get_pool(catalog@, ids_of(catalog@, Kind::Pool)[k]) is Some
                    && (#[trigger] out@[k])@ == uuid_chars(
                        spec_get_pool(catalog@, ids_of(catalog@, Kind::Pool)[k])->Some_0.id)) by {
                assert(spec_get_pool(catalog@, ids_of(catalog@, Kind::Pool)[k])
                    == Some((pools@[k])@));
                assert(out@[k]@ == uuid_chars(pools@[k]@.id));
            }
        }
        Some(out)
    }

    /// Lists every disk's identifier in canonical text, in catalog order.
    pub fn list_disks(&self, catalog: &Catalog) -> (r: Option<Vec<String>>)
        ensures
            match r {
                Some(out) => {
                    &&& out@.len() == ids_of(catalog@, Kind::Disk).len()
                    &&& forall|i: int| 0 <= i < out@.len()
                        ==> (spec_get_disk(catalog@, ids_of(catalog@, Kind::Disk)[i]) is Some
                            && (#[trigger] out@[i])@ == uuid_chars(
                                spec_get_disk(catalog@,
                                    ids_of(catalog@, Kind::Disk)[i])->Some_0.id))
                },
                None => exists|i: int| 0 <= i < ids_of(catalog@, Kind::Disk).len()
                    && spec_get_disk(catalog@,
                        #[trigger] ids_of(catalog@, Kind::Disk)[i]) is None,
            },
    {
        let disks = match Disk::list(catalog) {
            Some(ds) => ds,
            None => {
                return None;
            }
        };
        let mut out: Vec<String> = Vec::new();
        let mut i: usize = 0;
        while i < disks.len()
            invariant
                i <= disks@.len(),
                disks@.len() == ids_of(catalog@, Kind::Disk).len(),
                forall|j: int| 0 <= j < disks@.len()
                    ==> spec_get_disk(catalog@, ids_of(catalog@, Kind::Disk)[j])
                        == Some((#[trigger] disks@[j])@),
                out@.len() == i,
                forall|j: int| 0 <= j < i
                    ==> (#[trigger] out@[j])@ == uuid_chars(disks@[j]@.id),
            decreases disks@.len() - i,
        {
            out.push(format_id(disks[i].get_id()));
            i = i + 1;
        }
        proof {
            assert forall|k: int| 0 <= k < out@.len()
                implies #[trigger] spec_get_disk(catalog@, ids_of(catalog@, Kind::Disk)[k])
                    is Some by {
                assert(spec_get_disk(catalog@, ids_of(catalog@, Kind::Disk)[k])
                    == Some((disks@[k])@));
            }
            assert forall|k: int| 0 <= k < out@.len()
                implies (spec_get_disk(catalog@, ids_of(catalog@, Kind::Disk)[k]) is Some
                    && (#[trigger] out@[k])@ == uuid_chars(
                        spec_get_disk(catalog@, ids_of(catalog@, Kind::Disk)[k])->Some_0.id)) by {
                assert(spec_get_disk(catalog@, ids_of(catalog@, Kind::Disk)[k])
                    == Some((disks@[k])@));
                assert(out@[k]@ == uuid_chars(disks@[k]@.id));
            }
        }
        Some(out)
    }

    /// The text a peer is dialed with: `http://<address>:9400`.
    pub fn dial_text(address: Ipv4) -> (r: String)
        ensures
            r@ == "http://"@ + ipv4_chars(address) + ":9400"@,
    {
        let mut r = String::from_str("http://");
        let addr = address.to_text();
        r.append(addr.as_str());
        r.append(":9400");
        proof {
            reveal_strlit("http://");
            reveal_strlit(":9400");
            assert(r@ =~= "http://"@ + ipv4_chars(address) + ":9400"@);
        }
        r
    }
}

} // verus!
