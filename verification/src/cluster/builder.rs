//! Construction of a node agent.

use vstd::prelude::*;
use crate::ids::fresh_id;
use crate::net::Ipv4;
use crate::cluster::error::Error;
use crate::cluster::virtus::Virtus;

verus! {

/// Collects a node's startup parameters: a freshly drawn identity, the
/// bind address, the consensus data directory, and the peers of an
/// existing cluster to join. No peers means this node starts a new
/// cluster as its leader.
#[derive(Clone, Debug)]
pub struct Builder {
    id: u128,
    bind_address: Ipv4,
    data_dir: String,
    peers: Vec<Ipv4>,
}

impl Builder {
    /// Starts from the defaults: loopback bind address, `/tmp/virtus`
    /// data directory, no peers, and a freshly drawn identity.
    pub fn new() -> (r: Builder)
        ensures
            r@.bind_address == (Ipv4 { a: 127, b: 0, c: 0, d: 1 }),
            r@.data_dir == "/tmp/virtus"@,
            r@.peers == Seq::<Ipv4>::empty(),
    {
        let r = Builder {
            id: fresh_id(),
            bind_address: Ipv4 { a: 127, b: 0, c: 0, d: 1 },
            data_dir: String::from_str("/tmp/virtus"),
            peers: Vec::new(),
        };
        proof {
            assert(r@.peers =~= Seq::<Ipv4>::empty());
        }
        r
    }

    /// The identity the node will carry.
    pub fn id(&self) -> (r: u128)
        ensures
            r == self@.id,
    {
        self.id
    }

    /// Chooses the consensus data directory.
    pub fn set_dir(self, dir: &str) -> (r: Builder)
        ensures
            r@ == (BuilderView { data_dir: dir@, ..self@ }),
    {
        Builder { data_dir: dir.to_owned(), ..self }
    }

    /// Chooses the bind address.
    pub fn bind(self, address: Ipv4) -> (r: Builder)
        ensures
            r@ == (BuilderView { bind_address: address, ..self@ }),
    {
        Builder { bind_address: address, ..self }
    }

    /// Joins an existing cluster through the given peers instead of
    /// starting a new one.
    pub fn join_cluster(self, peers: Vec<Ipv4>) -> (r: Builder)
        ensures
            r@ == (BuilderView { peers: peers@, ..self@ }),
    {
        Builder { peers, ..self }
    }

    /// Finishes construction.
    pub fn build(self) -> (r: Result<Virtus, Error>)
        ensures
            r matches Ok(v) && v@.id == self@.id
                && v@.address == self@.bind_address
                && v@.data_dir == self@.data_dir
                && v@.peers == self@.peers,
    {
        Virtus::new(self.id, self.bind_address, self.data_dir, self.peers)
    }
}

/// The specification-level value of a builder.
pub ghost struct BuilderView {
    pub id: u128,
    pub bind_address: Ipv4,
    pub data_dir: Seq<char>,
    pub peers: Seq<Ipv4>,
}

impl View for Builder {
    type V = BuilderView;

    closed spec fn view(&self) -> BuilderView {
        BuilderView {
            id: self.id,
            bind_address: self.bind_address,
            data_dir: self.data_dir@,
            peers: self.peers@,
        }
    }
}

} // verus!
