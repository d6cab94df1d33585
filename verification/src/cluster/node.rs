//! Cluster members.
//!
//! A node record identifies one agent: its identifier (equal to the agent's
//! own identifier), its control address, its hostname and the pools it
//! owns. Records live in the catalog under the `nodes/` prefix.

use vstd::prelude::*;
use vstd::utf8::encode_utf8;
use crate::codec::{id_field, str_field, id_list_field, take_id, take_str, take_id_list,
    lemma_take_id, lemma_take_str, lemma_take_id_list, lemma_take_str_len,
    lemma_take_id_list_len, enc_id, enc_str, enc_id_list, dec_id, dec_str, dec_id_list};
use crate::net::Ipv4;
use crate::cluster::catalog::{Catalog, Kind, EntryV, find_value, spec_insert, ids_of};
use crate::cluster::pool::{Pool, spec_get_pool, pool_bytes};

verus! {

/// The specification-level value of a node record.
pub ghost struct NodeView {
    pub id: u128,
    pub address: Ipv4,
    pub hostname: Seq<char>,
    pub pools: Seq<u128>,
}

impl NodeView {
    /// Wire limits: the hostname and the pool list fit their length fields.
    pub open spec fn wf(&self) -> bool {
        encode_utf8(self.hostname).len() < 0x100000000
            && self.pools.len() < 0x100000000
    }
}

/// A cluster member record.
#[derive(Debug)]
pub struct Node {
    id: u128,
    address: Ipv4,
    hostname: String,
    pools: Vec<u128>,
}

impl View for Node {
    type V = NodeView;

    closed spec fn view(&self) -> NodeView {
        NodeView {
            id: self.id,
            address: self.address,
            hostname: self.hostname@,
            pools: self.pools@,
        }
    }
}

/// The encoding of an address: its four octets.
pub open spec fn ipv4_field(ip: Ipv4) -> Seq<u8> {
    seq![ip.a, ip.b, ip.c, ip.d]
}

/// Reads an address from the front of `buf`.
pub open spec fn take_ipv4(buf: Seq<u8>) -> Option<(Ipv4, Seq<u8>)> {
    if buf.len() >= 4 {
        Some((Ipv4 { a: buf[0], b: buf[1], c: buf[2], d: buf[3] }, buf.skip(4)))
    } else {
        None
    }
}

pub proof fn lemma_take_ipv4(ip: Ipv4, rest: Seq<u8>)
    ensures
        take_ipv4(ipv4_field(ip) + rest) == Some((ip, rest)),
{
    let buf = ipv4_field(ip) + rest;
    assert(buf.skip(4) =~= rest);
}

/// Appends an address field.
pub fn enc_ipv4(out: &mut Vec<u8>, ip: Ipv4)
    ensures
        final(out)@ == old(out)@ + ipv4_field(ip),
{
    out.push(ip.a);
    out.push(ip.b);
    out.push(ip.c);
    out.push(ip.d);
    proof {
        assert(out@ =~= old(out)@ + ipv4_field(ip));
    }
}

/// Reads an address field starting at `pos`.
pub fn dec_ipv4(buf: &Vec<u8>, pos: usize) -> (r: Option<(Ipv4, usize)>)
    requires
        pos <= buf@.len(),
    ensures
        match r {
            Some((ip, end)) => pos <= end <= buf@.len()
                && take_ipv4(buf@.skip(pos as int)) == Some((ip, buf@.skip(end as int))),
            None => take_ipv4(buf@.skip(pos as int)) is None,
        },
{
    if buf.len() - pos < 4 {
        return None;
    }
    let ip = Ipv4 { a: buf[pos], b: buf[pos + 1], c: buf[pos + 2], d: buf[pos + 3] };
    proof {
        assert(buf@.skip(pos as int).skip(4) =~= buf@.skip(pos + 4));
        assert(buf@.skip(pos as int)[0] == buf@[pos as int]);
        assert(buf@.skip(pos as int)[1] == buf@[pos + 1]);
        assert(buf@.skip(pos as int)[2] == buf@[pos + 2]);
        assert(buf@.skip(pos as int)[3] == buf@[pos + 3]);
    }
    Some((ip, pos + 4))
}

/// The version tag of the node record encoding.
pub const NODE_VERSION: u8 = 1;

/// The byte encoding of a node record: version, identifier, address,
/// hostname, pool list.
pub open spec fn node_bytes(v: NodeView) -> Seq<u8> {
    seq![NODE_VERSION] + id_field(v.id) + ipv4_field(v.address) + str_field(v.hostname)
        + id_list_field(v.pools)
}

/// Reads a node record from the front of `buf`.
pub open spec fn take_node(buf: Seq<u8>) -> Option<(NodeView, Seq<u8>)> {
    if buf.len() < 1 || buf[0] != NODE_VERSION {
        None
    } else {
        match take_id(buf.skip(1)) {
            Some((id, b1)) => match take_ipv4(b1) {
                Some((address, b2)) => match take_str(b2) {
                    Some((hostname, b3)) => match take_id_list(b3) {
                        Some((pools, rest)) => Some((
                            NodeView { id, address, hostname, pools },
                            rest,
                        )),
                        None => None,
                    },
                    None => None,
                },
                None => None,
            },
            None => None,
        }
    }
}

/// The record denoted by a full buffer, which must hold nothing else.
pub open spec fn spec_decode_node(buf: Seq<u8>) -> Option<NodeView> {
    match take_node(buf) {
        Some((v, rest)) => if rest.len() == 0 {
            Some(v)
        } else {
            None
        },
        None => None,
    }
}

/// Reading the encoding of a node record yields the record back.
pub proof fn lemma_take_node(v: NodeView, rest: Seq<u8>)
    requires
        v.wf(),
    ensures
        take_node(node_bytes(v) + rest) == Some((v, rest)),
{
    let buf = node_bytes(v) + rest;
    let t1 = ipv4_field(v.address) + (str_field(v.hostname)
        + (id_list_field(v.pools) + rest));
    assert(buf[0] == NODE_VERSION);
    assert(buf.skip(1) =~= id_field(v.id) + t1);
    lemma_take_id(v.id, t1);
    lemma_take_ipv4(v.address, str_field(v.hostname) + (id_list_field(v.pools) + rest));
    lemma_take_str(v.hostname, id_list_field(v.pools) + rest);
    lemma_take_id_list(v.pools, rest);
}

/// Serialization round trip: decoding the encoding of a node record yields
/// an equal record.
pub proof fn lemma_node_round_trip(v: NodeView)
    requires
        v.wf(),
    ensures
        spec_decode_node(node_bytes(v)) == Some(v),
{
    lemma_take_node(v, Seq::empty());
    assert(node_bytes(v) + Seq::<u8>::empty() =~= node_bytes(v));
}

/// What a node read from the catalog denotes: the decoded record under the
/// node's key, if the key is present and its bytes decode.
pub open spec fn spec_get_node(cat: Seq<EntryV>, id: u128)
    -> Option<NodeView> {
    match find_value(cat, Kind::Node, id) {
        Some(bytes) => spec_decode_node(bytes),
        None => None,
    }
}

impl Node {
    /// Registers a node record. The record's identifier equals the agent's
    /// own identifier; its pool list starts empty. The catalog gains exactly
    /// this one record; re-registration after a restart overwrites the old
    /// record, which is the one write allowed to precede its side effects.
    pub fn create(id: u128, hostname: &str, address: Ipv4, catalog: &mut Catalog)
        -> (r: Node)
        requires
            encode_utf8(hostname@).len() < 0x100000000,
        ensures
            r@ == (NodeView { id, address, hostname: hostname@, pools: Seq::empty() }),
            final(catalog)@ == spec_insert(old(catalog)@, Kind::Node, id, node_bytes(r@)),
    {
        let node = Node {
            id,
            hostname: hostname.to_owned(),
            address,
            pools: Vec::new(),
        };
        proof {
            assert(node@.pools =~= Seq::<u128>::empty());
        }
        node.commit(catalog);
        node
    }

    /// The node's identifier.
    pub fn get_id(&self) -> (r: u128)
        ensures
            r == self@.id,
    {
        self.id
    }

    /// The node's control address.
    pub fn get_addr(&self) -> (r: Ipv4)
        ensures
            r == self@.address,
    {
        self.address
    }

    /// The node's hostname.
    pub fn get_hostname(&self) -> (r: &String)
        ensures
            r@ == self@.hostname,
    {
        &self.hostname
    }

    /// The pools the node owns.
    pub fn get_pools(&self) -> (r: &Vec<u128>)
        ensures
            r@ == self@.pools,
    {
        &self.pools
    }

    /// Encodes the record for the catalog.
    pub fn encode(&self) -> (r: Vec<u8>)
        requires
            self@.wf(),
        ensures
            r@ == node_bytes(self@),
    {
        let mut out: Vec<u8> = Vec::new();
        out.push(NODE_VERSION);
        enc_id(&mut out, self.id);
        enc_ipv4(&mut out, self.address);
        enc_str(&mut out, &self.hostname);
        enc_id_list(&mut out, &self.pools);
        proof {
            assert(out@ =~= node_bytes(self@));
        }
        out
    }

    /// Decodes a record from the catalog; returns `None` on any text that
    /// is not exactly the encoding of one node record.
    pub fn decode(buf: &Vec<u8>) -> (r: Option<Node>)
        ensures
            match r {
                Some(n) => spec_decode_node(buf@) == Some(n@) && n@.wf(),
                None => spec_decode_node(buf@) is None,
            },
    {
        if buf.len() < 1 {
            return None;
        }
        if buf[0] != NODE_VERSION {
            proof {
                assert(buf@[0] != NODE_VERSION);
            }
            return None;
        }
        proof {
            assert(buf@.skip(1) == buf@.skip(1));
        }
        let r1 = dec_id(buf, 1);
        let (id, p1) = match r1 {
            Some(x) => x,
            None => {
                return None;
            }
        };
        let r2 = dec_ipv4(buf, p1);
        let (address, p2) = match r2 {
            Some(x) => x,
            None => {
                return None;
            }
        };
        let r3 = dec_str(buf, p2);
        let (hostname, p3) = match r3 {
            Some(x) => x,
            None => {
                return None;
            }
        };
        let r4 = dec_id_list(buf, p3);
        let (pools, p4) = match r4 {
            Some(x) => x,
            None => {
                return None;
            }
        };
        if p4 != buf.len() {
            proof {
                assert(buf@.skip(p4 as int).len() > 0);
            }
            return None;
        }
        proof {
            assert(buf@.skip(p4 as int).len() == 0);
            assert(buf@.skip(p4 as int) =~= Seq::<u8>::empty());
            lemma_take_str_len(buf@.skip(p2 as int));
            lemma_take_id_list_len(buf@.skip(p3 as int));
        }
        Some(Node { id, address, hostname, pools })
    }

    /// Writes the record into the catalog under the node's key.
    fn commit(&self, catalog: &mut Catalog)
        requires
            self@.wf(),
        ensures
            final(catalog)@ == spec_insert(old(catalog)@, Kind::Node, self@.id,
                node_bytes(self@)),
    {
        let bytes = self.encode();
        catalog.insert(Kind::Node, self.id, bytes);
    }

    /// Reads one node record by identifier from the local catalog state.
    pub fn get(id: u128, catalog: &Catalog) -> (r: Option<Node>)
        ensures
            match r {
                Some(n) => spec_get_node(catalog@, id) == Some(n@) && n@.wf(),
                None => spec_get_node(catalog@, id) is None,
            },
    {
        match catalog.get(Kind::Node, id) {
            Some(bytes) => Node::decode(bytes),
            None => None,
        }
    }

    /// Creates a pool on this node and caches its identifier in the
    /// node's pool list, rewriting the node record. The pool's directory
    /// is made by the host before this is called.
    pub fn create_pool(&mut self, path: &str, name: Option<&str>, catalog: &mut Catalog)
        -> (r: Pool)
        requires
            old(self)@.wf(),
            old(self)@.pools.len() + 1 < 0x100000000,
            encode_utf8(path@).len() < 0x100000000,
            match name {
                Some(n) => encode_utf8(n@).len() < 0x100000000,
                None => true,
            },
        ensures
            r@.node_id == old(self)@.id,
            r@.path == path@,
            r@.disks == Seq::<u128>::empty(),
            final(self)@ == (NodeView {
                pools: old(self)@.pools.push(r@.id),
                ..old(self)@
            }),
            final(catalog)@ == spec_insert(
                spec_insert(old(catalog)@, Kind::Pool, r@.id, pool_bytes(r@)),
                Kind::Node, old(self)@.id, node_bytes(final(self)@)),
    {
        let pool = Pool::create(self.id, path, name, catalog);
        self.pools.push(pool.get_id());
        self.commit(catalog);
        pool
    }

    /// Reads this node's cached pools, in list order. Returns `None` when
    /// any referenced pool is missing or fails to decode.
    pub fn list_pools(&self, catalog: &Catalog) -> (r: Option<Vec<Pool>>)
        ensures
            match r {
                Some(ps) => {
                    &&& ps@.len() == self@.pools.len()
                    &&& forall|i: int| 0 <= i < self@.pools.len()
                        ==> spec_get_pool(catalog@, self@.pools[i])
                            == Some((#[trigger] ps@[i])@)
                },
                None => exists|i: int| 0 <= i < self@.pools.len()
                    && spec_get_pool(catalog@, #[trigger] self@.pools[i]) is None,
            },
    {
        let mut ps: Vec<Pool> = Vec::new();
        let mut i: usize = 0;
        while i < self.pools.len()
            invariant
                i <= self@.pools.len(),
                ps@.len() == i,
                forall|j: int| 0 <= j < i
                    ==> spec_get_pool(catalog@, self@.pools[j])
                        == Some((#[trigger] ps@[j])@),
            decreases self@.pools.len() - i,
        {
            match Pool::get(self.pools[i], catalog) {
                Some(p) => {
                    ps.push(p);
                }
                None => {
                    proof {
                        assert(spec_get_pool(catalog@, self@.pools[i as int]) is None);
                    }
                    return None;
                }
            }
            i = i + 1;
        }
        Some(ps)
    }

    /// Reads every node record, in catalog order. Returns `None` when any
    /// stored record fails to decode.
    pub fn list(catalog: &Catalog) -> (r: Option<Vec<Node>>)
        ensures
            match r {
                Some(ns) => {
                    &&& ns@.len() == ids_of(catalog@, Kind::Node).len()
                    &&& forall|i: int| 0 <= i < ids_of(catalog@, Kind::Node).len()
                        ==> spec_get_node(catalog@, ids_of(catalog@, Kind::Node)[i])
                            == Some((#[trigger] ns@[i])@)
                },
                None => exists|i: int| 0 <= i < ids_of(catalog@, Kind::Node).len()
                    && spec_get_node(catalog@,
                        #[trigger] ids_of(catalog@, Kind::Node)[i]) is None,
            },
    {
        let ids = catalog.list_ids(Kind::Node);
        let mut ns: Vec<Node> = Vec::new();
        let mut i: usize = 0;
        while i < ids.len()
            invariant
                i <= ids@.len(),
                ids@ == ids_of(catalog@, Kind::Node),
                ns@.len() == i,
                forall|j: int| 0 <= j < i
                    ==> spec_get_node(catalog@, ids@[j]) == Some((#[trigger] ns@[j])@),
            decreases ids@.len() - i,
        {
            match Node::get(ids[i], catalog) {
                Some(n) => {
                    ns.push(n);
                }
                None => {
                    proof {
                        assert(spec_get_node(catalog@,
                            ids_of(catalog@, Kind::Node)[i as int]) is None);
                    }
                    return None;
                }
            }
            i = i + 1;
        }
        Some(ns)
    }
}

impl PartialEq for Node {
    /// Total value equality: every field is compared.
    fn eq(&self, other: &Node) -> (r: bool) {
        let r = self.id == other.id && self.address == other.address
            && self.hostname == other.hostname && self.pools == other.pools;
        proof {
            if self.pools@.len() == other.pools@.len()
                && (forall|i: int| #![auto] 0 <= i < self.pools@.len()
                    ==> self.pools@[i] == other.pools@[i]) {
                assert(self.pools@ =~= other.pools@);
            }
        }
        r
    }
}

impl vstd::std_specs::cmp::PartialEqSpecImpl for Node {
    open spec fn obeys_eq_spec() -> bool {
        true
    }

    open spec fn eq_spec(&self, other: &Node) -> bool {
        self@ == other@
    }
}

} // verus!
