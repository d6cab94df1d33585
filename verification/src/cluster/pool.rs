//! Storage pools.
//!
//! A pool is a directory on one node that stores disk files for that node.
//! The record carries the owning node, an optional name, the filesystem
//! path and the disks created inside it. Records live in the catalog under
//! the `pools/` prefix. The directory itself is made by the host effector
//! before the record is committed.

use vstd::prelude::*;
use vstd::utf8::encode_utf8;
use crate::codec::{id_field, str_field, opt_str_field, id_list_field, opt_str_view,
    take_id, take_str, take_opt_str, take_id_list,
    lemma_take_id, lemma_take_str, lemma_take_opt_str, lemma_take_id_list,
    lemma_take_str_len, lemma_take_opt_str_len, lemma_take_id_list_len,
    enc_id, enc_str, enc_opt_str, enc_id_list, dec_id, dec_str, dec_opt_str, dec_id_list};
use crate::ids::fresh_id;
use crate::cluster::catalog::{Catalog, Kind, EntryV, find_value, spec_insert, ids_of};
use crate::cluster::disk::{Disk, disk_bytes};

verus! {

/// The specification-level value of a pool record.
pub ghost struct PoolView {
    pub id: u128,
    pub node_id: u128,
    pub name: Option<Seq<char>>,
    pub path: Seq<char>,
    pub disks: Seq<u128>,
}

impl PoolView {
    /// Wire limits: the name, the path and the disk list fit their length
    /// fields.
    pub open spec fn wf(&self) -> bool {
        &&& match self.name {
            Some(n) => encode_utf8(n).len() < 0x100000000,
            None => true,
        }
        &&& encode_utf8(self.path).len() < 0x100000000
        &&& self.disks.len() < 0x100000000
    }
}

/// A storage pool record.
#[derive(Debug)]
pub struct Pool {
    id: u128,
    node_id: u128,
    name: Option<String>,
    path: String,
    disks: Vec<u128>,
}

impl View for Pool {
    type V = PoolView;

    closed spec fn view(&self) -> PoolView {
        PoolView {
            id: self.id,
            node_id: self.node_id,
            name: opt_str_view(self.name),
            path: self.path@,
            disks: self.disks@,
        }
    }
}

/// The version tag of the pool record encoding.
pub const POOL_VERSION: u8 = 1;

/// The byte encoding of a pool record: version, identifier, owning node,
/// name, path, disk list.
pub open spec fn pool_bytes(v: PoolView) -> Seq<u8> {
    seq![POOL_VERSION] + id_field(v.id) + id_field(v.node_id) + opt_str_field(v.name)
        + str_field(v.path) + id_list_field(v.disks)
}

/// Reads a pool record from the front of `buf`.
pub open spec fn take_pool(buf: Seq<u8>) -> Option<(PoolView, Seq<u8>)> {
    if buf.len() < 1 || buf[0] != POOL_VERSION {
        None
    } else {
        match take_id(buf.skip(1)) {
            Some((id, b1)) => match take_id(b1) {
                Some((node_id, b2)) => match take_opt_str(b2) {
                    Some((name, b3)) => match take_str(b3) {
                        Some((path, b4)) => match take_id_list(b4) {
                            Some((disks, rest)) => Some((
                                PoolView { id, node_id, name, path, disks },
                                rest,
                            )),
                            None => None,
                        },
                        None => None,
                    },
                    None => None,
                },
                None => None,
            },
            None => None,
        }
    }
}

/// The record denoted by a full buffer, which must hold nothing else.
pub open spec fn spec_decode_pool(buf: Seq<u8>) -> Option<PoolView> {
    match take_pool(buf) {
        Some((v, rest)) => if rest.len() == 0 {
            Some(v)
        } else {
            None
        },
        None => None,
    }
}

/// Reading the encoding of a pool record yields the record back.
pub proof fn lemma_take_pool(v: PoolView, rest: Seq<u8>)
    requires
        v.wf(),
    ensures
        take_pool(pool_bytes(v) + rest) == Some((v, rest)),
{
    let buf = pool_bytes(v) + rest;
    let t4 = id_list_field(v.disks) + rest;
    let t3 = str_field(v.path) + t4;
    let t2 = opt_str_field(v.name) + t3;
    let t1 = id_field(v.node_id) + t2;
    assert(buf[0] == POOL_VERSION);
    assert(buf.skip(1) =~= id_field(v.id) + t1);
    lemma_take_id(v.id, t1);
    lemma_take_id(v.node_id, t2);
    lemma_take_opt_str(v.name, t3);
    lemma_take_str(v.path, t4);
    lemma_take_id_list(v.disks, rest);
}

/// Serialization round trip: decoding the encoding of a pool record yields
/// an equal record.
pub proof fn lemma_pool_round_trip(v: PoolView)
    requires
        v.wf(),
    ensures
        spec_decode_pool(pool_bytes(v)) == Some(v),
{
    lemma_take_pool(v, Seq::empty());
    assert(pool_bytes(v) + Seq::<u8>::empty() =~= pool_bytes(v));
}

/// What a pool read from the catalog denotes.
pub open spec fn spec_get_pool(cat: Seq<EntryV>, id: u128) -> Option<PoolView> {
    match find_value(cat, Kind::Pool, id) {
        Some(bytes) => spec_decode_pool(bytes),
        None => None,
    }
}

impl Pool {
    /// Creates a pool record owned by `node_id` and commits it. The caller
    /// has already made the directory on the owning host; the record is the
    /// catalog's account of it. The record's identifier is freshly drawn.
    pub fn create(node_id: u128, path: &str, name: Option<&str>, catalog: &mut Catalog)
        -> (r: Pool)
        requires
            encode_utf8(path@).len() < 0x100000000,
            match name {
                Some(n) => encode_utf8(n@).len() < 0x100000000,
                None => true,
            },
        ensures
            r@.node_id == node_id,
            r@.path == path@,
            r@.name == match name {
                Some(n) => Some(n@),
                None => None::<Seq<char>>,
            },
            r@.disks == Seq::<u128>::empty(),
            r@.wf(),
            final(catalog)@ == spec_insert(old(catalog)@, Kind::Pool, r@.id,
                pool_bytes(r@)),
    {
        let id = fresh_id();
        let owned_name = match name {
            Some(n) => Some(n.to_owned()),
            None => None,
        };
        let pool = Pool {
            id,
            node_id,
            name: owned_name,
            path: path.to_owned(),
            disks: Vec::new(),
        };
        proof {
            assert(pool@.disks =~= Seq::<u128>::empty());
        }
        pool.commit(catalog);
        pool
    }

    /// The pool's identifier.
    pub fn get_id(&self) -> (r: u128)
        ensures
            r == self@.id,
    {
        self.id
    }

    /// The identifier of the owning node.
    pub fn get_node_id(&self) -> (r: u128)
        ensures
            r == self@.node_id,
    {
        self.node_id
    }

    /// The pool's directory path.
    pub fn get_path(&self) -> (r: &String)
        ensures
            r@ == self@.path,
    {
        &self.path
    }

    /// The disks created in the pool.
    pub fn get_disks(&self) -> (r: &Vec<u128>)
        ensures
            r@ == self@.disks,
    {
        &self.disks
    }

    /// Encodes the record for the catalog.
    pub fn encode(&self) -> (r: Vec<u8>)
        requires
            self@.wf(),
        ensures
            r@ == pool_bytes(self@),
    {
        let mut out: Vec<u8> = Vec::new();
        out.push(POOL_VERSION);
        enc_id(&mut out, self.id);
        enc_id(&mut out, self.node_id);
        enc_opt_str(&mut out, &self.name);
        enc_str(&mut out, &self.path);
        enc_id_list(&mut out, &self.disks);
        proof {
            assert(out@ =~= pool_bytes(self@));
        }
        out
    }

    /// Decodes a record from the catalog; returns `None` on any text that
    /// is not exactly the encoding of one pool record.
    pub fn decode(buf: &Vec<u8>) -> (r: Option<Pool>)
        ensures
            match r {
                Some(p) => spec_decode_pool(buf@) == Some(p@) && p@.wf(),
                None => spec_decode_pool(buf@) is None,
            },
    {
        if buf.len() < 1 {
            return None;
        }
        if buf[0] != POOL_VERSION {
            proof {
                assert(buf@[0] != POOL_VERSION);
            }
            return None;
        }
        let r1 = dec_id(buf, 1);
        let (id, p1) = match r1 {
            Some(x) => x,
            None => {
                return None;
            }
        };
        let r2 = dec_id(buf, p1);
        let (node_id, p2) = match r2 {
            Some(x) => x,
            None => {
                return None;
            }
        };
        let r3 = dec_opt_str(buf, p2);
        let (name, p3) = match r3 {
            Some(x) => x,
            None => {
                return None;
            }
        };
        let r4 = dec_str(buf, p3);
        let (path, p4) = match r4 {
            Some(x) => x,
            None => {
                return None;
            }
        };
        let r5 = dec_id_list(buf, p4);
        let (disks, p5) = match r5 {
            Some(x) => x,
            None => {
                return None;
            }
        };
        if p5 != buf.len() {
            proof {
                assert(buf@.skip(p5 as int).len() > 0);
            }
            return None;
        }
        proof {
            assert(buf@.skip(p5 as int).len() == 0);
            lemma_take_opt_str_len(buf@.skip(p2 as int));
            lemma_take_str_len(buf@.skip(p3 as int));
            lemma_take_id_list_len(buf@.skip(p4 as int));
        }
        Some(Pool { id, node_id, name, path, disks })
    }

    /// Creates a disk inside this pool and caches its identifier in the
    /// pool's disk list, rewriting the pool record. The backing file was
    /// already made by the storage effector under the given identifier.
    pub fn create_disk(&mut self, size: usize, name: Option<&str>, disk_id: u128,
        catalog: &mut Catalog) -> (r: Disk)
        requires
            old(self)@.wf(),
            old(self)@.disks.len() + 1 < 0x100000000,
            match name {
                Some(n) => encode_utf8(n@).len() < 0x100000000,
                None => true,
            },
        ensures
            r@.id == disk_id,
            r@.pool_id == old(self)@.id,
            r@.size == size,
            final(self)@ == (PoolView {
                disks: old(self)@.disks.push(disk_id),
                ..old(self)@
            }),
            final(catalog)@ == spec_insert(
                spec_insert(old(catalog)@, Kind::Disk, disk_id, disk_bytes(r@)),
                Kind::Pool, old(self)@.id, pool_bytes(final(self)@)),
    {
        let disk = Disk::create(self.id, size, name, disk_id, catalog);
        self.disks.push(disk.get_id());
        self.commit(catalog);
        disk
    }

    /// Writes the record into the catalog under the pool's key.
    fn commit(&self, catalog: &mut Catalog)
        requires
            self@.wf(),
        ensures
            final(catalog)@ == spec_insert(old(catalog)@, Kind::Pool, self@.id,
                pool_bytes(self@)),
    {
        let bytes = self.encode();
        catalog.insert(Kind::Pool, self.id, bytes);
    }

    /// Reads one pool record by identifier from the local catalog state.
    pub fn get(id: u128, catalog: &Catalog) -> (r: Option<Pool>)
        ensures
            match r {
                Some(p) => spec_get_pool(catalog@, id) == Some(p@) && p@.wf(),
                None => spec_get_pool(catalog@, id) is None,
            },
    {
        match catalog.get(Kind::Pool, id) {
            Some(bytes) => Pool::decode(bytes),
            None => None,
        }
    }

    /// Reads every pool record, in catalog order. Returns `None` when any
    /// stored record fails to decode.
    pub fn list(catalog: &Catalog) -> (r: Option<Vec<Pool>>)
        ensures
            match r {
                Some(ps) => {
                    &&& ps@.len() == ids_of(catalog@, Kind::Pool).len()
                    &&& forall|i: int| 0 <= i < ids_of(catalog@, Kind::Pool).len()
                        ==> spec_get_pool(catalog@, ids_of(catalog@, Kind::Pool)[i])
                            == Some((#[trigger] ps@[i])@)
                },
                None => exists|i: int| 0 <= i < ids_of(catalog@, Kind::Pool).len()
                    && spec_get_pool(catalog@,
                        #[trigger] ids_of(catalog@, Kind::Pool)[i]) is None,
            },
    {
        let ids = catalog.list_ids(Kind::Pool);
        let mut ps: Vec<Pool> = Vec::new();
        let mut i: usize = 0;
        while i < ids.len()
            invariant
                i <= ids@.len(),
                ids@ == ids_of(catalog@, Kind::Pool),
                ps@.len() == i,
                forall|j: int| 0 <= j < i
                    ==> spec_get_pool(catalog@, ids@[j]) == Some((#[trigger] ps@[j])@),
            decreases ids@.len() - i,
        {
            match Pool::get(ids[i], catalog) {
                Some(p) => {
                    ps.push(p);
                }
                None => {
                    proof {
                        assert(spec_get_pool(catalog@,
                            ids_of(catalog@, Kind::Pool)[i as int]) is None);
                    }
                    return None;
                }
            }
            i = i + 1;
        }
        Some(ps)
    }
}

impl PartialEq for Pool {
    /// Total value equality: every field is compared.
    fn eq(&self, other: &Pool) -> (r: bool) {
        let name_eq = match (&self.name, &other.name) {
            (Some(a), Some(b)) => *a == *b,
            (None, None) => true,
            _ => false,
        };
        let r = self.id == other.id && self.node_id == other.node_id && name_eq
            && self.path == other.path && self.disks == other.disks;
        proof {
            assert(name_eq == (opt_str_view(self.name) == opt_str_view(other.name)))
                by {
                match (&self.name, &other.name) {
                    (Some(a), Some(b)) => {
                        assert(opt_str_view(self.name) == Some(a@));
                        assert(opt_str_view(other.name) == Some(b@));
                    }
                    _ => {}
                }
            }
            if self.disks@.len() == other.disks@.len()
                && (forall|i: int| #![auto] 0 <= i < self.disks@.len()
                    ==> self.disks@[i] == other.disks@[i]) {
                assert(self.disks@ =~= other.disks@);
            }
        }
        r
    }
}

impl vstd::std_specs::cmp::PartialEqSpecImpl for Pool {
    open spec fn obeys_eq_spec() -> bool {
        true
    }

    open spec fn eq_spec(&self, other: &Pool) -> bool {
        self@ == other@
    }
}

} // verus!
