//! Virtual disks of the cluster catalog.
//!
//! A disk is a catalog record plus a backing file named `<id>.qcow2` in its
//! pool's directory on the pool's node. Records live in the catalog under
//! the `disks/` prefix. The backing file is made by the storage effector
//! before the record is committed.

use vstd::prelude::*;
use vstd::utf8::encode_utf8;
use crate::codec::{id_field, opt_str_field, usize_field, opt_str_view,
    take_id, take_opt_str, take_usize,
    lemma_take_id, lemma_take_opt_str, lemma_take_usize, lemma_take_opt_str_len,
    enc_id, enc_opt_str, enc_usize, dec_id, dec_opt_str, dec_usize};
use crate::ids::fresh_id;
use crate::cluster::catalog::{Catalog, Kind, EntryV, find_value, spec_insert, ids_of};

verus! {

/// The specification-level value of a disk record.
pub ghost struct DiskView {
    pub id: u128,
    pub pool_id: u128,
    pub name: Option<Seq<char>>,
    pub size: usize,
}

impl DiskView {
    /// Wire limits: the name fits its length field.
    pub open spec fn wf(&self) -> bool {
        match self.name {
            Some(n) => encode_utf8(n).len() < 0x100000000,
            None => true,
        }
    }
}

/// A virtual disk record.
#[derive(Debug)]
pub struct Disk {
    id: u128,
    pool_id: u128,
    name: Option<String>,
    size: usize,
}

impl View for Disk {
    type V = DiskView;

    closed spec fn view(&self) -> DiskView {
        DiskView {
            id: self.id,
            pool_id: self.pool_id,
            name: opt_str_view(self.name),
            size: self.size,
        }
    }
}

/// The version tag of the disk record encoding.
pub const DISK_VERSION: u8 = 1;

/// The byte encoding of a disk record: version, identifier, owning pool,
/// name, size.
pub open spec fn disk_bytes(v: DiskView) -> Seq<u8> {
    seq![DISK_VERSION] + id_field(v.id) + id_field(v.pool_id) + opt_str_field(v.name)
        + usize_field(v.size)
}

/// Reads a disk record from the front of `buf`.
pub open spec fn take_disk(buf: Seq<u8>) -> Option<(DiskView, Seq<u8>)> {
    if buf.len() < 1 || buf[0] != DISK_VERSION {
        None
    } else {
        match take_id(buf.skip(1)) {
            Some((id, b1)) => match take_id(b1) {
                Some((pool_id, b2)) => match take_opt_str(b2) {
                    Some((name, b3)) => match take_usize(b3) {
                        Some((size, rest)) => Some((
                            DiskView { id, pool_id, name, size },
                            rest,
                        )),
                        None => None,
                    },
                    None => None,
                },
                None => None,
            },
            None => None,
        }
    }
}

/// The record denoted by a full buffer, which must hold nothing else.
pub open spec fn spec_decode_disk(buf: Seq<u8>) -> Option<DiskView> {
    match take_disk(buf) {
        Some((v, rest)) => if rest.len() == 0 {
            Some(v)
        } else {
            None
        },
        None => None,
    }
}

/// Reading the encoding of a disk record yields the record back.
pub proof fn lemma_take_disk(v: DiskView, rest: Seq<u8>)
    requires
        v.wf(),
    ensures
        take_disk(disk_bytes(v) + rest) == Some((v, rest)),
{
    let buf = disk_bytes(v) + rest;
    let t3 = usize_field(v.size) + rest;
    let t2 = opt_str_field(v.name) + t3;
    let t1 = id_field(v.pool_id) + t2;
    assert(buf[0] == DISK_VERSION);
    assert(buf.skip(1) =~= id_field(v.id) + t1);
    lemma_take_id(v.id, t1);
    lemma_take_id(v.pool_id, t2);
    lemma_take_opt_str(v.name, t3);
    lemma_take_usize(v.size, rest);
}

/// Serialization round trip: decoding the encoding of a disk record yields
/// an equal record.
pub proof fn lemma_disk_round_trip(v: DiskView)
    requires
        v.wf(),
    ensures
        spec_decode_disk(disk_bytes(v)) == Some(v),
{
    lemma_take_disk(v, Seq::empty());
    assert(disk_bytes(v) + Seq::<u8>::empty() =~= disk_bytes(v));
}

/// What a disk read from the catalog denotes.
pub open spec fn spec_get_disk(cat: Seq<EntryV>, id: u128) -> Option<DiskView> {
    match find_value(cat, Kind::Disk, id) {
        Some(bytes) => spec_decode_disk(bytes),
        None => None,
    }
}

impl Disk {
    /// Creates a disk record inside a pool and commits it. The caller has
    /// already materialized the backing file on the pool's node; the record
    /// is the catalog's account of it. The record's identifier must be the
    /// one the backing file was named after.
    pub fn create(pool_id: u128, size: usize, name: Option<&str>, id: u128,
        catalog: &mut Catalog) -> (r: Disk)
        requires
            match name {
                Some(n) => encode_utf8(n@).len() < 0x100000000,
                None => true,
            },
        ensures
            r@ == (DiskView {
                id,
                pool_id,
                name: match name {
                    Some(n) => Some(n@),
                    None => None::<Seq<char>>,
                },
                size,
            }),
            r@.wf(),
            final(catalog)@ == spec_insert(old(catalog)@, Kind::Disk, id, disk_bytes(r@)),
    {
        let owned_name = match name {
            Some(n) => Some(n.to_owned()),
            None => None,
        };
        let disk = Disk { id, pool_id, name: owned_name, size };
        disk.commit(catalog);
        disk
    }

    /// Draws a fresh identifier for a disk about to be created.
    pub fn fresh() -> u128 {
        fresh_id()
    }

    /// The disk's identifier.
    pub fn get_id(&self) -> (r: u128)
        ensures
            r == self@.id,
    {
        self.id
    }

    /// The identifier of the owning pool.
    pub fn get_pool_id(&self) -> (r: u128)
        ensures
            r == self@.pool_id,
    {
        self.pool_id
    }

    /// The disk's logical size as requested at creation.
    pub fn get_size(&self) -> (r: usize)
        ensures
            r == self@.size,
    {
        self.size
    }

    /// Encodes the record for the catalog.
    pub fn encode(&self) -> (r: Vec<u8>)
        requires
            self@.wf(),
        ensures
            r@ == disk_bytes(self@),
    {
        let mut out: Vec<u8> = Vec::new();
        out.push(DISK_VERSION);
        enc_id(&mut out, self.id);
        enc_id(&mut out, self.pool_id);
        enc_opt_str(&mut out, &self.name);
        enc_usize(&mut out, self.size);
        proof {
            assert(out@ =~= disk_bytes(self@));
        }
        out
    }

    /// Decodes a record from the catalog; returns `None` on any text that
    /// is not exactly the encoding of one disk record.
    pub fn decode(buf: &Vec<u8>) -> (r: Option<Disk>)
        ensures
            match r {
                Some(d) => spec_decode_disk(buf@) == Some(d@) && d@.wf(),
                None => spec_decode_disk(buf@) is None,
            },
    {
        if buf.len() < 1 {
            return None;
        }
        if buf[0] != DISK_VERSION {
            proof {
                assert(buf@[0] != DISK_VERSION);
            }
            return None;
        }
        let r1 = dec_id(buf, 1);
        let (id, p1) = match r1 {
            Some(x) => x,
            None => {
                return None;
            }
        };
        let r2 = dec_id(buf, p1);
        let (pool_id, p2) = match r2 {
            Some(x) => x,
            None => {
                return None;
            }
        };
        let r3 = dec_opt_str(buf, p2);
        let (name, p3) = match r3 {
            Some(x) => x,
            None => {
                return None;
            }
        };
        let r4 = dec_usize(buf, p3);
        let (size, p4) = match r4 {
            Some(x) => x,
            None => {
                return None;
            }
        };
        if p4 != buf.len() {
            proof {
                assert(buf@.skip(p4 as int).len() > 0);
            }
            return None;
        }
        proof {
            assert(buf@.skip(p4 as int).len() == 0);
            lemma_take_opt_str_len(buf@.skip(p2 as int));
        }
        Some(Disk { id, pool_id, name, size })
    }

    /// Writes the record into the catalog under the disk's key.
    fn commit(&self, catalog: &mut Catalog)
        requires
            self@.wf(),
        ensures
            final(catalog)@ == spec_insert(old(catalog)@, Kind::Disk, self@.id,
                disk_bytes(self@)),
    {
        let bytes = self.encode();
        catalog.insert(Kind::Disk, self.id, bytes);
    }

    /// Reads one disk record by identifier from the local catalog state.
    pub fn get(id: u128, catalog: &Catalog) -> (r: Option<Disk>)
        ensures
            match r {
                Some(d) => spec_get_disk(catalog@, id) == Some(d@) && d@.wf(),
                None => spec_get_disk(catalog@, id) is None,
            },
    {
        match catalog.get(Kind::Disk, id) {
            Some(bytes) => Disk::decode(bytes),
            None => None,
        }
    }

    /// Reads every disk record, in catalog order. Returns `None` when any
    /// stored record fails to decode.
    pub fn list(catalog: &Catalog) -> (r: Option<Vec<Disk>>)
        ensures
            match r {
                Some(ds) => {
                    &&& ds@.len() == ids_of(catalog@, Kind::Disk).len()
                    &&& forall|i: int| 0 <= i < ids_of(catalog@, Kind::Disk).len()
                        ==> spec_get_disk(catalog@, ids_of(catalog@, Kind::Disk)[i])
                            == Some((#[trigger] ds@[i])@)
                },
                None => exists|i: int| 0 <= i < ids_of(catalog@, Kind::Disk).len()
                    && spec_get_disk(catalog@,
                        #[trigger] ids_of(catalog@, Kind::Disk)[i]) is None,
            },
    {
        let ids = catalog.list_ids(Kind::Disk);
        let mut ds: Vec<Disk> = Vec::new();
        let mut i: usize = 0;
        while i < ids.len()
            invariant
                i <= ids@.len(),
                ids@ == ids_of(catalog@, Kind::Disk),
                ds@.len() == i,
                forall|j: int| 0 <= j < i
                    ==> spec_get_disk(catalog@, ids@[j]) == Some((#[trigger] ds@[j])@),
            decreases ids@.len() - i,
        {
            match Disk::get(ids[i], catalog) {
                Some(d) => {
                    ds.push(d);
                }
                None => {
                    proof {
                        assert(spec_get_disk(catalog@,
                            ids_of(catalog@, Kind::Disk)[i as int]) is None);
                    }
                    return None;
                }
            }
            i = i + 1;
        }
        Some(ds)
    }
}

impl PartialEq for Disk {
    /// Total value equality: every field is compared.
    fn eq(&self, other: &Disk) -> (r: bool) {
        let name_eq = match (&self.name, &other.name) {
            (Some(a), Some(b)) => *a == *b,
            (None, None) => true,
            _ => false,
        };
        let r = self.id == other.id && self.pool_id == other.pool_id && name_eq
            && self.size == other.size;
        proof {
            assert(name_eq == (opt_str_view(self.name) == opt_str_view(other.name)))
                by {
                match (&self.name, &other.name) {
                    (Some(a), Some(b)) => {
                        assert(opt_str_view(self.name) == Some(a@));
                        assert(opt_str_view(other.name) == Some(b@));
                    }
                    _ => {}
                }
            }

        }
        r
    }
}

impl vstd::std_specs::cmp::PartialEqSpecImpl for Disk {
    open spec fn obeys_eq_spec() -> bool {
        true
    }

    open spec fn eq_spec(&self, other: &Disk) -> bool {
        self@ == other@
    }
}

} // verus!
