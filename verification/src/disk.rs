//! Host-local virtual disks.
//!
//! A disk here is a record plus a backing file under the manager's data
//! directory, in `<data_dir>/disks/<id>.qcow2`. The image tool makes the
//! file; the record is written only after the tool exited zero, and
//! removing a file that is already gone is not an error.

use vstd::prelude::*;
use vstd::utf8::encode_utf8;
use crate::codec::{id_field, str_field, u64_field, take_id, take_str, take_u64,
    lemma_take_id, lemma_take_str, lemma_take_u64, lemma_take_str_len,
    enc_id, enc_str, enc_u64, dec_id, dec_str, dec_u64};
use crate::ids::{uuid_chars, format_id};
use crate::error::VirtusError;
use crate::cluster::catalog::{Catalog, Kind, EntryV, find_value, spec_insert,
    spec_remove, ids_of};

verus! {

/// The specification-level value of a host-local disk record.
pub ghost struct DiskView {
    pub id: u128,
    pub filename: Seq<char>,
    pub size: u64,
}

impl DiskView {
    /// Wire limits: the filename fits its length field.
    pub open spec fn wf(&self) -> bool {
        encode_utf8(self.filename).len() < 0x100000000
    }
}

/// A host-local disk record.
pub struct Disk {
    id: u128,
    filename: String,
    size: u64,
}

impl View for Disk {
    type V = DiskView;

    closed spec fn view(&self) -> DiskView {
        DiskView {
            id: self.id,
            filename: self.filename@,
            size: self.size,
        }
    }
}

/// The version tag of the host-local disk record encoding.
pub const LOCAL_DISK_VERSION: u8 = 1;

/// The byte encoding of a host-local disk record: version, identifier,
/// filename, size.
pub open spec fn local_disk_bytes(v: DiskView) -> Seq<u8> {
    seq![LOCAL_DISK_VERSION] + id_field(v.id) + str_field(v.filename)
        + u64_field(v.size)
}

/// Reads a host-local disk record from the front of `buf`.
pub open spec fn take_local_disk(buf: Seq<u8>) -> Option<(DiskView, Seq<u8>)> {
    if buf.len() < 1 || buf[0] != LOCAL_DISK_VERSION {
        None
    } else {
        match take_id(buf.skip(1)) {
            Some((id, b1)) => match take_str(b1) {
                Some((filename, b2)) => match take_u64(b2) {
                    Some((size, rest)) => Some((
                        DiskView { id, filename, size },
                        rest,
                    )),
                    None => None,
                },
                None => None,
            },
            None => None,
        }
    }
}

/// The record denoted by a full buffer, which must hold nothing else.
pub open spec fn spec_decode_local_disk(buf: Seq<u8>) -> Option<DiskView> {
    match take_local_disk(buf) {
        Some((v, rest)) => if rest.len() == 0 {
            Some(v)
        } else {
            None
        },
        None => None,
    }
}

/// Reading the encoding of a host-local disk record yields it back.
pub proof fn lemma_take_local_disk(v: DiskView, rest: Seq<u8>)
    requires
        v.wf(),
    ensures
        take_local_disk(local_disk_bytes(v) + rest) == Some((v, rest)),
{
    let buf = local_disk_bytes(v) + rest;
    let t2 = u64_field(v.size) + rest;
    let t1 = str_field(v.filename) + t2;
    assert(buf[0] == LOCAL_DISK_VERSION);
    assert(buf.skip(1) =~= id_field(v.id) + t1);
    lemma_take_id(v.id, t1);
    lemma_take_str(v.filename, t2);
    lemma_take_u64(v.size, rest);
}

/// Serialization round trip: decoding the encoding of a host-local disk
/// record yields an equal record.
pub proof fn lemma_local_disk_round_trip(v: DiskView)
    requires
        v.wf(),
    ensures
        spec_decode_local_disk(local_disk_bytes(v)) == Some(v),
{
    lemma_take_local_disk(v, Seq::empty());
    assert(local_disk_bytes(v) + Seq::<u8>::empty() =~= local_disk_bytes(v));
}

/// What a host-local disk read from the store denotes.
pub open spec fn spec_get_local_disk(cat: Seq<EntryV>, id: u128) -> Option<DiskView> {
    match find_value(cat, Kind::Disk, id) {
        Some(bytes) => spec_decode_local_disk(bytes),
        None => None,
    }
}

/// The backing file path of a host-local disk:
/// `<data_dir>/disks/<id>.qcow2`.
pub open spec fn local_disk_file_chars(data_dir: Seq<char>, id: u128) -> Seq<char> {
    data_dir + "/disks/"@ + uuid_chars(id) + ".qcow2"@
}

/// Builds the backing file path of a host-local disk.
pub fn local_disk_filename(data_dir: &str, id: u128) -> (r: String)
    ensures
        r@ == local_disk_file_chars(data_dir@, id),
{
    let mut r = data_dir.to_owned();
    r.append("/disks/");
    let id_text = format_id(id);
    r.append(id_text.as_str());
    r.append(".qcow2");
    proof {
        reveal_strlit("/disks/");
        reveal_strlit(".qcow2");
        assert(r@ =~= local_disk_file_chars(data_dir@, id));
    }
    r
}

impl Disk {
    /// Records a disk whose backing file the image tool just made under
    /// the manager's data directory. The record is written exactly when
    /// the tool exited zero; otherwise nothing is recorded.
    pub fn new(size: u64, data_dir: &str, id: u128, tool_ok: bool,
        store: &mut Catalog) -> (r: Result<Disk, VirtusError>)
        requires
            encode_utf8(local_disk_file_chars(data_dir@, id)).len() < 0x100000000,
        ensures
            tool_ok ==> (r matches Ok(d)
                && d@ == (DiskView {
                    id,
                    filename: local_disk_file_chars(data_dir@, id),
                    size,
                })
                && final(store)@ == spec_insert(old(store)@, Kind::Disk, id,
                    local_disk_bytes(d@))),
            !tool_ok ==> r == Err::<Disk, VirtusError>(VirtusError::DiskError)
                && final(store)@ == old(store)@,
    {
        if !tool_ok {
            return Err(VirtusError::DiskError);
        }
        let filename = local_disk_filename(data_dir, id);
        let disk = Disk { id, filename, size };
        let bytes = disk.encode();
        store.insert(Kind::Disk, disk.id, bytes);
        Ok(disk)
    }

    /// The disk's identifier.
    pub fn get_id(&self) -> (r: u128)
        ensures
            r == self@.id,
    {
        self.id
    }

    /// The backing file's path.
    pub fn get_filename(&self) -> (r: String)
        ensures
            r@ == self@.filename,
    {
        self.filename.clone()
    }

    /// The disk's logical size in bytes.
    pub fn get_size(&self) -> (r: u64)
        ensures
            r == self@.size,
    {
        self.size
    }

    /// Encodes the record for the store.
    pub fn encode(&self) -> (r: Vec<u8>)
        requires
            self@.wf(),
        ensures
            r@ == local_disk_bytes(self@),
    {
        let mut out: Vec<u8> = Vec::new();
        out.push(LOCAL_DISK_VERSION);
        enc_id(&mut out, self.id);
        enc_str(&mut out, &self.filename);
        enc_u64(&mut out, self.size);
        proof {
            assert(out@ =~= local_disk_bytes(self@));
        }
        out
    }

    /// Decodes a record; returns `None` on any text that is not exactly
    /// the encoding of one host-local disk record.
    pub fn decode(buf: &Vec<u8>) -> (r: Option<Disk>)
        ensures
            match r {
                Some(v) => spec_decode_local_disk(buf@) == Some(v@) && v@.wf(),
                None => spec_decode_local_disk(buf@) is None,
            },
    {
        if buf.len() < 1 {
            return None;
        }
        if buf[0] != LOCAL_DISK_VERSION {
            proof {
                assert(buf@[0] != LOCAL_DISK_VERSION);
            }
            return None;
        }
        let r1 = dec_id(buf, 1);
        let (id, p1) = match r1 {
            Some(x) => x,
            None => {
                return None;
            }
        };
        let r2 = dec_str(buf, p1);
        let (filename, p2) = match r2 {
            Some(x) => x,
            None => {
                return None;
            }
        };
        let r3 = dec_u64(buf, p2);
        let (size, p3) = match r3 {
            Some(x) => x,
            None => {
                return None;
            }
        };
        if p3 != buf.len() {
            proof {
                assert(buf@.skip(p3 as int).len() > 0);
            }
            return None;
        }
        proof {
            assert(buf@.skip(p3 as int).len() == 0);
            lemma_take_str_len(buf@.skip(p1 as int));
        }
        Some(Disk { id, filename, size })
    }

    /// Reads one disk record by identifier.
    pub fn get(id: u128, store: &Catalog) -> (r: Option<Disk>)
        ensures
            match r {
                Some(v) => spec_get_local_disk(store@, id) == Some(v@) && v@.wf(),
                None => spec_get_local_disk(store@, id) is None,
            },
    {
        match store.get(Kind::Disk, id) {
            Some(bytes) => Disk::decode(bytes),
            None => None,
        }
    }

    /// Lists every disk's identifier, in store order.
    pub fn list(store: &Catalog) -> (r: Vec<u128>)
        ensures
            r@ == ids_of(store@, Kind::Disk),
    {
        store.list_ids(Kind::Disk)
    }

    /// Deletes a disk record, handing back the backing file path the host
    /// must remove. A missing or unreadable record leaves nothing to
    /// remove and is not an error.
    pub fn delete_by_id(id: u128, store: &mut Catalog) -> (r: Option<String>)
        ensures
            final(store)@ == spec_remove(old(store)@, Kind::Disk, id),
            match r {
                Some(f) => spec_get_local_disk(old(store)@, id) matches Some(v)
                    && v.filename == f@,
                None => spec_get_local_disk(old(store)@, id) is None,
            },
    {
        let filename = match Disk::get(id, store) {
            Some(disk) => Some(disk.get_filename()),
            None => None,
        };
        store.remove(Kind::Disk, id);
        filename
    }

    /// Deletes this disk's record, handing back the backing file path the
    /// host must remove.
    pub fn delete(self, store: &mut Catalog) -> (r: String)
        ensures
            final(store)@ == spec_remove(old(store)@, Kind::Disk, self@.id),
            r@ == self@.filename,
    {
        let filename = self.filename.clone();
        store.remove(Kind::Disk, self.id);
        filename
    }
}

} // verus!
