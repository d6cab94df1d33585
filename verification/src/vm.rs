//! Virtual machines.
//!
//! A machine is a record referencing its disks, its image and its
//! interfaces by identifier, with a cluster-unique name. Its definition is
//! handed to the hypervisor as an XML document composed here from the
//! record and the already-resolved pieces; its lifecycle transitions are
//! decided here from the projected state.

use vstd::prelude::*;
use vstd::utf8::encode_utf8;
use crate::codec::{id_field, str_field, u8_field, u64_field, id_list_field,
    take_id, take_str, take_u8, take_u64, take_id_list,
    lemma_take_id, lemma_take_str, lemma_take_u8, lemma_take_u64, lemma_take_id_list,
    lemma_take_str_len, lemma_take_id_list_len,
    enc_id, enc_str, enc_u8, enc_u64, enc_id_list,
    dec_id, dec_str, dec_u8, dec_u64, dec_id_list};
use crate::ids::{uuid_chars, format_id, fresh_id};
use crate::strutil::{dec_chars, u64_to_string, str_eq};
use crate::xml::{xml_escaped, append_xml_escaped};
use crate::error::VirtusError;
use crate::image::Image;
use crate::disk::Disk;
use crate::cluster::catalog::{Catalog, Kind, EntryV, find_value, spec_insert,
    spec_remove, ids_of, values_of, matches_key, lemma_insert_shape};

verus! {

/// The lifecycle state of a machine, as projected from the hypervisor.
#[allow(non_camel_case_types)]
#[derive(Clone, Copy, PartialEq, Eq, Structural, Debug)]
pub enum VMState {
    UNDEFINED,
    RUNNING,
    SHUTTING_DOWN,
    STOPPED,
    PAUSED,
}

/// The specification-level value of a machine record.
pub ghost struct VMView {
    pub id: u128,
    pub name: Seq<char>,
    pub cpus: u8,
    pub memory: u64,
    pub disks: Seq<u128>,
    pub image: u128,
    pub interfaces: Seq<u128>,
}

impl VMView {
    /// Wire limits: the name and the reference lists fit their length
    /// fields.
    pub open spec fn wf(&self) -> bool {
        &&& encode_utf8(self.name).len() < 0x100000000
        &&& self.disks.len() < 0x100000000
        &&& self.interfaces.len() < 0x100000000
    }
}

/// A virtual machine record.
#[derive(Debug)]
pub struct VM {
    id: u128,
    name: String,
    cpus: u8,
    memory: u64,
    disks: Vec<u128>,
    image: u128,
    interfaces: Vec<u128>,
}

impl View for VM {
    type V = VMView;

    closed spec fn view(&self) -> VMView {
        VMView {
            id: self.id,
            name: self.name@,
            cpus: self.cpus,
            memory: self.memory,
            disks: self.disks@,
            image: self.image,
            interfaces: self.interfaces@,
        }
    }
}

/// The version tag of the machine record encoding.
pub const VM_VERSION: u8 = 1;

/// The byte encoding of a machine record: version, identifier, name,
/// processor count, memory, disk list, image, interface list.
pub open spec fn vm_bytes(v: VMView) -> Seq<u8> {
    seq![VM_VERSION] + id_field(v.id) + str_field(v.name) + u8_field(v.cpus)
        + u64_field(v.memory) + id_list_field(v.disks) + id_field(v.image)
        + id_list_field(v.interfaces)
}

/// Reads a machine record from the front of `buf`.
pub open spec fn take_vm(buf: Seq<u8>) -> Option<(VMView, Seq<u8>)> {
    if buf.len() < 1 || buf[0] != VM_VERSION {
        None
    } else {
        match take_id(buf.skip(1)) {
            Some((id, b1)) => match take_str(b1) {
                Some((name, b2)) => match take_u8(b2) {
                    Some((cpus, b3)) => match take_u64(b3) {
                        Some((memory, b4)) => match take_id_list(b4) {
                            Some((disks, b5)) => match take_id(b5) {
                                Some((image, b6)) => match take_id_list(b6) {
                                    Some((interfaces, rest)) => Some((
                                        VMView {
                                            id, name, cpus, memory, disks, image,
                                            interfaces,
                                        },
                                        rest,
                                    )),
                                    None => None,
                                },
                                None => None,
                            },
                            None => None,
                        },
                        None => None,
                    },
                    None => None,
                },
                None => None,
            },
            None => None,
        }
    }
}

/// The record denoted by a full buffer, which must hold nothing else.
pub open spec fn spec_decode_vm(buf: Seq<u8>) -> Option<VMView> {
    match take_vm(buf) {
        Some((v, rest)) => if rest.len() == 0 {
            Some(v)
        } else {
            None
        },
        None => None,
    }
}

/// Reading the encoding of a machine record yields the record back.
pub proof fn lemma_take_vm(v: VMView, rest: Seq<u8>)
    requires
        v.wf(),
    ensures
        take_vm(vm_bytes(v) + rest) == Some((v, rest)),
{
    let buf = vm_bytes(v) + rest;
    let t6 = id_list_field(v.interfaces) + rest;
    let t5 = id_field(v.image) + t6;
    let t4 = id_list_field(v.disks) + t5;
    let t3 = u64_field(v.memory) + t4;
    let t2 = u8_field(v.cpus) + t3;
    let t1 = str_field(v.name) + t2;
    assert(buf[0] == VM_VERSION);
    assert(buf.skip(1) =~= id_field(v.id) + t1);
    lemma_take_id(v.id, t1);
    lemma_take_str(v.name, t2);
    lemma_take_u8(v.cpus, t3);
    lemma_take_u64(v.memory, t4);
    lemma_take_id_list(v.disks, t5);
    lemma_take_id(v.image, t6);
    lemma_take_id_list(v.interfaces, rest);
}

/// Serialization round trip: decoding the encoding of a machine record
/// yields an equal record.
pub proof fn lemma_vm_round_trip(v: VMView)
    requires
        v.wf(),
    ensures
        spec_decode_vm(vm_bytes(v)) == Some(v),
{
    lemma_take_vm(v, Seq::empty());
    assert(vm_bytes(v) + Seq::<u8>::empty() =~= vm_bytes(v));
}

/// What a machine read from the store denotes.
pub open spec fn spec_get_vm(cat: Seq<EntryV>, id: u128) -> Option<VMView> {
    match find_value(cat, Kind::Vm, id) {
        Some(bytes) => spec_decode_vm(bytes),
        None => None,
    }
}

/// The outcome of scanning stored machine values for a name: the first
/// record carrying it, a clean absence, or a value that fails to decode.
pub open spec fn spec_find_vm(values: Seq<Seq<u8>>, name: Seq<char>)
    -> Result<Option<VMView>, ()>
    decreases values.len(),
{
    if values.len() == 0 {
        Ok(None)
    } else {
        match spec_decode_vm(values[0]) {
            Some(v) => if v.name == name {
                Ok(Some(v))
            } else {
                spec_find_vm(values.drop_first(), name)
            },
            None => Err(()),
        }
    }
}

/// A clean scan that found nothing proves that no stored machine carries
/// the name, and that every stored machine value decodes.
pub proof fn lemma_find_none_no_named(cat: Seq<EntryV>, name: Seq<char>)
    requires
        spec_find_vm(values_of(cat, Kind::Vm), name) == Ok::<Option<VMView>, ()>(None),
    ensures
        forall|i: int| 0 <= i < cat.len() && (#[trigger] cat[i]).kind == Kind::Vm
            ==> (spec_decode_vm(cat[i].value) matches Some(w) && w.name != name),
    decreases cat.len(),
{
    if cat.len() > 0 {
        if cat[0].kind == Kind::Vm {
            assert(values_of(cat, Kind::Vm)
                == seq![cat[0].value] + values_of(cat.drop_first(), Kind::Vm));
            let vs = values_of(cat, Kind::Vm);
            assert(vs[0] == cat[0].value);
            assert(vs.drop_first() =~= values_of(cat.drop_first(), Kind::Vm));
            lemma_find_none_no_named(cat.drop_first(), name);
        } else {
            lemma_find_none_no_named(cat.drop_first(), name);
        }
        assert forall|i: int| 0 <= i < cat.len() && (#[trigger] cat[i]).kind == Kind::Vm
            implies (spec_decode_vm(cat[i].value) matches Some(w) && w.name != name) by {
            if i > 0 {
                assert(cat.drop_first()[i - 1] == cat[i]);
            }
        }
    }
}

/// No two stored machine records share a name.
pub open spec fn unique_vm_names(cat: Seq<EntryV>) -> bool {
    forall|i: int, j: int| 0 <= i < j < cat.len()
        && (#[trigger] cat[i]).kind == Kind::Vm && (#[trigger] cat[j]).kind == Kind::Vm
        ==> match (spec_decode_vm(cat[i].value), spec_decode_vm(cat[j].value)) {
            (Some(a), Some(b)) => a.name != b.name,
            _ => true,
        }
}

/// Name uniqueness is preserved: committing a machine whose name no stored
/// machine carries keeps all stored machine names distinct. Since a
/// machine is only committed after the scan came back clean, no sequence
/// of successful additions can produce two records with one name.
pub proof fn lemma_vm_name_uniqueness(cat: Seq<EntryV>, id: u128, v: VMView)
    requires
        unique_vm_names(cat),
        v.wf(),
        spec_find_vm(values_of(cat, Kind::Vm), v.name) == Ok::<Option<VMView>, ()>(None),
    ensures
        unique_vm_names(spec_insert(cat, Kind::Vm, id, vm_bytes(v))),
{
    lemma_find_none_no_named(cat, v.name);
    lemma_vm_round_trip(v);
    lemma_insert_shape(cat, Kind::Vm, id, vm_bytes(v));
    let cat2 = spec_insert(cat, Kind::Vm, id, vm_bytes(v));
    let e = EntryV { kind: Kind::Vm, id, value: vm_bytes(v) };
    if exists|i: int| 0 <= i < cat.len() && matches_key(#[trigger] cat[i], Kind::Vm, id)
        && cat2 == cat.update(i, e) {
        let i = choose|i: int| 0 <= i < cat.len()
            && matches_key(#[trigger] cat[i], Kind::Vm, id) && cat2 == cat.update(i, e);
        assert forall|a: int, b: int| 0 <= a < b < cat2.len()
            && (#[trigger] cat2[a]).kind == Kind::Vm
            && (#[trigger] cat2[b]).kind == Kind::Vm
            implies match (spec_decode_vm(cat2[a].value), spec_decode_vm(cat2[b].value)) {
                (Some(x), Some(y)) => x.name != y.name,
                _ => true,
            } by {
            if a != i && b != i {
                assert(cat2[a] == cat[a] && cat2[b] == cat[b]);
            } else if a == i {
                assert(cat2[a] == e && cat2[b] == cat[b]);
            } else {
                assert(cat2[a] == cat[a] && cat2[b] == e);
            }
        }
    } else {
        assert(cat2 == cat.push(e));
        assert forall|a: int, b: int| 0 <= a < b < cat2.len()
            && (#[trigger] cat2[a]).kind == Kind::Vm
            && (#[trigger] cat2[b]).kind == Kind::Vm
            implies match (spec_decode_vm(cat2[a].value), spec_decode_vm(cat2[b].value)) {
                (Some(x), Some(y)) => x.name != y.name,
                _ => true,
            } by {
            if b < cat.len() {
                assert(cat2[a] == cat[a] && cat2[b] == cat[b]);
            } else {
                assert(cat2[b] == e && cat2[a] == cat[a]);
            }
        }
    }
}

impl VM {
    /// Records a machine after checking its name against every stored
    /// machine. A clean scan commits the record exactly once; a name
    /// collision or an unreadable stored record commits nothing.
    pub fn new(name: &str, cpus: u8, memory: u64, disk: u128, image: &Image,
        interface: u128, store: &mut Catalog) -> (r: Result<VM, VirtusError>)
        requires
            encode_utf8(name@).len() < 0x100000000,
        ensures
            match spec_find_vm(values_of(old(store)@, Kind::Vm), name@) {
                Ok(None) => r matches Ok(vm)
                    && vm@ == (VMView {
                        id: vm@.id,
                        name: name@,
                        cpus,
                        memory,
                        disks: seq![disk],
                        image: image@.id,
                        interfaces: seq![interface],
                    })
                    && final(store)@ == spec_insert(old(store)@, Kind::Vm, vm@.id,
                        vm_bytes(vm@)),
                Ok(Some(_)) => r == Err::<VM, VirtusError>(VirtusError::VMExists)
                    && final(store)@ == old(store)@,
                Err(_) => r == Err::<VM, VirtusError>(VirtusError::CorruptRecord)
                    && final(store)@ == old(store)@,
            },
            unique_vm_names(old(store)@) && (r is Ok) ==> unique_vm_names(final(store)@),
    {
        match VM::find(name, store) {
            Ok(Some(_)) => Err(VirtusError::VMExists),
            Ok(None) => {
                let mut disks: Vec<u128> = Vec::new();
                disks.push(disk);
                let mut interfaces: Vec<u128> = Vec::new();
                interfaces.push(interface);
                let vm = VM {
                    id: fresh_id(),
                    name: name.to_owned(),
                    cpus,
                    memory,
                    disks,
                    image: image.get_id(),
                    interfaces,
                };
                proof {
                    assert(vm@.disks =~= seq![disk]);
                    assert(vm@.interfaces =~= seq![interface]);
                }
                let bytes = vm.encode();
                store.insert(Kind::Vm, vm.id, bytes);
                proof {
                    if unique_vm_names(old(store)@) {
                        lemma_vm_name_uniqueness(old(store)@, vm@.id, vm@);
                    }
                }
                Ok(vm)
            }
            Err(e) => Err(e),
        }
    }

    /// Scans every stored machine for a name. Returns the record that
    /// carries it, a clean absence, or an error when a stored value fails
    /// to decode.
    pub fn find(name: &str, store: &Catalog) -> (r: Result<Option<VM>, VirtusError>)
        ensures
            match r {
                Ok(Some(vm)) => spec_find_vm(values_of(store@, Kind::Vm), name@)
                    == Ok::<Option<VMView>, ()>(Some(vm@)),
                Ok(None) => spec_find_vm(values_of(store@, Kind::Vm), name@)
                    == Ok::<Option<VMView>, ()>(None),
                Err(e) => e == VirtusError::CorruptRecord
                    && spec_find_vm(values_of(store@, Kind::Vm), name@)
                        == Err::<Option<VMView>, ()>(()),
            },
    {
        let values = store.list_values(Kind::Vm);
        let ghost all = values_of(store@, Kind::Vm);
        let n = values.len();
        let mut i: usize = 0;
        proof {
            assert(all.skip(0) =~= all);
        }
        while i < n
            invariant
                n == values@.len(),
                i <= n,
                values@.map_values(|v: Vec<u8>| v@) == all,
                all == values_of(store@, Kind::Vm),
                spec_find_vm(all, name@) == spec_find_vm(all.skip(i as int), name@),
            decreases n - i,
        {
            proof {
                assert(all.skip(i as int)[0] == all[i as int]);
                assert(all[i as int] == values@[i as int]@);
                assert(all.skip(i as int).drop_first() =~= all.skip(i + 1));
            }
            match VM::decode(&values[i]) {
                Some(vm) => {
                    if str_eq(vm.get_name().as_str(), name) {
                        return Ok(Some(vm));
                    }
                }
                None => {
                    return Err(VirtusError::CorruptRecord);
                }
            }
            i = i + 1;
        }
        proof {
            assert(all.skip(n as int) =~= Seq::<Seq<u8>>::empty());
        }
        Ok(None)
    }

    /// The machine's identifier.
    pub fn get_id(&self) -> (r: u128)
        ensures
            r == self@.id,
    {
        self.id
    }

    /// The machine's cluster-unique name.
    pub fn get_name(&self) -> (r: &String)
        ensures
            r@ == self@.name,
    {
        &self.name
    }

    /// The identifiers of the machine's disks.
    pub fn get_disks(&self) -> (r: &Vec<u128>)
        ensures
            r@ == self@.disks,
    {
        &self.disks
    }

    /// The identifier of the machine's image.
    pub fn get_image(&self) -> (r: u128)
        ensures
            r == self@.image,
    {
        self.image
    }

    /// The identifiers of the machine's interfaces.
    pub fn get_interfaces(&self) -> (r: &Vec<u128>)
        ensures
            r@ == self@.interfaces,
    {
        &self.interfaces
    }

    /// Encodes the record for the store.
    pub fn encode(&self) -> (r: Vec<u8>)
        requires
            self@.wf(),
        ensures
            r@ == vm_bytes(self@),
    {
        let mut out: Vec<u8> = Vec::new();
        out.push(VM_VERSION);
        enc_id(&mut out, self.id);
        enc_str(&mut out, &self.name);
        enc_u8(&mut out, self.cpus);
        enc_u64(&mut out, self.memory);
        enc_id_list(&mut out, &self.disks);
        enc_id(&mut out, self.image);
        enc_id_list(&mut out, &self.interfaces);
        proof {
            assert(out@ =~= vm_bytes(self@));
        }
        out
    }

    /// Decodes a record; returns `None` on any text that is not exactly
    /// the encoding of one machine record.
    pub fn decode(buf: &Vec<u8>) -> (r: Option<VM>)
        ensures
            match r {
                Some(v) => spec_decode_vm(buf@) == Some(v@) && v@.wf(),
                None => spec_decode_vm(buf@) is None,
            },
    {
        if buf.len() < 1 {
            return None;
        }
        if buf[0] != VM_VERSION {
            proof {
                assert(buf@[0] != VM_VERSION);
            }
            return None;
        }
        let r1 = dec_id(buf, 1);
        let (id, p1) = match r1 {
            Some(x) => x,
            None => {
                return None;
            }
        };
        let r2 = dec_str(buf, p1);
        let (name, p2) = match r2 {
            Some(x) => x,
            None => {
                return None;
            }
        };
        let r3 = dec_u8(buf, p2);
        let (cpus, p3) = match r3 {
            Some(x) => x,
            None => {
                return None;
            }
        };
        let r4 = dec_u64(buf, p3);
        let (memory, p4) = match r4 {
            Some(x) => x,
            None => {
                return None;
            }
        };
        let r5 = dec_id_list(buf, p4);
        let (disks, p5) = match r5 {
            Some(x) => x,
            None => {
                return None;
            }
        };
        let r6 = dec_id(buf, p5);
        let (image, p6) = match r6 {
            Some(x) => x,
            None => {
                return None;
            }
        };
        let r7 = dec_id_list(buf, p6);
        let (interfaces, p7) = match r7 {
            Some(x) => x,
            None => {
                return None;
            }
        };
        if p7 != buf.len() {
            proof {
                assert(buf@.skip(p7 as int).len() > 0);
            }
            return None;
        }
        proof {
            assert(buf@.skip(p7 as int).len() == 0);
            lemma_take_str_len(buf@.skip(p1 as int));
            lemma_take_id_list_len(buf@.skip(p4 as int));
            lemma_take_id_list_len(buf@.skip(p6 as int));
        }
        Some(VM { id, name, cpus, memory, disks, image, interfaces })
    }

    /// Reads one machine record by identifier.
    pub fn get(id: u128, store: &Catalog) -> (r: Option<VM>)
        ensures
            match r {
                Some(v) => spec_get_vm(store@, id) == Some(v@) && v@.wf(),
                None => spec_get_vm(store@, id) is None,
            },
    {
        match store.get(Kind::Vm, id) {
            Some(bytes) => VM::decode(bytes),
            None => None,
        }
    }

    /// Lists every machine's identifier, in store order.
    pub fn list(store: &Catalog) -> (r: Vec<u128>)
        ensures
            r@ == ids_of(store@, Kind::Vm),
    {
        store.list_ids(Kind::Vm)
    }

    /// Removes the machine's record; its disks and interfaces cascade
    /// through their own repositories, and the hypervisor teardown is
    /// decided by `delete_plan`.
    pub fn delete_record(id: u128, store: &mut Catalog)
        ensures
            final(store)@ == spec_remove(old(store)@, Kind::Vm, id),
    {
        store.remove(Kind::Vm, id);
    }

    /// Deletes a machine: decides the hypervisor teardown from the
    /// projected state, cascades to the machine's disks and interfaces,
    /// and removes its record. The returned work order carries what the
    /// host must still do: the teardown action, the backing files to
    /// remove, and the links to delete. A machine that is not in the
    /// store leaves it unchanged.
    pub fn delete_by_id(id: u128, raw_state: Option<u32>, store: &mut Catalog)
        -> (r: Option<VmTeardown>)
        ensures
            match spec_get_vm(old(store)@, id) {
                Some(v) => r matches Some(t)
                    && t.action == spec_delete_plan(spec_project_state(raw_state))
                    && final(store)@ == spec_vm_delete(old(store)@, v),
                None => r is None && final(store)@ == old(store)@,
            },
    {
        let vm = match VM::get(id, store) {
            Some(vm) => vm,
            None => {
                return None;
            }
        };
        let action = delete_plan(project_state(raw_state));
        let teardown = vm.delete(store);
        Some(VmTeardown {
            action,
            disk_files: teardown.disk_files,
            links: teardown.links,
        })
    }

    /// Deletes this machine's disks, interfaces and record, handing back
    /// the files and links the host must remove. The hypervisor action is
    /// decided separately by `delete_plan`.
    pub fn delete(self, store: &mut Catalog) -> (r: VmTeardown)
        ensures
            final(store)@ == spec_vm_delete_parts(old(store)@, self@.disks,
                self@.interfaces, self@.id),
    {
        let mut disk_files: Vec<String> = Vec::new();
        let mut i: usize = 0;
        proof {
            assert(self@.disks.skip(0) =~= self@.disks);
        }
        while i < self.disks.len()
            invariant
                i <= self@.disks.len(),
                spec_delete_disks(old(store)@, self@.disks)
                    == spec_delete_disks(store@, self@.disks.skip(i as int)),
            decreases self@.disks.len() - i,
        {
            proof {
                assert(self@.disks.skip(i as int)[0] == self@.disks[i as int]);
                assert(self@.disks.skip(i as int).drop_first()
                    =~= self@.disks.skip(i + 1));
            }
            match crate::disk::Disk::delete_by_id(self.disks[i], store) {
                Some(filename) => {
                    disk_files.push(filename);
                }
                None => {}
            }
            i = i + 1;
        }
        proof {
            assert(self@.disks.skip(self@.disks.len() as int)
                =~= Seq::<u128>::empty());
        }

        let mut links: Vec<(u32, u32)> = Vec::new();
        let mut j: usize = 0;
        let ghost mid = store@;
        proof {
            assert(self@.interfaces.skip(0) =~= self@.interfaces);
        }
        while j < self.interfaces.len()
            invariant
                j <= self@.interfaces.len(),
                spec_delete_interfaces(mid, self@.interfaces)
                    == spec_delete_interfaces(store@, self@.interfaces.skip(j as int)),
            decreases self@.interfaces.len() - j,
        {
            proof {
                assert(self@.interfaces.skip(j as int)[0] == self@.interfaces[j as int]);
                assert(self@.interfaces.skip(j as int).drop_first()
                    =~= self@.interfaces.skip(j + 1));
            }
            match crate::interface::Interface::delete_by_id(self.interfaces[j], store) {
                Some(pair) => {
                    links.push(pair);
                }
                None => {}
            }
            j = j + 1;
        }
        proof {
            assert(self@.interfaces.skip(self@.interfaces.len() as int)
                =~= Seq::<u128>::empty());
        }

        store.remove(Kind::Vm, self.id);
        VmTeardown { action: DeleteAction::NoAction, disk_files, links }
    }

    /// Composes the machine's domain document from the record and the
    /// already-resolved pieces: its disks in record order, its image, and
    /// the host-local link names of its interfaces in record order. The
    /// composer is a function of its arguments: equal inputs give
    /// byte-equal documents.
    pub fn to_xml(&self, disks: &Vec<Disk>, image: &Image,
        interface_names: &Vec<String>) -> (r: String)
        ensures
            r@ == domain_xml(self@, disks@.map_values(|d: Disk| d@.filename),
                image@.filename, image@.installer,
                interface_names@.map_values(|s: String| s@)),
    {
        let ghost files = disks@.map_values(|d: Disk| d@.filename);
        let ghost names = interface_names@.map_values(|s: String| s@);
        let mut out = String::from_str("<domain type=\"kvm\"><name>");
        append_xml_escaped(&mut out, self.name.as_str());
        out.append("</name><uuid>");
        let id_text = format_id(self.id);
        out.append(id_text.as_str());
        out.append("</uuid><memory unit=\"bytes\">");
        let mem_text = u64_to_string(self.memory);
        out.append(mem_text.as_str());
        out.append("</memory><vcpu>");
        let cpu_text = u64_to_string(self.cpus as u64);
        out.append(cpu_text.as_str());
        out.append("</vcpu><os><type arch=\"x86_64\" machine=\"q35\">hvm</type></os>");
        out.append("<devices>");

        let ghost mid = out@;
        let mut i: usize = 0;
        proof {
            assert(files.take(0) =~= Seq::<Seq<char>>::empty());
            assert(out@ =~= mid + disks_xml(files.take(0)));
        }
        while i < disks.len()
            invariant
                i <= disks@.len(),
                files == disks@.map_values(|d: Disk| d@.filename),
                out@ == mid + disks_xml(files.take(i as int)),
            decreases disks@.len() - i,
        {
            proof {
                lemma_disks_xml_push(files.take(i as int), files[i as int]);
                assert(files.take(i + 1) =~= files.take(i as int).push(files[i as int]));
            }
            out.append("<disk type=\"file\" device=\"disk\">");
            out.append("<driver name=\"qemu\" type=\"qcow2\"/><source file=\"");
            let f = disks[i].get_filename();
            append_xml_escaped(&mut out, f.as_str());
            out.append("\"/><target dev=\"vda\" bus=\"virtio\"/></disk>");
            i = i + 1;
            proof {
                assert(out@ =~= mid + disks_xml(files.take(i as int)));
            }
        }
        proof {
            assert(files.take(disks@.len() as int) =~= files);
        }

        if image.is_installer() {
            out.append("<disk type=\"file\" device=\"cdrom\">");
            out.append("<driver name=\"qemu\" type=\"raw\"/><source file=\"");
            let f = image.get_filename();
            append_xml_escaped(&mut out, f.as_str());
            out.append("\"/><target dev=\"sda\" bus=\"sata\"/>");
            out.append("<boot order=\"1\"/></disk>");
        }
        let ghost mid2 = out@;
        proof {
            if image@.installer {
                assert(mid2 =~= mid + disks_xml(files) + cdrom_xml(image@.filename));
            } else {
                assert(mid2 =~= mid + disks_xml(files) + Seq::<char>::empty());
            }
        }

        let mut j: usize = 0;
        proof {
            assert(names.take(0) =~= Seq::<Seq<char>>::empty());
            assert(out@ =~= mid2 + ifaces_xml(names.take(0)));
        }
        while j < interface_names.len()
            invariant
                j <= interface_names@.len(),
                names == interface_names@.map_values(|s: String| s@),
                out@ == mid2 + ifaces_xml(names.take(j as int)),
            decreases interface_names@.len() - j,
        {
            proof {
                lemma_ifaces_xml_push(names.take(j as int), names[j as int]);
                assert(names.take(j + 1) =~= names.take(j as int).push(names[j as int]));
            }
            out.append("<interface type=\"direct\"><source dev=\"");
            append_xml_escaped(&mut out, interface_names[j].as_str());
            out.append("\" mode=\"bridge\"/><model type=\"virtio\"/></interface>");
            j = j + 1;
            proof {
                assert(out@ =~= mid2 + ifaces_xml(names.take(j as int)));
            }
        }
        proof {
            assert(names.take(interface_names@.len() as int) =~= names);
        }

        out.append("<console type=\"pty\"/><input type=\"tablet\" bus=\"usb\"/>");
        out.append("<graphics type=\"spice\" port=\"-1\" tlsPort=\"-1\" autoport=\"yes\">");
        out.append("<image compression=\"off\"/></graphics>");
        out.append("<rng model=\"virtio\"><backend model=\"random\">/dev/urandom</backend></rng>");
        out.append("</devices></domain>");
        proof {
            assert(out@ =~= domain_xml(self@, files, image@.filename, image@.installer,
                names));
        }
        out
    }
}

/// One file-backed disk device element.
pub open spec fn disk_xml(file: Seq<char>) -> Seq<char> {
    "<disk type=\"file\" device=\"disk\">"@
        + "<driver name=\"qemu\" type=\"qcow2\"/><source file=\""@
        + xml_escaped(file) + "\"/><target dev=\"vda\" bus=\"virtio\"/></disk>"@
}

/// The disk device elements of a machine, in record order.
pub open spec fn disks_xml(files: Seq<Seq<char>>) -> Seq<char>
    decreases files.len(),
{
    if files.len() == 0 {
        Seq::empty()
    } else {
        disk_xml(files[0]) + disks_xml(files.drop_first())
    }
}

pub proof fn lemma_disks_xml_push(files: Seq<Seq<char>>, f: Seq<char>)
    ensures
        disks_xml(files.push(f)) == disks_xml(files) + disk_xml(f),
    decreases files.len(),
{
    if files.len() == 0 {
        assert(files.push(f)[0] == f);
        assert(files.push(f).drop_first() =~= Seq::<Seq<char>>::empty());
        assert(disks_xml(files.push(f).drop_first()) =~= Seq::<char>::empty());
        assert(disks_xml(files.push(f)) =~= disks_xml(files) + disk_xml(f));
    } else {
        assert(files.push(f)[0] == files[0]);
        assert(files.push(f).drop_first() =~= files.drop_first().push(f));
        lemma_disks_xml_push(files.drop_first(), f);
        assert(disks_xml(files.push(f)) =~= disks_xml(files) + disk_xml(f));
    }
}

/// The installer CD-ROM element, bound to the image file and first in the
/// boot order.
pub open spec fn cdrom_xml(file: Seq<char>) -> Seq<char> {
    "<disk type=\"file\" device=\"cdrom\">"@
        + "<driver name=\"qemu\" type=\"raw\"/><source file=\""@
        + xml_escaped(file) + "\"/><target dev=\"sda\" bus=\"sata\"/>"@
        + "<boot order=\"1\"/></disk>"@
}

/// One direct interface element bound to a host-local link name.
pub open spec fn iface_xml(name: Seq<char>) -> Seq<char> {
    "<interface type=\"direct\"><source dev=\""@ + xml_escaped(name)
        + "\" mode=\"bridge\"/><model type=\"virtio\"/></interface>"@
}

/// The interface elements of a machine, in record order.
pub open spec fn ifaces_xml(names: Seq<Seq<char>>) -> Seq<char>
    decreases names.len(),
{
    if names.len() == 0 {
        Seq::empty()
    } else {
        iface_xml(names[0]) + ifaces_xml(names.drop_first())
    }
}

pub proof fn lemma_ifaces_xml_push(names: Seq<Seq<char>>, n: Seq<char>)
    ensures
        ifaces_xml(names.push(n)) == ifaces_xml(names) + iface_xml(n),
    decreases names.len(),
{
    if names.len() == 0 {
        assert(names.push(n)[0] == n);
        assert(names.push(n).drop_first() =~= Seq::<Seq<char>>::empty());
        assert(ifaces_xml(names.push(n).drop_first()) =~= Seq::<char>::empty());
        assert(ifaces_xml(names.push(n)) =~= ifaces_xml(names) + iface_xml(n));
    } else {
        assert(names.push(n)[0] == names[0]);
        assert(names.push(n).drop_first() =~= names.drop_first().push(n));
        lemma_ifaces_xml_push(names.drop_first(), n);
        assert(ifaces_xml(names.push(n)) =~= ifaces_xml(names) + iface_xml(n));
    }
}

/// The whole domain document: a kvm domain with the machine's name,
/// identifier, memory in bytes, processor count, a fixed x86-64 q35 hvm
/// OS subtree, and a devices subtree holding the disks, the optional
/// installer CD-ROM, the interfaces, a pty console, a usb tablet, a spice
/// graphics element with automatic ports and image compression off, and a
/// virtio rng backed by the host's entropy device.
pub open spec fn domain_xml(vm: VMView, files: Seq<Seq<char>>, image_file: Seq<char>,
    installer: bool, ifaces: Seq<Seq<char>>) -> Seq<char> {
    "<domain type=\"kvm\"><name>"@ + xml_escaped(vm.name)
        + "</name><uuid>"@ + uuid_chars(vm.id)
        + "</uuid><memory unit=\"bytes\">"@ + dec_chars(vm.memory as int)
        + "</memory><vcpu>"@ + dec_chars(vm.cpus as int)
        + "</vcpu><os><type arch=\"x86_64\" machine=\"q35\">hvm</type></os>"@
        + "<devices>"@
        + disks_xml(files)
        + (if installer { cdrom_xml(image_file) } else { Seq::<char>::empty() })
        + ifaces_xml(ifaces)
        + "<console type=\"pty\"/><input type=\"tablet\" bus=\"usb\"/>"@
        + "<graphics type=\"spice\" port=\"-1\" tlsPort=\"-1\" autoport=\"yes\">"@
        + "<image compression=\"off\"/></graphics>"@
        + "<rng model=\"virtio\"><backend model=\"random\">/dev/urandom</backend></rng>"@
        + "</devices></domain>"@
}

/// Composer determinism: the document is a function of the record, the
/// resolved disks in order, the image, and the interface names in order;
/// equal inputs give byte-equal documents.
pub proof fn lemma_composer_deterministic(vm1: VMView, files1: Seq<Seq<char>>,
    image1: Seq<char>, installer1: bool, ifaces1: Seq<Seq<char>>, vm2: VMView,
    files2: Seq<Seq<char>>, image2: Seq<char>, installer2: bool, ifaces2: Seq<Seq<char>>)
    requires
        vm1 == vm2,
        files1 == files2,
        image1 == image2,
        installer1 == installer2,
        ifaces1 == ifaces2,
    ensures
        domain_xml(vm1, files1, image1, installer1, ifaces1)
            == domain_xml(vm2, files2, image2, installer2, ifaces2),
{
}

/// The hypervisor's raw state codes, as its interface defines them.
pub const RAW_RUNNING: u32 = 1;
pub const RAW_BLOCKED: u32 = 2;
pub const RAW_PAUSED: u32 = 3;
pub const RAW_SHUTDOWN: u32 = 4;
pub const RAW_SHUTOFF: u32 = 5;
pub const RAW_CRASHED: u32 = 6;
pub const RAW_PMSUSPENDED: u32 = 7;

/// The projection of a raw hypervisor state code onto the lifecycle:
/// running maps to running; paused, blocked and suspended-to-memory to
/// paused; shutdown in progress to shutting down; shut off and crashed to
/// stopped; anything else, or no defined domain at all, to undefined.
pub open spec fn spec_project_state(raw: Option<u32>) -> VMState {
    match raw {
        Some(code) => if code == RAW_RUNNING {
            VMState::RUNNING
        } else if code == RAW_PAUSED || code == RAW_BLOCKED || code == RAW_PMSUSPENDED {
            VMState::PAUSED
        } else if code == RAW_SHUTDOWN {
            VMState::SHUTTING_DOWN
        } else if code == RAW_SHUTOFF || code == RAW_CRASHED {
            VMState::STOPPED
        } else {
            VMState::UNDEFINED
        },
        None => VMState::UNDEFINED,
    }
}

/// Projects a raw hypervisor state code onto the lifecycle; `None` stands
/// for a machine the hypervisor has no definition of.
pub fn project_state(raw: Option<u32>) -> (r: VMState)
    ensures
        r == spec_project_state(raw),
{
    match raw {
        Some(code) => {
            if code == RAW_RUNNING {
                VMState::RUNNING
            } else if code == RAW_PAUSED || code == RAW_BLOCKED
                || code == RAW_PMSUSPENDED {
                VMState::PAUSED
            } else if code == RAW_SHUTDOWN {
                VMState::SHUTTING_DOWN
            } else if code == RAW_SHUTOFF || code == RAW_CRASHED {
                VMState::STOPPED
            } else {
                VMState::UNDEFINED
            }
        }
        None => VMState::UNDEFINED,
    }
}

/// What starting a machine requires of the hypervisor.
#[derive(Clone, Copy, PartialEq, Eq, Structural, Debug)]
pub enum StartAction {
    /// Start the defined, stopped domain.
    Create,
    /// Resume the paused domain.
    Resume,
    /// Already running; nothing to do.
    NoOp,
}

/// The start transition: a stopped machine is started, a paused one
/// resumed, a running one left alone; starting mid-shutdown or without a
/// definition is refused.
pub open spec fn spec_start_plan(state: VMState) -> Result<StartAction, VirtusError> {
    match state {
        VMState::STOPPED => Ok(StartAction::Create),
        VMState::PAUSED => Ok(StartAction::Resume),
        VMState::SHUTTING_DOWN => Err(VirtusError::VMShuttingDown),
        VMState::UNDEFINED => Err(VirtusError::VMUndefined),
        VMState::RUNNING => Ok(StartAction::NoOp),
    }
}

/// Decides the start transition for a machine in the given state.
pub fn start_plan(state: VMState) -> (r: Result<StartAction, VirtusError>)
    ensures
        r == spec_start_plan(state),
{
    match state {
        VMState::STOPPED => Ok(StartAction::Create),
        VMState::PAUSED => Ok(StartAction::Resume),
        VMState::SHUTTING_DOWN => Err(VirtusError::VMShuttingDown),
        VMState::UNDEFINED => Err(VirtusError::VMUndefined),
        VMState::RUNNING => Ok(StartAction::NoOp),
    }
}

/// What deleting a machine requires of the hypervisor.
#[derive(Clone, Copy, PartialEq, Eq, Structural, Debug)]
pub enum DeleteAction {
    /// Force-stop the domain, then remove its definition.
    DestroyAndUndefine,
    /// Remove the stopped domain's definition.
    Undefine,
    /// No definition exists; nothing to tear down.
    NoAction,
}

/// The delete transition: an active machine is destroyed and undefined, a
/// stopped one undefined, and one without a definition needs no
/// hypervisor action at all.
pub open spec fn spec_delete_plan(state: VMState) -> DeleteAction {
    match state {
        VMState::RUNNING | VMState::SHUTTING_DOWN | VMState::PAUSED =>
            DeleteAction::DestroyAndUndefine,
        VMState::STOPPED => DeleteAction::Undefine,
        VMState::UNDEFINED => DeleteAction::NoAction,
    }
}

/// Decides the hypervisor teardown for a machine in the given state.
pub fn delete_plan(state: VMState) -> (r: DeleteAction)
    ensures
        r == spec_delete_plan(state),
{
    match state {
        VMState::RUNNING | VMState::SHUTTING_DOWN | VMState::PAUSED =>
            DeleteAction::DestroyAndUndefine,
        VMState::STOPPED => DeleteAction::Undefine,
        VMState::UNDEFINED => DeleteAction::NoAction,
    }
}

/// Effector idempotence for deletes: a machine the hypervisor does not
/// know needs no teardown, so deleting it again after a delete — when the
/// projection is undefined — succeeds as a no-op, whatever raw answer, if
/// any, an unknown domain produced.
pub proof fn lemma_undefine_idempotent()
    ensures
        spec_delete_plan(VMState::UNDEFINED) == DeleteAction::NoAction,
        spec_delete_plan(spec_project_state(None)) == DeleteAction::NoAction,
{
}

/// What the host must still do after a machine's records are gone.
pub struct VmTeardown {
    /// The hypervisor action for the machine's domain.
    pub action: DeleteAction,
    /// The backing files of the deleted disks.
    pub disk_files: Vec<String>,
    /// The veth pairs of the deleted interfaces.
    pub links: Vec<(u32, u32)>,
}

/// The store after the machine's disks are deleted, in record order.
pub open spec fn spec_delete_disks(cat: Seq<EntryV>, ids: Seq<u128>) -> Seq<EntryV>
    decreases ids.len(),
{
    if ids.len() == 0 {
        cat
    } else {
        spec_delete_disks(spec_remove(cat, Kind::Disk, ids[0]), ids.drop_first())
    }
}

/// The store after the machine's interfaces are deleted, in record order;
/// each deletion also rewrites the owning network's cached list.
pub open spec fn spec_delete_interfaces(cat: Seq<EntryV>, ids: Seq<u128>) -> Seq<EntryV>
    decreases ids.len(),
{
    if ids.len() == 0 {
        cat
    } else {
        spec_delete_interfaces(crate::interface::spec_interface_delete(cat, ids[0]),
            ids.drop_first())
    }
}

/// The store after a whole machine deletion: its disks, then its
/// interfaces, then its own record.
pub open spec fn spec_vm_delete_parts(cat: Seq<EntryV>, disks: Seq<u128>,
    interfaces: Seq<u128>, id: u128) -> Seq<EntryV> {
    spec_remove(spec_delete_interfaces(spec_delete_disks(cat, disks), interfaces),
        Kind::Vm, id)
}

/// The store after the deletion of the machine `v` describes.
pub open spec fn spec_vm_delete(cat: Seq<EntryV>, v: VMView) -> Seq<EntryV> {
    spec_vm_delete_parts(cat, v.disks, v.interfaces, v.id)
}

impl PartialEq for VM {
    /// Total value equality: every field is compared.
    fn eq(&self, other: &VM) -> (r: bool) {
        let r = self.id == other.id && self.name == other.name
            && self.cpus == other.cpus && self.memory == other.memory
            && self.disks == other.disks && self.image == other.image
            && self.interfaces == other.interfaces;
        proof {
            if self.disks@.len() == other.disks@.len()
                && (forall|i: int| #![auto] 0 <= i < self.disks@.len()
                    ==> self.disks@[i] == other.disks@[i]) {
                assert(self.disks@ =~= other.disks@);
            }
            if self.interfaces@.len() == other.interfaces@.len()
                && (forall|i: int| #![auto] 0 <= i < self.interfaces@.len()
                    ==> self.interfaces@[i] == other.interfaces@[i]) {
                assert(self.interfaces@ =~= other.interfaces@);
            }
        }
        r
    }
}

impl vstd::std_specs::cmp::PartialEqSpecImpl for VM {
    open spec fn obeys_eq_spec() -> bool {
        true
    }

    open spec fn eq_spec(&self, other: &VM) -> bool {
        self@ == other@
    }
}

} // verus!
