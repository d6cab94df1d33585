//! Virtual networks.
//!
//! A network is a record naming a bridge on every host: either the shared
//! default bridge, or a dedicated bridge over a physical uplink, of which
//! each uplink can carry at most one. The record caches the identifiers of
//! the interfaces attached to it; the bridge itself is made by the host.

use vstd::prelude::*;
use vstd::utf8::encode_utf8;
use crate::codec::{id_field, str_field, opt_str_field, u32_field, bool_field,
    id_list_field, opt_str_view,
    take_id, take_str, take_opt_str, take_u32, take_bool, take_id_list,
    lemma_take_id, lemma_take_str, lemma_take_opt_str, lemma_take_u32,
    lemma_take_bool, lemma_take_id_list,
    lemma_take_str_len, lemma_take_opt_str_len, lemma_take_id_list_len,
    enc_id, enc_str, enc_opt_str, enc_u32, enc_bool, enc_id_list,
    dec_id, dec_str, dec_opt_str, dec_u32, dec_bool, dec_id_list};
use crate::ids::fresh_id;
use crate::strutil::str_eq;
use crate::error::VirtusError;
use crate::cluster::catalog::{Catalog, Kind, EntryV, find_value, spec_insert,
    spec_remove, ids_of, values_of};

verus! {

/// The name of the shared default bridge, used by every network without a
/// physical uplink.
pub open spec fn default_bridge_chars() -> Seq<char> {
    "virtus-br"@
}

/// The specification-level value of a network record.
pub ghost struct NetworkView {
    pub id: u128,
    pub vlan: u32,
    pub external: bool,
    pub bridge_name: Seq<char>,
    pub name: Seq<char>,
    pub cidr4: Option<Seq<char>>,
    pub interfaces: Seq<u128>,
}

impl NetworkView {
    /// Wire limits: the texts and the interface list fit their length
    /// fields.
    pub open spec fn wf(&self) -> bool {
        &&& encode_utf8(self.bridge_name).len() < 0x100000000
        &&& encode_utf8(self.name).len() < 0x100000000
        &&& match self.cidr4 {
            Some(c) => encode_utf8(c).len() < 0x100000000,
            None => true,
        }
        &&& self.interfaces.len() < 0x100000000
    }

    /// The record with one more cached interface.
    pub open spec fn with_interface(&self, id: u128) -> NetworkView {
        NetworkView { interfaces: self.interfaces.push(id), ..*self }
    }

    /// The record with the first cached occurrence of an interface gone.
    pub open spec fn without_interface(&self, id: u128) -> NetworkView {
        NetworkView { interfaces: remove_first_id(self.interfaces, id), ..*self }
    }
}

/// The sequence with the first occurrence of a value removed.
pub open spec fn remove_first_id(s: Seq<u128>, id: u128) -> Seq<u128>
    decreases s.len(),
{
    if s.len() == 0 {
        s
    } else if s[0] == id {
        s.drop_first()
    } else {
        seq![s[0]] + remove_first_id(s.drop_first(), id)
    }
}

/// A virtual network record.
pub struct Network {
    id: u128,
    vlan: u32,
    external: bool,
    bridge_name: String,
    name: String,
    cidr4: Option<String>,
    interfaces: Vec<u128>,
}

impl View for Network {
    type V = NetworkView;

    closed spec fn view(&self) -> NetworkView {
        NetworkView {
            id: self.id,
            vlan: self.vlan,
            external: self.external,
            bridge_name: self.bridge_name@,
            name: self.name@,
            cidr4: opt_str_view(self.cidr4),
            interfaces: self.interfaces@,
        }
    }
}

/// The version tag of the network record encoding.
pub const NETWORK_VERSION: u8 = 1;

/// The byte encoding of a network record: version, identifier, vlan tag,
/// external flag, bridge name, name, network prefix, interface list.
pub open spec fn network_bytes(v: NetworkView) -> Seq<u8> {
    seq![NETWORK_VERSION] + id_field(v.id) + u32_field(v.vlan) + bool_field(v.external)
        + str_field(v.bridge_name) + str_field(v.name) + opt_str_field(v.cidr4)
        + id_list_field(v.interfaces)
}

/// Reads a network record from the front of `buf`.
pub open spec fn take_network(buf: Seq<u8>) -> Option<(NetworkView, Seq<u8>)> {
    if buf.len() < 1 || buf[0] != NETWORK_VERSION {
        None
    } else {
        match take_id(buf.skip(1)) {
            Some((id, b1)) => match take_u32(b1) {
                Some((vlan, b2)) => match take_bool(b2) {
                    Some((external, b3)) => match take_str(b3) {
                        Some((bridge_name, b4)) => match take_str(b4) {
                            Some((name, b5)) => match take_opt_str(b5) {
                                Some((cidr4, b6)) => match take_id_list(b6) {
                                    Some((interfaces, rest)) => Some((
                                        NetworkView {
                                            id, vlan, external, bridge_name, name,
                                            cidr4, interfaces,
                                        },
                                        rest,
                                    )),
                                    None => None,
                                },
                                None => None,
                            },
                            None => None,
                        },
                        None => None,
                    },
                    None => None,
                },
                None => None,
            },
            None => None,
        }
    }
}

/// The record denoted by a full buffer, which must hold nothing else.
pub open spec fn spec_decode_network(buf: Seq<u8>) -> Option<NetworkView> {
    match take_network(buf) {
        Some((v, rest)) => if rest.len() == 0 {
            Some(v)
        } else {
            None
        },
        None => None,
    }
}

/// Reading the encoding of a network record yields the record back.
#[verifier::rlimit(50)]
pub proof fn lemma_take_network(v: NetworkView, rest: Seq<u8>)
    requires
        v.wf(),
    ensures
        take_network(network_bytes(v) + rest) == Some((v, rest)),
{
    let buf = network_bytes(v) + rest;
    let t6 = id_list_field(v.interfaces) + rest;
    let t5 = opt_str_field(v.cidr4) + t6;
    let t4 = str_field(v.name) + t5;
    let t3 = str_field(v.bridge_name) + t4;
    let t2 = bool_field(v.external) + t3;
    let t1 = u32_field(v.vlan) + t2;
    assert(buf[0] == NETWORK_VERSION);
    assert(buf.skip(1) =~= id_field(v.id) + t1);
    lemma_take_id(v.id, t1);
    lemma_take_u32(v.vlan, t2);
    lemma_take_bool(v.external, t3);
    lemma_take_str(v.bridge_name, t4);
    lemma_take_str(v.name, t5);
    lemma_take_opt_str(v.cidr4, t6);
    lemma_take_id_list(v.interfaces, rest);
}

/// Serialization round trip: decoding the encoding of a network record
/// yields an equal record.
pub proof fn lemma_network_round_trip(v: NetworkView)
    requires
        v.wf(),
    ensures
        spec_decode_network(network_bytes(v)) == Some(v),
{
    lemma_take_network(v, Seq::empty());
    assert(network_bytes(v) + Seq::<u8>::empty() =~= network_bytes(v));
}

/// What a network read from the store denotes.
pub open spec fn spec_get_network(cat: Seq<EntryV>, id: u128) -> Option<NetworkView> {
    match find_value(cat, Kind::Network, id) {
        Some(bytes) => spec_decode_network(bytes),
        None => None,
    }
}

/// The last stored network that claims the given uplink as its bridge;
/// values that fail to decode are passed over.
pub open spec fn spec_find_external(values: Seq<Seq<u8>>, uplink: Seq<char>)
    -> Option<NetworkView>
    decreases values.len(),
{
    if values.len() == 0 {
        None
    } else {
        match spec_find_external(values.drop_first(), uplink) {
            Some(v) => Some(v),
            None => match spec_decode_network(values[0]) {
                Some(v) => if v.external && v.bridge_name == uplink {
                    Some(v)
                } else {
                    None
                },
                None => None,
            },
        }
    }
}

/// The last stored network with the given name; values that fail to
/// decode are passed over.
pub open spec fn spec_find_named(values: Seq<Seq<u8>>, name: Seq<char>)
    -> Option<NetworkView>
    decreases values.len(),
{
    if values.len() == 0 {
        None
    } else {
        match spec_find_named(values.drop_first(), name) {
            Some(v) => Some(v),
            None => match spec_decode_network(values[0]) {
                Some(v) => if v.name == name {
                    Some(v)
                } else {
                    None
                },
                None => None,
            },
        }
    }
}

impl Network {
    /// Records a network. A physical uplink may carry at most one
    /// network: when the uplink is already claimed nothing is recorded
    /// and the request is refused. Without an uplink the shared default
    /// bridge is used, which the host ensures exists.
    pub fn new(name: &str, vlan: Option<u32>, cidr4: Option<&str>,
        physical_uplink: Option<&str>, store: &mut Catalog)
        -> (r: Result<Network, VirtusError>)
        requires
            encode_utf8(name@).len() < 0x100000000,
            match cidr4 {
                Some(c) => encode_utf8(c@).len() < 0x100000000,
                None => true,
            },
            match physical_uplink {
                Some(u) => encode_utf8(u@).len() < 0x100000000,
                None => true,
            },
        ensures
            match physical_uplink {
                Some(u) => {
                    &&& spec_find_external(values_of(old(store)@, Kind::Network), u@)
                        is Some
                        ==> r == Err::<Network, VirtusError>(
                            VirtusError::PhysicalNetworkExists)
                        && final(store)@ == old(store)@
                    &&& spec_find_external(values_of(old(store)@, Kind::Network), u@)
                        is None
                        ==> (r matches Ok(n) && n@.bridge_name == u@ && n@.external
                            && committed_new(old(store)@, final(store)@, n@, name@,
                                vlan, cidr4))
                },
                None => r matches Ok(n)
                    && n@.bridge_name == default_bridge_chars() && !n@.external
                    && committed_new(old(store)@, final(store)@, n@, name@, vlan,
                        cidr4),
            },
    {
        let bridge_name = match physical_uplink {
            Some(u) => u.to_owned(),
            None => String::from_str("virtus-br"),
        };
        proof {
            reveal_strlit("virtus-br");
            crate::codec::lemma_encode_utf8_len("virtus-br"@);
            assert(encode_utf8(bridge_name@).len() < 0x100000000);
        }
        match physical_uplink {
            Some(uplink) => {
                if Network::get_external_network(uplink, store).is_some() {
                    return Err(VirtusError::PhysicalNetworkExists);
                }
            }
            None => {}
        }
        let network = Network {
            id: fresh_id(),
            name: name.to_owned(),
            vlan: match vlan {
                Some(v) => v,
                None => 0,
            },
            cidr4: match cidr4 {
                Some(c) => Some(c.to_owned()),
                None => None,
            },
            interfaces: Vec::new(),
            external: match physical_uplink {
                Some(_) => true,
                None => false,
            },
            bridge_name,
        };
        proof {
            assert(network@.interfaces =~= Seq::<u128>::empty());
        }
        let bytes = network.encode();
        store.insert(Kind::Network, network.id, bytes);
        Ok(network)
    }

    /// The network's identifier.
    pub fn get_id(&self) -> (r: u128)
        ensures
            r == self@.id,
    {
        self.id
    }

    /// The network's name.
    pub fn get_name(&self) -> (r: String)
        ensures
            r@ == self@.name,
    {
        self.name.clone()
    }

    /// The network's vlan tag; zero means untagged.
    pub fn get_vlan(&self) -> (r: u32)
        ensures
            r == self@.vlan,
    {
        self.vlan
    }

    /// The name of the bridge that realizes the network on each host.
    pub fn get_bridge_name(&self) -> (r: String)
        ensures
            r@ == self@.bridge_name,
    {
        self.bridge_name.clone()
    }

    /// The identifiers of the cached attached interfaces.
    pub fn get_interfaces(&self) -> (r: &Vec<u128>)
        ensures
            r@ == self@.interfaces,
    {
        &self.interfaces
    }

    /// The last stored network that claims the given uplink, if any.
    pub fn get_external_network(uplink: &str, store: &Catalog) -> (r: Option<Network>)
        ensures
            match r {
                Some(n) => spec_find_external(values_of(store@, Kind::Network), uplink@)
                    == Some(n@),
                None => spec_find_external(values_of(store@, Kind::Network), uplink@)
                    is None,
            },
    {
        let values = store.list_values(Kind::Network);
        let ghost all = values_of(store@, Kind::Network);
        let n = values.len();
        let mut found: Option<Network> = None;
        let mut i: usize = 0;
        proof {
            assert(all.skip(0) =~= all);
        }
        while i < n
            invariant
                n == values@.len(),
                i <= n,
                values@.map_values(|v: Vec<u8>| v@) == all,
                all == values_of(store@, Kind::Network),
                spec_find_external(all, uplink@) == match found {
                    Some(f) => match spec_find_external(all.skip(i as int), uplink@) {
                        Some(v) => Some(v),
                        None => Some(f@),
                    },
                    None => spec_find_external(all.skip(i as int), uplink@),
                },
            decreases n - i,
        {
            proof {
                assert(all.skip(i as int)[0] == all[i as int]);
                assert(all[i as int] == values@[i as int]@);
                assert(all.skip(i as int).drop_first() =~= all.skip(i + 1));
                lemma_find_external_step(all, i as int, uplink@);
            }
            match Network::decode(&values[i]) {
                Some(net) => {
                    let is_match = net.external && str_eq(net.bridge_name.as_str(),
                        uplink);
                    if is_match {
                        found = Some(net);
                    }
                }
                None => {}
            }
            i = i + 1;
        }
        proof {
            assert(all.skip(n as int) =~= Seq::<Seq<u8>>::empty());
        }
        found
    }

    /// The last stored network with the given name, if any.
    pub fn find(name: &str, store: &Catalog) -> (r: Option<Network>)
        ensures
            match r {
                Some(n) => spec_find_named(values_of(store@, Kind::Network), name@)
                    == Some(n@),
                None => spec_find_named(values_of(store@, Kind::Network), name@)
                    is None,
            },
    {
        let values = store.list_values(Kind::Network);
        let ghost all = values_of(store@, Kind::Network);
        let n = values.len();
        let mut found: Option<Network> = None;
        let mut i: usize = 0;
        proof {
            assert(all.skip(0) =~= all);
        }
        while i < n
            invariant
                n == values@.len(),
                i <= n,
                values@.map_values(|v: Vec<u8>| v@) == all,
                all == values_of(store@, Kind::Network),
                spec_find_named(all, name@) == match found {
                    Some(f) => match spec_find_named(all.skip(i as int), name@) {
                        Some(v) => Some(v),
                        None => Some(f@),
                    },
                    None => spec_find_named(all.skip(i as int), name@),
                },
            decreases n - i,
        {
            proof {
                assert(all.skip(i as int)[0] == all[i as int]);
                assert(all[i as int] == values@[i as int]@);
                assert(all.skip(i as int).drop_first() =~= all.skip(i + 1));
                lemma_find_named_step(all, i as int, name@);
            }
            match Network::decode(&values[i]) {
                Some(net) => {
                    if str_eq(net.name.as_str(), name) {
                        found = Some(net);
                    }
                }
                None => {}
            }
            i = i + 1;
        }
        proof {
            assert(all.skip(n as int) =~= Seq::<Seq<u8>>::empty());
        }
        found
    }

    /// Caches one more attached interface and rewrites the record.
    pub fn add_interface(&mut self, id: u128, store: &mut Catalog)
        requires
            old(self)@.wf(),
            old(self)@.interfaces.len() + 1 < 0x100000000,
        ensures
            final(self)@ == old(self)@.with_interface(id),
            final(self)@.wf(),
            final(store)@ == spec_insert(old(store)@, Kind::Network, old(self)@.id,
                network_bytes(old(self)@.with_interface(id))),
    {
        self.interfaces.push(id);
        let bytes = self.encode();
        store.insert(Kind::Network, self.id, bytes);
    }

    /// Drops the first cached occurrence of an interface and rewrites the
    /// record; an interface that is not cached leaves the record as it
    /// was, though it is still rewritten.
    pub fn remove_interface(&mut self, id: u128, store: &mut Catalog)
        requires
            old(self)@.wf(),
        ensures
            final(self)@ == old(self)@.without_interface(id),
            final(self)@.wf(),
            final(store)@ == spec_insert(old(store)@, Kind::Network, old(self)@.id,
                network_bytes(old(self)@.without_interface(id))),
    {
        let n = self.interfaces.len();
        let mut i: usize = 0;
        let mut idx: usize = n;
        while i < n
            invariant
                n == self.interfaces@.len(),
                i <= n,
                idx <= n,
                *self == *old(self),
                idx == n ==> forall|j: int| 0 <= j < i ==> self.interfaces@[j] != id,
                idx < n ==> idx < i && self.interfaces@[idx as int] == id
                    && (forall|j: int| 0 <= j < idx ==> self.interfaces@[j] != id),
            decreases n - i,
        {
            if idx == n && self.interfaces[i] == id {
                idx = i;
            }
            i = i + 1;
        }
        if idx < n {
            self.interfaces.remove(idx);
            proof {
                lemma_remove_first_at(old(self)@.interfaces, idx as int, id);
                assert(self@ == old(self)@.without_interface(id));
            }
        } else {
            proof {
                lemma_remove_first_absent(old(self)@.interfaces, id);
                assert(self@ == old(self)@.without_interface(id));
            }
        }
        let bytes = self.encode();
        store.insert(Kind::Network, self.id, bytes);
    }

    /// Encodes the record for the store.
    pub fn encode(&self) -> (r: Vec<u8>)
        requires
            self@.wf(),
        ensures
            r@ == network_bytes(self@),
    {
        let mut out: Vec<u8> = Vec::new();
        out.push(NETWORK_VERSION);
        enc_id(&mut out, self.id);
        enc_u32(&mut out, self.vlan);
        enc_bool(&mut out, self.external);
        enc_str(&mut out, &self.bridge_name);
        enc_str(&mut out, &self.name);
        enc_opt_str(&mut out, &self.cidr4);
        enc_id_list(&mut out, &self.interfaces);
        proof {
            assert(out@ =~= network_bytes(self@));
        }
        out
    }

    /// Decodes a record; returns `None` on any text that is not exactly
    /// the encoding of one network record.
    pub fn decode(buf: &Vec<u8>) -> (r: Option<Network>)
        ensures
            match r {
                Some(v) => spec_decode_network(buf@) == Some(v@) && v@.wf(),
                None => spec_decode_network(buf@) is None,
            },
    {
        if buf.len() < 1 {
            return None;
        }
        if buf[0] != NETWORK_VERSION {
            proof {
                assert(buf@[0] != NETWORK_VERSION);
            }
            return None;
        }
        let r1 = dec_id(buf, 1);
        let (id, p1) = match r1 {
            Some(x) => x,
            None => {
                return None;
            }
        };
        let r2 = dec_u32(buf, p1);
        let (vlan, p2) = match r2 {
            Some(x) => x,
            None => {
                return None;
            }
        };
        let r3 = dec_bool(buf, p2);
        let (external, p3) = match r3 {
            Some(x) => x,
            None => {
                return None;
            }
        };
        let r4 = dec_str(buf, p3);
        let (bridge_name, p4) = match r4 {
            Some(x) => x,
            None => {
                return None;
            }
        };
        let r5 = dec_str(buf, p4);
        let (name, p5) = match r5 {
            Some(x) => x,
            None => {
                return None;
            }
        };
        let r6 = dec_opt_str(buf, p5);
        let (cidr4, p6) = match r6 {
            Some(x) => x,
            None => {
                return None;
            }
        };
        let r7 = dec_id_list(buf, p6);
        let (interfaces, p7) = match r7 {
            Some(x) => x,
            None => {
                return None;
            }
        };
        if p7 != buf.len() {
            proof {
                assert(buf@.skip(p7 as int).len() > 0);
            }
            return None;
        }
        proof {
            assert(buf@.skip(p7 as int).len() == 0);
            lemma_take_str_len(buf@.skip(p3 as int));
            lemma_take_str_len(buf@.skip(p4 as int));
            lemma_take_opt_str_len(buf@.skip(p5 as int));
            lemma_take_id_list_len(buf@.skip(p6 as int));
        }
        Some(Network { id, vlan, external, bridge_name, name, cidr4, interfaces })
    }

    /// Reads one network record by identifier.
    pub fn get(id: u128, store: &Catalog) -> (r: Option<Network>)
        ensures
            match r {
                Some(v) => spec_get_network(store@, id) == Some(v@) && v@.wf(),
                None => spec_get_network(store@, id) is None,
            },
    {
        match store.get(Kind::Network, id) {
            Some(bytes) => Network::decode(bytes),
            None => None,
        }
    }

    /// Lists every network's identifier, in store order.
    pub fn list(store: &Catalog) -> (r: Vec<u128>)
        ensures
            r@ == ids_of(store@, Kind::Network),
    {
        store.list_ids(Kind::Network)
    }

    /// Deletes a network record; the cascade to its interfaces is driven
    /// by the caller through the interface repository, which hands back
    /// the links the host must delete.
    pub fn delete_record(id: u128, store: &mut Catalog)
        ensures
            final(store)@ == spec_remove(old(store)@, Kind::Network, id),
    {
        store.remove(Kind::Network, id);
    }

    /// Deletes a network: cascades to its cached interfaces, then removes
    /// the record. The returned pairs are the links the host must delete.
    /// A network that is not in the store leaves it unchanged.
    pub fn delete_by_id(id: u128, store: &mut Catalog) -> (r: Option<Vec<(u32, u32)>>)
        ensures
            match spec_get_network(old(store)@, id) {
                Some(v) => r is Some && final(store)@ == spec_remove(
                    crate::vm::spec_delete_interfaces(old(store)@, v.interfaces),
                    Kind::Network, v.id),
                None => r is None && final(store)@ == old(store)@,
            },
    {
        let network = match Network::get(id, store) {
            Some(v) => v,
            None => {
                return None;
            }
        };
        Some(network.delete(store))
    }

    /// Deletes this network's cached interfaces and its record, handing
    /// back the links the host must delete.
    pub fn delete(self, store: &mut Catalog) -> (r: Vec<(u32, u32)>)
        ensures
            final(store)@ == spec_remove(
                crate::vm::spec_delete_interfaces(old(store)@, self@.interfaces),
                Kind::Network, self@.id),
    {
        let mut links: Vec<(u32, u32)> = Vec::new();
        let mut i: usize = 0;
        proof {
            assert(self@.interfaces.skip(0) =~= self@.interfaces);
        }
        while i < self.interfaces.len()
            invariant
                i <= self@.interfaces.len(),
                crate::vm::spec_delete_interfaces(old(store)@, self@.interfaces)
                    == crate::vm::spec_delete_interfaces(store@,
                        self@.interfaces.skip(i as int)),
            decreases self@.interfaces.len() - i,
        {
            proof {
                assert(self@.interfaces.skip(i as int)[0] == self@.interfaces[i as int]);
                assert(self@.interfaces.skip(i as int).drop_first()
                    =~= self@.interfaces.skip(i + 1));
            }
            match crate::interface::Interface::delete_by_id(self.interfaces[i], store) {
                Some(pair) => {
                    links.push(pair);
                }
                None => {}
            }
            i = i + 1;
        }
        proof {
            assert(self@.interfaces.skip(self@.interfaces.len() as int)
                =~= Seq::<u128>::empty());
        }
        store.remove(Kind::Network, self.id);
        links
    }
}

/// What the store's committed state looks like after a new network was
/// recorded.
pub open spec fn committed_new(old_cat: Seq<EntryV>, new_cat: Seq<EntryV>,
    n: NetworkView, name: Seq<char>, vlan: Option<u32>, cidr4: Option<&str>) -> bool {
    &&& n.name == name
    &&& n.vlan == match vlan {
        Some(v) => v,
        None => 0u32,
    }
    &&& n.cidr4 == match cidr4 {
        Some(c) => Some(c@),
        None => None::<Seq<char>>,
    }
    &&& n.interfaces == Seq::<u128>::empty()
    &&& n.wf()
    &&& new_cat == spec_insert(old_cat, Kind::Network, n.id, network_bytes(n))
}

proof fn lemma_find_external_step(all: Seq<Seq<u8>>, i: int, uplink: Seq<char>)
    requires
        0 <= i < all.len(),
    ensures
        spec_find_external(all.skip(i), uplink) == match spec_find_external(
            all.skip(i + 1), uplink) {
            Some(v) => Some(v),
            None => match spec_decode_network(all[i]) {
                Some(v) => if v.external && v.bridge_name == uplink {
                    Some(v)
                } else {
                    None::<NetworkView>
                },
                None => None::<NetworkView>,
            },
        },
{
    assert(all.skip(i)[0] == all[i]);
    assert(all.skip(i).drop_first() =~= all.skip(i + 1));
}

proof fn lemma_find_named_step(all: Seq<Seq<u8>>, i: int, name: Seq<char>)
    requires
        0 <= i < all.len(),
    ensures
        spec_find_named(all.skip(i), name) == match spec_find_named(
            all.skip(i + 1), name) {
            Some(v) => Some(v),
            None => match spec_decode_network(all[i]) {
                Some(v) => if v.name == name {
                    Some(v)
                } else {
                    None::<NetworkView>
                },
                None => None::<NetworkView>,
            },
        },
{
    assert(all.skip(i)[0] == all[i]);
    assert(all.skip(i).drop_first() =~= all.skip(i + 1));
}

proof fn lemma_remove_first_at(s: Seq<u128>, i: int, id: u128)
    requires
        0 <= i < s.len(),
        s[i] == id,
        forall|j: int| 0 <= j < i ==> s[j] != id,
    ensures
        remove_first_id(s, id) == s.remove(i),
    decreases s.len(),
{
    if i == 0 {
        assert(remove_first_id(s, id) =~= s.remove(0));
    } else {
        assert(s[0] != id);
        assert(s.drop_first()[i - 1] == s[i]);
        assert(forall|j: int| 0 <= j < i - 1 ==> s.drop_first()[j] == s[j + 1]);
        lemma_remove_first_at(s.drop_first(), i - 1, id);
        assert(remove_first_id(s, id) =~= s.remove(i));
    }
}

proof fn lemma_remove_first_absent(s: Seq<u128>, id: u128)
    requires
        forall|j: int| 0 <= j < s.len() ==> s[j] != id,
    ensures
        remove_first_id(s, id) == s,
    decreases s.len(),
{
    if s.len() > 0 {
        assert(forall|j: int| 0 <= j < s.drop_first().len()
            ==> s.drop_first()[j] == s[j + 1]);
        lemma_remove_first_absent(s.drop_first(), id);
        assert(remove_first_id(s, id) =~= s);
    }
}

} // verus!
