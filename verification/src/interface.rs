//! Network interfaces.
//!
//! An interface is a record bound to one network, realized on the host as
//! a veth pair whose first end is enslaved to the network's bridge. The
//! record keeps the pair's link indices; the links themselves are made and
//! removed by the host.

use vstd::prelude::*;
use crate::codec::{id_field, u32_field, take_id, take_u32,
    lemma_take_id, lemma_take_u32,
    enc_id, enc_u32, dec_id, dec_u32};
use crate::ids::{uuid_chars, hex32_chars, format_id, fresh_id};
use crate::network::{Network, spec_get_network, network_bytes};
use crate::cluster::catalog::{Catalog, Kind, EntryV, find_value, spec_insert,
    spec_remove, ids_of};

verus! {

/// A hardware address, six octets.
#[derive(Clone, Copy, PartialEq, Eq, Structural, Debug)]
pub struct MacAddr {
    pub b0: u8,
    pub b1: u8,
    pub b2: u8,
    pub b3: u8,
    pub b4: u8,
    pub b5: u8,
}

/// The encoding of an optional hardware address: a presence byte, then
/// the six octets.
pub open spec fn opt_mac_field(m: Option<MacAddr>) -> Seq<u8> {
    match m {
        Some(a) => seq![1u8, a.b0, a.b1, a.b2, a.b3, a.b4, a.b5],
        None => seq![0u8],
    }
}

/// Reads an optional hardware address from the front of `buf`.
pub open spec fn take_opt_mac(buf: Seq<u8>) -> Option<(Option<MacAddr>, Seq<u8>)> {
    if buf.len() < 1 {
        None
    } else if buf[0] == 0u8 {
        Some((None, buf.skip(1)))
    } else if buf[0] == 1u8 {
        if buf.len() >= 7 {
            Some((
                Some(MacAddr {
                    b0: buf[1], b1: buf[2], b2: buf[3], b3: buf[4], b4: buf[5],
                    b5: buf[6],
                }),
                buf.skip(7),
            ))
        } else {
            None
        }
    } else {
        None
    }
}

pub proof fn lemma_take_opt_mac(m: Option<MacAddr>, rest: Seq<u8>)
    ensures
        take_opt_mac(opt_mac_field(m) + rest) == Some((m, rest)),
{
    match m {
        Some(a) => {
            assert((opt_mac_field(m) + rest).skip(7) =~= rest);
        }
        None => {
            assert((opt_mac_field(m) + rest).skip(1) =~= rest);
        }
    }
}

/// Appends an optional hardware address field.
pub fn enc_opt_mac(out: &mut Vec<u8>, m: &Option<MacAddr>)
    ensures
        final(out)@ == old(out)@ + opt_mac_field(*m),
{
    match m {
        Some(a) => {
            out.push(1u8);
            out.push(a.b0);
            out.push(a.b1);
            out.push(a.b2);
            out.push(a.b3);
            out.push(a.b4);
            out.push(a.b5);
        }
        None => {
            out.push(0u8);
        }
    }
    proof {
        assert(out@ =~= old(out)@ + opt_mac_field(*m));
    }
}

/// Reads an optional hardware address field starting at `pos`.
pub fn dec_opt_mac(buf: &Vec<u8>, pos: usize) -> (r: Option<(Option<MacAddr>, usize)>)
    requires
        pos <= buf@.len(),
    ensures
        match r {
            Some((m, end)) => pos <= end <= buf@.len()
                && take_opt_mac(buf@.skip(pos as int)) == Some((m, buf@.skip(end as int))),
            None => take_opt_mac(buf@.skip(pos as int)) is None,
        },
{
    if pos >= buf.len() {
        return None;
    }
    let tag = buf[pos];
    proof {
        assert(buf@.skip(pos as int)[0] == buf@[pos as int]);
        assert(buf@.skip(pos as int).skip(1) =~= buf@.skip(pos + 1));
    }
    if tag == 0 {
        Some((None, pos + 1))
    } else if tag == 1 {
        if buf.len() - pos < 7 {
            return None;
        }
        proof {
            assert(buf@.skip(pos as int)[1] == buf@[pos + 1]);
            assert(buf@.skip(pos as int)[2] == buf@[pos + 2]);
            assert(buf@.skip(pos as int)[3] == buf@[pos + 3]);
            assert(buf@.skip(pos as int)[4] == buf@[pos + 4]);
            assert(buf@.skip(pos as int)[5] == buf@[pos + 5]);
            assert(buf@.skip(pos as int)[6] == buf@[pos + 6]);
            assert(buf@.skip(pos as int).skip(7) =~= buf@.skip(pos + 7));
        }
        let a = MacAddr {
            b0: buf[pos + 1], b1: buf[pos + 2], b2: buf[pos + 3], b3: buf[pos + 4],
            b4: buf[pos + 5], b5: buf[pos + 6],
        };
        Some((Some(a), pos + 7))
    } else {
        None
    }
}

/// The specification-level value of an interface record.
pub ghost struct InterfaceView {
    pub id: u128,
    pub network: u128,
    pub mac_addr: Option<MacAddr>,
    pub veth_pair: (u32, u32),
}

/// An interface record.
pub struct Interface {
    id: u128,
    network: u128,
    mac_addr: Option<MacAddr>,
    veth_pair: (u32, u32),
}

impl View for Interface {
    type V = InterfaceView;

    closed spec fn view(&self) -> InterfaceView {
        InterfaceView {
            id: self.id,
            network: self.network,
            mac_addr: self.mac_addr,
            veth_pair: self.veth_pair,
        }
    }
}

/// The version tag of the interface record encoding.
pub const INTERFACE_VERSION: u8 = 1;

/// The byte encoding of an interface record: version, identifier, owning
/// network, hardware address, veth pair indices.
pub open spec fn interface_bytes(v: InterfaceView) -> Seq<u8> {
    seq![INTERFACE_VERSION] + id_field(v.id) + id_field(v.network)
        + opt_mac_field(v.mac_addr) + u32_field(v.veth_pair.0)
        + u32_field(v.veth_pair.1)
}

/// Reads an interface record from the front of `buf`.
pub open spec fn take_interface(buf: Seq<u8>) -> Option<(InterfaceView, Seq<u8>)> {
    if buf.len() < 1 || buf[0] != INTERFACE_VERSION {
        None
    } else {
        match take_id(buf.skip(1)) {
            Some((id, b1)) => match take_id(b1) {
                Some((network, b2)) => match take_opt_mac(b2) {
                    Some((mac_addr, b3)) => match take_u32(b3) {
                        Some((v0, b4)) => match take_u32(b4) {
                            Some((v1, rest)) => Some((
                                InterfaceView {
                                    id, network, mac_addr, veth_pair: (v0, v1),
                                },
                                rest,
                            )),
                            None => None,
                        },
                        None => None,
                    },
                    None => None,
                },
                None => None,
            },
            None => None,
        }
    }
}

/// The record denoted by a full buffer, which must hold nothing else.
pub open spec fn spec_decode_interface(buf: Seq<u8>) -> Option<InterfaceView> {
    match take_interface(buf) {
        Some((v, rest)) => if rest.len() == 0 {
            Some(v)
        } else {
            None
        },
        None => None,
    }
}

/// Reading the encoding of an interface record yields the record back.
pub proof fn lemma_take_interface(v: InterfaceView, rest: Seq<u8>)
    ensures
        take_interface(interface_bytes(v) + rest) == Some((v, rest)),
{
    let buf = interface_bytes(v) + rest;
    let t4 = u32_field(v.veth_pair.1) + rest;
    let t3 = u32_field(v.veth_pair.0) + t4;
    let t2 = opt_mac_field(v.mac_addr) + t3;
    let t1 = id_field(v.network) + t2;
    assert(buf[0] == INTERFACE_VERSION);
    assert(buf.skip(1) =~= id_field(v.id) + t1);
    lemma_take_id(v.id, t1);
    lemma_take_id(v.network, t2);
    lemma_take_opt_mac(v.mac_addr, t3);
    lemma_take_u32(v.veth_pair.0, t4);
    lemma_take_u32(v.veth_pair.1, rest);
}

/// Serialization round trip: decoding the encoding of an interface record
/// yields an equal record.
pub proof fn lemma_interface_round_trip(v: InterfaceView)
    ensures
        spec_decode_interface(interface_bytes(v)) == Some(v),
{
    lemma_take_interface(v, Seq::empty());
    assert(interface_bytes(v) + Seq::<u8>::empty() =~= interface_bytes(v));
}

/// What an interface read from the store denotes.
pub open spec fn spec_get_interface(cat: Seq<EntryV>, id: u128)
    -> Option<InterfaceView> {
    match find_value(cat, Kind::Interface, id) {
        Some(bytes) => spec_decode_interface(bytes),
        None => None,
    }
}

/// The host-local base name of an interface's links: the first eight
/// hexadecimal digits of its identifier.
pub open spec fn link_base_chars(id: u128) -> Seq<char> {
    hex32_chars(id).take(8)
}

impl Interface {
    /// Records an interface on a network, after the host has made its
    /// veth pair with the given link indices. The network's cached
    /// interface list is updated first, then the interface is committed.
    pub fn new(network: &mut Network, link1: u32, link2: u32, store: &mut Catalog)
        -> (r: Interface)
        requires
            old(network)@.wf(),
            old(network)@.interfaces.len() + 1 < 0x100000000,
        ensures
            r@.network == old(network)@.id,
            r@.mac_addr is None,
            r@.veth_pair == (link1, link2),
            final(network)@ == old(network)@.with_interface(r@.id),
            final(store)@ == spec_insert(
                spec_insert(old(store)@, Kind::Network, old(network)@.id,
                    network_bytes(old(network)@.with_interface(r@.id))),
                Kind::Interface, r@.id, interface_bytes(r@)),
    {
        let id = fresh_id();
        let interface = Interface {
            id,
            network: network.get_id(),
            mac_addr: None,
            veth_pair: (link1, link2),
        };
        network.add_interface(id, store);
        let bytes = interface.encode();
        store.insert(Kind::Interface, interface.id, bytes);
        interface
    }

    /// The interface's identifier.
    pub fn get_id(&self) -> (r: u128)
        ensures
            r == self@.id,
    {
        self.id
    }

    /// The identifier of the owning network.
    pub fn get_network_id(&self) -> (r: u128)
        ensures
            r == self@.network,
    {
        self.network
    }

    /// The owning network's record.
    pub fn get_network(&self, store: &Catalog) -> (r: Option<Network>)
        ensures
            match r {
                Some(n) => spec_get_network(store@, self@.network) == Some(n@),
                None => spec_get_network(store@, self@.network) is None,
            },
    {
        Network::get(self.network, store)
    }

    /// The link indices of the interface's veth pair.
    pub fn get_veth_pair(&self) -> (r: (u32, u32))
        ensures
            r == self@.veth_pair,
    {
        self.veth_pair
    }

    /// The names the host gives the two ends of the veth pair: the link
    /// base name with `-1` and `-2` appended.
    pub fn link_names(id: u128) -> (r: (String, String))
        ensures
            r.0@ == link_base_chars(id) + "-1"@,
            r.1@ == link_base_chars(id) + "-2"@,
    {
        let text = format_id(id);
        let base = text.as_str().substring_char(0, 8);
        proof {
            assert(uuid_chars(id).subrange(0, 8) =~= hex32_chars(id).subrange(0, 8));
            assert(hex32_chars(id).subrange(0, 8) =~= link_base_chars(id));
        }
        let mut first = base.to_owned();
        first.append("-1");
        let mut second = base.to_owned();
        second.append("-2");
        proof {
            reveal_strlit("-1");
            reveal_strlit("-2");
            assert(first@ =~= link_base_chars(id) + "-1"@);
            assert(second@ =~= link_base_chars(id) + "-2"@);
        }
        (first, second)
    }

    /// Encodes the record for the store.
    pub fn encode(&self) -> (r: Vec<u8>)
        ensures
            r@ == interface_bytes(self@),
    {
        let mut out: Vec<u8> = Vec::new();
        out.push(INTERFACE_VERSION);
        enc_id(&mut out, self.id);
        enc_id(&mut out, self.network);
        enc_opt_mac(&mut out, &self.mac_addr);
        enc_u32(&mut out, self.veth_pair.0);
        enc_u32(&mut out, self.veth_pair.1);
        proof {
            assert(out@ =~= interface_bytes(self@));
        }
        out
    }

    /// Decodes a record; returns `None` on any text that is not exactly
    /// the encoding of one interface record.
    pub fn decode(buf: &Vec<u8>) -> (r: Option<Interface>)
        ensures
            match r {
                Some(v) => spec_decode_interface(buf@) == Some(v@),
                None => spec_decode_interface(buf@) is None,
            },
    {
        if buf.len() < 1 {
            return None;
        }
        if buf[0] != INTERFACE_VERSION {
            proof {
                assert(buf@[0] != INTERFACE_VERSION);
            }
            return None;
        }
        let r1 = dec_id(buf, 1);
        let (id, p1) = match r1 {
            Some(x) => x,
            None => {
                return None;
            }
        };
        let r2 = dec_id(buf, p1);
        let (network, p2) = match r2 {
            Some(x) => x,
            None => {
                return None;
            }
        };
        let r3 = dec_opt_mac(buf, p2);
        let (mac_addr, p3) = match r3 {
            Some(x) => x,
            None => {
                return None;
            }
        };
        let r4 = dec_u32(buf, p3);
        let (v0, p4) = match r4 {
            Some(x) => x,
            None => {
                return None;
            }
        };
        let r5 = dec_u32(buf, p4);
        let (v1, p5) = match r5 {
            Some(x) => x,
            None => {
                return None;
            }
        };
        if p5 != buf.len() {
            proof {
                assert(buf@.skip(p5 as int).len() > 0);
            }
            return None;
        }
        proof {
            assert(buf@.skip(p5 as int).len() == 0);
        }
        Some(Interface { id, network, mac_addr, veth_pair: (v0, v1) })
    }

    /// Reads one interface record by identifier.
    pub fn get(id: u128, store: &Catalog) -> (r: Option<Interface>)
        ensures
            match r {
                Some(v) => spec_get_interface(store@, id) == Some(v@),
                None => spec_get_interface(store@, id) is None,
            },
    {
        match store.get(Kind::Interface, id) {
            Some(bytes) => Interface::decode(bytes),
            None => None,
        }
    }

    /// Lists every interface's identifier, in store order.
    pub fn list(store: &Catalog) -> (r: Vec<u128>)
        ensures
            r@ == ids_of(store@, Kind::Interface),
    {
        store.list_ids(Kind::Interface)
    }

    /// Deletes an interface record, updating its network's cached list,
    /// and hands back the link indices the host must delete. A missing or
    /// unreadable record leaves the store unchanged.
    pub fn delete_by_id(id: u128, store: &mut Catalog) -> (r: Option<(u32, u32)>)
        ensures
            final(store)@ == spec_interface_delete(old(store)@, id),
            match r {
                Some(pair) => spec_get_interface(old(store)@, id) matches Some(v)
                    && v.veth_pair == pair,
                None => spec_get_interface(old(store)@, id) is None,
            },
    {
        let interface = match Interface::get(id, store) {
            Some(v) => v,
            None => {
                return None;
            }
        };
        match Network::get(interface.network, store) {
            Some(mut network) => {
                network.remove_interface(id, store);
            }
            None => {}
        }
        store.remove(Kind::Interface, id);
        Some(interface.veth_pair)
    }
}

/// The store after one interface deletion: the owning network's cached
/// list, when the network record reads back, loses the interface, and the
/// interface's record is removed; an absent or unreadable interface
/// leaves the store unchanged.
pub open spec fn spec_interface_delete(cat: Seq<EntryV>, id: u128) -> Seq<EntryV> {
    match spec_get_interface(cat, id) {
        Some(v) => {
            let after_net = match spec_get_network(cat, v.network) {
                Some(n) => spec_insert(cat, Kind::Network, n.id,
                    network_bytes(n.without_interface(id))),
                None => cat,
            };
            spec_remove(after_net, Kind::Interface, id)
        }
        None => cat,
    }
}

} // verus!
