//! Plain network addresses.
//!
//! A node's control address is an IPv4 address held as four octets; its
//! text form is the usual dotted decimal.

use vstd::prelude::*;
use crate::strutil::{dec_chars, u64_to_string, push_char};

verus! {

/// An IPv4 address as four octets.
#[derive(Clone, Copy, PartialEq, Eq, Structural, Debug, Hash)]
pub struct Ipv4 {
    pub a: u8,
    pub b: u8,
    pub c: u8,
    pub d: u8,
}

/// The dotted decimal text of an address.
pub open spec fn ipv4_chars(ip: Ipv4) -> Seq<char> {
    dec_chars(ip.a as int) + seq!['.'] + dec_chars(ip.b as int) + seq!['.']
        + dec_chars(ip.c as int) + seq!['.'] + dec_chars(ip.d as int)
}

impl Ipv4 {
    /// Builds an address from its four octets.
    pub fn new(a: u8, b: u8, c: u8, d: u8) -> (r: Ipv4)
        ensures
            r == (Ipv4 { a, b, c, d }),
    {
        Ipv4 { a, b, c, d }
    }

    /// Formats the address in dotted decimal.
    pub fn to_text(&self) -> (r: String)
        ensures
            r@ == ipv4_chars(*self),
    {
        let mut r = u64_to_string(self.a as u64);
        push_char(&mut r, '.');
        let bs = u64_to_string(self.b as u64);
        r.append(bs.as_str());
        push_char(&mut r, '.');
        let cs = u64_to_string(self.c as u64);
        r.append(cs.as_str());
        push_char(&mut r, '.');
        let ds = u64_to_string(self.d as u64);
        r.append(ds.as_str());
        proof {
            assert(r@ =~= ipv4_chars(*self));
        }
        r
    }
}

} // verus!
