//! The switch effector: bridges, ports and interfaces in the host's
//! software switch, driven over a JSON-RPC transaction protocol on a
//! unix-domain stream.
//!
//! The protocol state, the request texts and the framing of replies are
//! verified here; the stream itself is the host's.

pub mod bridge;
pub mod interface;
pub mod port;
pub mod request;
pub mod response;

use vstd::prelude::*;
use crate::ovs::request::{Method, Request};

verus! {

/// One switch connection's protocol state: the database name, the socket
/// path, and the strictly increasing message identifier. The stream the
/// requests travel on is held by the host beside this state.
pub struct Ovs {
    socket: String,
    db: String,
    msg_id: i32,
}

/// The specification-level value of a connection's protocol state.
pub ghost struct OvsView {
    pub socket: Seq<char>,
    pub db: Seq<char>,
    pub msg_id: i32,
}

impl View for Ovs {
    type V = OvsView;

    closed spec fn view(&self) -> OvsView {
        OvsView {
            socket: self.socket@,
            db: self.db@,
            msg_id: self.msg_id,
        }
    }
}

impl Ovs {
    /// The default connection state: the system switch database over its
    /// usual socket, first message identifier zero.
    pub fn new() -> (r: Ovs)
        ensures
            r@.socket == "/var/run/openvswitch/db.sock"@,
            r@.db == "Open_vSwitch"@,
            r@.msg_id == 0,
    {
        Ovs {
            socket: String::from_str("/var/run/openvswitch/db.sock"),
            db: String::from_str("Open_vSwitch"),
            msg_id: 0,
        }
    }

    /// The database requests are addressed to.
    pub fn get_db(&self) -> (r: &String)
        ensures
            r@ == self@.db,
    {
        &self.db
    }

    /// Chooses the database.
    pub fn db(self, db: String) -> (r: Ovs)
        ensures
            r@ == (OvsView { db: db@, ..self@ }),
    {
        Ovs { db, ..self }
    }

    /// The socket path the host dials.
    pub fn get_socket(&self) -> (r: &String)
        ensures
            r@ == self@.socket,
    {
        &self.socket
    }

    /// Chooses the socket path.
    pub fn socket(self, socket: String) -> (r: Ovs)
        ensures
            r@ == (OvsView { socket: socket@, ..self@ }),
    {
        Ovs { socket, ..self }
    }

    /// The identifier the next request will carry.
    pub fn next_msg_id(&self) -> (r: i32)
        ensures
            r == self@.msg_id,
    {
        self.msg_id
    }

    /// Accounts for one sent request: identifiers strictly increase, and
    /// on overflow wrap to zero, as the protocol allows any identifier.
    pub fn advance_msg_id(&mut self)
        ensures
            final(self)@ == (OvsView {
                msg_id: if old(self)@.msg_id == i32::MAX {
                    0i32
                } else {
                    (old(self)@.msg_id + 1) as i32
                },
                ..old(self)@
            }),
    {
        if self.msg_id == i32::MAX {
            self.msg_id = 0;
        } else {
            self.msg_id = self.msg_id + 1;
        }
    }

    /// Begins a request carrying the next message identifier; a transact
    /// request is addressed to this connection's database.
    pub fn request(&self, method: Method) -> (r: Request)
        ensures
            r@.method == method,
            r@.msg_id == self@.msg_id,
            r@.params == match method {
                Method::Transact => seq![crate::ovs::request::ParamV::Db(self@.db)],
                _ => Seq::<crate::ovs::request::ParamV>::empty(),
            },
    {
        Request::new(method, self)
    }
}

/// Whether `buf` starts with one complete JSON document: scanning from the
/// first byte, every brace and bracket outside a string literal is
/// balanced and the nesting returns to zero. Returns the document's length
/// in bytes. The reply reader appends bytes from the stream until this
/// succeeds.
pub open spec fn spec_frame_end(buf: Seq<u8>, i: int, depth: int, in_str: bool,
    escaped: bool) -> Option<int>
    decreases buf.len() - i,
{
    if i < 0 || i >= buf.len() {
        None
    } else {
        let b = buf[i];
        if in_str {
            if escaped {
                spec_frame_end(buf, i + 1, depth, true, false)
            } else if b == 92u8 {
                spec_frame_end(buf, i + 1, depth, true, true)
            } else if b == 34u8 {
                spec_frame_end(buf, i + 1, depth, false, false)
            } else {
                spec_frame_end(buf, i + 1, depth, true, false)
            }
        } else if b == 34u8 {
            spec_frame_end(buf, i + 1, depth, true, false)
        } else if b == 123u8 || b == 91u8 {
            spec_frame_end(buf, i + 1, depth + 1, false, false)
        } else if b == 125u8 || b == 93u8 {
            if depth == 1 {
                Some(i + 1)
            } else if depth <= 0 {
                None
            } else {
                spec_frame_end(buf, i + 1, depth - 1, false, false)
            }
        } else {
            spec_frame_end(buf, i + 1, depth, false, false)
        }
    }
}

/// Finds the end of the first complete JSON document in the buffer, if
/// the bytes read so far already hold one.
pub fn frame_end(buf: &Vec<u8>) -> (r: Option<usize>)
    ensures
        match r {
            Some(end) => spec_frame_end(buf@, 0, 0, false, false) == Some(end as int),
            None => spec_frame_end(buf@, 0, 0, false, false) is None,
        },
{
    let n = buf.len();
    let mut i: usize = 0;
    let mut depth: usize = 0;
    let mut in_str = false;
    let mut escaped = false;
    while i < n
        invariant
            n == buf@.len(),
            i <= n,
            depth <= i,
            !in_str ==> !escaped,
            spec_frame_end(buf@, 0, 0, false, false)
                == spec_frame_end(buf@, i as int, depth as int, in_str, escaped),
        decreases n - i,
    {
        let b = buf[i];
        if in_str {
            if escaped {
                escaped = false;
            } else if b == 92 {
                escaped = true;
            } else if b == 34 {
                in_str = false;
            }
        } else if b == 34 {
            in_str = true;
        } else if b == 123 || b == 91 {
            depth = depth + 1;
        } else if b == 125 || b == 93 {
            if depth == 1 {
                return Some(i + 1);
            } else if depth == 0 {
                return None;
            } else {
                depth = depth - 1;
            }
        }
        i = i + 1;
    }
    None
}

} // verus!
