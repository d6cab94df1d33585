//! Bridges of the switch database.

use vstd::prelude::*;
use crate::ovs::request::Object;
use crate::strutil::str_eq;

verus! {

/// A bridge row: a name, and the identifier the switch assigned once the
/// row exists.
#[derive(Debug)]
pub struct Bridge {
    uuid: Option<String>,
    name: String,
}

impl Bridge {
    /// A bridge that is not yet in the database.
    pub fn new(name: String) -> (r: Bridge)
        ensures
            r.name_spec() == name@,
            r.uuid_spec() is None,
    {
        Bridge { name, uuid: None }
    }

    /// A bridge read back from the database, with its identifier.
    pub fn with_uuid(name: String, uuid: String) -> (r: Bridge)
        ensures
            r.name_spec() == name@,
            r.uuid_spec() == Some(uuid@),
    {
        Bridge { name, uuid: Some(uuid) }
    }
}

impl Object for Bridge {
    closed spec fn table_spec(&self) -> Seq<char> {
        "Bridge"@
    }

    closed spec fn name_spec(&self) -> Seq<char> {
        self.name@
    }

    closed spec fn uuid_spec(&self) -> Option<Seq<char>> {
        match self.uuid {
            Some(u) => Some(u@),
            None => None,
        }
    }

    fn get_table(&self) -> (r: String)
    {
        String::from_str("Bridge")
    }

    fn get_name(&self) -> (r: String)
    {
        self.name.clone()
    }

    fn get_uuid(&self) -> (r: Option<String>)
    {
        match &self.uuid {
            Some(u) => Some(u.clone()),
            None => None,
        }
    }

    fn set_uuid(&mut self, uuid: String)
    {
        self.uuid = Some(uuid);
    }
}

/// The first bridge in a listing with the given name, as a select over
/// the bridge table resolves a name.
pub fn find_bridge<'a>(bridges: &'a Vec<Bridge>, name: &str) -> (r: Option<&'a Bridge>)
    ensures
        match r {
            Some(b) => b.name_spec() == name@
                && exists|i: int| 0 <= i < bridges@.len()
                    && (#[trigger] bridges@[i]).name_spec() == name@,
            None => forall|i: int| 0 <= i < bridges@.len()
                ==> (#[trigger] bridges@[i]).name_spec() != name@,
        },
{
    let n = bridges.len();
    let mut i: usize = 0;
    while i < n
        invariant
            n == bridges@.len(),
            i <= n,
            forall|j: int| 0 <= j < i ==> (#[trigger] bridges@[j]).name_spec() != name@,
        decreases n - i,
    {
        let bname = bridges[i].get_name();
        if str_eq(bname.as_str(), name) {
            return Some(&bridges[i]);
        }
        i = i + 1;
    }
    None
}

} // verus!
