//! Interfaces of the switch database.

use vstd::prelude::*;
use crate::ovs::request::Object;

verus! {

/// An interface row: a name, a type attribute, and the identifier the
/// switch assigned once the row exists.
#[derive(Debug)]
pub struct Interface {
    uuid: Option<String>,
    name: String,
    iface_type: String,
}

impl Interface {
    /// An interface that is not yet in the database.
    pub fn new(name: String, iface_type: String) -> (r: Interface)
        ensures
            r.name_spec() == name@,
            r.type_spec() == iface_type@,
            r.uuid_spec() is None,
    {
        Interface { name, iface_type, uuid: None }
    }

    /// The interface's type attribute.
    pub closed spec fn type_spec(&self) -> Seq<char> {
        self.iface_type@
    }

    /// The interface's type attribute, for the row it is inserted with.
    pub fn get_type(&self) -> (r: String)
        ensures
            r@ == self.type_spec(),
    {
        self.iface_type.clone()
    }
}

impl Object for Interface {
    closed spec fn table_spec(&self) -> Seq<char> {
        "Interface"@
    }

    closed spec fn name_spec(&self) -> Seq<char> {
        self.name@
    }

    closed spec fn uuid_spec(&self) -> Option<Seq<char>> {
        match self.uuid {
            Some(u) => Some(u@),
            None => None,
        }
    }

    fn get_table(&self) -> (r: String)
    {
        String::from_str("Interface")
    }

    fn get_name(&self) -> (r: String)
    {
        self.name.clone()
    }

    fn get_uuid(&self) -> (r: Option<String>)
    {
        match &self.uuid {
            Some(u) => Some(u.clone()),
            None => None,
        }
    }

    fn set_uuid(&mut self, uuid: String)
    {
        self.uuid = Some(uuid);
    }
}

} // verus!
