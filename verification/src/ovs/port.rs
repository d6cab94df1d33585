//! Ports of the switch database.

use vstd::prelude::*;
use crate::ovs::request::Object;
use crate::ovs::interface::Interface;

verus! {

/// A port row: a name, the bridge it belongs to, the interfaces inserted
/// with it, and the identifier the switch assigned once the row exists.
#[derive(Debug)]
pub struct Port {
    uuid: Option<String>,
    bridge_name: String,
    name: String,
    interfaces: Vec<Interface>,
}

impl Port {
    /// A port that is not yet in the database, carrying the one internal
    /// interface of the same name that its insert will create.
    pub fn new(name: String, bridge_name: String) -> (r: Port)
        ensures
            r.name_spec() == name@,
            r.bridge_spec() == bridge_name@,
            r.uuid_spec() is None,
    {
        let iface = Interface::new(name.clone(), String::from_str("internal"));
        let mut interfaces: Vec<Interface> = Vec::new();
        interfaces.push(iface);
        Port { name, bridge_name, interfaces, uuid: None }
    }

    /// The bridge the port belongs to.
    pub closed spec fn bridge_spec(&self) -> Seq<char> {
        self.bridge_name@
    }

    /// The name of the bridge the port belongs to.
    pub fn get_bridge_name(&self) -> (r: String)
        ensures
            r@ == self.bridge_spec(),
    {
        self.bridge_name.clone()
    }
}

impl Object for Port {
    closed spec fn table_spec(&self) -> Seq<char> {
        "Port"@
    }

    closed spec fn name_spec(&self) -> Seq<char> {
        self.name@
    }

    closed spec fn uuid_spec(&self) -> Option<Seq<char>> {
        match self.uuid {
            Some(u) => Some(u@),
            None => None,
        }
    }

    fn get_table(&self) -> (r: String)
    {
        String::from_str("Port")
    }

    fn get_name(&self) -> (r: String)
    {
        self.name.clone()
    }

    fn get_uuid(&self) -> (r: Option<String>)
    {
        match &self.uuid {
            Some(u) => Some(u.clone()),
            None => None,
        }
    }

    fn set_uuid(&mut self, uuid: String)
    {
        self.uuid = Some(uuid);
    }
}

} // verus!
