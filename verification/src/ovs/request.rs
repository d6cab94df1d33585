//! Switch transaction requests.
//!
//! A request carries a method, a message identifier and an ordered list
//! of parameters: for a transaction, the database name followed by the
//! operations. Inserting a port implicitly inserts an interface of the
//! same name and appends the new port to the integration bridge's port
//! set; deletes emit the inverse operations. The exact wire text of a
//! request is specified and proved here, byte for byte.

use vstd::prelude::*;
use crate::strutil::{dec_chars, u64_to_string, push_char};
use crate::ovs::Ovs;

verus! {

/// The protocol methods the effector uses.
#[derive(Clone, Copy, PartialEq, Eq, Structural, Debug)]
pub enum Method {
    ListDbs,
    GetSchema,
    Transact,
}

/// The wire name of a method.
pub open spec fn method_chars(m: Method) -> Seq<char> {
    match m {
        Method::ListDbs => "list_dbs"@,
        Method::GetSchema => "get_schema"@,
        Method::Transact => "transact"@,
    }
}

/// One mutation: a column, a mutator, and a (tag, value) pair.
pub type Mutation = (String, String, (String, String));

/// The specification-level value of a mutation.
pub type MutationV = (Seq<char>, Seq<char>, (Seq<char>, Seq<char>));

pub open spec fn mutation_view(m: Mutation) -> MutationV {
    (m.0@, m.1@, (m.2.0@, m.2.1@))
}

/// One condition of a `where` clause: either a column compared to a
/// (tag, value) pair, or a column compared to a plain value.
pub enum OpCondition {
    Nested((String, String, (String, String))),
    Flat((String, String, String)),
}

/// The specification-level value of a condition.
pub ghost enum OpConditionV {
    Nested((Seq<char>, Seq<char>, (Seq<char>, Seq<char>))),
    Flat((Seq<char>, Seq<char>, Seq<char>)),
}

impl View for OpCondition {
    type V = OpConditionV;

    open spec fn view(&self) -> OpConditionV {
        match self {
            OpCondition::Nested(t) => OpConditionV::Nested((t.0@, t.1@, (t.2.0@, t.2.1@))),
            OpCondition::Flat(t) => OpConditionV::Flat((t.0@, t.1@, t.2@)),
        }
    }
}

/// The row an insert writes: a name, optionally a reference to the
/// interface inserted alongside, optionally an interface type.
pub struct Row {
    pub name: String,
    pub interfaces: Option<(String, String)>,
    pub row_type: Option<String>,
}

/// The specification-level value of a row.
pub ghost struct RowV {
    pub name: Seq<char>,
    pub interfaces: Option<(Seq<char>, Seq<char>)>,
    pub row_type: Option<Seq<char>>,
}

impl View for Row {
    type V = RowV;

    open spec fn view(&self) -> RowV {
        RowV {
            name: self.name@,
            interfaces: match &self.interfaces {
                Some(p) => Some((p.0@, p.1@)),
                None => None,
            },
            row_type: match &self.row_type {
                Some(t) => Some(t@),
                None => None,
            },
        }
    }
}

/// One operation of a transaction.
pub struct Op {
    pub op: String,
    pub table: String,
    pub where_clause: Option<Vec<OpCondition>>,
    pub row: Option<Row>,
    pub uuid_name: Option<String>,
    pub mutations: Option<Vec<Mutation>>,
}

/// The specification-level value of an operation.
pub ghost struct OpV {
    pub op: Seq<char>,
    pub table: Seq<char>,
    pub where_clause: Option<Seq<OpConditionV>>,
    pub row: Option<RowV>,
    pub uuid_name: Option<Seq<char>>,
    pub mutations: Option<Seq<MutationV>>,
}

impl View for Op {
    type V = OpV;

    open spec fn view(&self) -> OpV {
        OpV {
            op: self.op@,
            table: self.table@,
            where_clause: match &self.where_clause {
                Some(cs) => Some(cs@.map_values(|c: OpCondition| c@)),
                None => None,
            },
            row: match &self.row {
                Some(r) => Some(r@),
                None => None,
            },
            uuid_name: match &self.uuid_name {
                Some(u) => Some(u@),
                None => None,
            },
            mutations: match &self.mutations {
                Some(ms) => Some(ms@.map_values(|m: Mutation| mutation_view(m))),
                None => None,
            },
        }
    }
}

/// One request parameter: the database name, or an operation.
pub enum Param {
    Db(String),
    Op(Op),
}

/// The specification-level value of a parameter.
pub ghost enum ParamV {
    Db(Seq<char>),
    Op(OpV),
}

impl View for Param {
    type V = ParamV;

    open spec fn view(&self) -> ParamV {
        match self {
            Param::Db(s) => ParamV::Db(s@),
            Param::Op(o) => ParamV::Op(o@),
        }
    }
}

/// A request to the switch database.
pub struct Request {
    method: Method,
    msg_id: i32,
    params: Vec<Param>,
}

/// The specification-level value of a request.
pub ghost struct RequestV {
    pub method: Method,
    pub msg_id: i32,
    pub params: Seq<ParamV>,
}

impl View for Request {
    type V = RequestV;

    closed spec fn view(&self) -> RequestV {
        RequestV {
            method: self.method,
            msg_id: self.msg_id,
            params: self.params@.map_values(|p: Param| p@),
        }
    }
}

/// The select operation on a table, matching every row.
pub open spec fn select_op(table: Seq<char>) -> OpV {
    OpV {
        op: "select"@,
        table,
        where_clause: Some(Seq::<OpConditionV>::empty()),
        row: None,
        uuid_name: None,
        mutations: None,
    }
}

/// The two operations inserting a bridge: the bridge row under a named
/// placeholder, and the root table mutation that adopts it.
pub open spec fn bridge_insert_ops(table: Seq<char>, name: Seq<char>) -> Seq<ParamV> {
    seq![
        ParamV::Op(OpV {
            op: "insert"@,
            table,
            where_clause: None,
            row: Some(RowV { name, interfaces: None, row_type: None }),
            uuid_name: Some("new_bridge"@),
            mutations: None,
        }),
        ParamV::Op(OpV {
            op: "mutate"@,
            table: "Open_vSwitch"@,
            where_clause: Some(Seq::<OpConditionV>::empty()),
            row: None,
            uuid_name: None,
            mutations: Some(seq![
                ("bridges"@, "insert"@, ("named-uuid"@, "new_bridge"@)),
            ]),
        }),
    ]
}

/// The three operations inserting a port: the port row referencing a new
/// interface, the interface row of the same name, and the integration
/// bridge mutation that adopts the port.
pub open spec fn port_insert_ops(table: Seq<char>, name: Seq<char>) -> Seq<ParamV> {
    seq![
        ParamV::Op(OpV {
            op: "insert"@,
            table,
            where_clause: None,
            row: Some(RowV {
                name,
                interfaces: Some(("named-uuid"@, "new_interface"@)),
                row_type: None,
            }),
            uuid_name: Some("new_port"@),
            mutations: None,
        }),
        ParamV::Op(OpV {
            op: "insert"@,
            table: "Interface"@,
            where_clause: None,
            row: Some(RowV { name, interfaces: None, row_type: Some("internal"@) }),
            uuid_name: Some("new_interface"@),
            mutations: None,
        }),
        ParamV::Op(OpV {
            op: "mutate"@,
            table: "Bridge"@,
            where_clause: Some(seq![
                OpConditionV::Flat(("name"@, "=="@, "virtus-int"@)),
            ]),
            row: None,
            uuid_name: None,
            mutations: Some(seq![
                ("ports"@, "insert"@, ("named-uuid"@, "new_port"@)),
            ]),
        }),
    ]
}

/// The single operation inserting any other record.
pub open spec fn generic_insert_op(table: Seq<char>, name: Seq<char>) -> OpV {
    OpV {
        op: "insert"@,
        table,
        where_clause: None,
        row: Some(RowV { name, interfaces: None, row_type: None }),
        uuid_name: None,
        mutations: None,
    }
}

/// The two operations deleting a bridge: the row by identifier, and the
/// root table mutation that disowns it.
pub open spec fn bridge_delete_ops(table: Seq<char>, uuid: Seq<char>) -> Seq<ParamV> {
    seq![
        ParamV::Op(OpV {
            op: "delete"@,
            table,
            where_clause: Some(seq![
                OpConditionV::Nested(("_uuid"@, "=="@, ("uuid"@, uuid))),
            ]),
            row: None,
            uuid_name: None,
            mutations: None,
        }),
        ParamV::Op(OpV {
            op: "mutate"@,
            table: "Open_vSwitch"@,
            where_clause: Some(Seq::<OpConditionV>::empty()),
            row: None,
            uuid_name: None,
            mutations: Some(seq![
                ("bridges"@, "delete"@, ("uuid"@, uuid)),
            ]),
        }),
    ]
}

/// The three operations deleting a port: the integration bridge mutation
/// that drops it, the interface of the same name, and the port row.
pub open spec fn port_delete_ops(table: Seq<char>, name: Seq<char>, uuid: Seq<char>)
    -> Seq<ParamV> {
    seq![
        ParamV::Op(OpV {
            op: "mutate"@,
            table: "Bridge"@,
            where_clause: Some(seq![
                OpConditionV::Flat(("name"@, "=="@, "virtus-int"@)),
            ]),
            row: None,
            uuid_name: None,
            mutations: Some(seq![
                ("ports"@, "delete"@, ("uuid"@, uuid)),
            ]),
        }),
        ParamV::Op(OpV {
            op: "delete"@,
            table: "Interface"@,
            where_clause: Some(seq![
                OpConditionV::Flat(("name"@, "=="@, name)),
            ]),
            row: None,
            uuid_name: None,
            mutations: None,
        }),
        ParamV::Op(OpV {
            op: "delete"@,
            table,
            where_clause: Some(seq![
                OpConditionV::Nested(("_uuid"@, "=="@, ("uuid"@, uuid))),
            ]),
            row: None,
            uuid_name: None,
            mutations: None,
        }),
    ]
}

/// The single operation deleting any other record by identifier.
pub open spec fn generic_delete_op(table: Seq<char>, uuid: Seq<char>) -> OpV {
    OpV {
        op: "delete"@,
        table,
        where_clause: Some(seq![
            OpConditionV::Nested(("_uuid"@, "=="@, ("uuid"@, uuid))),
        ]),
        row: None,
        uuid_name: None,
        mutations: None,
    }
}

/// A record the effector can insert into or delete from the switch
/// database: it names its table, its row name, and, once created, its
/// identifier.
pub trait Object {
    /// The table the record lives in.
    spec fn table_spec(&self) -> Seq<char>;

    /// The record's row name.
    spec fn name_spec(&self) -> Seq<char>;

    /// The record's identifier, once the switch has assigned one.
    spec fn uuid_spec(&self) -> Option<Seq<char>>;

    fn get_table(&self) -> (r: String)
        ensures
            r@ == self.table_spec(),
    ;

    fn get_name(&self) -> (r: String)
        ensures
            r@ == self.name_spec(),
    ;

    fn get_uuid(&self) -> (r: Option<String>)
        ensures
            match r {
                Some(u) => self.uuid_spec() == Some(u@),
                None => self.uuid_spec() is None,
            },
    ;

    fn set_uuid(&mut self, uuid: String)
        ensures
            final(self).uuid_spec() == Some(uuid@),
            final(self).table_spec() == old(self).table_spec(),
            final(self).name_spec() == old(self).name_spec(),
    ;
}

impl Request {
    /// Begins a request: a transact request opens with the database name,
    /// any other with no parameters.
    pub fn new(method: Method, ovs: &Ovs) -> (r: Request)
        ensures
            r@.method == method,
            r@.msg_id == ovs@.msg_id,
            r@.params == match method {
                Method::Transact => seq![ParamV::Db(ovs@.db)],
                _ => Seq::<ParamV>::empty(),
            },
    {
        let mut params: Vec<Param> = Vec::new();
        match method {
            Method::Transact => {
                params.push(Param::Db(ovs.get_db().clone()));
            }
            _ => {}
        }
        let r = Request { method, msg_id: ovs.next_msg_id(), params };
        proof {
            match method {
                Method::Transact => {
                    assert(r@.params =~= seq![ParamV::Db(ovs@.db)]);
                }
                _ => {
                    assert(r@.params =~= Seq::<ParamV>::empty());
                }
            }
        }
        r
    }

    /// The request's message identifier.
    pub fn get_msg_id(&self) -> (r: i32)
        ensures
            r == self@.msg_id,
    {
        self.msg_id
    }

    /// Appends a select of every row of a table.
    pub fn select(self, table: String) -> (r: Request)
        ensures
            r@.method == self@.method,
            r@.msg_id == self@.msg_id,
            r@.params == self@.params.push(ParamV::Op(select_op(table@))),
    {
        let ghost t = table@;
        let mut this = self;
        let conditions: Vec<OpCondition> = Vec::new();
        let op = Op {
            op: String::from_str("select"),
            table,
            where_clause: Some(conditions),
            row: None,
            uuid_name: None,
            mutations: None,
        };
        proof {
            assert(op@.where_clause == Some(Seq::<OpConditionV>::empty())) by {
                assert(conditions@.map_values(|c: OpCondition| c@)
                    =~= Seq::<OpConditionV>::empty());
            }
            assert(op@ == select_op(t));
        }
        this.params.push(Param::Op(op));
        proof {
            assert(this@.params =~= self@.params.push(ParamV::Op(select_op(t))));
        }
        this
    }

    /// Appends the insert of a record. A bridge insert also mutates the
    /// root table to adopt it; a port insert also inserts the interface of
    /// the same name and appends the port to the integration bridge.
    pub fn insert<T: Object>(self, obj: &T) -> (r: Request)
        ensures
            r@.method == self@.method,
            r@.msg_id == self@.msg_id,
            r@.params == if obj.table_spec() == "Bridge"@ {
                self@.params + bridge_insert_ops(obj.table_spec(), obj.name_spec())
            } else if obj.table_spec() == "Port"@ {
                self@.params + port_insert_ops(obj.table_spec(), obj.name_spec())
            } else {
                self@.params.push(ParamV::Op(generic_insert_op(obj.table_spec(),
                    obj.name_spec())))
            },
    {
        let mut this = self;
        let table = obj.get_table();
        if crate::strutil::str_eq(table.as_str(), "Bridge") {
            let ghost target = bridge_insert_ops(obj.table_spec(), obj.name_spec());
            let op1 = Op {
                op: String::from_str("insert"),
                table: obj.get_table(),
                where_clause: None,
                row: Some(Row {
                    name: obj.get_name(),
                    interfaces: None,
                    row_type: None,
                }),
                uuid_name: Some(String::from_str("new_bridge")),
                mutations: None,
            };
            proof {
                assert(op1@ == target[0]->Op_0);
            }
            this.params.push(Param::Op(op1));
            let conditions: Vec<OpCondition> = Vec::new();
            let mut mutations: Vec<Mutation> = Vec::new();
            mutations.push((String::from_str("bridges"), String::from_str("insert"),
                (String::from_str("named-uuid"), String::from_str("new_bridge"))));
            proof {
                assert(conditions@.map_values(|c: OpCondition| c@)
                    =~= Seq::<OpConditionV>::empty());
                assert(mutations@.map_values(|m: Mutation| mutation_view(m))
                    =~= seq![("bridges"@, "insert"@, ("named-uuid"@, "new_bridge"@))]);
            }
            let op2 = Op {
                op: String::from_str("mutate"),
                table: String::from_str("Open_vSwitch"),
                where_clause: Some(conditions),
                row: None,
                uuid_name: None,
                mutations: Some(mutations),
            };
            proof {
                assert(op2@ == target[1]->Op_0);
            }
            this.params.push(Param::Op(op2));
            proof {
                assert(this@.params =~= self@.params + target);
            }
        } else if crate::strutil::str_eq(table.as_str(), "Port") {
            let ghost target = port_insert_ops(obj.table_spec(), obj.name_spec());
            let op1 = Op {
                op: String::from_str("insert"),
                table: obj.get_table(),
                where_clause: None,
                row: Some(Row {
                    name: obj.get_name(),
                    interfaces: Some((String::from_str("named-uuid"),
                        String::from_str("new_interface"))),
                    row_type: None,
                }),
                uuid_name: Some(String::from_str("new_port")),
                mutations: None,
            };
            proof {
                assert(op1@ == target[0]->Op_0);
            }
            this.params.push(Param::Op(op1));
            let op2 = Op {
                op: String::from_str("insert"),
                table: String::from_str("Interface"),
                where_clause: None,
                row: Some(Row {
                    name: obj.get_name(),
                    interfaces: None,
                    row_type: Some(String::from_str("internal")),
                }),
                uuid_name: Some(String::from_str("new_interface")),
                mutations: None,
            };
            proof {
                assert(op2@ == target[1]->Op_0);
            }
            this.params.push(Param::Op(op2));
            let mut conditions: Vec<OpCondition> = Vec::new();
            conditions.push(OpCondition::Flat((String::from_str("name"),
                String::from_str("=="), String::from_str("virtus-int"))));
            let mut mutations: Vec<Mutation> = Vec::new();
            mutations.push((String::from_str("ports"), String::from_str("insert"),
                (String::from_str("named-uuid"), String::from_str("new_port"))));
            proof {
                assert(conditions@.map_values(|c: OpCondition| c@)
                    =~= seq![OpConditionV::Flat(("name"@, "=="@, "virtus-int"@))]);
                assert(mutations@.map_values(|m: Mutation| mutation_view(m))
                    =~= seq![("ports"@, "insert"@, ("named-uuid"@, "new_port"@))]);
            }
            let op3 = Op {
                op: String::from_str("mutate"),
                table: String::from_str("Bridge"),
                where_clause: Some(conditions),
                row: None,
                uuid_name: None,
                mutations: Some(mutations),
            };
            proof {
                assert(op3@ == target[2]->Op_0);
            }
            this.params.push(Param::Op(op3));
            proof {
                assert(this@.params =~= self@.params + target);
            }
        } else {
            let op1 = Op {
                op: String::from_str("insert"),
                table: obj.get_table(),
                where_clause: None,
                row: Some(Row {
                    name: obj.get_name(),
                    interfaces: None,
                    row_type: None,
                }),
                uuid_name: None,
                mutations: None,
            };
            proof {
                assert(op1@ == generic_insert_op(obj.table_spec(), obj.name_spec()));
            }
            this.params.push(Param::Op(op1));
            proof {
                assert(this@.params =~= self@.params.push(ParamV::Op(
                    generic_insert_op(obj.table_spec(), obj.name_spec()))));
            }
        }
        this
    }

    /// Appends the delete of a record by its identifier. A bridge delete
    /// also mutates the root table to disown it; a port delete also drops
    /// the port from the integration bridge and deletes the interface of
    /// the same name.
    pub fn delete<T: Object>(self, obj: &T) -> (r: Request)
        requires
            obj.uuid_spec() is Some,
        ensures
            r@.method == self@.method,
            r@.msg_id == self@.msg_id,
            r@.params == if obj.table_spec() == "Bridge"@ {
                self@.params + bridge_delete_ops(obj.table_spec(),
                    obj.uuid_spec()->Some_0)
            } else if obj.table_spec() == "Port"@ {
                self@.params + port_delete_ops(obj.table_spec(), obj.name_spec(),
                    obj.uuid_spec()->Some_0)
            } else {
                self@.params.push(ParamV::Op(generic_delete_op(obj.table_spec(),
                    obj.uuid_spec()->Some_0)))
            },
    {
        let mut this = self;
        let table = obj.get_table();
        let uuid = match obj.get_uuid() {
            Some(u) => u,
            None => vstd::pervasive::unreached(),
        };
        if crate::strutil::str_eq(table.as_str(), "Bridge") {
            let ghost target = bridge_delete_ops(obj.table_spec(),
                obj.uuid_spec()->Some_0);
            let mut conditions: Vec<OpCondition> = Vec::new();
            conditions.push(OpCondition::Nested((String::from_str("_uuid"),
                String::from_str("=="), (String::from_str("uuid"), uuid.clone()))));
            proof {
                assert(conditions@.map_values(|c: OpCondition| c@)
                    =~= seq![OpConditionV::Nested(("_uuid"@, "=="@,
                        ("uuid"@, obj.uuid_spec()->Some_0)))]);
            }
            let op1 = Op {
                op: String::from_str("delete"),
                table: obj.get_table(),
                where_clause: Some(conditions),
                row: None,
                uuid_name: None,
                mutations: None,
            };
            proof {
                assert(op1@ == target[0]->Op_0);
            }
            this.params.push(Param::Op(op1));
            let conditions2: Vec<OpCondition> = Vec::new();
            let mut mutations: Vec<Mutation> = Vec::new();
            mutations.push((String::from_str("bridges"), String::from_str("delete"),
                (String::from_str("uuid"), uuid.clone())));
            proof {
                assert(conditions2@.map_values(|c: OpCondition| c@)
                    =~= Seq::<OpConditionV>::empty());
                assert(mutations@.map_values(|m: Mutation| mutation_view(m))
                    =~= seq![("bridges"@, "delete"@,
                        ("uuid"@, obj.uuid_spec()->Some_0))]);
            }
            let op2 = Op {
                op: String::from_str("mutate"),
                table: String::from_str("Open_vSwitch"),
                where_clause: Some(conditions2),
                row: None,
                uuid_name: None,
                mutations: Some(mutations),
            };
            proof {
                assert(op2@ == target[1]->Op_0);
            }
            this.params.push(Param::Op(op2));
            proof {
                assert(this@.params =~= self@.params + target);
            }
        } else if crate::strutil::str_eq(table.as_str(), "Port") {
            let ghost target = port_delete_ops(obj.table_spec(), obj.name_spec(),
                obj.uuid_spec()->Some_0);
            let mut conditions: Vec<OpCondition> = Vec::new();
            conditions.push(OpCondition::Flat((String::from_str("name"),
                String::from_str("=="), String::from_str("virtus-int"))));
            let mut mutations: Vec<Mutation> = Vec::new();
            mutations.push((String::from_str("ports"), String::from_str("delete"),
                (String::from_str("uuid"), uuid.clone())));
            proof {
                assert(conditions@.map_values(|c: OpCondition| c@)
                    =~= seq![OpConditionV::Flat(("name"@, "=="@, "virtus-int"@))]);
                assert(mutations@.map_values(|m: Mutation| mutation_view(m))
                    =~= seq![("ports"@, "delete"@, ("uuid"@, obj.uuid_spec()->Some_0))]);
            }
            let op1 = Op {
                op: String::from_str("mutate"),
                table: String::from_str("Bridge"),
                where_clause: Some(conditions),
                row: None,
                uuid_name: None,
                mutations: Some(mutations),
            };
            proof {
                assert(op1@ == target[0]->Op_0);
            }
            this.params.push(Param::Op(op1));
            let mut conditions2: Vec<OpCondition> = Vec::new();
            conditions2.push(OpCondition::Flat((String::from_str("name"),
                String::from_str("=="), obj.get_name())));
            proof {
                assert(conditions2@.map_values(|c: OpCondition| c@)
                    =~= seq![OpConditionV::Flat(("name"@, "=="@, obj.name_spec()))]);
            }
            let op2 = Op {
                op: String::from_str("delete"),
                table: String::from_str("Interface"),
                where_clause: Some(conditions2),
                row: None,
                uuid_name: None,
                mutations: None,
            };
            proof {
                assert(op2@ == target[1]->Op_0);
            }
            this.params.push(Param::Op(op2));
            let mut conditions3: Vec<OpCondition> = Vec::new();
            conditions3.push(OpCondition::Nested((String::from_str("_uuid"),
                String::from_str("=="), (String::from_str("uuid"), uuid.clone()))));
            proof {
                assert(conditions3@.map_values(|c: OpCondition| c@)
                    =~= seq![OpConditionV::Nested(("_uuid"@, "=="@,
                        ("uuid"@, obj.uuid_spec()->Some_0)))]);
            }
            let op3 = Op {
                op: String::from_str("delete"),
                table: obj.get_table(),
                where_clause: Some(conditions3),
                row: None,
                uuid_name: None,
                mutations: None,
            };
            proof {
                assert(op3@ == target[2]->Op_0);
            }
            this.params.push(Param::Op(op3));
            proof {
                assert(this@.params =~= self@.params + target);
            }
        } else {
            let mut conditions: Vec<OpCondition> = Vec::new();
            conditions.push(OpCondition::Nested((String::from_str("_uuid"),
                String::from_str("=="), (String::from_str("uuid"), uuid.clone()))));
            proof {
                assert(conditions@.map_values(|c: OpCondition| c@)
                    =~= seq![OpConditionV::Nested(("_uuid"@, "=="@,
                        ("uuid"@, obj.uuid_spec()->Some_0)))]);
            }
            let op1 = Op {
                op: String::from_str("delete"),
                table: obj.get_table(),
                where_clause: Some(conditions),
                row: None,
                uuid_name: None,
                mutations: None,
            };
            proof {
                assert(op1@ == generic_delete_op(obj.table_spec(),
                    obj.uuid_spec()->Some_0));
            }
            this.params.push(Param::Op(op1));
            proof {
                assert(this@.params =~= self@.params.push(ParamV::Op(
                    generic_delete_op(obj.table_spec(), obj.uuid_spec()->Some_0))));
            }
        }
        this
    }
}

/// The escape of one character in a JSON string literal: quote and
/// backslash are escaped, every other character stands for itself.
pub open spec fn json_escape_char(c: char) -> Seq<char> {
    if c == '"' {
        seq!['\\', '"']
    } else if c == '\\' {
        seq!['\\', '\\']
    } else {
        seq![c]
    }
}

/// The escape of a text for a JSON string literal.
pub open spec fn json_escaped(s: Seq<char>) -> Seq<char>
    decreases s.len(),
{
    if s.len() == 0 {
        Seq::empty()
    } else {
        json_escape_char(s[0]) + json_escaped(s.drop_first())
    }
}

pub proof fn lemma_json_escaped_push(s: Seq<char>, c: char)
    ensures
        json_escaped(s.push(c)) == json_escaped(s) + json_escape_char(c),
    decreases s.len(),
{
    if s.len() == 0 {
        assert(s.push(c)[0] == c);
        assert(s.push(c).drop_first() =~= Seq::<char>::empty());
        assert(json_escaped(s.push(c).drop_first()) =~= Seq::<char>::empty());
        assert(json_escaped(s.push(c)) =~= json_escaped(s) + json_escape_char(c));
    } else {
        assert(s.push(c)[0] == s[0]);
        assert(s.push(c).drop_first() =~= s.drop_first().push(c));
        lemma_json_escaped_push(s.drop_first(), c);
        assert(json_escaped(s.push(c)) =~= json_escaped(s) + json_escape_char(c));
    }
}

/// A JSON string literal: the escaped text between quotes.
pub open spec fn json_str(s: Seq<char>) -> Seq<char> {
    seq!['"'] + json_escaped(s) + seq!['"']
}

/// A (tag, value) pair as a two-element JSON array.
pub open spec fn pair_json(p: (Seq<char>, Seq<char>)) -> Seq<char> {
    seq!['['] + json_str(p.0) + seq![','] + json_str(p.1) + seq![']']
}

/// A condition as a three-element JSON array.
pub open spec fn cond_json(c: OpConditionV) -> Seq<char> {
    match c {
        OpConditionV::Nested((a, b, p)) => seq!['['] + json_str(a) + seq![',']
            + json_str(b) + seq![','] + pair_json(p) + seq![']'],
        OpConditionV::Flat((a, b, v)) => seq!['['] + json_str(a) + seq![',']
            + json_str(b) + seq![','] + json_str(v) + seq![']'],
    }
}

/// A mutation as a three-element JSON array.
pub open spec fn mutation_json(m: MutationV) -> Seq<char> {
    seq!['['] + json_str(m.0) + seq![','] + json_str(m.1) + seq![','] + pair_json(m.2)
        + seq![']']
}

/// Texts joined by commas.
pub open spec fn join_comma(parts: Seq<Seq<char>>) -> Seq<char>
    decreases parts.len(),
{
    if parts.len() == 0 {
        Seq::empty()
    } else if parts.len() == 1 {
        parts[0]
    } else {
        join_comma(parts.drop_last()) + seq![','] + parts.last()
    }
}

pub proof fn lemma_join_comma_push(parts: Seq<Seq<char>>, x: Seq<char>)
    ensures
        join_comma(parts.push(x)) == if parts.len() == 0 {
            x
        } else {
            join_comma(parts) + seq![','] + x
        },
{
    if parts.len() == 0 {
        assert(parts.push(x)[0] == x);
    } else {
        assert(parts.push(x).drop_last() =~= parts);
        assert(parts.push(x).last() == x);
    }
}

/// The row object of an insert: the name, then the optional interface
/// reference, then the optional type attribute.
pub open spec fn row_json(r: RowV) -> Seq<char> {
    "{\"name\":"@ + json_str(r.name) + (match r.interfaces {
        Some(p) => ",\"interfaces\":"@ + pair_json(p),
        None => Seq::<char>::empty(),
    }) + (match r.row_type {
        Some(t) => ",\"type\":"@ + json_str(t),
        None => Seq::<char>::empty(),
    }) + seq!['}']
}

/// The `where` section of an operation object, empty when absent.
pub open spec fn where_section(w: Option<Seq<OpConditionV>>) -> Seq<char> {
    match w {
        Some(cs) => ",\"where\":["@
            + join_comma(cs.map_values(|c: OpConditionV| cond_json(c))) + seq![']'],
        None => Seq::<char>::empty(),
    }
}

/// The `row` section of an operation object, empty when absent.
pub open spec fn row_section(r: Option<RowV>) -> Seq<char> {
    match r {
        Some(rv) => ",\"row\":"@ + row_json(rv),
        None => Seq::<char>::empty(),
    }
}

/// The `uuid-name` section of an operation object, empty when absent.
pub open spec fn uuid_name_section(u: Option<Seq<char>>) -> Seq<char> {
    match u {
        Some(uv) => ",\"uuid-name\":"@ + json_str(uv),
        None => Seq::<char>::empty(),
    }
}

/// The `mutations` section of an operation object, empty when absent.
pub open spec fn mutations_section(m: Option<Seq<MutationV>>) -> Seq<char> {
    match m {
        Some(ms) => ",\"mutations\":["@
            + join_comma(ms.map_values(|mv: MutationV| mutation_json(mv))) + seq![']'],
        None => Seq::<char>::empty(),
    }
}

/// One operation as a JSON object, fields in declaration order, absent
/// options omitted.
pub open spec fn op_json(o: OpV) -> Seq<char> {
    "{\"op\":"@ + json_str(o.op) + ",\"table\":"@ + json_str(o.table)
        + where_section(o.where_clause) + row_section(o.row)
        + uuid_name_section(o.uuid_name) + mutations_section(o.mutations) + seq!['}']
}

/// One parameter: the database name as a string, or an operation object.
pub open spec fn param_json(p: ParamV) -> Seq<char> {
    match p {
        ParamV::Db(s) => json_str(s),
        ParamV::Op(o) => op_json(o),
    }
}

/// The whole request: method, identifier and parameter array.
pub open spec fn request_json(v: RequestV) -> Seq<char> {
    "{\"method\":"@ + json_str(method_chars(v.method)) + ",\"id\":"@
        + dec_chars(v.msg_id as int) + ",\"params\":["@
        + join_comma(v.params.map_values(|p: ParamV| param_json(p))) + "]}"@
}

/// Appends a JSON string literal.
fn append_json_str(out: &mut String, s: &str)
    ensures
        final(out)@ == old(out)@ + json_str(s@),
{
    push_char(out, '"');
    let n = s.unicode_len();
    let mut i: usize = 0;
    proof {
        assert(s@.take(0) =~= Seq::<char>::empty());
        assert(out@ =~= old(out)@ + seq!['"'] + json_escaped(s@.take(0)));
    }
    while i < n
        invariant
            n == s@.len(),
            i <= n,
            out@ == old(out)@ + seq!['"'] + json_escaped(s@.take(i as int)),
        decreases n - i,
    {
        let c = s.get_char(i);
        proof {
            lemma_json_escaped_push(s@.take(i as int), c);
            assert(s@.take(i + 1) =~= s@.take(i as int).push(c));
        }
        if c == '"' {
            push_char(out, '\\');
            push_char(out, '"');
        } else if c == '\\' {
            push_char(out, '\\');
            push_char(out, '\\');
        } else {
            push_char(out, c);
        }
        i = i + 1;
        proof {
            assert(out@ =~= old(out)@ + seq!['"'] + json_escaped(s@.take(i as int)));
        }
    }
    push_char(out, '"');
    proof {
        assert(s@.take(n as int) =~= s@);
        assert(out@ =~= old(out)@ + json_str(s@));
    }
}

/// Appends a (tag, value) pair.
fn append_pair(out: &mut String, p: &(String, String))
    ensures
        final(out)@ == old(out)@ + pair_json((p.0@, p.1@)),
{
    push_char(out, '[');
    append_json_str(out, p.0.as_str());
    push_char(out, ',');
    append_json_str(out, p.1.as_str());
    push_char(out, ']');
    proof {
        assert(out@ =~= old(out)@ + pair_json((p.0@, p.1@)));
    }
}

/// Appends a condition.
fn append_cond(out: &mut String, c: &OpCondition)
    ensures
        final(out)@ == old(out)@ + cond_json(c@),
{
    match c {
        OpCondition::Nested(t) => {
            push_char(out, '[');
            append_json_str(out, t.0.as_str());
            push_char(out, ',');
            append_json_str(out, t.1.as_str());
            push_char(out, ',');
            append_pair(out, &t.2);
            push_char(out, ']');
        }
        OpCondition::Flat(t) => {
            push_char(out, '[');
            append_json_str(out, t.0.as_str());
            push_char(out, ',');
            append_json_str(out, t.1.as_str());
            push_char(out, ',');
            append_json_str(out, t.2.as_str());
            push_char(out, ']');
        }
    }
    proof {
        assert(out@ =~= old(out)@ + cond_json(c@));
    }
}

/// Appends a mutation.
fn append_mutation(out: &mut String, m: &Mutation)
    ensures
        final(out)@ == old(out)@ + mutation_json(mutation_view(*m)),
{
    push_char(out, '[');
    append_json_str(out, m.0.as_str());
    push_char(out, ',');
    append_json_str(out, m.1.as_str());
    push_char(out, ',');
    append_pair(out, &m.2);
    push_char(out, ']');
    proof {
        assert(out@ =~= old(out)@ + mutation_json(mutation_view(*m)));
    }
}

/// Appends a row object.
fn append_row(out: &mut String, r: &Row)
    ensures
        final(out)@ == old(out)@ + row_json(r@),
{
    out.append("{\"name\":");
    append_json_str(out, r.name.as_str());
    match &r.interfaces {
        Some(p) => {
            out.append(",\"interfaces\":");
            append_pair(out, p);
        }
        None => {}
    }
    match &r.row_type {
        Some(t) => {
            out.append(",\"type\":");
            append_json_str(out, t.as_str());
        }
        None => {}
    }
    push_char(out, '}');
    proof {
        assert(out@ =~= old(out)@ + row_json(r@));
    }
}

/// Appends the comma-joined conditions of a where clause.
fn append_conds(out: &mut String, cs: &Vec<OpCondition>)
    ensures
        final(out)@ == old(out)@ + join_comma(cs@.map_values(|c: OpCondition| c@)
            .map_values(|cv: OpConditionV| cond_json(cv))),
{
    let ghost parts = cs@.map_values(|c: OpCondition| c@)
        .map_values(|cv: OpConditionV| cond_json(cv));
    let mut i: usize = 0;
    proof {
        assert(parts.take(0) =~= Seq::<Seq<char>>::empty());
        assert(out@ =~= old(out)@ + join_comma(parts.take(0)));
    }
    while i < cs.len()
        invariant
            i <= cs@.len(),
            parts == cs@.map_values(|c: OpCondition| c@)
                .map_values(|cv: OpConditionV| cond_json(cv)),
            parts.len() == cs@.len(),
            out@ == old(out)@ + join_comma(parts.take(i as int)),
        decreases cs@.len() - i,
    {
        proof {
            lemma_join_comma_push(parts.take(i as int), parts[i as int]);
            assert(parts.take(i + 1) =~= parts.take(i as int).push(parts[i as int]));
        }
        if i > 0 {
            push_char(out, ',');
        }
        append_cond(out, &cs[i]);
        i = i + 1;
        proof {
            assert(out@ =~= old(out)@ + join_comma(parts.take(i as int)));
        }
    }
    proof {
        assert(parts.take(cs@.len() as int) =~= parts);
    }
}

/// Appends the comma-joined mutations of a mutate operation.
fn append_mutations(out: &mut String, ms: &Vec<Mutation>)
    ensures
        final(out)@ == old(out)@ + join_comma(ms@.map_values(|m: Mutation|
            mutation_view(m)).map_values(|mv: MutationV| mutation_json(mv))),
{
    let ghost parts = ms@.map_values(|m: Mutation| mutation_view(m))
        .map_values(|mv: MutationV| mutation_json(mv));
    let mut i: usize = 0;
    proof {
        assert(parts.take(0) =~= Seq::<Seq<char>>::empty());
        assert(out@ =~= old(out)@ + join_comma(parts.take(0)));
    }
    while i < ms.len()
        invariant
            i <= ms@.len(),
            parts == ms@.map_values(|m: Mutation| mutation_view(m))
                .map_values(|mv: MutationV| mutation_json(mv)),
            parts.len() == ms@.len(),
            out@ == old(out)@ + join_comma(parts.take(i as int)),
        decreases ms@.len() - i,
    {
        proof {
            lemma_join_comma_push(parts.take(i as int), parts[i as int]);
            assert(parts.take(i + 1) =~= parts.take(i as int).push(parts[i as int]));
        }
        if i > 0 {
            push_char(out, ',');
        }
        append_mutation(out, &ms[i]);
        i = i + 1;
        proof {
            assert(out@ =~= old(out)@ + join_comma(parts.take(i as int)));
        }
    }
    proof {
        assert(parts.take(ms@.len() as int) =~= parts);
    }
}

/// Appends an operation object.
#[verifier::rlimit(100)]
fn append_op(out: &mut String, o: &Op)
    ensures
        final(out)@ == old(out)@ + op_json(o@),
{
    out.append("{\"op\":");
    append_json_str(out, o.op.as_str());
    out.append(",\"table\":");
    append_json_str(out, o.table.as_str());
    let ghost g1 = out@;
    proof {
        assert(g1 =~= old(out)@ + ("{\"op\":"@ + json_str(o@.op)
            + ",\"table\":"@ + json_str(o@.table)));
    }
    match &o.where_clause {
        Some(cs) => {
            out.append(",\"where\":[");
            append_conds(out, cs);
            push_char(out, ']');
        }
        None => {}
    }
    let ghost g2 = out@;
    proof {
        assert(g2 =~= g1 + where_section(o@.where_clause));
    }
    match &o.row {
        Some(r) => {
            out.append(",\"row\":");
            append_row(out, r);
        }
        None => {}
    }
    let ghost g3 = out@;
    proof {
        assert(g3 =~= g2 + row_section(o@.row));
    }
    match &o.uuid_name {
        Some(u) => {
            out.append(",\"uuid-name\":");
            append_json_str(out, u.as_str());
        }
        None => {}
    }
    let ghost g4 = out@;
    proof {
        assert(g4 =~= g3 + uuid_name_section(o@.uuid_name));
    }
    match &o.mutations {
        Some(ms) => {
            out.append(",\"mutations\":[");
            append_mutations(out, ms);
            push_char(out, ']');
        }
        None => {}
    }
    let ghost g5 = out@;
    proof {
        assert(g5 =~= g4 + mutations_section(o@.mutations));
    }
    push_char(out, '}');
    proof {
        assert(out@ =~= old(out)@ + op_json(o@));
    }
}

impl Request {
    /// The exact wire text of the request: one JSON object, no
    /// whitespace, parameters in order.
    pub fn to_json(&self) -> (r: String)
        requires
            self@.msg_id >= 0,
        ensures
            r@ == request_json(self@),
    {
        let mut out = String::from_str("{\"method\":");
        let method_text = match self.method {
            Method::ListDbs => "list_dbs",
            Method::GetSchema => "get_schema",
            Method::Transact => "transact",
        };
        proof {
            assert(method_text@ == method_chars(self@.method));
        }
        append_json_str(&mut out, method_text);
        out.append(",\"id\":");
        let id_text = u64_to_string(self.msg_id as u64);
        out.append(id_text.as_str());
        out.append(",\"params\":[");
        let ghost parts = self@.params.map_values(|p: ParamV| param_json(p));
        let ghost mark = out@;
        let mut i: usize = 0;
        proof {
            assert(parts.take(0) =~= Seq::<Seq<char>>::empty());
            assert(out@ =~= mark + join_comma(parts.take(0)));
        }
        while i < self.params.len()
            invariant
                i <= self.params@.len(),
                parts == self@.params.map_values(|p: ParamV| param_json(p)),
                parts.len() == self.params@.len(),
                out@ == mark + join_comma(parts.take(i as int)),
            decreases self.params@.len() - i,
        {
            proof {
                lemma_join_comma_push(parts.take(i as int), parts[i as int]);
                assert(parts.take(i + 1) =~= parts.take(i as int).push(parts[i as int]));
            }
            if i > 0 {
                push_char(&mut out, ',');
            }
            match &self.params[i] {
                Param::Db(s) => {
                    append_json_str(&mut out, s.as_str());
                }
                Param::Op(o) => {
                    append_op(&mut out, o);
                }
            }
            i = i + 1;
            proof {
                assert(out@ =~= mark + join_comma(parts.take(i as int)));
            }
        }
        out.append("]}");
        proof {
            assert(parts.take(self.params@.len() as int) =~= parts);
            assert(out@ =~= request_json(self@));
        }
        out
    }
}

} // verus!
