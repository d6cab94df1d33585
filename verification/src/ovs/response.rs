//! Switch transaction replies.
//!
//! A reply carries the identifier of the request it answers, one result
//! entry per operation in request order, and a nullable error. The
//! decisions the effector takes on a reply are verified here: which entry
//! shapes are accepted, and what is read out of them.

use vstd::prelude::*;
use crate::error::VirtusError;
use crate::ovs::bridge::Bridge;
use crate::ovs::request::Object;

verus! {

/// One row of a select result: its name and its (tag, identifier) pair.
#[derive(Debug)]
pub struct Row {
    pub name: String,
    pub uuid: (String, String),
}

/// The specification-level value of a result row.
pub ghost struct RowV {
    pub name: Seq<char>,
    pub uuid: (Seq<char>, Seq<char>),
}

impl View for Row {
    type V = RowV;

    open spec fn view(&self) -> RowV {
        RowV { name: self.name@, uuid: (self.uuid.0@, self.uuid.1@) }
    }
}

/// One result entry: a database name, a rows array, or the (tag,
/// identifier) pair of a newly created record.
#[derive(Debug)]
pub enum Entry {
    Db(String),
    Rows { rows: Vec<Row> },
    Uuid { uuid: Option<(String, String)> },
}

/// The specification-level value of a result entry.
pub ghost enum EntryV {
    Db(Seq<char>),
    Rows { rows: Seq<RowV> },
    Uuid { uuid: Option<(Seq<char>, Seq<char>)> },
}

impl View for Entry {
    type V = EntryV;

    open spec fn view(&self) -> EntryV {
        match self {
            Entry::Db(s) => EntryV::Db(s@),
            Entry::Rows { rows } => EntryV::Rows {
                rows: rows@.map_values(|r: Row| r@),
            },
            Entry::Uuid { uuid } => EntryV::Uuid {
                uuid: match uuid {
                    Some(p) => Some((p.0@, p.1@)),
                    None => None,
                },
            },
        }
    }
}

/// A transaction reply.
#[derive(Debug)]
pub struct Response {
    pub id: i32,
    pub result: Vec<Entry>,
    pub error: Option<String>,
}

/// The result entry of the old single-shot reader: just the optional
/// (tag, identifier) pair of a created record.
#[derive(Debug)]
pub struct OvsResultEntry {
    pub uuid: Option<(String, String)>,
}

impl Response {
    /// Reads the identifier of the record a create transaction made: the
    /// first result entry must be a (tag, identifier) pair, and carry
    /// one; any other shape is a database error.
    pub fn created_uuid(&self) -> (r: Result<String, VirtusError>)
        ensures
            match r {
                Ok(u) => self.result@.len() > 0
                    && (self.result@[0]@ matches EntryV::Uuid { uuid: Some(p) }
                        && p.1 == u@),
                Err(e) => e == VirtusError::DbError
                    && (self.result@.len() == 0
                        || !(self.result@[0]@ matches EntryV::Uuid {
                            uuid: Some(_) })),
            },
    {
        if self.result.len() == 0 {
            return Err(VirtusError::DbError);
        }
        match &self.result[0] {
            Entry::Uuid { uuid } => match uuid {
                Some(p) => Ok(p.1.clone()),
                None => Err(VirtusError::DbError),
            },
            _ => Err(VirtusError::DbError),
        }
    }

    /// Reads the bridges a select returned: the first result entry must
    /// be a rows array; each row becomes a bridge carrying its name and
    /// identifier. Any other shape is a database error.
    pub fn bridges(&self) -> (r: Result<Vec<Bridge>, VirtusError>)
        ensures
            match r {
                Ok(bs) => self.result@.len() > 0
                    && (self.result@[0]@ matches EntryV::Rows { rows }
                        && bs@.len() == rows.len()
                        && forall|i: int| 0 <= i < rows.len()
                            ==> (#[trigger] bs@[i]).name_spec() == rows[i].name
                                && bs@[i].uuid_spec() == Some(rows[i].uuid.1)),
                Err(e) => e == VirtusError::DbError
                    && (self.result@.len() == 0
                        || !(self.result@[0]@ matches EntryV::Rows { rows: _ })),
            },
    {
        if self.result.len() == 0 {
            return Err(VirtusError::DbError);
        }
        match &self.result[0] {
            Entry::Rows { rows } => {
                let ghost rowsv = rows@.map_values(|r: Row| r@);
                let mut bs: Vec<Bridge> = Vec::new();
                let mut i: usize = 0;
                while i < rows.len()
                    invariant
                        i <= rows@.len(),
                        rowsv == rows@.map_values(|r: Row| r@),
                        bs@.len() == i,
                        forall|j: int| 0 <= j < i
                            ==> (#[trigger] bs@[j]).name_spec() == rowsv[j].name
                                && bs@[j].uuid_spec() == Some(rowsv[j].uuid.1),
                    decreases rows@.len() - i,
                {
                    let b = Bridge::with_uuid(rows[i].name.clone(),
                        rows[i].uuid.1.clone());
                    bs.push(b);
                    i = i + 1;
                }
                Ok(bs)
            }
            _ => Err(VirtusError::DbError),
        }
    }
}

} // verus!
