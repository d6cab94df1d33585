//! The replicated catalog: a typed key/value facade over the local applied
//! state of the consensus log.
//!
//! Keys pair an entity kind with a 128-bit identifier; on the wire a key is
//! the text `<kind>/<id>`. Values are encoded records. Writes go through the
//! consensus leader and arrive here in log order; reads are local. The model
//! is an association list in arrival order; every mutation has an exact
//! structural contract, so two replicas that apply the same log end in the
//! same state.

use vstd::prelude::*;
use crate::ids::{uuid_chars, format_id};

verus! {

/// The kinds of entity the catalog stores, one key prefix each.
#[derive(Clone, Copy, PartialEq, Eq, Structural, Debug, Hash)]
pub enum Kind {
    Node,
    Pool,
    Disk,
    Network,
    Vm,
    Image,
    Interface,
}

/// The key prefix of a kind, including the trailing separator.
pub open spec fn kind_prefix(k: Kind) -> Seq<char> {
    match k {
        Kind::Node => "nodes/"@,
        Kind::Pool => "pools/"@,
        Kind::Disk => "disks/"@,
        Kind::Network => "networks/"@,
        Kind::Vm => "vms/"@,
        Kind::Image => "images/"@,
        Kind::Interface => "interfaces/"@,
    }
}

/// The text of a catalog key: the kind prefix followed by the identifier.
pub open spec fn key_chars(k: Kind, id: u128) -> Seq<char> {
    kind_prefix(k) + uuid_chars(id)
}

/// Formats a catalog key.
pub fn key_for(k: Kind, id: u128) -> (r: String)
    ensures
        r@ == key_chars(k, id),
{
    let mut r = String::new();
    match k {
        Kind::Node => r.append("nodes/"),
        Kind::Pool => r.append("pools/"),
        Kind::Disk => r.append("disks/"),
        Kind::Network => r.append("networks/"),
        Kind::Vm => r.append("vms/"),
        Kind::Image => r.append("images/"),
        Kind::Interface => r.append("interfaces/"),
    }
    let id_text = format_id(id);
    r.append(id_text.as_str());
    proof {
        assert(r@ =~= key_chars(k, id));
    }
    r
}

/// One committed catalog record, at the specification level.
pub ghost struct EntryV {
    pub kind: Kind,
    pub id: u128,
    pub value: Seq<u8>,
}

/// One committed catalog record.
pub struct Entry {
    pub kind: Kind,
    pub id: u128,
    pub value: Vec<u8>,
}

impl View for Entry {
    type V = EntryV;

    open spec fn view(&self) -> EntryV {
        EntryV { kind: self.kind, id: self.id, value: self.value@ }
    }
}

/// Whether an entry carries the given key.
pub open spec fn matches_key(e: EntryV, kind: Kind, id: u128) -> bool {
    e.kind == kind && e.id == id
}

/// The value stored under a key, scanning in arrival order.
pub open spec fn find_value(s: Seq<EntryV>, kind: Kind, id: u128) -> Option<Seq<u8>>
    decreases s.len(),
{
    if s.len() == 0 {
        None
    } else if matches_key(s[0], kind, id) {
        Some(s[0].value)
    } else {
        find_value(s.drop_first(), kind, id)
    }
}

/// Whether a key is present.
pub open spec fn has_key(s: Seq<EntryV>, kind: Kind, id: u128) -> bool
    decreases s.len(),
{
    if s.len() == 0 {
        false
    } else {
        matches_key(s[0], kind, id) || has_key(s.drop_first(), kind, id)
    }
}

/// The identifiers of all records of a kind, in arrival order.
pub open spec fn ids_of(s: Seq<EntryV>, kind: Kind) -> Seq<u128>
    decreases s.len(),
{
    if s.len() == 0 {
        Seq::empty()
    } else if s[0].kind == kind {
        seq![s[0].id] + ids_of(s.drop_first(), kind)
    } else {
        ids_of(s.drop_first(), kind)
    }
}

/// The state after writing `value` under a key: the entry is replaced in
/// place when the key is present and appended otherwise.
pub open spec fn spec_insert(s: Seq<EntryV>, kind: Kind, id: u128, value: Seq<u8>)
    -> Seq<EntryV>
    decreases s.len(),
{
    if s.len() == 0 {
        seq![EntryV { kind, id, value }]
    } else if matches_key(s[0], kind, id) {
        seq![EntryV { kind, id, value }] + s.drop_first()
    } else {
        seq![s[0]] + spec_insert(s.drop_first(), kind, id, value)
    }
}

/// The local applied state of the catalog.
pub struct Catalog {
    entries: Vec<Entry>,
}

impl View for Catalog {
    type V = Seq<EntryV>;

    closed spec fn view(&self) -> Seq<EntryV> {
        self.entries@.map_values(|e: Entry| e@)
    }
}

impl Catalog {
    /// An empty catalog, the applied state before any log entry.
    pub fn new() -> (r: Catalog)
        ensures
            r@ == Seq::<EntryV>::empty(),
    {
        let r = Catalog { entries: Vec::new() };
        proof {
            assert(r@ =~= Seq::<EntryV>::empty());
        }
        r
    }

    /// Writes a value under a key; an existing record is overwritten.
    pub fn insert(&mut self, kind: Kind, id: u128, value: Vec<u8>)
        ensures
            final(self)@ == spec_insert(old(self)@, kind, id, value@),
    {
        let n = self.entries.len();
        let mut i: usize = 0;
        while i < n
            invariant
                n == self.entries@.len(),
                i <= n,
                self@ == old(self)@,
                forall|j: int| 0 <= j < i ==> !matches_key(self@[j], kind, id),
            decreases n - i,
        {
            let hit = {
                let e = &self.entries[i];
                e.kind == kind && e.id == id
            };
            if hit {
                self.entries[i] = Entry { kind, id, value };
                proof {
                    assert(self@ =~= old(self)@.update(i as int,
                        EntryV { kind, id, value: value@ }));
                    lemma_insert_found(old(self)@, kind, id, value@, i as int);
                }
                return;
            }
            i = i + 1;
        }
        self.entries.push(Entry { kind, id, value });
        proof {
            assert(self@ =~= old(self)@.push(EntryV { kind, id, value: value@ }));
            lemma_insert_absent(old(self)@, kind, id, value@);
        }
    }

    /// Reads the value stored under a key from the local applied state.
    pub fn get(&self, kind: Kind, id: u128) -> (r: Option<&Vec<u8>>)
        ensures
            match r {
                Some(v) => find_value(self@, kind, id) == Some(v@),
                None => find_value(self@, kind, id) is None,
            },
    {
        let n = self.entries.len();
        let mut i: usize = 0;
        proof {
            assert(self@.skip(0) =~= self@);
        }
        while i < n
            invariant
                n == self.entries@.len(),
                i <= n,
                find_value(self@, kind, id) == find_value(self@.skip(i as int), kind, id),
            decreases n - i,
        {
            let hit = {
                let e = &self.entries[i];
                e.kind == kind && e.id == id
            };
            proof {
                assert(self@.skip(i as int)[0] == self@[i as int]);
                assert(self@.skip(i as int).drop_first() =~= self@.skip(i + 1));
            }
            if hit {
                return Some(&self.entries[i].value);
            }
            i = i + 1;
        }
        proof {
            assert(self@.skip(n as int) =~= Seq::<EntryV>::empty());
        }
        None
    }

    /// Lists the identifiers of all records of a kind, in arrival order.
    pub fn list_ids(&self, kind: Kind) -> (r: Vec<u128>)
        ensures
            r@ == ids_of(self@, kind),
    {
        let n = self.entries.len();
        let mut r: Vec<u128> = Vec::new();
        let mut i: usize = 0;
        proof {
            assert(self@.skip(0) =~= self@);
            assert(r@ + ids_of(self@.skip(0), kind) =~= ids_of(self@, kind));
        }
        while i < n
            invariant
                n == self.entries@.len(),
                i <= n,
                ids_of(self@, kind) == r@ + ids_of(self@.skip(i as int), kind),
            decreases n - i,
        {
            let hit = self.entries[i].kind == kind;
            proof {
                assert(self@.skip(i as int)[0] == self@[i as int]);
                assert(self@.skip(i as int).drop_first() =~= self@.skip(i + 1));
            }
            if hit {
                r.push(self.entries[i].id);
                proof {
                    assert(ids_of(self@.skip(i as int), kind)
                        =~= seq![self@[i as int].id] + ids_of(self@.skip(i + 1), kind));
                    assert(ids_of(self@, kind) =~= r@ + ids_of(self@.skip(i + 1), kind));
                }
            }
            i = i + 1;
        }
        proof {
            assert(self@.skip(n as int) =~= Seq::<EntryV>::empty());
            assert(r@ + Seq::<u128>::empty() =~= r@);
        }
        r
    }
}

/// The stored values of all records of a kind, in arrival order.
pub open spec fn values_of(s: Seq<EntryV>, kind: Kind) -> Seq<Seq<u8>>
    decreases s.len(),
{
    if s.len() == 0 {
        Seq::empty()
    } else if s[0].kind == kind {
        seq![s[0].value] + values_of(s.drop_first(), kind)
    } else {
        values_of(s.drop_first(), kind)
    }
}

impl Catalog {
    /// Lists the stored values of all records of a kind, in arrival order.
    pub fn list_values(&self, kind: Kind) -> (r: Vec<Vec<u8>>)
        ensures
            r@.map_values(|v: Vec<u8>| v@) == values_of(self@, kind),
    {
        let n = self.entries.len();
        let mut r: Vec<Vec<u8>> = Vec::new();
        let mut i: usize = 0;
        proof {
            assert(self@.skip(0) =~= self@);
            assert(r@.map_values(|v: Vec<u8>| v@) + values_of(self@.skip(0), kind)
                =~= values_of(self@, kind));
        }
        while i < n
            invariant
                n == self.entries@.len(),
                i <= n,
                values_of(self@, kind) == r@.map_values(|v: Vec<u8>| v@)
                    + values_of(self@.skip(i as int), kind),
            decreases n - i,
        {
            let hit = self.entries[i].kind == kind;
            proof {
                assert(self@.skip(i as int)[0] == self@[i as int]);
                assert(self@.skip(i as int).drop_first() =~= self@.skip(i + 1));
            }
            if hit {
                let v = self.entries[i].value.clone();
                proof {
                    assert(v@ == self@[i as int].value);
                }
                r.push(v);
                proof {
                    assert(values_of(self@.skip(i as int), kind)
                        =~= seq![self@[i as int].value]
                            + values_of(self@.skip(i + 1), kind));
                    assert(values_of(self@, kind) =~= r@.map_values(|v2: Vec<u8>| v2@)
                        + values_of(self@.skip(i + 1), kind));
                }
            }
            i = i + 1;
        }
        proof {
            assert(self@.skip(n as int) =~= Seq::<EntryV>::empty());
            assert(r@.map_values(|v: Vec<u8>| v@) + Seq::<Seq<u8>>::empty()
                =~= r@.map_values(|v: Vec<u8>| v@));
        }
        r
    }
}

/// A write lands in one of two shapes: it replaces the first entry under
/// its key, or, when the key is absent, appends a new entry.
pub proof fn lemma_insert_shape(s: Seq<EntryV>, kind: Kind, id: u128, value: Seq<u8>)
    ensures
        (exists|i: int| 0 <= i < s.len() && matches_key(#[trigger] s[i], kind, id)
            && spec_insert(s, kind, id, value)
                == s.update(i, EntryV { kind, id, value }))
        || spec_insert(s, kind, id, value) == s.push(EntryV { kind, id, value }),
    decreases s.len(),
{
    if s.len() == 0 {
        assert(spec_insert(s, kind, id, value) =~= s.push(EntryV { kind, id, value }));
    } else if matches_key(s[0], kind, id) {
        assert(spec_insert(s, kind, id, value)
            =~= s.update(0, EntryV { kind, id, value }));
    } else {
        lemma_insert_shape(s.drop_first(), kind, id, value);
        let s2 = spec_insert(s, kind, id, value);
        if exists|i: int| 0 <= i < s.drop_first().len()
            && matches_key(#[trigger] s.drop_first()[i], kind, id)
            && spec_insert(s.drop_first(), kind, id, value)
                == s.drop_first().update(i, EntryV { kind, id, value }) {
            let i = choose|i: int| 0 <= i < s.drop_first().len()
                && matches_key(#[trigger] s.drop_first()[i], kind, id)
                && spec_insert(s.drop_first(), kind, id, value)
                    == s.drop_first().update(i, EntryV { kind, id, value });
            assert(s[i + 1] == s.drop_first()[i]);
            assert(s2 =~= s.update(i + 1, EntryV { kind, id, value }));
        } else {
            assert(s2 =~= s.push(EntryV { kind, id, value }));
        }
    }
}

/// The state after deleting a key: the first entry under it is gone; a key
/// that is absent leaves the state unchanged.
pub open spec fn spec_remove(s: Seq<EntryV>, kind: Kind, id: u128) -> Seq<EntryV>
    decreases s.len(),
{
    if s.len() == 0 {
        s
    } else if matches_key(s[0], kind, id) {
        s.drop_first()
    } else {
        seq![s[0]] + spec_remove(s.drop_first(), kind, id)
    }
}

/// Deleting a key that is not present changes nothing: the delete of an
/// already-deleted record succeeds and is a no-op.
pub proof fn lemma_remove_absent(s: Seq<EntryV>, kind: Kind, id: u128)
    requires
        !has_key(s, kind, id),
    ensures
        spec_remove(s, kind, id) == s,
    decreases s.len(),
{
    if s.len() > 0 {
        lemma_remove_absent(s.drop_first(), kind, id);
        assert(spec_remove(s, kind, id) =~= s);
    }
}

impl Catalog {
    /// Deletes the record under a key; a key that is absent is not an
    /// error, and the state is then unchanged.
    pub fn remove(&mut self, kind: Kind, id: u128)
        ensures
            final(self)@ == spec_remove(old(self)@, kind, id),
    {
        let n = self.entries.len();
        let mut i: usize = 0;
        while i < n
            invariant
                n == self.entries@.len(),
                i <= n,
                self@ == old(self)@,
                forall|j: int| 0 <= j < i ==> !matches_key(self@[j], kind, id),
            decreases n - i,
        {
            let hit = {
                let e = &self.entries[i];
                e.kind == kind && e.id == id
            };
            if hit {
                self.entries.remove(i);
                proof {
                    assert(self@ =~= old(self)@.remove(i as int));
                    lemma_remove_found(old(self)@, kind, id, i as int);
                }
                return;
            }
            i = i + 1;
        }
        proof {
            lemma_has_key_absent(self@, kind, id);
            lemma_remove_absent(self@, kind, id);
        }
    }
}

proof fn lemma_has_key_absent(s: Seq<EntryV>, kind: Kind, id: u128)
    requires
        forall|j: int| 0 <= j < s.len() ==> !matches_key(s[j], kind, id),
    ensures
        !has_key(s, kind, id),
    decreases s.len(),
{
    if s.len() > 0 {
        assert(forall|j: int| 0 <= j < s.drop_first().len()
            ==> s.drop_first()[j] == s[j + 1]);
        lemma_has_key_absent(s.drop_first(), kind, id);
    }
}

proof fn lemma_remove_found(s: Seq<EntryV>, kind: Kind, id: u128, i: int)
    requires
        0 <= i < s.len(),
        matches_key(s[i], kind, id),
        forall|j: int| 0 <= j < i ==> !matches_key(s[j], kind, id),
    ensures
        spec_remove(s, kind, id) == s.remove(i),
    decreases s.len(),
{
    if i == 0 {
        assert(spec_remove(s, kind, id) =~= s.remove(0));
    } else {
        assert(!matches_key(s[0], kind, id));
        assert(s.drop_first()[i - 1] == s[i]);
        assert(forall|j: int| 0 <= j < i - 1 ==> s.drop_first()[j] == s[j + 1]);
        lemma_remove_found(s.drop_first(), kind, id, i - 1);
        assert(spec_remove(s, kind, id) =~= s.remove(i));
    }
}

proof fn lemma_insert_found(s: Seq<EntryV>, kind: Kind, id: u128, value: Seq<u8>, i: int)
    requires
        0 <= i < s.len(),
        matches_key(s[i], kind, id),
        forall|j: int| 0 <= j < i ==> !matches_key(s[j], kind, id),
    ensures
        spec_insert(s, kind, id, value) == s.update(i, EntryV { kind, id, value }),
    decreases s.len(),
{
    if i == 0 {
        assert(spec_insert(s, kind, id, value)
            =~= s.update(0, EntryV { kind, id, value }));
    } else {
        assert(!matches_key(s[0], kind, id));
        assert(s.drop_first()[i - 1] == s[i]);
        assert(forall|j: int| 0 <= j < i - 1 ==> s.drop_first()[j] == s[j + 1]);
        lemma_insert_found(s.drop_first(), kind, id, value, i - 1);
        assert(spec_insert(s, kind, id, value)
            =~= s.update(i, EntryV { kind, id, value }));
    }
}

proof fn lemma_insert_absent(s: Seq<EntryV>, kind: Kind, id: u128, value: Seq<u8>)
    requires
        forall|j: int| 0 <= j < s.len() ==> !matches_key(s[j], kind, id),
    ensures
        spec_insert(s, kind, id, value) == s.push(EntryV { kind, id, value }),
    decreases s.len(),
{
    if s.len() == 0 {
        assert(spec_insert(s, kind, id, value) =~= s.push(EntryV { kind, id, value }));
    } else {
        assert(forall|j: int| 0 <= j < s.drop_first().len()
            ==> s.drop_first()[j] == s[j + 1]);
        lemma_insert_absent(s.drop_first(), kind, id, value);
        assert(spec_insert(s, kind, id, value) =~= s.push(EntryV { kind, id, value }));
    }
}

/// Writing a key stores its value: reading that key afterwards yields the
/// written value, and no other key changes.
pub proof fn lemma_insert_get(s: Seq<EntryV>, kind: Kind, id: u128, value: Seq<u8>,
    k2: Kind, id2: u128)
    ensures
        find_value(spec_insert(s, kind, id, value), kind, id) == Some(value),
        !(k2 == kind && id2 == id) ==> find_value(spec_insert(s, kind, id, value), k2, id2)
            == find_value(s, k2, id2),
    decreases s.len(),
{
    let s2 = spec_insert(s, kind, id, value);
    if s.len() == 0 {
        assert(s2[0] == EntryV { kind, id, value });
        assert(s2.drop_first() =~= Seq::<EntryV>::empty());
        if !(k2 == kind && id2 == id) {
            assert(find_value(s2.drop_first(), k2, id2) is None);
            assert(find_value(s2, k2, id2) is None);
        }
    } else if matches_key(s[0], kind, id) {
        assert(s2[0] == EntryV { kind, id, value });
        assert(s2.drop_first() =~= s.drop_first());
        if !(k2 == kind && id2 == id) {
            assert(!matches_key(s2[0], k2, id2));
            assert(!matches_key(s[0], k2, id2));
            assert(find_value(s2, k2, id2) == find_value(s.drop_first(), k2, id2));
        }
    } else {
        assert(s2[0] == s[0]);
        assert(s2.drop_first() =~= spec_insert(s.drop_first(), kind, id, value));
        lemma_insert_get(s.drop_first(), kind, id, value, k2, id2);
    }
}

/// Writing a fresh key appends its identifier to the listing of its kind and
/// leaves every other kind's listing unchanged; overwriting leaves all
/// listings unchanged.
pub proof fn lemma_insert_ids(s: Seq<EntryV>, kind: Kind, id: u128, value: Seq<u8>, k2: Kind)
    ensures
        ids_of(spec_insert(s, kind, id, value), k2) == if has_key(s, kind, id) {
            ids_of(s, k2)
        } else if k2 == kind {
            ids_of(s, k2).push(id)
        } else {
            ids_of(s, k2)
        },
    decreases s.len(),
{
    let s2 = spec_insert(s, kind, id, value);
    if s.len() == 0 {
        assert(s2[0] == EntryV { kind, id, value });
        assert(s2.drop_first() =~= Seq::<EntryV>::empty());
        assert(ids_of(s2.drop_first(), k2) == Seq::<u128>::empty());
        if k2 == kind {
            assert(ids_of(s2, k2) =~= ids_of(s, k2).push(id));
        } else {
            assert(ids_of(s2, k2) =~= ids_of(s, k2));
        }
    } else if matches_key(s[0], kind, id) {
        assert(s2[0] == EntryV { kind, id, value });
        assert(s2.drop_first() =~= s.drop_first());
        assert(ids_of(s2, k2) =~= ids_of(s, k2));
    } else {
        assert(s2[0] == s[0]);
        assert(s2.drop_first() =~= spec_insert(s.drop_first(), kind, id, value));
        lemma_insert_ids(s.drop_first(), kind, id, value, k2);
        if !has_key(s, kind, id) && k2 == kind {
            if s[0].kind == k2 {
                assert(ids_of(s, k2) == seq![s[0].id] + ids_of(s.drop_first(), k2));
                assert(ids_of(s2, k2) == seq![s[0].id]
                    + ids_of(s.drop_first(), k2).push(id));
                assert(ids_of(s2, k2) =~= ids_of(s, k2).push(id));
            } else {
                assert(ids_of(s2, k2) =~= ids_of(s, k2).push(id));
            }
        } else {
            assert(ids_of(s2, k2) =~= if has_key(s, kind, id) {
                ids_of(s, k2)
            } else if k2 == kind {
                ids_of(s, k2).push(id)
            } else {
                ids_of(s, k2)
            });
        }
    }
}

/// Presence after a write: the written key is present, and any other key is
/// present exactly when it was before.
pub proof fn lemma_insert_has(s: Seq<EntryV>, kind: Kind, id: u128, value: Seq<u8>,
    k2: Kind, id2: u128)
    ensures
        has_key(spec_insert(s, kind, id, value), kind, id),
        !(k2 == kind && id2 == id) ==> has_key(spec_insert(s, kind, id, value), k2, id2)
            == has_key(s, k2, id2),
    decreases s.len(),
{
    let s2 = spec_insert(s, kind, id, value);
    if s.len() == 0 {
        assert(s2[0] == EntryV { kind, id, value });
        assert(s2.drop_first() =~= Seq::<EntryV>::empty());
        assert(!has_key(s2.drop_first(), k2, id2));
    } else if matches_key(s[0], kind, id) {
        assert(s2[0] == EntryV { kind, id, value });
        assert(s2.drop_first() =~= s.drop_first());
        assert(has_key(s2, kind, id));
    } else {
        assert(s2[0] == s[0]);
        assert(s2.drop_first() =~= spec_insert(s.drop_first(), kind, id, value));
        lemma_insert_has(s.drop_first(), kind, id, value, k2, id2);
        assert(has_key(s2, kind, id));
    }
}

/// One write of the consensus log, as applied to the catalog.
pub struct LogWrite {
    pub kind: Kind,
    pub id: u128,
    pub value: Vec<u8>,
}

/// The applied state after a sequence of log writes.
pub open spec fn apply_log(s: Seq<EntryV>, log: Seq<EntryV>) -> Seq<EntryV>
    decreases log.len(),
{
    if log.len() == 0 {
        s
    } else {
        apply_log(spec_insert(s, log[0].kind, log[0].id, log[0].value), log.drop_first())
    }
}

/// Applies one committed log write to the local state.
pub fn apply(catalog: &mut Catalog, w: LogWrite)
    ensures
        final(catalog)@ == spec_insert(old(catalog)@, w.kind, w.id, w.value@),
{
    catalog.insert(w.kind, w.id, w.value);
}

/// Replicas agree: two nodes that start from equal applied states and apply
/// the same committed writes in the same order end with equal applied
/// states, so a read of any key returns the same record on both.
pub proof fn lemma_replicas_agree(s1: Seq<EntryV>, s2: Seq<EntryV>, log: Seq<EntryV>,
    kind: Kind, id: u128)
    requires
        s1 == s2,
    ensures
        apply_log(s1, log) == apply_log(s2, log),
        find_value(apply_log(s1, log), kind, id) == find_value(apply_log(s2, log), kind, id),
{
}

} // verus!
