//! The peer client cache: outbound connections to other cluster members,
//! keyed by node identifier.
//!
//! The connection value itself is whatever transport the host wires in; the
//! cache only promises how entries come and go. An entry is inserted after
//! a successful dial and dropped on the first error seen through it; a
//! lookup returns the cached entry exactly when one is present.

use vstd::prelude::*;

verus! {

/// The value under a key, scanning in insertion order.
pub open spec fn cache_find<C>(s: Seq<(u128, C)>, id: u128) -> Option<C>
    decreases s.len(),
{
    if s.len() == 0 {
        None
    } else if s[0].0 == id {
        Some(s[0].1)
    } else {
        cache_find(s.drop_first(), id)
    }
}

/// Each peer holds at most one cached client.
pub open spec fn cache_wf<C>(s: Seq<(u128, C)>) -> bool {
    forall|i: int, j: int| 0 <= i < j < s.len()
        ==> (#[trigger] s[i]).0 != (#[trigger] s[j]).0
}

/// A cache of outbound peer clients.
pub struct PeerCache<C> {
    entries: Vec<(u128, C)>,
}

impl<C> View for PeerCache<C> {
    type V = Seq<(u128, C)>;

    closed spec fn view(&self) -> Seq<(u128, C)> {
        self.entries@
    }
}

impl<C> PeerCache<C> {
    /// An empty cache; a node starts with no outbound connections.
    pub fn new() -> (r: PeerCache<C>)
        ensures
            r@ == Seq::<(u128, C)>::empty(),
            cache_wf(r@),
    {
        let r = PeerCache { entries: Vec::new() };
        proof {
            assert(r@ =~= Seq::<(u128, C)>::empty());
        }
        r
    }

    /// Returns the cached client for a peer, if one is present.
    pub fn lookup(&self, id: u128) -> (r: Option<&C>)
        ensures
            match r {
                Some(c) => cache_find(self@, id) == Some(*c),
                None => cache_find(self@, id) is None,
            },
    {
        let n = self.entries.len();
        let mut i: usize = 0;
        proof {
            assert(self@.skip(0) =~= self@);
        }
        while i < n
            invariant
                n == self@.len(),
                i <= n,
                cache_find(self@, id) == cache_find(self@.skip(i as int), id),
            decreases n - i,
        {
            proof {
                assert(self@.skip(i as int)[0] == self@[i as int]);
                assert(self@.skip(i as int).drop_first() =~= self@.skip(i + 1));
            }
            if self.entries[i].0 == id {
                return Some(&self.entries[i].1);
            }
            i = i + 1;
        }
        proof {
            assert(self@.skip(n as int) =~= Seq::<(u128, C)>::empty());
        }
        None
    }

    /// Records the client a successful dial produced. A concurrent dial may
    /// have inserted first; the later insert wins, as a lost race costs
    /// only the extra connection.
    pub fn insert(&mut self, id: u128, client: C)
        requires
            cache_wf(old(self)@),
        ensures
            cache_wf(final(self)@),
            cache_find(final(self)@, id) == Some(client),
            forall|other: u128| other != id
                ==> #[trigger] cache_find(final(self)@, other)
                    == cache_find(old(self)@, other),
    {
        let n = self.entries.len();
        let mut i: usize = 0;
        while i < n
            invariant
                n == self@.len(),
                i <= n,
                self@ == old(self)@,
                cache_wf(self@),
                forall|j: int| 0 <= j < i ==> (#[trigger] self@[j]).0 != id,
            decreases n - i,
        {
            if self.entries[i].0 == id {
                self.entries[i] = (id, client);
                proof {
                    lemma_cache_update(old(self)@, i as int, id, client);
                }
                return;
            }
            i = i + 1;
        }
        self.entries.push((id, client));
        proof {
            assert(self@ =~= old(self)@.push((id, client)));
            lemma_cache_push(old(self)@, id, client);
        }
    }

    /// Forgets a peer's client; called on any error observed through it.
    pub fn drop_client(&mut self, id: u128)
        requires
            cache_wf(old(self)@),
        ensures
            cache_wf(final(self)@),
            cache_find(final(self)@, id) is None,
            forall|other: u128| other != id
                ==> #[trigger] cache_find(final(self)@, other)
                    == cache_find(old(self)@, other),
    {
        let n = self.entries.len();
        let mut i: usize = 0;
        proof {
            assert(self@.skip(0) =~= self@);
        }
        while i < n
            invariant
                n == self@.len(),
                i <= n,
                self@ == old(self)@,
                cache_wf(self@),
                forall|j: int| 0 <= j < i ==> (#[trigger] self@[j]).0 != id,
            decreases n - i,
        {
            if self.entries[i].0 == id {
                self.entries.remove(i);
                proof {
                    lemma_cache_remove(old(self)@, i as int, id);
                }
                return;
            }
            i = i + 1;
        }
        proof {
            lemma_cache_absent(self@, id);
        }
    }
}

/// A key that matches no entry is not found.
proof fn lemma_cache_absent<C>(s: Seq<(u128, C)>, id: u128)
    requires
        forall|j: int| 0 <= j < s.len() ==> (#[trigger] s[j]).0 != id,
    ensures
        cache_find(s, id) is None,
    decreases s.len(),
{
    if s.len() > 0 {
        assert(forall|j: int| 0 <= j < s.drop_first().len()
            ==> (#[trigger] s.drop_first()[j]).0 != id);
        lemma_cache_absent(s.drop_first(), id);
    }
}

proof fn lemma_cache_update<C>(s: Seq<(u128, C)>, i: int, id: u128, client: C)
    requires
        0 <= i < s.len(),
        s[i].0 == id,
        cache_wf(s),
        forall|j: int| 0 <= j < i ==> (#[trigger] s[j]).0 != id,
    ensures
        cache_wf(s.update(i, (id, client))),
        cache_find(s.update(i, (id, client)), id) == Some(client),
        forall|other: u128| other != id
            ==> #[trigger] cache_find(s.update(i, (id, client)), other)
                == cache_find(s, other),
    decreases s.len(),
{
    let s2 = s.update(i, (id, client));
    assert(cache_wf(s2)) by {
        assert(forall|a: int, b: int| 0 <= a < b < s2.len()
            ==> (#[trigger] s2[a]).0 != (#[trigger] s2[b]).0) by {
            assert(forall|a: int| 0 <= a < s2.len() && a != i
                ==> (#[trigger] s2[a]).0 == s[a].0);
        }
    }
    if i == 0 {
        assert(s2[0] == (id, client));
        assert(s2.drop_first() =~= s.drop_first());
        assert forall|other: u128| other != id
            implies #[trigger] cache_find(s2, other) == cache_find(s, other) by {
            assert(cache_find(s2, other) == cache_find(s2.drop_first(), other));
            assert(cache_find(s, other) == cache_find(s.drop_first(), other));
        }
    } else {
        assert(s2[0] == s[0]);
        assert(s[0].0 != id);
        assert(s2.drop_first() =~= s.drop_first().update(i - 1, (id, client)));
        assert(s.drop_first()[i - 1] == s[i]);
        assert(forall|j: int| 0 <= j < i - 1 ==> (#[trigger] s.drop_first()[j]).0 != id);
        assert(cache_wf(s.drop_first())) by {
            assert(forall|a: int, b: int| 0 <= a < b < s.drop_first().len()
                ==> (#[trigger] s.drop_first()[a]).0 != (#[trigger] s.drop_first()[b]).0);
        }
        lemma_cache_update(s.drop_first(), i - 1, id, client);
        assert(cache_find(s2, id) == cache_find(s2.drop_first(), id));
        assert forall|other: u128| other != id
            implies #[trigger] cache_find(s2, other) == cache_find(s, other) by {
            if s[0].0 == other {
            } else {
                assert(cache_find(s2, other) == cache_find(s2.drop_first(), other));
                assert(cache_find(s, other) == cache_find(s.drop_first(), other));
            }
        }
    }
}

proof fn lemma_cache_push<C>(s: Seq<(u128, C)>, id: u128, client: C)
    requires
        cache_wf(s),
        forall|j: int| 0 <= j < s.len() ==> (#[trigger] s[j]).0 != id,
    ensures
        cache_wf(s.push((id, client))),
        cache_find(s.push((id, client)), id) == Some(client),
        forall|other: u128| other != id
            ==> #[trigger] cache_find(s.push((id, client)), other)
                == cache_find(s, other),
    decreases s.len(),
{
    let s2 = s.push((id, client));
    assert(cache_wf(s2)) by {
        assert(forall|a: int| 0 <= a < s.len() ==> (#[trigger] s2[a]) == s[a]);
        assert(s2[s.len() as int].0 == id);
    }
    if s.len() == 0 {
        assert(s2[0] == (id, client));
        assert(s2.drop_first() =~= Seq::<(u128, C)>::empty());
        assert forall|other: u128| other != id
            implies #[trigger] cache_find(s2, other) == cache_find(s, other) by {
            assert(cache_find(s2, other) == cache_find(s2.drop_first(), other));
        }
    } else {
        assert(s2[0] == s[0]);
        assert(s[0].0 != id);
        assert(s2.drop_first() =~= s.drop_first().push((id, client)));
        assert(forall|j: int| 0 <= j < s.drop_first().len()
            ==> (#[trigger] s.drop_first()[j]).0 != id);
        assert(cache_wf(s.drop_first())) by {
            assert(forall|a: int, b: int| 0 <= a < b < s.drop_first().len()
                ==> (#[trigger] s.drop_first()[a]).0 != (#[trigger] s.drop_first()[b]).0);
        }
        lemma_cache_push(s.drop_first(), id, client);
        assert forall|other: u128| other != id
            implies #[trigger] cache_find(s2, other) == cache_find(s, other) by {
            if s[0].0 == other {
            } else {
                assert(cache_find(s2, other) == cache_find(s2.drop_first(), other));
            }
        }
    }
}

proof fn lemma_cache_remove<C>(s: Seq<(u128, C)>, i: int, id: u128)
    requires
        0 <= i < s.len(),
        s[i].0 == id,
        cache_wf(s),
        forall|j: int| 0 <= j < i ==> (#[trigger] s[j]).0 != id,
    ensures
        cache_wf(s.remove(i)),
        cache_find(s.remove(i), id) is None,
        forall|other: u128| other != id
            ==> #[trigger] cache_find(s.remove(i), other) == cache_find(s, other),
    decreases s.len(),
{
    let s2 = s.remove(i);
    assert(cache_wf(s2)) by {
        assert(forall|a: int| 0 <= a < i ==> (#[trigger] s2[a]) == s[a]);
        assert(forall|a: int| i <= a < s2.len() ==> (#[trigger] s2[a]) == s[a + 1]);
    }
    if i == 0 {
        assert(s2 =~= s.drop_first());
        assert(forall|j: int| 0 <= j < s2.len() ==> (#[trigger] s2[j]).0 != id) by {
            assert(forall|j: int| 0 <= j < s2.len() ==> s2[j] == s[j + 1]);
        }
        lemma_cache_absent(s2, id);
        assert forall|other: u128| other != id
            implies #[trigger] cache_find(s2, other) == cache_find(s, other) by {
            assert(s[0].0 == id);
            assert(cache_find(s, other) == cache_find(s.drop_first(), other));
        }
    } else {
        assert(s2[0] == s[0]);
        assert(s[0].0 != id);
        assert(s2.drop_first() =~= s.drop_first().remove(i - 1));
        assert(s.drop_first()[i - 1] == s[i]);
        assert(forall|j: int| 0 <= j < i - 1 ==> (#[trigger] s.drop_first()[j]).0 != id);
        assert(cache_wf(s.drop_first())) by {
            assert(forall|a: int, b: int| 0 <= a < b < s.drop_first().len()
                ==> (#[trigger] s.drop_first()[a]).0 != (#[trigger] s.drop_first()[b]).0);
        }
        lemma_cache_remove(s.drop_first(), i - 1, id);
        assert(cache_find(s2, id) == cache_find(s2.drop_first(), id));
        assert forall|other: u128| other != id
            implies #[trigger] cache_find(s2, other) == cache_find(s, other) by {
            if s[0].0 == other {
            } else {
                assert(cache_find(s2, other) == cache_find(s2.drop_first(), other));
                assert(cache_find(s, other) == cache_find(s.drop_first(), other));
            }
        }
    }
}

} // verus!
