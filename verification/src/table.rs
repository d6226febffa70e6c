//! An id-keyed record store, the arena that every primitive persists its
//! records in.  Entries are kept in strictly increasing key order, which
//! gives O(log n)-free but order-faithful listing: ascending-key iteration
//! and exclusive-cursor pagination behave exactly like a range scan over a
//! key-value namespace.
//!
//! The store is seen two ways in specifications: as the ordered sequence of
//! `(key, record)` entries (`@`), and as the finite map from key to record
//! (`as_map()`).

use vstd::prelude::*;

verus! {

/// The map held by an entry sequence: later entries shadow earlier ones,
/// though a well-formed table never has two entries with one key.
pub open spec fn seq_to_map<V>(s: Seq<(u64, V)>) -> Map<u64, V>
    decreases s.len(),
{
    if s.len() == 0 {
        Map::empty()
    } else {
        seq_to_map(s.drop_last()).insert(s.last().0, s.last().1)
    }
}

/// Entry keys are pairwise distinct.
pub open spec fn keys_distinct<V>(s: Seq<(u64, V)>) -> bool {
    forall|i: int, j: int| 0 <= i < j < s.len() ==> s[i].0 != s[j].0
}

proof fn lemma_map_props<V>(s: Seq<(u64, V)>)
    requires
        keys_distinct(s),
    ensures
        forall|id: u64| #[trigger] seq_to_map(s).contains_key(id)
            <==> exists|i: int| 0 <= i < s.len() && s[i].0 == id,
        forall|i: int| 0 <= i < s.len() ==> #[trigger] seq_to_map(s)[s[i].0] == s[i].1,
    decreases s.len(),
{
    if s.len() > 0 {
        let t = s.drop_last();
        lemma_map_props(t);
        assert forall|id: u64| #[trigger] seq_to_map(s).contains_key(id)
            implies exists|i: int| 0 <= i < s.len() && s[i].0 == id by {
            if id == s.last().0 {
                assert(s[s.len() - 1].0 == id);
            } else {
                assert(seq_to_map(t).contains_key(id));
                assert(exists|i: int| 0 <= i < t.len() && t[i].0 == id);
                let i = choose|i: int| 0 <= i < t.len() && t[i].0 == id;
                assert(s[i].0 == id);
            }
        }
        assert forall|id: u64| (exists|i: int| 0 <= i < s.len() && s[i].0 == id)
            implies #[trigger] seq_to_map(s).contains_key(id) by {
            let i = choose|i: int| 0 <= i < s.len() && s[i].0 == id;
            if i < s.len() - 1 {
                assert(t[i].0 == id);
                assert(seq_to_map(t).contains_key(id));
            } else {
                assert(id == s.last().0);
            }
        }
        assert forall|i: int| 0 <= i < s.len()
            implies #[trigger] seq_to_map(s)[s[i].0] == s[i].1 by {
            if i < s.len() - 1 {
                assert(t[i].0 == s[i].0);
                assert(seq_to_map(t)[t[i].0] == t[i].1);
                assert(s[i].0 != s.last().0);
            }
        }
    }
}

proof fn lemma_map_update<V>(s: Seq<(u64, V)>, i: int, v: V)
    requires
        keys_distinct(s),
        0 <= i < s.len(),
    ensures
        seq_to_map(s.update(i, (s[i].0, v))) == seq_to_map(s).insert(s[i].0, v),
    decreases s.len(),
{
    let u = s.update(i, (s[i].0, v));
    if i == s.len() - 1 {
        assert(u.drop_last() =~= s.drop_last());
        assert(seq_to_map(u) =~= seq_to_map(s).insert(s[i].0, v));
    } else {
        let t = s.drop_last();
        assert(u.drop_last() =~= t.update(i, (t[i].0, v)));
        lemma_map_update(t, i, v);
        assert(u.last() == s.last());
        assert(s[i].0 != s.last().0);
        assert(seq_to_map(u) =~= seq_to_map(s).insert(s[i].0, v));
    }
}

proof fn lemma_map_insert<V>(s: Seq<(u64, V)>, p: int, id: u64, v: V)
    requires
        keys_distinct(s),
        0 <= p <= s.len(),
        forall|i: int| 0 <= i < s.len() ==> s[i].0 != id,
    ensures
        seq_to_map(s.insert(p, (id, v))) == seq_to_map(s).insert(id, v),
    decreases s.len(),
{
    let u = s.insert(p, (id, v));
    if p == s.len() {
        assert(u.drop_last() =~= s);
        assert(u.last() == (id, v));
    } else {
        let t = s.drop_last();
        assert(u.drop_last() =~= t.insert(p, (id, v)));
        lemma_map_insert(t, p, id, v);
        assert(u.last() == s.last());
        assert(s.last().0 != id);
        assert(seq_to_map(u) =~= seq_to_map(s).insert(id, v));
    }
}

proof fn lemma_map_remove<V>(s: Seq<(u64, V)>, i: int)
    requires
        keys_distinct(s),
        0 <= i < s.len(),
    ensures
        seq_to_map(s.remove(i)) == seq_to_map(s).remove(s[i].0),
    decreases s.len(),
{
    let u = s.remove(i);
    let t = s.drop_last();
    lemma_map_props(s);
    if i == s.len() - 1 {
        assert(u =~= t);
        lemma_map_props(t);
        assert(!seq_to_map(t).contains_key(s[i].0));
        assert(seq_to_map(u) =~= seq_to_map(s).remove(s[i].0));
    } else {
        assert(u.drop_last() =~= t.remove(i));
        lemma_map_remove(t, i);
        assert(u.last() == s.last());
        assert(t[i].0 == s[i].0);
        assert(s[i].0 != s.last().0);
        assert(seq_to_map(u) =~= seq_to_map(s).remove(s[i].0));
    }
}

/// An id-keyed record store with entries in strictly increasing key order.
pub struct Table<V> {
    entries: Vec<(u64, V)>,
}

impl<V> View for Table<V> {
    type V = Seq<(u64, V)>;

    closed spec fn view(&self) -> Seq<(u64, V)> {
        self.entries@
    }
}

impl<V> Table<V> {
    /// Entries stand in strictly increasing key order.
    pub open spec fn wf(&self) -> bool {
        forall|i: int, j: int| 0 <= i < j < self@.len() ==> self@[i].0 < self@[j].0
    }

    /// The store seen as a finite map from key to record.
    pub open spec fn as_map(&self) -> Map<u64, V> {
        seq_to_map(self@)
    }

    /// A record is stored under `id`.
    pub open spec fn spec_contains(&self, id: u64) -> bool {
        exists|i: int| 0 <= i < self@.len() && self@[i].0 == id
    }

    /// The stored keys, in ascending order.
    pub open spec fn spec_ids(&self) -> Seq<u64> {
        self@.map_values(|e: (u64, V)| e.0)
    }

    proof fn lemma_distinct(&self)
        requires
            self.wf(),
        ensures
            keys_distinct(self@),
    {
    }

    /// A well-formed table's map view agrees with its entry sequence.
    pub proof fn lemma_view_map(&self)
        requires
            self.wf(),
        ensures
            forall|id: u64| #[trigger] self.as_map().contains_key(id) <==> self.spec_contains(id),
            forall|i: int| 0 <= i < self@.len()
                ==> #[trigger] self.as_map()[self@[i].0] == self@[i].1,
    {
        lemma_map_props(self@);
    }

    pub fn new() -> (t: Table<V>)
        ensures
            t@ == Seq::<(u64, V)>::empty(),
            t.as_map() == Map::<u64, V>::empty(),
            t.wf(),
    {
        Table { entries: Vec::new() }
    }

    pub fn len(&self) -> (n: usize)
        ensures
            n == self@.len(),
    {
        self.entries.len()
    }

    /// The entry at position `i` of the ascending-key order.
    pub fn entry_at(&self, i: usize) -> (e: &(u64, V))
        requires
            i < self@.len(),
        ensures
            *e == self@[i as int],
    {
        &self.entries[i]
    }

    fn find_index(&self, id: u64) -> (r: Option<usize>)
        ensures
            match r {
                Some(i) => i < self@.len() && self@[i as int].0 == id,
                None => forall|i: int| 0 <= i < self@.len() ==> self@[i].0 != id,
            },
    {
        let n = self.entries.len();
        let mut i: usize = 0;
        while i < n
            invariant
                i <= n,
                n == self@.len(),
                forall|j: int| 0 <= j < i ==> self@[j].0 != id,
            decreases n - i,
        {
            if self.entries[i].0 == id {
                return Some(i);
            }
            i = i + 1;
        }
        None
    }

    /// Loads the record stored under `id`, if any.
    pub fn get(&self, id: u64) -> (r: Option<&V>)
        requires
            self.wf(),
        ensures
            r is Some <==> self.as_map().contains_key(id),
            r is Some <==> self.spec_contains(id),
            r matches Some(v) ==> *v == self.as_map()[id],
    {
        proof {
            self.lemma_view_map();
        }
        match self.find_index(id) {
            Some(i) => Some(&self.entries[i].1),
            None => None,
        }
    }

    /// Stores `v` under `id`, replacing any record already there.
    pub fn save(&mut self, id: u64, v: V)
        requires
            old(self).wf(),
        ensures
            final(self).wf(),
            final(self).as_map() == old(self).as_map().insert(id, v),
            forall|k: u64| #[trigger] final(self).spec_contains(k)
                <==> old(self).spec_contains(k) || k == id,
            final(self)@.len() == old(self)@.len()
                + (if old(self).spec_contains(id) { 0int } else { 1int }),
    {
        proof {
            self.lemma_distinct();
        }
        let n = self.entries.len();
        let mut i: usize = 0;
        while i < n && self.entries[i].0 < id
            invariant
                i <= n,
                n == self@.len(),
                forall|j: int| 0 <= j < i ==> self@[j].0 < id,
            decreases n - i,
        {
            i = i + 1;
        }
        let ghost s = self@;
        if i < n && self.entries[i].0 == id {
            self.entries.remove(i);
            self.entries.insert(i, (id, v));
            proof {
                assert(self@ =~= s.update(i as int, (id, v)));
                lemma_map_update(s, i as int, v);
                assert forall|k: u64| #[trigger] self.spec_contains(k)
                    implies old(self).spec_contains(k) || k == id by {
                    let x = choose|x: int| 0 <= x < self@.len() && self@[x].0 == k;
                    assert(old(self)@[x].0 == k || k == id);
                }
                assert forall|k: u64| old(self).spec_contains(k) || k == id
                    implies #[trigger] self.spec_contains(k) by {
                    if k == id {
                        assert(self@[i as int].0 == id);
                    } else {
                        let x = choose|x: int| 0 <= x < s.len() && s[x].0 == k;
                        assert(self@[x].0 == k);
                    }
                }
                assert(old(self).spec_contains(id));
            }
        } else {
            self.entries.insert(i, (id, v));
            proof {
                assert(forall|j: int| i <= j < s.len() ==> id <= #[trigger] s[j].0);
                assert(forall|j: int| 0 <= j < s.len() ==> s[j].0 != id);
                lemma_map_insert(s, i as int, id, v);
                assert forall|x: int, y: int| 0 <= x < y < self@.len()
                    implies self@[x].0 < self@[y].0 by {
                    if x < i && y > i {
                        assert(self@[x] == s[x]);
                        assert(self@[y] == s[y - 1]);
                    }
                }
                assert forall|k: u64| #[trigger] self.spec_contains(k)
                    implies old(self).spec_contains(k) || k == id by {
                    let x = choose|x: int| 0 <= x < self@.len() && self@[x].0 == k;
                    if x < i {
                        assert(old(self)@[x].0 == k);
                    } else if x > i {
                        assert(old(self)@[x - 1].0 == k);
                    }
                }
                assert(self@[i as int].0 == id);
                assert forall|k: u64| old(self).spec_contains(k)
                    implies #[trigger] self.spec_contains(k) by {
                    let x = choose|x: int| 0 <= x < s.len() && s[x].0 == k;
                    if x < i {
                        assert(self@[x].0 == k);
                    } else {
                        assert(self@[x + 1].0 == k);
                    }
                }
                assert(!old(self).spec_contains(id));
            }
        }
    }

    /// Deletes the record stored under `id`; reports whether one was there.
    pub fn remove(&mut self, id: u64) -> (found: bool)
        requires
            old(self).wf(),
        ensures
            final(self).wf(),
            found == old(self).spec_contains(id),
            final(self).as_map() == old(self).as_map().remove(id),
            forall|k: u64| #[trigger] final(self).spec_contains(k)
                <==> old(self).spec_contains(k) && k != id,
            final(self)@.len() == old(self)@.len() - (if found { 1int } else { 0int }),
    {
        proof {
            self.lemma_distinct();
            self.lemma_view_map();
        }
        let ghost s = self@;
        match self.find_index(id) {
            Some(i) => {
                self.entries.remove(i);
                proof {
                    lemma_map_remove(s, i as int);
                    assert forall|k: u64| #[trigger] self.spec_contains(k)
                        implies old(self).spec_contains(k) && k != id by {
                        let x = choose|x: int| 0 <= x < self@.len() && self@[x].0 == k;
                        if x < i {
                            assert(old(self)@[x].0 == k);
                        } else {
                            assert(old(self)@[x + 1].0 == k);
                        }
                    }
                    assert forall|k: u64| old(self).spec_contains(k) && k != id
                        implies #[trigger] self.spec_contains(k) by {
                        let x = choose|x: int| 0 <= x < s.len() && s[x].0 == k;
                        if x < i {
                            assert(self@[x].0 == k);
                        } else {
                            assert(x != i);
                            assert(self@[x - 1].0 == k);
                        }
                    }
                }
                true
            },
            None => {
                proof {
                    assert(self.as_map() =~= old(self).as_map().remove(id));
                }
                false
            },
        }
    }
}

} // verus!
